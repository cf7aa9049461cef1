use vstd::prelude::*;

use crate::alert_store::{filtered_rows, row_vals, spec_page_size, AlertStore, UserAlertRow};
use crate::events::ProcessAlertSourceRequeust;
use crate::model::{
    AlertFilter, AlertNotificationData, AlertStatus, NotificationDataView, ResponseTime,
    StoreError,
};
use crate::notification_store::{find_by_client, JwtStore, NotificationRow, NotificationStore};
use crate::strings::{parse_i32, parse_i32_spec};

verus! {

// ---------------------------------------------------------------------------
// Dispatch plans
// ---------------------------------------------------------------------------
/// Everything the dispatcher needs for one webhook send: the payload, the
/// rule it came from, its owner and tenant, and the event id.
#[derive(Clone, Debug, PartialEq)]
pub struct DispatchPlan {
    pub notification: AlertNotificationData,
    pub alert_id: u64,
    pub user_id: String,
    pub client_id: String,
    pub alert_source_id: String,
}

/// The view of a dispatch plan.
pub struct DispatchPlanView {
    pub notification: NotificationDataView,
    pub alert_id: u64,
    pub user_id: Seq<char>,
    pub client_id: Seq<char>,
    pub alert_source_id: Seq<char>,
}

impl View for DispatchPlan {
    type V = DispatchPlanView;

    open spec fn view(&self) -> DispatchPlanView {
        DispatchPlanView {
            notification: self.notification@,
            alert_id: self.alert_id,
            user_id: self.user_id@,
            client_id: self.client_id@,
            alert_source_id: self.alert_source_id@,
        }
    }
}

/// The views of a plan list.
pub open spec fn plans_view(v: Seq<DispatchPlan>) -> Seq<DispatchPlanView> {
    v.map_values(|p: DispatchPlan| p@)
}

/// What one rule contributes for one event: nothing when the rule is
/// disabled or does not match, otherwise one dispatch plan.
pub open spec fn plan_of(row: UserAlertRow, ev: ProcessAlertSourceRequeust) -> Option<
    DispatchPlanView,
> {
    if row.status is Disabled {
        None
    } else {
        match row.alert.filter_spec(ev) {
            Ok(v) => Some(
                DispatchPlanView {
                    notification: v,
                    alert_id: row.id,
                    user_id: row.user_id@,
                    client_id: row.client_id@,
                    alert_source_id: ev.event_id_chars(),
                },
            ),
            Err(_) => None,
        }
    }
}

/// The plans a row sequence contributes, in row order.
pub open spec fn plans_of(rows: Seq<UserAlertRow>, ev: ProcessAlertSourceRequeust) -> Seq<
    DispatchPlanView,
>
    decreases rows.len(),
{
    if rows.len() == 0 {
        Seq::empty()
    } else {
        plans_of(rows.drop_last(), ev) + (match plan_of(rows.last(), ev) {
            Some(p) => seq![p],
            None => Seq::empty(),
        })
    }
}

/// Evaluates one rule against one event: a disabled rule and a non-match are
/// silent drops; a match yields the dispatch plan.
pub fn process_alert_for_alert_source(
    alert_source: &ProcessAlertSourceRequeust,
    alert: &UserAlertRow,
) -> (r: Option<DispatchPlan>)
    requires
        alert_source.wf(),
    ensures
        match r {
            Some(p) => plan_of(*alert, *alert_source) == Some(p@),
            None => plan_of(*alert, *alert_source) is None,
        },
{
    if let AlertStatus::Disabled = alert.status {
        return None;
    }
    let notification = match alert.alert.filter(alert_source) {
        Ok(n) => n,
        Err(_) => {
            return None;
        },
    };
    let ctx = alert_source.ctx();
    Some(
        DispatchPlan {
            notification,
            alert_id: alert.id,
            user_id: alert.user_id.clone(),
            client_id: alert.client_id.clone(),
            alert_source_id: ctx.id,
        },
    )
}

/// Plans over two row batches concatenate.
proof fn lemma_plans_concat(
    a: Seq<UserAlertRow>,
    b: Seq<UserAlertRow>,
    ev: ProcessAlertSourceRequeust,
)
    ensures
        plans_of(a + b, ev) == plans_of(a, ev) + plans_of(b, ev),
    decreases b.len(),
{
    if b.len() == 0 {
        assert(a + b =~= a);
        assert(plans_of(a, ev) + plans_of(b, ev) =~= plans_of(a, ev));
    } else {
        lemma_plans_concat(a, b.drop_last(), ev);
        assert((a + b).drop_last() =~= a + b.drop_last());
        assert((a + b).last() == b.last());
        assert(plans_of(a, ev) + plans_of(b.drop_last(), ev) + (match plan_of(b.last(), ev) {
            Some(p) => seq![p],
            None => Seq::<DispatchPlanView>::empty(),
        }) =~= plans_of(a, ev) + plans_of(b, ev));
    }
}

/// Fans one event out to every stored rule of its chain and class: pages
/// through the store twenty rules at a time until an empty page, evaluates
/// each rule, and collects the dispatch plans of the matches. A chain id
/// that is not decimal text is refused.
pub fn process_alert_source(
    alerts: &AlertStore,
    alert_source: &ProcessAlertSourceRequeust,
) -> (r: Result<Vec<DispatchPlan>, StoreError>)
    requires
        alert_source.wf(),
    ensures
        match r {
            Ok(plans) => {
                &&& parse_i32_spec(alert_source.chain_id_chars()) matches Some(cid)
                &&& plans_view(plans@) == plans_of(
                    filtered_rows(
                        alerts.rows@,
                        AlertFilter {
                            id: None,
                            user_id: None,
                            chain_id: Some(parse_i32_spec(alert_source.chain_id_chars()).unwrap()),
                            alert_source: Some(alert_source.source_type_spec()),
                        },
                    ),
                    *alert_source,
                )
            },
            Err(e) => {
                &&& e == StoreError::InvalidInput
                &&& parse_i32_spec(alert_source.chain_id_chars()) is None
            },
        },
{
    let ctx = alert_source.ctx();
    let chain_id = match parse_i32(ctx.chain_id.as_str()) {
        Some(c) => c,
        None => {
            return Err(StoreError::InvalidInput);
        },
    };
    let filter = AlertFilter {
        id: None,
        user_id: None,
        chain_id: Some(chain_id),
        alert_source: Some(ctx.source_type),
    };
    let ghost flt = filtered_rows(alerts.rows@, filter);
    let mut plans: Vec<DispatchPlan> = Vec::new();
    let mut page: u64 = 0;
    let n = alerts.rows.len();
    proof {
        assert(flt.take(0) =~= Seq::<UserAlertRow>::empty());
        assert(flt.len() <= n);
    }
    loop
        invariant_except_break
            alert_source.wf(),
            flt == filtered_rows(alerts.rows@, filter),
            flt.len() <= usize::MAX,
            spec_page_size() * page <= flt.len() + spec_page_size(),
            plans_view(plans@) =~= plans_of(
                flt.take(
                    if spec_page_size() * page <= flt.len() {
                        spec_page_size() * page
                    } else {
                        flt.len() as int
                    },
                ),
                *alert_source,
            ),
        ensures
            plans_view(plans@) =~= plans_of(flt, *alert_source),
        decreases flt.len() + spec_page_size() - spec_page_size() * page,
    {
        let batch = alerts.get_alerts(&filter, Some(page));
        let ghost start = if spec_page_size() * page <= flt.len() {
            spec_page_size() * page
        } else {
            flt.len() as int
        };
        let ghost end = if spec_page_size() * (page + 1) <= flt.len() {
            spec_page_size() * (page + 1)
        } else {
            flt.len() as int
        };
        if batch.len() == 0 {
            proof {
                assert(row_vals(batch@).len() == 0);
                assert(end == start);
                assert(spec_page_size() * page >= flt.len());
                assert(flt.take(start) =~= flt);
            }
            break;
        }
        proof {
            assert(row_vals(batch@).len() == end - start);
            assert(start < end);
            assert(spec_page_size() * page < flt.len());
        }
        let mut j: usize = 0;
        while j < batch.len()
            invariant
                alert_source.wf(),
                j <= batch@.len(),
                plans_view(plans@) =~= plans_of(flt.take(start), *alert_source) + plans_of(
                    row_vals(batch@).take(j as int),
                    *alert_source,
                ),
            decreases batch@.len() - j,
        {
            let ghost prev = row_vals(batch@).take(j as int);
            proof {
                assert(row_vals(batch@).take(j + 1).drop_last() =~= prev);
                assert(row_vals(batch@).take(j + 1).last() == row_vals(batch@)[j as int]);
                assert(row_vals(batch@)[j as int] == *batch@[j as int]);
            }
            match process_alert_for_alert_source(alert_source, batch[j]) {
                Some(p) => {
                    let ghost pre = plans_view(plans@);
                    plans.push(p);
                    proof {
                        assert(plans_view(plans@) =~= pre.push(p@));
                        assert(plans_of(row_vals(batch@).take(j + 1), *alert_source) =~= plans_of(
                            prev,
                            *alert_source,
                        ) + seq![p@]);
                    }
                },
                None => {
                    proof {
                        assert(plans_of(row_vals(batch@).take(j + 1), *alert_source) =~= plans_of(
                            prev,
                            *alert_source,
                        ));
                    }
                },
            }
            j += 1;
        }
        proof {
            assert(row_vals(batch@).take(batch@.len() as int) =~= row_vals(batch@));
            assert(row_vals(batch@) =~= flt.subrange(start, end));
            assert(flt.take(start) + flt.subrange(start, end) =~= flt.take(end));
            lemma_plans_concat(flt.take(start), flt.subrange(start, end), *alert_source);
            assert(plans_view(plans@) =~= plans_of(flt.take(end), *alert_source));
            assert(end == if spec_page_size() * (page + 1) <= flt.len() {
                spec_page_size() * (page + 1)
            } else {
                flt.len() as int
            });
        }
        page += 1;
    }
    proof {
        assert(plans_view(plans@) == plans_of(flt, *alert_source));
    }
    Ok(plans)
}

// ---------------------------------------------------------------------------
// Recording dispatch outcomes
// ---------------------------------------------------------------------------
/// What came of one webhook send: a delivery with its measured response
/// time, or a transport failure.
#[derive(Clone, Copy, Debug, PartialEq, Eq, Structural)]
pub enum DispatchOutcome {
    Delivered(ResponseTime),
    TransportError,
}

/// The number of delivered outcomes.
pub open spec fn delivered_count(outcomes: Seq<DispatchOutcome>) -> nat
    decreases outcomes.len(),
{
    if outcomes.len() == 0 {
        0
    } else {
        delivered_count(outcomes.drop_last()) + (if outcomes.last() is Delivered {
            1nat
        } else {
            0nat
        })
    }
}

/// The notification row one delivered plan leaves behind.
pub open spec fn recorded_row(
    p: DispatchPlan,
    rt: ResponseTime,
    id: int,
    now: u64,
) -> NotificationRow {
    NotificationRow {
        id: id as u64,
        notification: p.notification,
        alert_id: p.alert_id,
        alert_source_id: p.alert_source_id,
        created_at: now,
        updated_at: now,
        deleted_at: None,
        total_response_time: rt.total_response_time,
        num_responses: rt.num_responses,
    }
}

/// The rows a batch of outcomes leaves behind: one per delivered plan, in
/// plan order, with ids handed out in sequence from `first_id`.
pub open spec fn recorded_rows(
    plans: Seq<DispatchPlan>,
    outcomes: Seq<DispatchOutcome>,
    first_id: int,
    now: u64,
) -> Seq<NotificationRow>
    decreases plans.len(),
{
    if plans.len() == 0 || outcomes.len() == 0 {
        Seq::empty()
    } else {
        recorded_rows(plans.drop_last(), outcomes.drop_last(), first_id, now) + (
        match outcomes.last() {
            DispatchOutcome::Delivered(rt) => seq![
                recorded_row(
                    plans.last(),
                    rt,
                    first_id + delivered_count(outcomes.drop_last()),
                    now,
                ),
            ],
            DispatchOutcome::TransportError => Seq::empty(),
        })
    }
}

/// No more deliveries than outcomes.
pub proof fn lemma_delivered_count_le(outcomes: Seq<DispatchOutcome>)
    ensures
        delivered_count(outcomes) <= outcomes.len(),
    decreases outcomes.len(),
{
    if outcomes.len() > 0 {
        lemma_delivered_count_le(outcomes.drop_last());
    }
}

/// Persists one notification row for every delivered plan; failed sends
/// leave no row and stop nothing else.
#[verifier::loop_isolation(false)]
pub fn record_dispatch_outcomes(
    store: &mut NotificationStore,
    plans: Vec<DispatchPlan>,
    outcomes: &Vec<DispatchOutcome>,
    now: u64,
) -> (count: usize)
    requires
        plans@.len() == outcomes@.len(),
        old(store).next_id as int + plans@.len() < u64::MAX,
    ensures
        final(store).rows@ == old(store).rows@ + recorded_rows(
            plans@,
            outcomes@,
            old(store).next_id as int,
            now,
        ),
        final(store).next_id == old(store).next_id as int + delivered_count(outcomes@),
        count == delivered_count(outcomes@),
{
    let ghost orig = plans@;
    let ghost start = old(store).next_id as int;
    let mut plans = plans;
    let mut count: usize = 0;
    let mut i: usize = 0;
    proof {
        assert(orig.take(0) =~= Seq::<DispatchPlan>::empty());
        assert(outcomes@.take(0) =~= Seq::<DispatchOutcome>::empty());
        assert(plans@ =~= orig.skip(0));
        assert(store.rows@ =~= old(store).rows@ + recorded_rows(
            orig.take(0),
            outcomes@.take(0),
            start,
            now,
        ));
    }
    while i < outcomes.len()
        invariant
            i <= outcomes@.len(),
            plans@ =~= orig.skip(i as int),
            count == delivered_count(outcomes@.take(i as int)),
            store.rows@ == old(store).rows@ + recorded_rows(
                orig.take(i as int),
                outcomes@.take(i as int),
                start,
                now,
            ),
            store.next_id == start + delivered_count(outcomes@.take(i as int)),
        decreases outcomes@.len() - i,
    {
        proof {
            lemma_delivered_count_le(outcomes@.take(i as int));
            assert(orig.take(i + 1).drop_last() =~= orig.take(i as int));
            assert(orig.take(i + 1).last() == orig[i as int]);
            assert(outcomes@.take(i + 1).drop_last() =~= outcomes@.take(i as int));
            assert(outcomes@.take(i + 1).last() == outcomes@[i as int]);
            assert(plans@[0] == orig[i as int]);
        }
        let p = plans.remove(0);
        proof {
            assert(plans@ =~= orig.skip(i + 1));
        }
        match outcomes[i] {
            DispatchOutcome::Delivered(rt) => {
                store.insert_notification(
                    p.notification,
                    p.alert_id,
                    p.alert_source_id,
                    rt,
                    now,
                );
                count += 1;
                proof {
                    assert(store.rows@ =~= old(store).rows@ + recorded_rows(
                        orig.take(i + 1),
                        outcomes@.take(i + 1),
                        start,
                        now,
                    ));
                }
            },
            DispatchOutcome::TransportError => {
                proof {
                    assert(store.rows@ =~= old(store).rows@ + recorded_rows(
                        orig.take(i + 1),
                        outcomes@.take(i + 1),
                        start,
                        now,
                    ));
                }
            },
        }
        i += 1;
    }
    proof {
        assert(orig.take(orig.len() as int) =~= orig);
        assert(outcomes@.take(outcomes@.len() as int) =~= outcomes@);
    }
    count
}

// ---------------------------------------------------------------------------
// Laws of the pipeline
// ---------------------------------------------------------------------------
/// A disabled rule never dispatches: when every stored row with a given id
/// is disabled, no plan for any event names that id.
pub proof fn lemma_disabled_never_dispatches(
    rows: Seq<UserAlertRow>,
    ev: ProcessAlertSourceRequeust,
    id: u64,
)
    requires
        forall|i: int|
            0 <= i < rows.len() && (#[trigger] rows[i]).id == id ==> rows[i].status is Disabled,
    ensures
        forall|j: int|
            0 <= j < plans_of(rows, ev).len() ==> (#[trigger] plans_of(rows, ev)[j]).alert_id
                != id,
    decreases rows.len(),
{
    if rows.len() > 0 {
        assert(forall|i: int|
            0 <= i < rows.drop_last().len() && (#[trigger] rows.drop_last()[i]).id == id
                ==> rows.drop_last()[i].status is Disabled);
        lemma_disabled_never_dispatches(rows.drop_last(), ev, id);
        assert(rows[rows.len() - 1].id == id ==> rows.last().status is Disabled);
    }
}

/// As many rows are recorded as plans were delivered.
pub proof fn lemma_recorded_len(
    plans: Seq<DispatchPlan>,
    outcomes: Seq<DispatchOutcome>,
    first_id: int,
    now: u64,
)
    requires
        plans.len() == outcomes.len(),
    ensures
        recorded_rows(plans, outcomes, first_id, now).len() == delivered_count(outcomes),
    decreases plans.len(),
{
    if plans.len() > 0 {
        lemma_recorded_len(plans.drop_last(), outcomes.drop_last(), first_id, now);
    }
}

/// Fan-out isolation: when one send fails in transport and every other is
/// delivered, every other plan's notification row is still persisted.
pub proof fn lemma_fanout_isolation(
    plans: Seq<DispatchPlan>,
    outcomes: Seq<DispatchOutcome>,
    k: int,
    first_id: int,
    now: u64,
)
    requires
        plans.len() == outcomes.len(),
        0 <= k < outcomes.len(),
        outcomes[k] is TransportError,
        forall|i: int| 0 <= i < outcomes.len() && i != k ==> (#[trigger] outcomes[i]) is Delivered,
    ensures
        recorded_rows(plans, outcomes, first_id, now).len() == plans.len() - 1,
{
    lemma_recorded_len(plans, outcomes, first_id, now);
    lemma_delivered_all_but_one(outcomes, k);
}

/// Counting deliveries when exactly one outcome failed.
proof fn lemma_delivered_all_but_one(outcomes: Seq<DispatchOutcome>, k: int)
    requires
        0 <= k < outcomes.len(),
        outcomes[k] is TransportError,
        forall|i: int| 0 <= i < outcomes.len() && i != k ==> (#[trigger] outcomes[i]) is Delivered,
    ensures
        delivered_count(outcomes) == outcomes.len() - 1,
    decreases outcomes.len(),
{
    if k == outcomes.len() - 1 {
        lemma_delivered_all(outcomes.drop_last());
    } else {
        lemma_delivered_all_but_one(outcomes.drop_last(), k);
    }
}

/// Counting deliveries when every outcome succeeded.
proof fn lemma_delivered_all(outcomes: Seq<DispatchOutcome>)
    requires
        forall|i: int| 0 <= i < outcomes.len() ==> (#[trigger] outcomes[i]) is Delivered,
    ensures
        delivered_count(outcomes) == outcomes.len(),
    decreases outcomes.len(),
{
    if outcomes.len() > 0 {
        lemma_delivered_all(outcomes.drop_last());
    }
}

/// Resolves where one dispatch must go: reads the rule back by its id and
/// looks its tenant's webhook endpoint up. A deleted rule or an unregistered
/// tenant leaves the dispatch with nowhere to go.
pub fn resolve_endpoint<'a>(
    alerts: &AlertStore,
    jwts: &'a JwtStore,
    alert_id: u64,
) -> (r: Result<&'a String, StoreError>)
    ensures
        ({
            let rows = filtered_rows(
                alerts.rows@,
                AlertFilter { id: Some(alert_id), user_id: None, chain_id: None, alert_source: None },
            );
            match r {
                Ok(e) => {
                    &&& rows.len() > 0
                    &&& find_by_client(jwts.rows@, rows.first().client_id@) matches Some(row)
                        && e@ == row.webhook_endpoint@
                },
                Err(err) => {
                    &&& err == StoreError::NotFound
                    &&& (rows.len() == 0 || find_by_client(
                        jwts.rows@,
                        rows.first().client_id@,
                    ) is None)
                },
            }
        }),
{
    let rule = match alerts.get_alert_by_id(alert_id) {
        Ok(rule) => rule,
        Err(e) => {
            return Err(e);
        },
    };
    jwts.get_endpoint(&rule.client_id)
}

} // verus!
