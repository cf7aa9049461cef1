use vstd::prelude::*;

use crate::alert_store::{find_row, page_of, AlertStore, UserAlertRow};
use crate::model::{
    AlertNotification, AlertNotificationData, NotificationFilter, NotificationStatistics,
    ResponseTime, StoreError,
};
use crate::strings::{parse_i32, parse_i32_spec};

verus! {

/// One day, in nanoseconds: the statistics window.
pub const DAY_NS: u64 = 86_400_000_000_000;

/// One stored notification. Timestamps are nanoseconds since epoch, response
/// times microseconds.
#[derive(Clone, Debug, PartialEq)]
pub struct NotificationRow {
    pub id: u64,
    pub notification: AlertNotificationData,
    pub alert_id: u64,
    pub alert_source_id: String,
    pub created_at: u64,
    pub updated_at: u64,
    pub deleted_at: Option<u64>,
    pub total_response_time: u64,
    pub num_responses: u64,
}

/// Whether the rule a notification references is owned by the given user.
pub open spec fn alert_owner_matches(
    alerts: Seq<UserAlertRow>,
    alert_id: u64,
    user: Seq<char>,
) -> bool {
    find_row(alerts, alert_id) matches Some(a) && a.user_id@ == user
}

/// Whether a live notification passes every restriction of a filter; the
/// referenced rule must belong to the filter's user, and a time range open
/// at the end closes at the current time.
pub open spec fn notif_matches(
    n: NotificationRow,
    alerts: Seq<UserAlertRow>,
    f: NotificationFilter,
    now: u64,
) -> bool {
    &&& n.deleted_at is None
    &&& alert_owner_matches(alerts, n.alert_id, f.user_id@)
    &&& (f.id matches Some(id) ==> n.id == id)
    &&& (f.alert_id matches Some(a) ==> n.alert_id == a)
    &&& (f.time matches Some(tr) ==> {
        let start = if tr.start is Some {
            tr.start.unwrap()
        } else {
            0
        };
        let end = if tr.end is Some {
            tr.end.unwrap()
        } else {
            now
        };
        start <= n.created_at && n.created_at <= end
    })
}

/// The live notifications a filter selects, in storage order.
pub open spec fn filtered_notifs(
    rows: Seq<NotificationRow>,
    alerts: Seq<UserAlertRow>,
    f: NotificationFilter,
    now: u64,
) -> Seq<NotificationRow> {
    rows.filter(|n: NotificationRow| notif_matches(n, alerts, f, now))
}

/// Whether a live notification falls under the optional statistics filters.
pub open spec fn stats_row_matches(
    n: NotificationRow,
    alerts: Seq<UserAlertRow>,
    alert_id: Option<u64>,
    user_id: Option<String>,
) -> bool {
    &&& n.deleted_at is None
    &&& (alert_id matches Some(a) ==> n.alert_id == a)
    &&& (user_id matches Some(u) ==> alert_owner_matches(alerts, n.alert_id, u@))
}

/// The rows counted over all time.
pub open spec fn stat_rows(
    rows: Seq<NotificationRow>,
    alerts: Seq<UserAlertRow>,
    alert_id: Option<u64>,
    user_id: Option<String>,
) -> Seq<NotificationRow> {
    rows.filter(|n: NotificationRow| stats_row_matches(n, alerts, alert_id, user_id))
}

/// The rows counted inside the daily window.
pub open spec fn daily_rows(
    rows: Seq<NotificationRow>,
    alerts: Seq<UserAlertRow>,
    alert_id: Option<u64>,
    user_id: Option<String>,
    window_start: u64,
) -> Seq<NotificationRow> {
    rows.filter(
        |n: NotificationRow|
            stats_row_matches(n, alerts, alert_id, user_id) && n.created_at >= window_start,
    )
}

/// The summed response time of a row set, in microseconds.
pub open spec fn sum_trt(rows: Seq<NotificationRow>) -> nat
    decreases rows.len(),
{
    if rows.len() == 0 {
        0
    } else {
        sum_trt(rows.drop_last()) + rows.last().total_response_time as nat
    }
}

/// The summed response count of a row set.
pub open spec fn sum_nr(rows: Seq<NotificationRow>) -> nat
    decreases rows.len(),
{
    if rows.len() == 0 {
        0
    } else {
        sum_nr(rows.drop_last()) + rows.last().num_responses as nat
    }
}

/// The average response time of a row set: summed time over summed count,
/// zero when the set holds no responses.
pub open spec fn avg_response(rows: Seq<NotificationRow>) -> nat {
    if sum_nr(rows) == 0 {
        0
    } else {
        sum_trt(rows) / sum_nr(rows)
    }
}

/// A sum of 64-bit values is bounded by the count of its terms.
proof fn lemma_sum_bounds(rows: Seq<NotificationRow>)
    ensures
        sum_trt(rows) <= rows.len() * 0xffff_ffff_ffff_ffff,
        sum_nr(rows) <= rows.len() * 0xffff_ffff_ffff_ffff,
    decreases rows.len(),
{
    if rows.len() > 0 {
        lemma_sum_bounds(rows.drop_last());
        assert((rows.len() - 1) * 0xffff_ffff_ffff_ffff + 0xffff_ffff_ffff_ffff == rows.len()
            * 0xffff_ffff_ffff_ffff) by (nonlinear_arith);
    }
}

/// The notification store: rows in insertion order, ids handed out in
/// sequence.
#[derive(Clone, Debug, PartialEq)]
pub struct NotificationStore {
    pub rows: Vec<NotificationRow>,
    pub next_id: u64,
}

impl NotificationStore {
    /// An empty store.
    pub fn new() -> (r: NotificationStore)
        ensures
            r.rows@.len() == 0,
            r.next_id == 1,
    {
        NotificationStore { rows: Vec::new(), next_id: 1 }
    }

    /// Appends a notification row for a dispatched alert.
    pub fn insert_notification(
        &mut self,
        notification: AlertNotificationData,
        alert_id: u64,
        alert_source_id: String,
        response_time: ResponseTime,
        now: u64,
    ) -> (r: u64)
        requires
            old(self).next_id < u64::MAX,
        ensures
            r == old(self).next_id,
            final(self).next_id == old(self).next_id + 1,
            final(self).rows@ == old(self).rows@.push(
                NotificationRow {
                    id: old(self).next_id,
                    notification: notification,
                    alert_id: alert_id,
                    alert_source_id: alert_source_id,
                    created_at: now,
                    updated_at: now,
                    deleted_at: None,
                    total_response_time: response_time.total_response_time,
                    num_responses: response_time.num_responses,
                },
            ),
    {
        let id = self.next_id;
        let row = NotificationRow {
            id,
            notification,
            alert_id,
            alert_source_id,
            created_at: now,
            updated_at: now,
            deleted_at: None,
            total_response_time: response_time.total_response_time,
            num_responses: response_time.num_responses,
        };
        self.rows.push(row);
        self.next_id = id + 1;
        id
    }

    /// Persists a dispatched notification whose rule id arrives as decimal
    /// text; text that is not a plain decimal number is refused.
    pub fn create_notification(
        &mut self,
        req: AlertNotification,
        response_time: ResponseTime,
        now: u64,
    ) -> (r: Result<u64, StoreError>)
        requires
            old(self).next_id < u64::MAX,
        ensures
            match r {
                Ok(id) => {
                    &&& parse_i32_spec(req.alert_id@) matches Some(a) && a >= 0
                    &&& id == old(self).next_id
                    &&& final(self).rows@ == old(self).rows@.push(
                        NotificationRow {
                            id: old(self).next_id,
                            notification: req.notification,
                            alert_id: parse_i32_spec(req.alert_id@).unwrap() as u64,
                            alert_source_id: req.alert_source_id,
                            created_at: now,
                            updated_at: now,
                            deleted_at: None,
                            total_response_time: response_time.total_response_time,
                            num_responses: response_time.num_responses,
                        },
                    )
                },
                Err(e) => {
                    &&& e == StoreError::InvalidInput
                    &&& !(parse_i32_spec(req.alert_id@) matches Some(a) && a >= 0)
                    &&& final(self).rows@ == old(self).rows@
                },
            },
    {
        let alert_id = match parse_i32(req.alert_id.as_str()) {
            Some(a) => {
                if a >= 0 {
                    a as u64
                } else {
                    return Err(StoreError::InvalidInput);
                }
            },
            None => {
                return Err(StoreError::InvalidInput);
            },
        };
        let id = self.insert_notification(
            req.notification,
            alert_id,
            req.alert_source_id,
            response_time,
            now,
        );
        Ok(id)
    }

    /// Reads the notifications a filter selects, one page or all of them;
    /// only rules of the filter's user are read.
    #[verifier::loop_isolation(false)]
    pub fn get_notifications<'a>(
        &'a self,
        alerts: &AlertStore,
        filter: &NotificationFilter,
        page: Option<u64>,
        now: u64,
    ) -> (r: Vec<&'a NotificationRow>)
        ensures
            notif_vals(r@) == page_of(
                filtered_notifs(self.rows@, alerts.rows@, *filter, now),
                page,
            ),
    {
        let mut all: Vec<&'a NotificationRow> = Vec::new();
        let mut i: usize = 0;
        proof {
            assert(self.rows@.take(0) =~= Seq::<NotificationRow>::empty());
            reveal(Seq::filter);
        }
        while i < self.rows.len()
            invariant
                i <= self.rows@.len(),
                notif_vals(all@) =~= filtered_notifs(
                    self.rows@.take(i as int),
                    alerts.rows@,
                    *filter,
                    now,
                ),
            decreases self.rows@.len() - i,
        {
            proof {
                reveal(Seq::filter);
                assert(self.rows@.take(i + 1).drop_last() =~= self.rows@.take(i as int));
                assert(self.rows@.take(i + 1).last() == self.rows@[i as int]);
            }
            let row = &self.rows[i];
            if notif_matches_exec(row, alerts, filter, now) {
                let ghost pre = notif_vals(all@);
                all.push(row);
                proof {
                    assert(notif_vals(all@) =~= pre.push(self.rows@[i as int]));
                }
            }
            i += 1;
        }
        proof {
            assert(self.rows@.take(self.rows@.len() as int) =~= self.rows@);
        }
        match page {
            None => all,
            Some(p) => {
                let ghost full = filtered_notifs(self.rows@, alerts.rows@, *filter, now);
                let len = all.len();
                let start128: u128 = (p as u128) * (crate::alert_store::PAGE_SIZE as u128);
                let end128: u128 = start128 + (crate::alert_store::PAGE_SIZE as u128);
                let start: usize = if start128 <= len as u128 {
                    start128 as usize
                } else {
                    len
                };
                let end: usize = if end128 <= len as u128 {
                    end128 as usize
                } else {
                    len
                };
                let mut out: Vec<&'a NotificationRow> = Vec::new();
                let mut k: usize = start;
                proof {
                    assert(notif_vals(out@) =~= notif_vals(all@).subrange(
                        start as int,
                        start as int,
                    ));
                }
                while k < end
                    invariant
                        start <= k <= end <= all@.len(),
                        notif_vals(all@) == full,
                        notif_vals(out@) =~= notif_vals(all@).subrange(start as int, k as int),
                    decreases end - k,
                {
                    out.push(all[k]);
                    proof {
                        assert(notif_vals(out@) =~= notif_vals(all@).subrange(start as int, k + 1));
                    }
                    k += 1;
                }
                proof {
                    assert(notif_vals(out@) =~= page_of(full, page));
                }
                out
            },
        }
    }

    /// Aggregates the stored notifications: how many ever matched the
    /// filters, how many fell in the last day, and the day's average
    /// response time. A count beyond the result type's range is refused.
    #[verifier::loop_isolation(false)]
    pub fn get_statistics(
        &self,
        alerts: &AlertStore,
        alert_id: Option<u64>,
        user_id: Option<&String>,
        now: u64,
    ) -> (r: Result<NotificationStatistics, StoreError>)
        requires
            now >= DAY_NS,
        ensures
            ({
                let uid = match user_id {
                    Some(u) => Some(*u),
                    None => None,
                };
                let total = stat_rows(self.rows@, alerts.rows@, alert_id, uid);
                let daily = daily_rows(
                    self.rows@,
                    alerts.rows@,
                    alert_id,
                    uid,
                    (now - DAY_NS) as u64,
                );
                match r {
                    Ok(st) => {
                        &&& total.len() <= u32::MAX
                        &&& daily.len() <= u32::MAX
                        &&& st.total_alerts == total.len()
                        &&& st.total_alerts_today == daily.len()
                        &&& st.avg_response_time == avg_response(daily)
                    },
                    Err(e) => {
                        &&& e == StoreError::InvalidInput
                        &&& (total.len() > u32::MAX || daily.len() > u32::MAX)
                    },
                }
            }),
    {
        let ghost uid = match user_id {
            Some(u) => Some(*u),
            None => None,
        };
        let window_start = now - DAY_NS;
        let mut total: usize = 0;
        let mut daily: usize = 0;
        let mut trt_sum: u128 = 0;
        let mut nr_sum: u128 = 0;
        let mut i: usize = 0;
        proof {
            assert(self.rows@.take(0) =~= Seq::<NotificationRow>::empty());
            reveal(Seq::filter);
        }
        while i < self.rows.len()
            invariant
                i <= self.rows@.len(),
                total == stat_rows(self.rows@.take(i as int), alerts.rows@, alert_id, uid).len(),
                daily == daily_rows(
                    self.rows@.take(i as int),
                    alerts.rows@,
                    alert_id,
                    uid,
                    window_start,
                ).len(),
                trt_sum == sum_trt(
                    daily_rows(
                        self.rows@.take(i as int),
                        alerts.rows@,
                        alert_id,
                        uid,
                        window_start,
                    ),
                ),
                nr_sum == sum_nr(
                    daily_rows(
                        self.rows@.take(i as int),
                        alerts.rows@,
                        alert_id,
                        uid,
                        window_start,
                    ),
                ),
            decreases self.rows@.len() - i,
        {
            proof {
                reveal(Seq::filter);
                assert(self.rows@.take(i + 1).drop_last() =~= self.rows@.take(i as int));
                assert(self.rows@.take(i + 1).last() == self.rows@[i as int]);
                lemma_sum_bounds(
                    daily_rows(
                        self.rows@.take(i as int),
                        alerts.rows@,
                        alert_id,
                        uid,
                        window_start,
                    ),
                );
                daily_rows(
                    self.rows@.take(i as int),
                    alerts.rows@,
                    alert_id,
                    uid,
                    window_start,
                ).lemma_filter_len(
                    |n: NotificationRow|
                        stats_row_matches(n, alerts.rows@, alert_id, uid) && n.created_at
                            >= window_start,
                );
                assert(self.rows@.take(i as int).len() * 0xffff_ffff_ffff_ffffu128 < u128::MAX) by (nonlinear_arith)
                    requires
                        self.rows@.take(i as int).len() < 0x1_0000_0000_0000_0000,
                ;
            }
            let ghost prev_stat = stat_rows(self.rows@.take(i as int), alerts.rows@, alert_id, uid);
            let ghost cur_stat = stat_rows(self.rows@.take(i + 1), alerts.rows@, alert_id, uid);
            let ghost prev_daily = daily_rows(
                self.rows@.take(i as int),
                alerts.rows@,
                alert_id,
                uid,
                window_start,
            );
            let ghost cur_daily = daily_rows(
                self.rows@.take(i + 1),
                alerts.rows@,
                alert_id,
                uid,
                window_start,
            );
            proof {
                stat_rows(self.rows@.take(i as int), alerts.rows@, alert_id, uid).lemma_filter_len(
                    |n: NotificationRow| stats_row_matches(n, alerts.rows@, alert_id, uid),
                );
                self.rows@.take(i as int).lemma_filter_len(
                    |n: NotificationRow| stats_row_matches(n, alerts.rows@, alert_id, uid),
                );
            }
            let row = &self.rows[i];
            if stats_row_matches_exec(row, alerts, alert_id, user_id) {
                proof {
                    assert(cur_stat =~= prev_stat.push(self.rows@[i as int]));
                }
                total += 1;
                if row.created_at >= window_start {
                    proof {
                        assert(cur_daily =~= prev_daily.push(self.rows@[i as int]));
                        assert(cur_daily.drop_last() =~= prev_daily);
                        assert(sum_trt(cur_daily) == sum_trt(prev_daily) + self.rows@[i as int].total_response_time);
                        assert(sum_nr(cur_daily) == sum_nr(prev_daily) + self.rows@[i as int].num_responses);
                    }
                    daily += 1;
                    proof {
                        let dr = prev_daily;
                        assert(dr.len() <= self.rows@.take(i as int).len());
                        assert(sum_trt(dr) <= dr.len() * 0xffff_ffff_ffff_ffff);
                        assert(dr.len() * 0xffff_ffff_ffff_ffffu128 <= self.rows@.take(
                            i as int,
                        ).len() * 0xffff_ffff_ffff_ffffu128) by (nonlinear_arith)
                            requires
                                dr.len() <= self.rows@.take(i as int).len(),
                        ;
                    }
                    trt_sum = trt_sum + (row.total_response_time as u128);
                    nr_sum = nr_sum + (row.num_responses as u128);
                } else {
                    proof {
                        assert(cur_daily =~= prev_daily);
                    }
                }
            } else {
                proof {
                    assert(cur_stat =~= prev_stat);
                    assert(cur_daily =~= prev_daily);
                }
            }
            i += 1;
        }
        proof {
            assert(self.rows@.take(self.rows@.len() as int) =~= self.rows@);
        }
        if total > (u32::MAX as usize) || daily > (u32::MAX as usize) {
            return Err(StoreError::InvalidInput);
        }
        let avg: u128 = if nr_sum == 0 {
            0
        } else {
            trt_sum / nr_sum
        };
        Ok(
            NotificationStatistics {
                total_alerts: total as u32,
                total_alerts_today: daily as u32,
                avg_response_time: avg,
            },
        )
    }
}

/// The values behind a sequence of notification references.
pub open spec fn notif_vals(v: Seq<&NotificationRow>) -> Seq<NotificationRow> {
    v.map_values(|x: &NotificationRow| *x)
}

/// Whether one notification passes a read filter.
fn notif_matches_exec(
    n: &NotificationRow,
    alerts: &AlertStore,
    f: &NotificationFilter,
    now: u64,
) -> (r: bool)
    ensures
        r == notif_matches(*n, alerts.rows@, *f, now),
{
    if !n.deleted_at.is_none() {
        return false;
    }
    let owner_ok = match alerts.find_row_by_id(n.alert_id) {
        Some(a) => a.user_id.eq(&f.user_id),
        None => false,
    };
    if !owner_ok {
        return false;
    }
    if let Some(id) = &f.id {
        if n.id != *id {
            return false;
        }
    }
    if let Some(a) = &f.alert_id {
        if n.alert_id != *a {
            return false;
        }
    }
    if let Some(tr) = &f.time {
        let start: u64 = match &tr.start {
            Some(s) => *s,
            None => 0,
        };
        let end: u64 = match &tr.end {
            Some(e) => *e,
            None => now,
        };
        if !(start <= n.created_at && n.created_at <= end) {
            return false;
        }
    }
    true
}

/// Whether one notification falls under the statistics filters.
fn stats_row_matches_exec(
    n: &NotificationRow,
    alerts: &AlertStore,
    alert_id: Option<u64>,
    user_id: Option<&String>,
) -> (r: bool)
    ensures
        r == stats_row_matches(
            *n,
            alerts.rows@,
            alert_id,
            match user_id {
                Some(u) => Some(*u),
                None => None,
            },
        ),
{
    if !n.deleted_at.is_none() {
        return false;
    }
    if let Some(a) = alert_id {
        if n.alert_id != a {
            return false;
        }
    }
    if let Some(u) = user_id {
        let owner_ok = match alerts.find_row_by_id(n.alert_id) {
            Some(row) => row.user_id.eq(u),
            None => false,
        };
        if !owner_ok {
            return false;
        }
    }
    true
}

// ---------------------------------------------------------------------------
// Webhook endpoints
// ---------------------------------------------------------------------------
/// One issued token with the webhook endpoint registered for its tenant.
#[derive(Clone, Debug, PartialEq)]
pub struct JwtRow {
    pub jwt: String,
    pub client_id: String,
    pub name: String,
    pub webhook_endpoint: String,
    pub valid: bool,
}

/// The first registration of a tenant.
pub open spec fn find_by_client(rows: Seq<JwtRow>, client: Seq<char>) -> Option<JwtRow>
    decreases rows.len(),
{
    if rows.len() == 0 {
        None
    } else if rows.first().client_id@ == client {
        Some(rows.first())
    } else {
        find_by_client(rows.drop_first(), client)
    }
}

/// The registry of issued tokens and webhook endpoints.
#[derive(Clone, Debug, PartialEq)]
pub struct JwtStore {
    pub rows: Vec<JwtRow>,
}

impl JwtStore {
    /// An empty registry.
    pub fn new() -> (r: JwtStore)
        ensures
            r.rows@.len() == 0,
    {
        JwtStore { rows: Vec::new() }
    }

    /// Registers an issued token with its tenant's endpoint.
    pub fn insert(&mut self, row: JwtRow)
        ensures
            final(self).rows@ == old(self).rows@.push(row),
    {
        self.rows.push(row);
    }

    /// Looks a tenant's webhook endpoint up; an unregistered tenant is
    /// refused.
    #[verifier::loop_isolation(false)]
    pub fn get_endpoint<'a>(&'a self, client_id: &String) -> (r: Result<&'a String, StoreError>)
        ensures
            match r {
                Ok(e) => find_by_client(self.rows@, client_id@) matches Some(row)
                    && e@ == row.webhook_endpoint@,
                Err(e) => {
                    &&& e == StoreError::NotFound
                    &&& find_by_client(self.rows@, client_id@) is None
                },
            },
    {
        let mut i: usize = 0;
        proof {
            assert(self.rows@.skip(0) =~= self.rows@);
        }
        while i < self.rows.len()
            invariant
                i <= self.rows@.len(),
                find_by_client(self.rows@, client_id@) == find_by_client(
                    self.rows@.skip(i as int),
                    client_id@,
                ),
            decreases self.rows@.len() - i,
        {
            proof {
                assert(self.rows@.skip(i as int).first() == self.rows@[i as int]);
                assert(self.rows@.skip(i as int).drop_first() =~= self.rows@.skip(i + 1));
            }
            if self.rows[i].client_id.eq(client_id) {
                return Ok(&self.rows[i].webhook_endpoint);
            }
            i += 1;
        }
        proof {
            assert(self.rows@.skip(self.rows@.len() as int).len() == 0);
        }
        Err(StoreError::NotFound)
    }

    /// Flips the validity of an issued token; an unknown token is refused.
    #[verifier::loop_isolation(false)]
    pub fn set_jwt_status(&mut self, jwt: &String, valid: bool) -> (r: Result<(), StoreError>)
        ensures
            match r {
                Ok(()) => exists|i: int|
                    {
                        &&& 0 <= i < old(self).rows@.len()
                        &&& old(self).rows@[i].jwt@ == jwt@
                        &&& final(self).rows@ == old(self).rows@.update(
                            i,
                            JwtRow { valid: valid, ..old(self).rows@[i] },
                        )
                    },
                Err(e) => {
                    &&& e == StoreError::NotFound
                    &&& final(self).rows@ == old(self).rows@
                    &&& forall|i: int|
                        0 <= i < old(self).rows@.len() ==> (#[trigger] old(self).rows@[i]).jwt@
                            != jwt@
                },
            },
    {
        let mut i: usize = 0;
        while i < self.rows.len()
            invariant
                i <= self.rows@.len(),
                self == old(self),
                forall|j: int| 0 <= j < i ==> (#[trigger] self.rows@[j]).jwt@ != jwt@,
            decreases self.rows@.len() - i,
        {
            if self.rows[i].jwt.eq(jwt) {
                let row = self.rows.remove(i);
                let new_row = JwtRow { valid, ..row };
                self.rows.insert(i, new_row);
                proof {
                    assert(self.rows@ =~= old(self).rows@.update(
                        i as int,
                        JwtRow { valid: valid, ..old(self).rows@[i as int] },
                    ));
                }
                return Ok(());
            }
            i += 1;
        }
        Err(StoreError::NotFound)
    }

    /// Whether a token is known and still valid: the auth decision the
    /// request layer enforces.
    #[verifier::loop_isolation(false)]
    pub fn is_token_valid(&self, jwt: &String) -> (r: bool)
        ensures
            r == exists|i: int|
                0 <= i < self.rows@.len() && (#[trigger] self.rows@[i]).jwt@ == jwt@
                    && self.rows@[i].valid,
    {
        let mut i: usize = 0;
        while i < self.rows.len()
            invariant
                i <= self.rows@.len(),
                forall|j: int|
                    0 <= j < i ==> !((#[trigger] self.rows@[j]).jwt@ == jwt@ && self.rows@[j].valid),
            decreases self.rows@.len() - i,
        {
            if self.rows[i].jwt.eq(jwt) && self.rows[i].valid {
                return true;
            }
            i += 1;
        }
        false
    }
}

} // verus!
