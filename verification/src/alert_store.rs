use vstd::prelude::*;

use crate::codec::{encode_alert_hex, spec_enc};
use crate::model::{
    AlertFilter, AlertSource, AlertStatus, BackendUserAlert, ChainAlert, StoreError,
};
use crate::strings::{hex_of, parse_i32, parse_i32_spec};

verus! {

/// A request to register a rule; the chain id arrives as decimal text.
#[derive(Clone, Debug, PartialEq)]
pub struct CreateAlertRequest {
    pub user_id: String,
    pub chain_id: String,
    pub alert: ChainAlert,
    pub message: String,
    pub name: String,
}

/// One stored rule, with its bookkeeping columns. Timestamps are nanoseconds
/// since epoch.
#[derive(Clone, Debug, PartialEq)]
pub struct UserAlertRow {
    pub id: u64,
    pub user_id: String,
    /// The decoded rule body.
    pub alert: ChainAlert,
    /// The body's persistence form: its encoding, in hexadecimal.
    pub alert_enc: String,
    pub message: String,
    pub status: AlertStatus,
    pub chain_id: i32,
    pub alert_source: AlertSource,
    pub name: String,
    pub created_at: u64,
    pub updated_at: u64,
    pub deleted_at: Option<u64>,
    pub client_id: String,
}

/// Whether a live row passes every restriction of a filter.
pub open spec fn row_matches(row: UserAlertRow, f: AlertFilter) -> bool {
    &&& row.deleted_at is None
    &&& (f.id matches Some(id) ==> row.id == id)
    &&& (f.user_id matches Some(u) ==> row.user_id@ == u@)
    &&& (f.chain_id matches Some(c) ==> row.chain_id == c)
    &&& (f.alert_source matches Some(s) ==> row.alert_source == s)
}

/// The live rows a filter selects, in storage order.
pub open spec fn filtered_rows(rows: Seq<UserAlertRow>, f: AlertFilter) -> Seq<UserAlertRow> {
    rows.filter(|r: UserAlertRow| row_matches(r, f))
}

/// Reads are paged twenty rows at a time.
pub open spec fn spec_page_size() -> int {
    20
}

/// The number of rows on one page.
pub const PAGE_SIZE: usize = 20;

/// One page of a row sequence, or the whole of it.
pub open spec fn page_of<T>(s: Seq<T>, page: Option<u64>) -> Seq<T> {
    match page {
        None => s,
        Some(p) => {
            let start = if spec_page_size() * p <= s.len() {
                spec_page_size() * p
            } else {
                s.len() as int
            };
            let end = if spec_page_size() * (p + 1) <= s.len() {
                spec_page_size() * (p + 1)
            } else {
                s.len() as int
            };
            s.subrange(start, end)
        },
    }
}

/// The values behind a sequence of row references.
pub open spec fn row_vals(v: Seq<&UserAlertRow>) -> Seq<UserAlertRow> {
    v.map_values(|x: &UserAlertRow| *x)
}

/// The first row with the given id, live or deleted.
pub open spec fn find_row(rows: Seq<UserAlertRow>, id: u64) -> Option<UserAlertRow>
    decreases rows.len(),
{
    if rows.len() == 0 {
        None
    } else if rows.first().id == id {
        Some(rows.first())
    } else {
        find_row(rows.drop_first(), id)
    }
}

/// The rule store: rows in insertion order, ids handed out in sequence and
/// never reused. Deletion only marks a row.
#[derive(Clone, Debug, PartialEq)]
pub struct AlertStore {
    pub rows: Vec<UserAlertRow>,
    pub next_id: u64,
}

impl AlertStore {
    /// The store's invariant: ids are below the next free one, no id repeats,
    /// and every row's index tag is its body's class.
    pub open spec fn wf(&self) -> bool {
        &&& forall|i: int| 0 <= i < self.rows@.len() ==> (#[trigger] self.rows@[i]).id
            < self.next_id
        &&& forall|i: int, j: int|
            0 <= i < j < self.rows@.len() ==> self.rows@[i].id != self.rows@[j].id
        &&& forall|i: int| 0 <= i < self.rows@.len() ==> (#[trigger] self.rows@[i]).alert_source
            == self.rows@[i].alert.source_type_spec()
        &&& forall|i: int| 0 <= i < self.rows@.len() ==> (#[trigger] self.rows@[i]).alert_enc@
            == hex_of(spec_enc(self.rows@[i].alert@))
    }

    /// An empty store.
    pub fn new() -> (r: AlertStore)
        ensures
            r.wf(),
            r.rows@.len() == 0,
            r.next_id == 1,
    {
        AlertStore { rows: Vec::new(), next_id: 1 }
    }

    /// Persists a new rule: enabled, stamped with the current time, indexed
    /// under its body's class. Refuses a chain id that is not decimal text.
    pub fn create_alert(&mut self, req: CreateAlertRequest, client_id: String, now: u64) -> (r:
        Result<u64, StoreError>)
        requires
            old(self).wf(),
            old(self).next_id < u64::MAX,
        ensures
            final(self).wf(),
            match r {
                Ok(id) => {
                    &&& parse_i32_spec(req.chain_id@) matches Some(c)
                    &&& id == old(self).next_id
                    &&& final(self).next_id == old(self).next_id + 1
                    &&& final(self).rows@ == old(self).rows@.push(
                        UserAlertRow {
                            id: old(self).next_id,
                            user_id: req.user_id,
                            alert: req.alert,
                            alert_enc: final(self).rows@.last().alert_enc,
                            message: req.message,
                            status: AlertStatus::Enabled,
                            chain_id: parse_i32_spec(req.chain_id@).unwrap(),
                            alert_source: req.alert.source_type_spec(),
                            name: req.name,
                            created_at: now,
                            updated_at: now,
                            deleted_at: None,
                            client_id: client_id,
                        },
                    )
                    &&& final(self).rows@.last().alert_enc@ == hex_of(spec_enc(req.alert@))
                },
                Err(e) => {
                    &&& e == StoreError::InvalidInput
                    &&& parse_i32_spec(req.chain_id@) is None
                    &&& final(self).rows@ == old(self).rows@
                    &&& final(self).next_id == old(self).next_id
                },
            },
    {
        let chain_id = match parse_i32(req.chain_id.as_str()) {
            Some(c) => c,
            None => {
                return Err(StoreError::InvalidInput);
            },
        };
        let id = self.next_id;
        let alert_source = req.alert.source_type();
        let alert_enc = encode_alert_hex(&req.alert);
        let row = UserAlertRow {
            id,
            user_id: req.user_id,
            alert: req.alert,
            alert_enc,
            message: req.message,
            status: AlertStatus::Enabled,
            chain_id,
            alert_source,
            name: req.name,
            created_at: now,
            updated_at: now,
            deleted_at: None,
            client_id,
        };
        self.rows.push(row);
        self.next_id = id + 1;
        Ok(id)
    }

    /// Reads the rows a filter selects, one page or all of them.
    #[verifier::loop_isolation(false)]
    pub fn get_alerts<'a>(&'a self, filter: &AlertFilter, page: Option<u64>) -> (r: Vec<
        &'a UserAlertRow,
    >)
        ensures
            row_vals(r@) == page_of(filtered_rows(self.rows@, *filter), page),
    {
        let mut all: Vec<&'a UserAlertRow> = Vec::new();
        let mut i: usize = 0;
        proof {
            assert(self.rows@.take(0) =~= Seq::<UserAlertRow>::empty());
            reveal(Seq::filter);
        }
        while i < self.rows.len()
            invariant
                i <= self.rows@.len(),
                row_vals(all@) =~= filtered_rows(self.rows@.take(i as int), *filter),
            decreases self.rows@.len() - i,
        {
            proof {
                reveal(Seq::filter);
                assert(self.rows@.take(i + 1).drop_last() =~= self.rows@.take(i as int));
                assert(self.rows@.take(i + 1).last() == self.rows@[i as int]);
            }
            let row = &self.rows[i];
            let keep = row_matches_exec(row, filter);
            if keep {
                let ghost pre = row_vals(all@);
                all.push(row);
                proof {
                    assert(row_vals(all@) =~= pre.push(self.rows@[i as int]));
                }
            }
            i += 1;
        }
        proof {
            assert(self.rows@.take(self.rows@.len() as int) =~= self.rows@);
        }
        match page {
            None => all,
            Some(p) => {
                let ghost full = filtered_rows(self.rows@, *filter);
                let len = all.len();
                let start128: u128 = (p as u128) * (PAGE_SIZE as u128);
                let end128: u128 = start128 + (PAGE_SIZE as u128);
                let start: usize = if start128 <= len as u128 {
                    start128 as usize
                } else {
                    len
                };
                let end: usize = if end128 <= len as u128 {
                    end128 as usize
                } else {
                    len
                };
                let mut out: Vec<&'a UserAlertRow> = Vec::new();
                let mut k: usize = start;
                proof {
                    assert(row_vals(out@) =~= row_vals(all@).subrange(
                        start as int,
                        start as int,
                    ));
                }
                while k < end
                    invariant
                        start <= k <= end <= all@.len(),
                        row_vals(all@) == full,
                        row_vals(out@) =~= row_vals(all@).subrange(start as int, k as int),
                    decreases end - k,
                {
                    let ghost pre = row_vals(out@);
                    out.push(all[k]);
                    proof {
                        assert(row_vals(out@) =~= row_vals(all@).subrange(start as int, k + 1));
                    }
                    k += 1;
                }
                proof {
                    assert(row_vals(out@) =~= page_of(full, page));
                }
                out
            },
        }
    }

    /// Reads the live row with the given id.
    pub fn get_alert_by_id<'a>(&'a self, id: u64) -> (r: Result<&'a UserAlertRow, StoreError>)
        ensures
            match r {
                Ok(row) => {
                    &&& filtered_rows(
                        self.rows@,
                        AlertFilter {
                            id: Some(id),
                            user_id: None,
                            chain_id: None,
                            alert_source: None,
                        },
                    ).len() > 0
                    &&& *row == filtered_rows(
                        self.rows@,
                        AlertFilter {
                            id: Some(id),
                            user_id: None,
                            chain_id: None,
                            alert_source: None,
                        },
                    ).first()
                },
                Err(e) => {
                    &&& e == StoreError::NotFound
                    &&& filtered_rows(
                        self.rows@,
                        AlertFilter {
                            id: Some(id),
                            user_id: None,
                            chain_id: None,
                            alert_source: None,
                        },
                    ).len() == 0
                },
            },
    {
        let filter = AlertFilter { id: Some(id), user_id: None, chain_id: None, alert_source: None };
        let rows = self.get_alerts(&filter, None);
        if rows.len() == 0 {
            Err(StoreError::NotFound)
        } else {
            proof {
                assert(row_vals(rows@)[0] == filtered_rows(self.rows@, filter).first());
            }
            Ok(rows[0])
        }
    }

    /// Rewrites a rule's message, status and name, and bumps its update
    /// stamp; everything else stays. The row is found whether live or
    /// deleted; a missing id is refused.
    #[verifier::loop_isolation(false)]
    pub fn update_alert(&mut self, alert: &BackendUserAlert, now: u64) -> (r: Result<
        (),
        StoreError,
    >)
        requires
            old(self).wf(),
        ensures
            final(self).wf(),
            final(self).next_id == old(self).next_id,
            final(self).rows@.len() == old(self).rows@.len(),
            match r {
                Ok(()) => exists|i: int|
                    {
                        &&& 0 <= i < old(self).rows@.len()
                        &&& old(self).rows@[i].id == alert.user_alert.id
                        &&& final(self).rows@ == old(self).rows@.update(
                            i,
                            UserAlertRow {
                                message: alert.user_alert.message,
                                status: alert.user_alert.status,
                                name: alert.user_alert.name,
                                updated_at: now,
                                ..old(self).rows@[i]
                            },
                        )
                    },
                Err(e) => {
                    &&& e == StoreError::NotFound
                    &&& final(self).rows@ == old(self).rows@
                    &&& forall|i: int|
                        0 <= i < old(self).rows@.len() ==> (#[trigger] old(self).rows@[i]).id
                            != alert.user_alert.id
                },
            },
    {
        let id = alert.user_alert.id;
        let mut i: usize = 0;
        while i < self.rows.len()
            invariant
                i <= self.rows@.len(),
                self == old(self),
                forall|j: int| 0 <= j < i ==> (#[trigger] self.rows@[j]).id != id,
            decreases self.rows@.len() - i,
        {
            if self.rows[i].id == id {
                let row = self.rows.remove(i);
                let new_row = UserAlertRow {
                    message: alert.user_alert.message.clone(),
                    status: alert.user_alert.status,
                    name: alert.user_alert.name.clone(),
                    updated_at: now,
                    ..row
                };
                self.rows.insert(i, new_row);
                proof {
                    let spec_row = UserAlertRow {
                        message: alert.user_alert.message,
                        status: alert.user_alert.status,
                        name: alert.user_alert.name,
                        updated_at: now,
                        ..old(self).rows@[i as int]
                    };
                    assert(self.rows@ =~= old(self).rows@.update(i as int, spec_row));
                    assert forall|k: int| 0 <= k < self.rows@.len() implies (#[trigger] self.rows@[k]).id
                        < self.next_id && self.rows@[k].alert_source
                        == self.rows@[k].alert.source_type_spec() && self.rows@[k].alert_enc@
                        == hex_of(spec_enc(self.rows@[k].alert@)) by {
                        assert(old(self).rows@[k].id < old(self).next_id);
                        assert(old(self).rows@[k].alert_source
                            == old(self).rows@[k].alert.source_type_spec());
                        assert(old(self).rows@[k].alert_enc@ == hex_of(
                            spec_enc(old(self).rows@[k].alert@),
                        ));
                    }
                    assert forall|k: int, l: int|
                        0 <= k < l < self.rows@.len() implies self.rows@[k].id != self.rows@[l].id by {
                        assert(old(self).rows@[k].id != old(self).rows@[l].id);
                    }
                }
                return Ok(());
            }
            i += 1;
        }
        Err(StoreError::NotFound)
    }

    /// Marks a rule deleted at the given time; the row itself stays. A
    /// missing id is refused.
    #[verifier::loop_isolation(false)]
    pub fn delete_alert(&mut self, id: u64, now: u64) -> (r: Result<(), StoreError>)
        requires
            old(self).wf(),
        ensures
            final(self).wf(),
            final(self).next_id == old(self).next_id,
            match r {
                Ok(()) => {
                    &&& exists|i: int|
                        {
                            &&& 0 <= i < old(self).rows@.len()
                            &&& old(self).rows@[i].id == id
                            &&& final(self).rows@ == old(self).rows@.update(
                                i,
                                UserAlertRow { deleted_at: Some(now), ..old(self).rows@[i] },
                            )
                        }
                    &&& forall|i: int|
                        0 <= i < final(self).rows@.len() && (#[trigger] final(self).rows@[i]).id
                            == id ==> final(self).rows@[i].deleted_at == Some(now)
                },
                Err(e) => {
                    &&& e == StoreError::NotFound
                    &&& final(self).rows@ == old(self).rows@
                    &&& forall|i: int|
                        0 <= i < old(self).rows@.len() ==> (#[trigger] old(self).rows@[i]).id != id
                },
            },
    {
        let mut i: usize = 0;
        while i < self.rows.len()
            invariant
                i <= self.rows@.len(),
                self == old(self),
                forall|j: int| 0 <= j < i ==> (#[trigger] self.rows@[j]).id != id,
            decreases self.rows@.len() - i,
        {
            if self.rows[i].id == id {
                let row = self.rows.remove(i);
                let new_row = UserAlertRow { deleted_at: Some(now), ..row };
                self.rows.insert(i, new_row);
                proof {
                    let spec_row = UserAlertRow { deleted_at: Some(now), ..old(self).rows@[i as int] };
                    assert(self.rows@ =~= old(self).rows@.update(i as int, spec_row));
                    assert forall|k: int| 0 <= k < self.rows@.len() implies (#[trigger] self.rows@[k]).id
                        < self.next_id && self.rows@[k].alert_source
                        == self.rows@[k].alert.source_type_spec() && self.rows@[k].alert_enc@
                        == hex_of(spec_enc(self.rows@[k].alert@)) by {
                        assert(old(self).rows@[k].id < old(self).next_id);
                        assert(old(self).rows@[k].alert_source
                            == old(self).rows@[k].alert.source_type_spec());
                        assert(old(self).rows@[k].alert_enc@ == hex_of(
                            spec_enc(old(self).rows@[k].alert@),
                        ));
                    }
                    assert forall|k: int, l: int|
                        0 <= k < l < self.rows@.len() implies self.rows@[k].id != self.rows@[l].id by {
                        assert(old(self).rows@[k].id != old(self).rows@[l].id);
                    }
                    assert forall|k: int|
                        0 <= k < self.rows@.len() && (#[trigger] self.rows@[k]).id == id implies self
                        .rows@[k].deleted_at == Some(now) by {
                        if k != i {
                            if k < i {
                                assert(old(self).rows@[k].id != old(self).rows@[i as int].id);
                            } else {
                                assert(old(self).rows@[i as int].id != old(self).rows@[k].id);
                            }
                        }
                    }
                }
                return Ok(());
            }
            i += 1;
        }
        Err(StoreError::NotFound)
    }

    /// The first row with the given id, live or deleted.
    #[verifier::loop_isolation(false)]
    pub fn find_row_by_id<'a>(&'a self, id: u64) -> (r: Option<&'a UserAlertRow>)
        ensures
            match r {
                Some(row) => find_row(self.rows@, id) == Some(*row),
                None => find_row(self.rows@, id) is None,
            },
    {
        let mut i: usize = 0;
        proof {
            assert(self.rows@.skip(0) =~= self.rows@);
        }
        while i < self.rows.len()
            invariant
                i <= self.rows@.len(),
                find_row(self.rows@, id) == find_row(self.rows@.skip(i as int), id),
            decreases self.rows@.len() - i,
        {
            proof {
                assert(self.rows@.skip(i as int).first() == self.rows@[i as int]);
                assert(self.rows@.skip(i as int).drop_first() =~= self.rows@.skip(i + 1));
            }
            if self.rows[i].id == id {
                return Some(&self.rows[i]);
            }
            i += 1;
        }
        proof {
            assert(self.rows@.skip(self.rows@.len() as int).len() == 0);
        }
        None
    }
}

/// Whether one row passes a filter.
fn row_matches_exec(row: &UserAlertRow, f: &AlertFilter) -> (r: bool)
    ensures
        r == row_matches(*row, *f),
{
    if !row.deleted_at.is_none() {
        return false;
    }
    if let Some(id) = &f.id {
        if row.id != *id {
            return false;
        }
    }
    if let Some(u) = &f.user_id {
        if !row.user_id.eq(u) {
            return false;
        }
    }
    if let Some(c) = &f.chain_id {
        if row.chain_id != *c {
            return false;
        }
    }
    if let Some(s) = &f.alert_source {
        if !(row.alert_source == *s) {
            return false;
        }
    }
    true
}

/// Everything the filter keeps came out of the stored rows.
pub proof fn lemma_filtered_from_rows(
    rows: Seq<UserAlertRow>,
    f: AlertFilter,
    i: int,
)
    requires
        0 <= i < filtered_rows(rows, f).len(),
    ensures
        rows.contains(filtered_rows(rows, f)[i]),
    decreases rows.len(),
{
    reveal(Seq::filter);
    if rows.len() > 0 {
        let pred = |r: UserAlertRow| row_matches(r, f);
        if rows.drop_last().filter(pred).len() > i {
            lemma_filtered_from_rows(rows.drop_last(), f, i);
            assert(rows.drop_last().contains(rows.drop_last().filter(pred)[i]));
            let w = choose|k: int|
                0 <= k < rows.drop_last().len() && rows.drop_last()[k] == rows.drop_last().filter(
                    pred,
                )[i];
            assert(rows[w] == filtered_rows(rows, f)[i]);
        } else {
            assert(filtered_rows(rows, f)[i] == rows.last());
        }
    }
}

/// Soft-delete invisibility: once a rule is deleted, no read, whatever its
/// filter and page, returns a row with its id.
pub proof fn lemma_soft_delete_invisible(
    store: AlertStore,
    id: u64,
    f: AlertFilter,
    page: Option<u64>,
)
    requires
        forall|i: int|
            0 <= i < store.rows@.len() && (#[trigger] store.rows@[i]).id == id ==> store.rows@[i]
                .deleted_at is Some,
    ensures
        forall|j: int|
            0 <= j < page_of(filtered_rows(store.rows@, f), page).len() ==> (#[trigger] page_of(
                filtered_rows(store.rows@, f),
                page,
            )[j]).id != id,
{
    let flt = filtered_rows(store.rows@, f);
    assert forall|j: int|
        0 <= j < page_of(flt, page).len() implies (#[trigger] page_of(flt, page)[j]).id != id by {
        let row = page_of(flt, page)[j];
        let k = match page {
            None => j,
            Some(p) => {
                let start = if spec_page_size() * p <= flt.len() {
                    spec_page_size() * p
                } else {
                    flt.len() as int
                };
                start + j
            },
        };
        assert(flt[k] == row);
        store.rows@.filter_lemma(|r: UserAlertRow| row_matches(r, f));
        assert(row_matches(flt[k], f));
        lemma_filtered_from_rows(store.rows@, f, k);
        let w = choose|w: int| 0 <= w < store.rows@.len() && store.rows@[w] == flt[k];
        if row.id == id {
            assert(store.rows@[w].deleted_at is Some);
            assert(row.deleted_at is None);
        }
    }
}

} // verus!
