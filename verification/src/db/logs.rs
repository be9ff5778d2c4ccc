//! The request log as a table: one row per request identifier, written at
//! dispatch and completed when a stream ends.

use vstd::prelude::*;
use vstd::string::*;

use crate::config::clone_opt;
use crate::logger::{RequestLog, RequestLogView};
use crate::text::str_eq;

verus! {

/// The number of milliseconds in a day.
pub const DAY_MS: i64 = 86_400_000;

/// True when a row with the given request identifier is in the table.
pub open spec fn has_request(rows: Seq<RequestLogView>, request_id: Seq<char>) -> bool {
    exists|i: int| 0 <= i < rows.len() && (#[trigger] rows[i]).request_id == request_id
}

/// A position of the given request identifier, when it is in the table.
pub open spec fn request_index(rows: Seq<RequestLogView>, request_id: Seq<char>) -> int {
    choose|i: int| 0 <= i < rows.len() && (#[trigger] rows[i]).request_id == request_id
}

/// No request identifier occurs in two rows.
pub open spec fn ids_unique(rows: Seq<RequestLogView>) -> bool {
    forall|i: int, j: int|
        0 <= i < j < rows.len() ==> (#[trigger] rows[i]).request_id != (
        #[trigger] rows[j]).request_id
}

/// The number of rows with the given request identifier among the first
/// `upto`.
pub open spec fn count_request(rows: Seq<RequestLogView>, request_id: Seq<char>, upto: int) -> nat
    decreases upto,
{
    if upto <= 0 {
        0
    } else {
        count_request(rows, request_id, upto - 1) + if rows[upto - 1].request_id == request_id {
            1nat
        } else {
            0nat
        }
    }
}

/// The table after a row is written if its request identifier is new.
pub open spec fn upserted(rows: Seq<RequestLogView>, log: RequestLogView) -> Seq<RequestLogView> {
    if has_request(rows, log.request_id) {
        rows
    } else {
        rows.push(log)
    }
}

/// A row with the totals of a finished stream filled in: the token counts,
/// the duration and the kept body come from `update`, everything else stays.
pub open spec fn with_totals(row: RequestLogView, update: RequestLogView) -> RequestLogView {
    RequestLogView {
        input_tokens: update.input_tokens,
        output_tokens: update.output_tokens,
        cache_creation_input_tokens: update.cache_creation_input_tokens,
        cache_read_input_tokens: update.cache_read_input_tokens,
        duration_ms: update.duration_ms,
        response_body: update.response_body,
        ..row
    }
}

/// The table after the totals of a finished stream are filled in. Nothing
/// changes where no row has the request identifier.
pub open spec fn updated(rows: Seq<RequestLogView>, update: RequestLogView) -> Seq<RequestLogView> {
    if has_request(rows, update.request_id) {
        let at = request_index(rows, update.request_id);
        rows.update(at, with_totals(rows[at], update))
    } else {
        rows
    }
}

/// The first `upto` rows without those older than `cutoff`.
pub open spec fn kept_upto(rows: Seq<RequestLogView>, cutoff: i64, upto: int) -> Seq<
    RequestLogView,
>
    decreases upto,
{
    if upto <= 0 {
        Seq::<RequestLogView>::empty()
    } else {
        let rest = kept_upto(rows, cutoff, upto - 1);
        if rows[upto - 1].timestamp < cutoff {
            rest
        } else {
            rest.push(rows[upto - 1])
        }
    }
}

/// True when no later row has the request identifier of row `i`.
pub open spec fn is_latest(rows: Seq<RequestLogView>, i: int) -> bool {
    forall|j: int| i < j < rows.len() ==> (#[trigger] rows[j]).request_id != rows[i].request_id
}

/// Of the first `upto` rows, those that are the latest of their request
/// identifier.
pub open spec fn latest_upto(rows: Seq<RequestLogView>, upto: int) -> Seq<RequestLogView>
    decreases upto,
{
    if upto <= 0 {
        Seq::<RequestLogView>::empty()
    } else {
        let rest = latest_upto(rows, upto - 1);
        if is_latest(rows, upto - 1) {
            rest.push(rows[upto - 1])
        } else {
            rest
        }
    }
}

/// The time before which rows are removed: `retention_days` days before
/// `now_ms`, within the range of the clock.
pub open spec fn cutoff_of(now_ms: i64, retention_days: i64) -> i64 {
    let exact = now_ms - retention_days * DAY_MS;
    if exact > i64::MAX {
        i64::MAX
    } else if exact < i64::MIN {
        i64::MIN
    } else {
        exact as i64
    }
}

/// The time before which rows are removed.
pub fn retention_cutoff(now_ms: i64, retention_days: i64) -> (r: i64)
    ensures
        r == cutoff_of(now_ms, retention_days),
{
    let span: i128 = (retention_days as i128) * 86_400_000;
    let exact: i128 = (now_ms as i128) - span;
    if exact > 0x7fff_ffff_ffff_ffff {
        i64::MAX
    } else if exact < -0x8000_0000_0000_0000 {
        i64::MIN
    } else {
        exact as i64
    }
}

/// The name under which a row's profile is shown: the profile's current
/// name, or a note that the profile is gone.
pub open spec fn shown_profile_name(current: Option<Seq<char>>, profile_id: Seq<char>) -> Seq<
    char,
> {
    match current {
        Some(name) => name,
        None => "deleted profile ("@ + profile_id + ")"@,
    }
}

/// The name under which a row's profile is shown.
pub fn resolve_profile_name(current: Option<&str>, profile_id: &str) -> (r: String)
    ensures
        r@ == shown_profile_name(
            match current {
                Some(n) => Some(n@),
                None => None,
            },
            profile_id@,
        ),
{
    match current {
        Some(name) => String::from_str(name),
        None => {
            let mut out = String::from_str("deleted profile (");
            out.append(profile_id);
            out.append(")");
            out
        },
    }
}

/// The views of a list of rows, in order.
pub open spec fn log_views(rows: Seq<RequestLog>) -> Seq<RequestLogView> {
    Seq::new(rows.len(), |i: int| rows[i]@)
}

/// The request log.
#[derive(Debug)]
pub struct LogTable {
    rows: Vec<RequestLog>,
}

impl View for LogTable {
    type V = Seq<RequestLogView>;

    closed spec fn view(&self) -> Seq<RequestLogView> {
        log_views(self.rows@)
    }
}

impl LogTable {
    /// The table's invariant: one row per request identifier.
    pub open spec fn wf(&self) -> bool {
        ids_unique(self@)
    }

    /// An empty table.
    pub fn new() -> (r: Self)
        ensures
            r.wf(),
            r@.len() == 0,
    {
        LogTable { rows: Vec::new() }
    }

    /// The number of rows.
    pub fn len(&self) -> (r: usize)
        ensures
            r == self@.len(),
    {
        self.rows.len()
    }

    fn position(&self, request_id: &str) -> (r: Option<usize>)
        ensures
            match r {
                Some(i) => i < self@.len() && self@[i as int].request_id == request_id@
                    && i < self.rows@.len(),
                None => !has_request(self@, request_id@),
            },
    {
        let mut i: usize = 0;
        while i < self.rows.len()
            invariant
                i <= self.rows@.len(),
                self@.len() == self.rows@.len(),
                forall|j: int| 0 <= j < i ==> (#[trigger] self@[j]).request_id != request_id@,
            decreases self.rows.len() - i,
        {
            if str_eq(self.rows[i].request_id.as_str(), request_id) {
                return Some(i);
            }
            i += 1;
        }
        None
    }

    /// The row of a request.
    pub fn get(&self, request_id: &str) -> (r: Option<&RequestLog>)
        requires
            self.wf(),
        ensures
            match r {
                Some(row) => has_request(self@, request_id@) && row@ == self@[request_index(
                    self@,
                    request_id@,
                )],
                None => !has_request(self@, request_id@),
            },
    {
        match self.position(request_id) {
            Some(i) => {
                proof {
                    lemma_unique_request_index(self@, request_id@, i as int);
                }
                Some(&self.rows[i])
            },
            None => None,
        }
    }

    /// Writes a row unless one with its request identifier is there, and
    /// tells whether it was written.
    pub fn upsert(&mut self, log: RequestLog) -> (first: bool)
        requires
            old(self).wf(),
        ensures
            final(self).wf(),
            first == !has_request(old(self)@, log@.request_id),
            final(self)@ == upserted(old(self)@, log@),
    {
        match self.position(log.request_id.as_str()) {
            Some(_) => false,
            None => {
                self.rows.push(log);
                proof {
                    assert(self@ =~= old(self)@.push(log@));
                    assert forall|i: int, j: int| 0 <= i < j < self@.len() implies (
                    #[trigger] self@[i]).request_id != (#[trigger] self@[j]).request_id by {
                        if j < old(self)@.len() {
                            assert(old(self)@[i].request_id != old(self)@[j].request_id);
                        } else {
                            assert(self@[i] == old(self)@[i]);
                        }
                    }
                }
                true
            },
        }
    }

    /// Fills in the totals of a finished stream in the row of its request.
    /// Nothing happens where there is no such row.
    pub fn update_stream_totals(&mut self, update: &RequestLog)
        requires
            old(self).wf(),
        ensures
            final(self).wf(),
            final(self)@ == updated(old(self)@, update@),
    {
        match self.position(update.request_id.as_str()) {
            Some(i) => {
                proof {
                    lemma_unique_request_index(self@, update@.request_id, i as int);
                }
                self.rows[i].input_tokens = update.input_tokens;
                self.rows[i].output_tokens = update.output_tokens;
                self.rows[i].cache_creation_input_tokens = update.cache_creation_input_tokens;
                self.rows[i].cache_read_input_tokens = update.cache_read_input_tokens;
                self.rows[i].duration_ms = update.duration_ms;
                self.rows[i].response_body = clone_opt(&update.response_body);
                proof {
                    assert(self@ =~= old(self)@.update(
                        i as int,
                        with_totals(old(self)@[i as int], update@),
                    ));
                    assert forall|a: int, b: int| 0 <= a < b < self@.len() implies (
                    #[trigger] self@[a]).request_id != (#[trigger] self@[b]).request_id by {
                        assert(old(self)@[a].request_id != old(self)@[b].request_id);
                    }
                }
            },
            None => {},
        }
    }

    /// Removes the rows older than `cutoff` and tells how many there were.
    pub fn cleanup_older_than(&mut self, cutoff: i64) -> (removed: usize)
        requires
            old(self).wf(),
        ensures
            final(self).wf(),
            final(self)@ == kept_upto(old(self)@, cutoff, old(self)@.len() as int),
            removed == old(self)@.len() - final(self)@.len(),
    {
        let mut kept: Vec<RequestLog> = Vec::new();
        let ghost mut source: Seq<int> = Seq::empty();
        let mut i: usize = 0;
        while i < self.rows.len()
            invariant
                i <= self.rows@.len(),
                self.rows == old(self).rows,
                self@ == old(self)@,
                self@.len() == self.rows@.len(),
                log_views(kept@) == kept_upto(self@, cutoff, i as int),
                kept@.len() <= i,
                source.len() == kept@.len(),
                forall|k: int|
                    0 <= k < source.len() ==> 0 <= #[trigger] source[k] < i && log_views(
                        kept@,
                    )[k] == self@[source[k]],
                forall|a: int, b: int|
                    0 <= a < b < source.len() ==> #[trigger] source[a] < #[trigger] source[b],
            decreases self.rows.len() - i,
        {
            let ghost before = log_views(kept@);
            if self.rows[i].timestamp >= cutoff {
                kept.push(self.rows[i].clone());
                proof {
                    source = source.push(i as int);
                    assert(log_views(kept@) =~= before.push(self@[i as int]));
                }
            }
            i += 1;
        }
        let removed = self.rows.len() - kept.len();
        proof {
            assert forall|a: int, b: int| 0 <= a < b < kept@.len() implies (#[trigger] log_views(
                kept@,
            )[a]).request_id != (#[trigger] log_views(kept@)[b]).request_id by {
                assert(source[a] < source[b]);
                assert(self@[source[a]].request_id != self@[source[b]].request_id);
            }
        }
        self.rows = kept;
        removed
    }

    /// The table of the given rows, of which only the latest of each request
    /// identifier is taken, and the number of rows that were left out.
    pub fn from_rows(rows: &Vec<RequestLog>) -> (r: (Self, usize))
        ensures
            r.0.wf(),
            r.0@ == latest_upto(log_views(rows@), rows@.len() as int),
            r.1 == rows@.len() - r.0@.len(),
    {
        let ghost all = log_views(rows@);
        let mut kept: Vec<RequestLog> = Vec::new();
        let ghost mut source: Seq<int> = Seq::empty();
        let mut i: usize = 0;
        while i < rows.len()
            invariant
                i <= rows@.len(),
                all == log_views(rows@),
                log_views(kept@) == latest_upto(all, i as int),
                kept@.len() <= i,
                source.len() == kept@.len(),
                forall|k: int|
                    0 <= k < source.len() ==> 0 <= #[trigger] source[k] < i && log_views(
                        kept@,
                    )[k] == all[source[k]] && is_latest(all, source[k]),
                forall|a: int, b: int|
                    0 <= a < b < source.len() ==> #[trigger] source[a] < #[trigger] source[b],
            decreases rows.len() - i,
        {
            let mut later = false;
            let mut j: usize = i + 1;
            while j < rows.len() && !later
                invariant
                    i < j <= rows@.len(),
                    all == log_views(rows@),
                    !later ==> forall|k: int|
                        i < k < j ==> (#[trigger] all[k]).request_id != all[i as int].request_id,
                    later ==> !is_latest(all, i as int),
                decreases rows.len() - j + if later { 0int } else { 1int },
            {
                if str_eq(rows[j].request_id.as_str(), rows[i].request_id.as_str()) {
                    later = true;
                    proof {
                        assert(all[j as int].request_id == all[i as int].request_id);
                    }
                } else {
                    j += 1;
                }
            }
            let ghost before = log_views(kept@);
            if !later {
                kept.push(rows[i].clone());
                proof {
                    source = source.push(i as int);
                    assert(is_latest(all, i as int));
                    assert(log_views(kept@) =~= before.push(all[i as int]));
                }
            }
            i += 1;
        }
        let removed = rows.len() - kept.len();
        proof {
            assert forall|a: int, b: int| 0 <= a < b < kept@.len() implies (#[trigger] log_views(
                kept@,
            )[a]).request_id != (#[trigger] log_views(kept@)[b]).request_id by {
                assert(source[a] < source[b]);
                assert(is_latest(all, source[a]));
                assert(all[source[b]].request_id != all[source[a]].request_id);
            }
        }
        (LogTable { rows: kept }, removed)
    }

    /// Tells whether the table is well formed. Every table that this module
    /// hands out is.
    pub fn is_well_formed(&self) -> (r: bool)
        ensures
            r == self.wf(),
    {
        let mut j: usize = 0;
        while j < self.rows.len()
            invariant
                j <= self.rows@.len(),
                self@.len() == self.rows@.len(),
                forall|a: int, b: int|
                    0 <= a < b < j ==> (#[trigger] self@[a]).request_id != (
                    #[trigger] self@[b]).request_id,
            decreases self.rows.len() - j,
        {
            let mut i: usize = 0;
            while i < j
                invariant
                    i <= j < self.rows@.len(),
                    self@.len() == self.rows@.len(),
                    forall|a: int|
                        0 <= a < i ==> (#[trigger] self@[a]).request_id != self@[j as int].request_id,
                decreases j - i,
            {
                if str_eq(self.rows[i].request_id.as_str(), self.rows[j].request_id.as_str()) {
                    proof {
                        assert(self@[i as int].request_id == self@[j as int].request_id);
                    }
                    return false;
                }
                i += 1;
            }
            j += 1;
        }
        true
    }

    /// The rows, in the order in which they were written.
    pub fn rows(&self) -> (r: &Vec<RequestLog>)
        ensures
            log_views(r@) == self@,
    {
        &self.rows
    }
}

/// The first position at or after `at` whose row is older than `timestamp`,
/// or the length.
pub open spec fn first_older(list: Seq<RequestLogView>, timestamp: i64, at: int) -> int
    decreases list.len() - at,
{
    if at < 0 || at >= list.len() {
        list.len() as int
    } else if list[at].timestamp < timestamp {
        at
    } else {
        first_older(list, timestamp, at + 1)
    }
}

/// The list with a row filed behind all rows that are as new or newer.
pub open spec fn filed(list: Seq<RequestLogView>, row: RequestLogView) -> Seq<RequestLogView> {
    list.insert(first_older(list, row.timestamp, 0), row)
}

/// The first `upto` rows, each filed in turn.
pub open spec fn newest_first_upto(rows: Seq<RequestLogView>, upto: int) -> Seq<RequestLogView>
    decreases upto,
{
    if upto <= 0 {
        Seq::<RequestLogView>::empty()
    } else {
        filed(newest_first_upto(rows, upto - 1), rows[upto - 1])
    }
}

/// The rows by their time of writing, the newest first. Rows written at the
/// same moment stand in the order of the table.
pub open spec fn newest_first(rows: Seq<RequestLogView>) -> Seq<RequestLogView> {
    newest_first_upto(rows, rows.len() as int)
}

/// No row is older than one behind it.
pub open spec fn newest_leads(list: Seq<RequestLogView>) -> bool {
    forall|i: int, j: int|
        0 <= i < j < list.len() ==> (#[trigger] list[i]).timestamp >= (
        #[trigger] list[j]).timestamp
}

/// The page of a list: at most `size` rows, after the first `start` rows.
pub open spec fn page(list: Seq<RequestLogView>, size: int, start: int) -> Seq<RequestLogView> {
    if start < 0 || size <= 0 || start >= list.len() {
        Seq::<RequestLogView>::empty()
    } else if start + size >= list.len() {
        list.subrange(start, list.len() as int)
    } else {
        list.subrange(start, start + size)
    }
}

/// The page of a log that a listing shows: the rows newest first, at most
/// `size` of them, after the first `start`.
pub open spec fn listed(rows: Seq<RequestLogView>, size: int, start: int) -> Seq<RequestLogView> {
    page(newest_first(rows), size, start)
}

/// The first older row is in the list or at its end, and no row before it is
/// older.
pub proof fn lemma_first_older(list: Seq<RequestLogView>, timestamp: i64, at: int)
    requires
        0 <= at <= list.len(),
    ensures
        at <= first_older(list, timestamp, at) <= list.len(),
        forall|k: int|
            at <= k < first_older(list, timestamp, at) ==> (#[trigger] list[k]).timestamp
                >= timestamp,
        first_older(list, timestamp, at) < list.len() ==> list[first_older(
            list,
            timestamp,
            at,
        )].timestamp < timestamp,
    decreases list.len() - at,
{
    if at < list.len() && list[at].timestamp >= timestamp {
        lemma_first_older(list, timestamp, at + 1);
    }
}

/// Filing a row keeps the newest first, and adds that row and no other.
pub proof fn lemma_filed(list: Seq<RequestLogView>, row: RequestLogView)
    requires
        newest_leads(list),
    ensures
        newest_leads(filed(list, row)),
        filed(list, row).len() == list.len() + 1,
        filed(list, row).to_multiset() == list.to_multiset().insert(row),
{
    let at = first_older(list, row.timestamp, 0);
    lemma_first_older(list, row.timestamp, 0);
    let after = filed(list, row);
    assert forall|i: int, j: int| 0 <= i < j < after.len() implies (#[trigger] after[i]).timestamp
        >= (#[trigger] after[j]).timestamp by {
        if j < at {
            assert(after[i] == list[i] && after[j] == list[j]);
        } else if j == at {
            assert(after[i] == list[i]);
        } else if i == at {
            assert(after[j] == list[j - 1]);
            assert(list[at].timestamp >= list[j - 1].timestamp || at == j - 1);
        } else if i < at {
            assert(after[i] == list[i] && after[j] == list[j - 1]);
        } else {
            assert(after[i] == list[i - 1] && after[j] == list[j - 1]);
        }
    }
    vstd::seq_lib::to_multiset_insert(list, at, row);
}

/// The rows in listing order are the rows of the log, each as often as the
/// log holds it, and none is older than one behind it.
pub proof fn lemma_newest_first(rows: Seq<RequestLogView>, upto: int)
    requires
        0 <= upto <= rows.len(),
    ensures
        newest_leads(newest_first_upto(rows, upto)),
        newest_first_upto(rows, upto).len() == upto,
        newest_first_upto(rows, upto).to_multiset() == rows.subrange(0, upto).to_multiset(),
    decreases upto,
{
    if upto > 0 {
        lemma_newest_first(rows, upto - 1);
        lemma_filed(newest_first_upto(rows, upto - 1), rows[upto - 1]);
        assert(rows.subrange(0, upto) =~= rows.subrange(0, upto - 1).push(rows[upto - 1]));
        vstd::seq_lib::to_multiset_build(rows.subrange(0, upto - 1), rows[upto - 1]);
    } else {
        assert(rows.subrange(0, upto) =~= Seq::<RequestLogView>::empty());
        assert(newest_first_upto(rows, upto).to_multiset() =~= rows.subrange(0, upto).to_multiset());
    }
}

/// A page holds at most `size` rows, each of them a row of the log, and none
/// older than one behind it.
pub proof fn lemma_listed(rows: Seq<RequestLogView>, size: int, start: int)
    ensures
        listed(rows, size, start).len() <= if size < 0 {
            0
        } else {
            size
        },
        newest_leads(listed(rows, size, start)),
        forall|i: int|
            0 <= i < listed(rows, size, start).len() ==> rows.contains(
                #[trigger] listed(rows, size, start)[i],
            ),
{
    let all = newest_first(rows);
    lemma_newest_first(rows, rows.len() as int);
    assert(rows.subrange(0, rows.len() as int) =~= rows);
    let shown = listed(rows, size, start);
    assert forall|i: int, j: int| 0 <= i < j < shown.len() implies (#[trigger] shown[i]).timestamp
        >= (#[trigger] shown[j]).timestamp by {
        assert(shown[i] == all[start + i] && shown[j] == all[start + j]);
    }
    assert forall|i: int| 0 <= i < shown.len() implies rows.contains(#[trigger] shown[i]) by {
        assert(shown[i] == all[start + i]);
        vstd::seq_lib::to_multiset_contains(all, shown[i]);
        vstd::seq_lib::to_multiset_contains(rows, shown[i]);
        assert(all.contains(all[start + i]));
    }
}

fn file(list: &mut Vec<RequestLog>, row: RequestLog)
    ensures
        log_views(final(list)@) == filed(log_views(old(list)@), row@),
{
    let ghost before = log_views(list@);
    let mut at: usize = 0;
    while at < list.len() && list[at].timestamp >= row.timestamp
        invariant
            at <= list@.len(),
            list@ == old(list)@,
            before == log_views(list@),
            first_older(before, row@.timestamp, at as int) == first_older(
                before,
                row@.timestamp,
                0,
            ),
        decreases list.len() - at,
    {
        assert(before[at as int] == list@[at as int]@);
        at += 1;
    }
    proof {
        if at < list@.len() {
            assert(before[at as int] == list@[at as int]@);
        }
        assert(first_older(before, row@.timestamp, 0) == at);
    }
    list.insert(at, row);
    proof {
        assert(log_views(list@) =~= before.insert(at as int, row@));
    }
}

/// A page of the log: the rows newest first, at most `size` of them, after
/// the first `start`.
pub fn list_logs(logs: &Vec<RequestLog>, size: usize, start: usize) -> (r: Vec<RequestLog>)
    ensures
        log_views(r@) == listed(log_views(logs@), size as int, start as int),
        r@.len() <= size,
{
    let ghost rows = log_views(logs@);
    let mut ordered: Vec<RequestLog> = Vec::new();
    let mut i: usize = 0;
    while i < logs.len()
        invariant
            i <= logs@.len(),
            rows == log_views(logs@),
            log_views(ordered@) == newest_first_upto(rows, i as int),
        decreases logs.len() - i,
    {
        assert(rows[i as int] == logs@[i as int]@);
        file(&mut ordered, logs[i].clone());
        i += 1;
    }
    proof {
        lemma_newest_first(rows, rows.len() as int);
        assert(log_views(ordered@).len() == ordered@.len());
    }
    let ghost all = log_views(ordered@);
    let mut out: Vec<RequestLog> = Vec::new();
    if size == 0 || start >= ordered.len() {
        proof {
            assert(log_views(out@) =~= listed(rows, size as int, start as int));
        }
        return out;
    }
    let end: usize = if size >= ordered.len() - start {
        ordered.len()
    } else {
        start + size
    };
    let mut k: usize = start;
    while k < end
        invariant
            start <= k <= end <= ordered@.len(),
            all == log_views(ordered@),
            log_views(out@) == all.subrange(start as int, k as int),
        decreases end - k,
    {
        let ghost before = log_views(out@);
        assert(all[k as int] == ordered@[k as int]@);
        out.push(ordered[k].clone());
        proof {
            assert(log_views(out@) =~= before.push(all[k as int]));
            assert(log_views(out@) =~= all.subrange(start as int, k + 1));
        }
        k += 1;
    }
    proof {
        assert(log_views(out@).len() == out@.len());
    }
    out
}

/// With unique request identifiers, the position of an identifier is the one
/// `request_index` names.
pub proof fn lemma_unique_request_index(rows: Seq<RequestLogView>, request_id: Seq<char>, i: int)
    requires
        ids_unique(rows),
        0 <= i < rows.len(),
        rows[i].request_id == request_id,
    ensures
        has_request(rows, request_id),
        request_index(rows, request_id) == i,
{
    let k = request_index(rows, request_id);
    assert(rows[k].request_id == request_id);
    if k < i {
        assert(rows[k].request_id != rows[i].request_id);
    } else if i < k {
        assert(rows[i].request_id != rows[k].request_id);
    }
}

/// Writing a row keeps one row per request identifier.
pub proof fn lemma_upsert_keeps_unique(rows: Seq<RequestLogView>, log: RequestLogView)
    requires
        ids_unique(rows),
    ensures
        ids_unique(upserted(rows, log)),
        has_request(upserted(rows, log), log.request_id),
{
    let after = upserted(rows, log);
    if has_request(rows, log.request_id) {
    } else {
        assert forall|i: int, j: int| 0 <= i < j < after.len() implies (
        #[trigger] after[i]).request_id != (#[trigger] after[j]).request_id by {
            if j < rows.len() {
                assert(rows[i].request_id != rows[j].request_id);
            } else {
                assert(after[i] == rows[i]);
            }
        }
        assert(after[rows.len() as int].request_id == log.request_id);
    }
}

/// Completing a stream changes the totals of its row and nothing else: the
/// row keeps its request identifier and its timestamp, every other row stays
/// as it is, and there is still one row per request identifier.
pub proof fn lemma_update_keeps_identity(rows: Seq<RequestLogView>, update: RequestLogView)
    requires
        ids_unique(rows),
    ensures
        ids_unique(updated(rows, update)),
        updated(rows, update).len() == rows.len(),
        forall|i: int|
            0 <= i < rows.len() ==> {
                &&& (#[trigger] updated(rows, update)[i]).request_id == rows[i].request_id
                &&& updated(rows, update)[i].timestamp == rows[i].timestamp
                &&& rows[i].request_id != update.request_id ==> updated(rows, update)[i] == rows[i]
                &&& rows[i].request_id == update.request_id ==> updated(rows, update)[i]
                    == with_totals(rows[i], update)
            },
{
    let after = updated(rows, update);
    if has_request(rows, update.request_id) {
        let at = request_index(rows, update.request_id);
        assert(rows[at].request_id == update.request_id);
        assert forall|i: int| 0 <= i < rows.len() implies {
            &&& (#[trigger] after[i]).request_id == rows[i].request_id
            &&& after[i].timestamp == rows[i].timestamp
            &&& rows[i].request_id != update.request_id ==> after[i] == rows[i]
            &&& rows[i].request_id == update.request_id ==> after[i] == with_totals(rows[i], update)
        } by {
            if rows[i].request_id == update.request_id {
                lemma_unique_request_index(rows, update.request_id, i);
            }
        }
        assert forall|i: int, j: int| 0 <= i < j < after.len() implies (
        #[trigger] after[i]).request_id != (#[trigger] after[j]).request_id by {
            assert(rows[i].request_id != rows[j].request_id);
        }
    } else {
        assert forall|i: int| 0 <= i < rows.len() implies rows[i].request_id
            != update.request_id by {
            if rows[i].request_id == update.request_id {
                assert(has_request(rows, update.request_id));
            }
        }
    }
}

/// With one row per request identifier, an identifier is counted once if it
/// is in the table and not at all otherwise.
pub proof fn lemma_unique_counts_once(rows: Seq<RequestLogView>, request_id: Seq<char>, upto: int)
    requires
        ids_unique(rows),
        0 <= upto <= rows.len(),
    ensures
        count_request(rows, request_id, upto) == if exists|i: int|
            0 <= i < upto && (#[trigger] rows[i]).request_id == request_id {
            1nat
        } else {
            0nat
        },
    decreases upto,
{
    if upto > 0 {
        lemma_unique_counts_once(rows, request_id, upto - 1);
        if rows[upto - 1].request_id == request_id {
            assert forall|i: int| 0 <= i < upto - 1 implies (#[trigger] rows[i]).request_id
                != request_id by {
                assert(rows[i].request_id != rows[upto - 1].request_id);
            }
        }
    }
}

/// A stream leaves exactly one row: the row written at dispatch, completed
/// with the final totals under the same identifier and timestamp. Writing
/// the row again changes nothing.
pub proof fn lemma_stream_leaves_one_row(
    rows: Seq<RequestLogView>,
    start: RequestLogView,
    finish: RequestLogView,
)
    requires
        ids_unique(rows),
        !has_request(rows, start.request_id),
        finish.request_id == start.request_id,
    ensures
        ({
            let after = updated(upserted(rows, start), finish);
            &&& ids_unique(after)
            &&& after.len() == rows.len() + 1
            &&& count_request(after, start.request_id, after.len() as int) == 1
            &&& after[rows.len() as int] == with_totals(start, finish)
            &&& after[rows.len() as int].timestamp == start.timestamp
            &&& upserted(after, start) == after
            &&& upserted(after, finish) == after
        }),
{
    let written = upserted(rows, start);
    lemma_upsert_keeps_unique(rows, start);
    lemma_update_keeps_identity(written, finish);
    let after = updated(written, finish);
    let n = rows.len() as int;
    assert(written[n] == start);
    lemma_unique_request_index(written, start.request_id, n);
    assert(after[n].request_id == start.request_id);
    lemma_unique_counts_once(after, start.request_id, after.len() as int);
    assert(has_request(after, start.request_id));
}

} // verus!
