//! The ranking of profiles by the tokens they used.

use vstd::prelude::*;
use vstd::string::*;

use crate::db::logs::log_views;
use crate::db::stats::time_range::{get_timestamp_for_range, is_range, range_failure};
use crate::db::stats::token_stats::window_sums;
use crate::db::stats::types::{end_of_time, row_tokens, shown, tokens_in};
use crate::logger::{RequestLog, RequestLogView};
use crate::text::str_eq;

verus! {

/// One entry of the ranking.
#[derive(Debug)]
pub struct ProfileTotal {
    pub profile_id: String,
    /// The name on the profile's latest row.
    pub profile_name: String,
    pub total_tokens: i32,
    /// The place in the ranking, from 1.
    pub rank: i32,
    /// The tokens of all rows of the range, of which the entry's tokens are
    /// a share.
    pub range_tokens: i32,
}

/// The mathematical content of a [`ProfileTotal`].
pub struct ProfileTotalView {
    pub profile_id: Seq<char>,
    pub profile_name: Seq<char>,
    pub total_tokens: i32,
    pub rank: i32,
    pub range_tokens: i32,
}

impl View for ProfileTotal {
    type V = ProfileTotalView;

    open spec fn view(&self) -> ProfileTotalView {
        ProfileTotalView {
            profile_id: self.profile_id@,
            profile_name: self.profile_name@,
            total_tokens: self.total_tokens,
            rank: self.rank,
            range_tokens: self.range_tokens,
        }
    }
}

/// The views of a ranking, in order.
pub open spec fn total_views(list: Seq<ProfileTotal>) -> Seq<ProfileTotalView> {
    Seq::new(list.len(), |i: int| list[i]@)
}

/// The number of entries that a ranking has at most: what is asked for,
/// ten where nothing is asked, and never less than 1 or more than 100.
pub open spec fn limit_of(limit: Option<i32>) -> i32 {
    let wanted = match limit {
        Some(l) => l,
        None => 10,
    };
    if wanted < 1 {
        1
    } else if wanted > 100 {
        100
    } else {
        wanted
    }
}

/// The number of entries that a ranking has at most.
pub fn ranking_limit(limit: Option<i32>) -> (r: i32)
    ensures
        r == limit_of(limit),
        1 <= r <= 100,
{
    let wanted: i32 = match limit {
        Some(l) => l,
        None => 10,
    };
    if wanted < 1 {
        1
    } else if wanted > 100 {
        100
    } else {
        wanted
    }
}

/// The moment from which rows count: the given one, or the beginning of
/// time.
pub open spec fn since(from: Option<i64>) -> int {
    match from {
        Some(t) => t as int,
        None => i64::MIN as int,
    }
}

/// True when row `i` counts and no counting row before it is of its profile.
pub open spec fn opens_profile(rows: Seq<RequestLogView>, from: int, i: int) -> bool {
    &&& from <= rows[i].timestamp
    &&& forall|j: int|
        0 <= j < i && from <= (#[trigger] rows[j]).timestamp ==> rows[j].profile_id
            != rows[i].profile_id
}

/// The tokens of the counting rows of a profile, among the first `upto`.
pub open spec fn profile_tokens(
    rows: Seq<RequestLogView>,
    profile_id: Seq<char>,
    from: int,
    upto: int,
) -> int
    decreases upto,
{
    if upto <= 0 {
        0
    } else {
        profile_tokens(rows, profile_id, from, upto - 1) + if from <= rows[upto - 1].timestamp
            && rows[upto - 1].profile_id == profile_id {
            row_tokens(rows[upto - 1])
        } else {
            0int
        }
    }
}

/// The position of the latest row of a profile among the first `upto`, or
/// -1: the row with the greatest timestamp, the last of several such.
pub open spec fn latest_row(rows: Seq<RequestLogView>, profile_id: Seq<char>, upto: int) -> int
    decreases upto,
{
    if upto <= 0 {
        -1
    } else {
        let before = latest_row(rows, profile_id, upto - 1);
        if rows[upto - 1].profile_id == profile_id && (before < 0 || rows[upto - 1].timestamp
            >= rows[before].timestamp) {
            upto - 1
        } else {
            before
        }
    }
}

/// The tokens of all rows written at or after `from`, as they are shown.
pub open spec fn range_tokens_of(rows: Seq<RequestLogView>, from: int) -> i32 {
    shown(tokens_in(rows, from, end_of_time(), rows.len() as int))
}

/// The entry of the profile of row `i`, before it has a rank: its counting
/// tokens, under the name on its latest row, beside the tokens of the range.
pub open spec fn entry_of(rows: Seq<RequestLogView>, from: int, i: int) -> ProfileTotalView {
    let id = rows[i].profile_id;
    let latest = latest_row(rows, id, rows.len() as int);
    ProfileTotalView {
        profile_id: id,
        profile_name: if latest >= 0 {
            rows[latest].profile_name
        } else {
            rows[i].profile_name
        },
        total_tokens: shown(profile_tokens(rows, id, from, rows.len() as int)),
        rank: 0,
        range_tokens: range_tokens_of(rows, from),
    }
}

/// The entries of the profiles that the first `upto` rows open, in the
/// order of their first rows.
pub open spec fn entries_upto(rows: Seq<RequestLogView>, from: int, upto: int) -> Seq<
    ProfileTotalView,
>
    decreases upto,
{
    if upto <= 0 {
        Seq::<ProfileTotalView>::empty()
    } else {
        let rest = entries_upto(rows, from, upto - 1);
        if opens_profile(rows, from, upto - 1) {
            rest.push(entry_of(rows, from, upto - 1))
        } else {
            rest
        }
    }
}

/// The first position at or after `at` whose entry has fewer tokens than
/// `total`, or the length.
pub open spec fn first_below(list: Seq<ProfileTotalView>, total: i32, at: int) -> int
    decreases list.len() - at,
{
    if at < 0 || at >= list.len() {
        list.len() as int
    } else if list[at].total_tokens < total {
        at
    } else {
        first_below(list, total, at + 1)
    }
}

/// The first entry with fewer tokens is in the list or at its end; no entry
/// before it has fewer tokens.
pub proof fn lemma_first_below(list: Seq<ProfileTotalView>, total: i32, at: int)
    requires
        0 <= at <= list.len(),
    ensures
        at <= first_below(list, total, at) <= list.len(),
        forall|k: int|
            at <= k < first_below(list, total, at) ==> (#[trigger] list[k]).total_tokens >= total,
        first_below(list, total, at) < list.len() ==> list[first_below(
            list,
            total,
            at,
        )].total_tokens < total,
    decreases list.len() - at,
{
    if at < list.len() && list[at].total_tokens >= total {
        lemma_first_below(list, total, at + 1);
    }
}

/// The list with an entry put behind all entries that have at least as many
/// tokens.
pub open spec fn placed(list: Seq<ProfileTotalView>, entry: ProfileTotalView) -> Seq<
    ProfileTotalView,
> {
    list.insert(first_below(list, entry.total_tokens, 0), entry)
}

/// The first `upto` entries, each placed in turn.
pub open spec fn ordered_upto(entries: Seq<ProfileTotalView>, upto: int) -> Seq<ProfileTotalView>
    decreases upto,
{
    if upto <= 0 {
        Seq::<ProfileTotalView>::empty()
    } else {
        placed(ordered_upto(entries, upto - 1), entries[upto - 1])
    }
}

/// No entry has fewer tokens than one behind it.
pub open spec fn descends(list: Seq<ProfileTotalView>) -> bool {
    forall|i: int, j: int|
        0 <= i < j < list.len() ==> (#[trigger] list[i]).total_tokens >= (
        #[trigger] list[j]).total_tokens
}

/// The first `limit` entries of a list, each with its place as its rank.
pub open spec fn ranked(list: Seq<ProfileTotalView>, limit: int) -> Seq<ProfileTotalView> {
    Seq::new(
        if list.len() <= limit {
            list.len()
        } else if limit < 0 {
            0nat
        } else {
            limit as nat
        },
        |i: int| ProfileTotalView { rank: (i + 1) as i32, ..list[i] },
    )
}

/// The ranking of a log: the profiles of the rows written at or after
/// `from`, by their tokens, the greatest first, at most `limit` of them.
/// Profiles with equal tokens stand in the order of their first rows.
pub open spec fn ranking_of(rows: Seq<RequestLogView>, from: int, limit: int) -> Seq<
    ProfileTotalView,
> {
    let entries = entries_upto(rows, from, rows.len() as int);
    ranked(ordered_upto(entries, entries.len() as int), limit)
}

/// Placing an entry keeps a descending list descending.
pub proof fn lemma_placed_descends(list: Seq<ProfileTotalView>, entry: ProfileTotalView)
    requires
        descends(list),
    ensures
        descends(placed(list, entry)),
        placed(list, entry).len() == list.len() + 1,
{
    let at = first_below(list, entry.total_tokens, 0);
    lemma_first_below(list, entry.total_tokens, 0);
    let after = placed(list, entry);
    assert forall|i: int, j: int| 0 <= i < j < after.len() implies (
    #[trigger] after[i]).total_tokens >= (#[trigger] after[j]).total_tokens by {
        if j < at {
            assert(after[i] == list[i] && after[j] == list[j]);
        } else if j == at {
            assert(after[i] == list[i]);
        } else if i == at {
            assert(after[j] == list[j - 1]);
            assert(list[at].total_tokens >= list[j - 1].total_tokens || at == j - 1);
        } else if i < at {
            assert(after[i] == list[i] && after[j] == list[j - 1]);
        } else {
            assert(after[i] == list[i - 1] && after[j] == list[j - 1]);
        }
    }
}

/// The placed entries descend, and none is lost.
pub proof fn lemma_ordered_descends(entries: Seq<ProfileTotalView>, upto: int)
    requires
        0 <= upto <= entries.len(),
    ensures
        descends(ordered_upto(entries, upto)),
        ordered_upto(entries, upto).len() == upto,
    decreases upto,
{
    if upto > 0 {
        lemma_ordered_descends(entries, upto - 1);
        lemma_placed_descends(ordered_upto(entries, upto - 1), entries[upto - 1]);
    }
}

/// A ranking descends by tokens, has at most `limit` entries, and its ranks
/// count up from 1.
pub proof fn lemma_ranking_descends(rows: Seq<RequestLogView>, from: int, limit: int)
    requires
        0 <= limit <= 100,
    ensures
        descends(ranking_of(rows, from, limit)),
        ranking_of(rows, from, limit).len() <= limit,
        forall|i: int|
            0 <= i < ranking_of(rows, from, limit).len() ==> (#[trigger] ranking_of(
                rows,
                from,
                limit,
            )[i]).rank == i + 1,
{
    let entries = entries_upto(rows, from, rows.len() as int);
    let ordered = ordered_upto(entries, entries.len() as int);
    lemma_ordered_descends(entries, entries.len() as int);
    let r = ranking_of(rows, from, limit);
    assert forall|i: int, j: int| 0 <= i < j < r.len() implies (#[trigger] r[i]).total_tokens >= (
    #[trigger] r[j]).total_tokens by {
        assert(ordered[i].total_tokens >= ordered[j].total_tokens);
    }
}

fn clamp_wide(n: i128) -> (r: i32)
    ensures
        r == shown(n as int),
{
    if n > 0x7fff_ffff {
        i32::MAX
    } else if n < -0x8000_0000 {
        i32::MIN
    } else {
        n as i32
    }
}

fn counts(log: &RequestLog, from: Option<i64>) -> (r: bool)
    ensures
        r == (since(from) <= log@.timestamp),
{
    match from {
        Some(t) => log.timestamp >= t,
        None => true,
    }
}

fn opens(logs: &Vec<RequestLog>, from: Option<i64>, i: usize) -> (r: bool)
    requires
        i < logs@.len(),
    ensures
        r == opens_profile(log_views(logs@), since(from), i as int),
{
    let ghost rows = log_views(logs@);
    if !counts(&logs[i], from) {
        return false;
    }
    let mut j: usize = 0;
    while j < i
        invariant
            j <= i < logs@.len(),
            rows == log_views(logs@),
            forall|k: int|
                0 <= k < j && since(from) <= (#[trigger] rows[k]).timestamp ==> rows[k].profile_id
                    != rows[i as int].profile_id,
        decreases i - j,
    {
        assert(rows[j as int] == logs@[j as int]@);
        if counts(&logs[j], from) && str_eq(
            logs[j].profile_id.as_str(),
            logs[i].profile_id.as_str(),
        ) {
            return false;
        }
        j += 1;
    }
    true
}

fn entry(logs: &Vec<RequestLog>, from: Option<i64>, i: usize, range_tokens: i32) -> (r:
    ProfileTotal)
    requires
        i < logs@.len(),
        range_tokens == range_tokens_of(log_views(logs@), since(from)),
    ensures
        r@ == entry_of(log_views(logs@), since(from), i as int),
{
    let ghost rows = log_views(logs@);
    let id = logs[i].profile_id.as_str();
    let mut total: i128 = 0;
    let mut latest: usize = i;
    let mut found = false;
    let mut k: usize = 0;
    while k < logs.len()
        invariant
            k <= logs@.len(),
            i < logs@.len(),
            rows == log_views(logs@),
            id@ == rows[i as int].profile_id,
            total == profile_tokens(rows, id@, since(from), k as int),
            -(k as int) * 0x2_0000_0000 <= total <= (k as int) * 0x2_0000_0000,
            latest < logs@.len(),
            found <==> latest_row(rows, id@, k as int) >= 0,
            found ==> latest == latest_row(rows, id@, k as int),
        decreases logs.len() - k,
    {
        let log = &logs[k];
        assert(rows[k as int] == log@);
        if str_eq(log.profile_id.as_str(), id) {
            if counts(log, from) {
                total = total + (log.input_tokens as i128) + (log.output_tokens as i128) + (
                log.cache_creation_input_tokens as i128) + (log.cache_read_input_tokens as i128);
            }
            if !found || log.timestamp >= logs[latest].timestamp {
                assert(rows[latest as int] == logs@[latest as int]@);
                latest = k;
                found = true;
            } else {
                assert(rows[latest as int] == logs@[latest as int]@);
            }
        }
        k += 1;
    }
    assert(rows[latest as int] == logs@[latest as int]@);
    assert(rows[i as int] == logs@[i as int]@);
    ProfileTotal {
        profile_id: logs[i].profile_id.clone(),
        profile_name: if found {
            logs[latest].profile_name.clone()
        } else {
            logs[i].profile_name.clone()
        },
        total_tokens: clamp_wide(total),
        rank: 0,
        range_tokens,
    }
}

fn place(list: &mut Vec<ProfileTotal>, item: ProfileTotal)
    ensures
        total_views(final(list)@) == placed(total_views(old(list)@), item@),
{
    let ghost before = total_views(list@);
    let mut at: usize = 0;
    while at < list.len() && list[at].total_tokens >= item.total_tokens
        invariant
            at <= list@.len(),
            list@ == old(list)@,
            before == total_views(list@),
            first_below(before, item@.total_tokens, at as int) == first_below(
                before,
                item@.total_tokens,
                0,
            ),
        decreases list.len() - at,
    {
        assert(before[at as int] == list@[at as int]@);
        at += 1;
    }
    proof {
        if at < list@.len() {
            assert(before[at as int] == list@[at as int]@);
        }
        assert(first_below(before, item@.total_tokens, 0) == at);
    }
    list.insert(at, item);
    proof {
        assert(total_views(list@) =~= before.insert(at as int, item@));
    }
}

/// The ranking of a log: the profiles of the rows written at or after
/// `from`, or of all rows, by their tokens.
pub fn profile_ranking_at(logs: &Vec<RequestLog>, from: Option<i64>, limit: Option<i32>) -> (r: Vec<
    ProfileTotal,
>)
    ensures
        total_views(r@) == ranking_of(log_views(logs@), since(from), limit_of(limit) as int),
{
    let ghost rows = log_views(logs@);
    let range_tokens = window_sums(
        logs,
        match from {
            Some(t) => t as i128,
            None => -0x8000_0000_0000_0000,
        },
        0x8000_0000_0000_0000,
    ).tokens;
    let mut entries: Vec<ProfileTotal> = Vec::new();
    let mut i: usize = 0;
    while i < logs.len()
        invariant
            i <= logs@.len(),
            rows == log_views(logs@),
            range_tokens == range_tokens_of(rows, since(from)),
            total_views(entries@) == entries_upto(rows, since(from), i as int),
        decreases logs.len() - i,
    {
        let ghost before = total_views(entries@);
        if opens(logs, from, i) {
            entries.push(entry(logs, from, i, range_tokens));
            proof {
                assert(total_views(entries@) =~= before.push(entry_of(rows, since(from), i as int)));
            }
        }
        i += 1;
    }
    let ghost all = total_views(entries@);
    let mut ordered: Vec<ProfileTotal> = Vec::new();
    let n = entries.len();
    let mut k: usize = 0;
    while k < n
        invariant
            k <= n == entries@.len(),
            all == total_views(entries@),
            total_views(ordered@) == ordered_upto(all, k as int),
            ordered@.len() == k,
        decreases n - k,
    {
        assert(all[k as int] == entries@[k as int]@);
        let item = ProfileTotal {
            profile_id: entries[k].profile_id.clone(),
            profile_name: entries[k].profile_name.clone(),
            total_tokens: entries[k].total_tokens,
            rank: entries[k].rank,
            range_tokens: entries[k].range_tokens,
        };
        place(&mut ordered, item);
        proof {
            lemma_ordered_descends(all, k as int + 1);
            assert(total_views(ordered@).len() == ordered@.len());
        }
        k += 1;
    }
    let ghost sorted = total_views(ordered@);
    let most = ranking_limit(limit) as usize;
    if ordered.len() > most {
        ordered.truncate(most);
    }
    let ghost want = ranked(sorted, limit_of(limit) as int);
    let mut p: usize = 0;
    while p < ordered.len()
        invariant
            p <= ordered@.len(),
            ordered@.len() == want.len(),
            ordered@.len() <= 100,
            ordered@.len() <= sorted.len(),
            want == ranked(sorted, limit_of(limit) as int),
            forall|q: int| 0 <= q < p ==> (#[trigger] ordered@[q])@ == want[q],
            forall|q: int| p <= q < ordered@.len() ==> (#[trigger] ordered@[q])@ == sorted[q],
        decreases ordered.len() - p,
    {
        let ghost snapshot = ordered@;
        ordered[p].rank = (p + 1) as i32;
        proof {
            assert forall|q: int| 0 <= q < p + 1 implies (#[trigger] ordered@[q])@ == want[q] by {
                if q < p {
                    assert(ordered@[q] == snapshot[q]);
                } else {
                    assert(snapshot[q]@ == sorted[q]);
                }
            }
            assert forall|q: int| p + 1 <= q < ordered@.len() implies (#[trigger] ordered@[q])@
                == sorted[q] by {
                assert(ordered@[q] == snapshot[q]);
            }
        }
        p += 1;
    }
    proof {
        assert(total_views(ordered@) =~= want);
    }
    ordered
}

/// Today's ranking of a log for a range: the rows since the beginning of
/// the range count, and all rows where no range or none of the known ones is
/// named.
pub fn get_profile_consumption_ranking(
    logs: &Vec<RequestLog>,
    time_range: Option<&str>,
    limit: Option<i32>,
) -> (r: Result<Vec<ProfileTotal>, String>)
    ensures
        match r {
            Ok(list) => exists|from: Option<i64>|
                total_views(list@) == ranking_of(
                    log_views(logs@),
                    since(from),
                    limit_of(limit) as int,
                ),
            Err(e) => time_range matches Some(name) && is_range(name@) && e@ == range_failure(
                name@,
            ),
        },
        match time_range {
            Some(name) => !is_range(name@) ==> (r matches Ok(list) && total_views(list@)
                == ranking_of(log_views(logs@), since(None), limit_of(limit) as int)),
            None => true,
        },
        time_range is None ==> (r matches Ok(list) && total_views(list@) == ranking_of(
            log_views(logs@),
            since(None),
            limit_of(limit) as int,
        )),
{
    let from = match time_range {
        Some(name) => match get_timestamp_for_range(name) {
            Ok(start) => start,
            Err(e) => {
                return Err(e);
            },
        },
        None => None,
    };
    Ok(profile_ranking_at(logs, from, limit))
}

} // verus!
