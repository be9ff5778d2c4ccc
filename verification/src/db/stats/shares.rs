//! The entries of a ranking as shares of the range: where the ranking holds
//! every profile, the entries' tokens add up to the tokens of the range.

use vstd::prelude::*;

use crate::db::stats::ranking::{
    entries_upto, entry_of, first_below, lemma_first_below, opens_profile, ordered_upto, placed,
    profile_tokens, range_tokens_of, ranked, ranking_of, ProfileTotalView,
};
use crate::db::stats::types::{end_of_time, row_tokens, tokens_in};
use crate::logger::RequestLogView;

verus! {

/// The tokens of the entries of a list, added up.
pub open spec fn sum_of(list: Seq<ProfileTotalView>) -> int
    decreases list.len(),
{
    if list.len() == 0 {
        0
    } else {
        sum_of(list.drop_last()) + list.last().total_tokens
    }
}

/// The tokens, among the first `rows_upto` rows, of the profiles that the
/// first `upto` rows open.
pub open spec fn opened_tokens(rows: Seq<RequestLogView>, from: int, upto: int, rows_upto: int) -> int
    decreases upto,
{
    if upto <= 0 {
        0
    } else {
        opened_tokens(rows, from, upto - 1, rows_upto) + if opens_profile(rows, from, upto - 1) {
            profile_tokens(rows, rows[upto - 1].profile_id, from, rows_upto)
        } else {
            0int
        }
    }
}

/// No row counts a negative number of tokens.
pub open spec fn counts_are_natural(rows: Seq<RequestLogView>) -> bool {
    forall|i: int| 0 <= i < rows.len() ==> row_tokens(#[trigger] rows[i]) >= 0
}

proof fn lemma_sum_push(list: Seq<ProfileTotalView>, entry: ProfileTotalView)
    ensures
        sum_of(list.push(entry)) == sum_of(list) + entry.total_tokens,
{
    assert(list.push(entry).drop_last() =~= list);
}

proof fn lemma_sum_insert(list: Seq<ProfileTotalView>, at: int, entry: ProfileTotalView)
    requires
        0 <= at <= list.len(),
    ensures
        sum_of(list.insert(at, entry)) == sum_of(list) + entry.total_tokens,
    decreases list.len(),
{
    if at == list.len() {
        assert(list.insert(at, entry) =~= list.push(entry));
        lemma_sum_push(list, entry);
    } else {
        let after = list.insert(at, entry);
        assert(after.drop_last() =~= list.drop_last().insert(at, entry));
        assert(after.last() == list.last());
        lemma_sum_insert(list.drop_last(), at, entry);
    }
}

/// Ordering the entries keeps their number, their tokens as a whole, and
/// what holds of the range's tokens in each.
proof fn lemma_ordered_keeps(entries: Seq<ProfileTotalView>, upto: int, range_tokens: i32)
    requires
        0 <= upto <= entries.len(),
        forall|i: int| 0 <= i < entries.len() ==> (#[trigger] entries[i]).range_tokens == range_tokens,
    ensures
        ordered_upto(entries, upto).len() == upto,
        sum_of(ordered_upto(entries, upto)) == sum_of(entries.subrange(0, upto)),
        forall|i: int|
            0 <= i < upto ==> (#[trigger] ordered_upto(entries, upto)[i]).range_tokens
                == range_tokens,
    decreases upto,
{
    if upto > 0 {
        lemma_ordered_keeps(entries, upto - 1, range_tokens);
        let before = ordered_upto(entries, upto - 1);
        let entry = entries[upto - 1];
        let at = first_below(before, entry.total_tokens, 0);
        lemma_first_below(before, entry.total_tokens, 0);
        lemma_sum_insert(before, at, entry);
        assert(entries.subrange(0, upto) =~= entries.subrange(0, upto - 1).push(entry));
        lemma_sum_push(entries.subrange(0, upto - 1), entry);
        let after = placed(before, entry);
        assert forall|i: int| 0 <= i < upto implies (#[trigger] after[i]).range_tokens
            == range_tokens by {
            if i < at {
                assert(after[i] == before[i]);
            } else if i == at {
                assert(after[i] == entry);
            } else {
                assert(after[i] == before[i - 1]);
            }
        }
    } else {
        assert(entries.subrange(0, upto) =~= Seq::<ProfileTotalView>::empty());
    }
}

/// Giving each entry its rank keeps the tokens as a whole, where no entry is
/// cut off.
proof fn lemma_ranked_keeps(list: Seq<ProfileTotalView>, limit: int)
    requires
        list.len() <= limit,
    ensures
        sum_of(ranked(list, limit)) == sum_of(list),
    decreases list.len(),
{
    if list.len() > 0 {
        lemma_ranked_keeps(list.drop_last(), limit);
        assert(ranked(list, limit).drop_last() =~= ranked(list.drop_last(), limit));
        assert(ranked(list, limit).last().total_tokens == list.last().total_tokens);
    }
}

/// Where no row counts a negative number, a profile's tokens are none at
/// least and the tokens of the range at most.
proof fn lemma_profile_within_range(
    rows: Seq<RequestLogView>,
    profile_id: Seq<char>,
    from: int,
    upto: int,
)
    requires
        counts_are_natural(rows),
        0 <= upto <= rows.len(),
    ensures
        0 <= profile_tokens(rows, profile_id, from, upto) <= tokens_in(
            rows,
            from,
            end_of_time(),
            upto,
        ),
    decreases upto,
{
    if upto > 0 {
        lemma_profile_within_range(rows, profile_id, from, upto - 1);
        assert(row_tokens(rows[upto - 1]) >= 0);
    }
}

/// Where no row counts a negative number, the tokens of a range are none at
/// least.
proof fn lemma_range_is_natural(rows: Seq<RequestLogView>, from: int, upto: int)
    requires
        counts_are_natural(rows),
        0 <= upto <= rows.len(),
    ensures
        0 <= tokens_in(rows, from, end_of_time(), upto),
    decreases upto,
{
    if upto > 0 {
        lemma_range_is_natural(rows, from, upto - 1);
        assert(row_tokens(rows[upto - 1]) >= 0);
    }
}

/// A row that counts has a row at or before it that opens its profile.
proof fn lemma_profile_is_opened(rows: Seq<RequestLogView>, from: int, at: int) -> (opener: int)
    requires
        0 <= at < rows.len(),
        from <= rows[at].timestamp,
    ensures
        0 <= opener <= at,
        opens_profile(rows, from, opener),
        rows[opener].profile_id == rows[at].profile_id,
    decreases at,
{
    if opens_profile(rows, from, at) {
        at
    } else {
        let earlier = choose|j: int|
            0 <= j < at && from <= (#[trigger] rows[j]).timestamp && rows[j].profile_id
                == rows[at].profile_id;
        lemma_profile_is_opened(rows, from, earlier)
    }
}

/// A further row adds its tokens to the profiles that are open exactly when
/// the row that opens its profile is among those that were looked at.
proof fn lemma_row_goes_to_its_opener(
    rows: Seq<RequestLogView>,
    from: int,
    upto: int,
    at: int,
    opener: int,
)
    requires
        0 <= upto <= rows.len(),
        0 <= at < rows.len(),
        from <= rows[at].timestamp,
        0 <= opener <= at,
        opens_profile(rows, from, opener),
        rows[opener].profile_id == rows[at].profile_id,
    ensures
        opened_tokens(rows, from, upto, at + 1) == opened_tokens(rows, from, upto, at) + if opener
            < upto {
            row_tokens(rows[at])
        } else {
            0int
        },
    decreases upto,
{
    if upto > 0 {
        lemma_row_goes_to_its_opener(rows, from, upto - 1, at, opener);
        let i = upto - 1;
        if opens_profile(rows, from, i) && i != opener {
            if rows[i].profile_id == rows[at].profile_id {
                if i < opener {
                    assert(from <= rows[i].timestamp);
                } else {
                    assert(from <= rows[opener].timestamp);
                }
                assert(false);
            }
        }
    }
}

/// A row that does not count adds nothing to any profile.
proof fn lemma_row_outside_adds_nothing(rows: Seq<RequestLogView>, from: int, upto: int, at: int)
    requires
        0 <= upto <= rows.len(),
        0 <= at < rows.len(),
        from > rows[at].timestamp,
    ensures
        opened_tokens(rows, from, upto, at + 1) == opened_tokens(rows, from, upto, at),
    decreases upto,
{
    if upto > 0 {
        lemma_row_outside_adds_nothing(rows, from, upto - 1, at);
    }
}

/// The tokens of all open profiles are the tokens of the range.
proof fn lemma_opened_is_the_range(rows: Seq<RequestLogView>, from: int, rows_upto: int)
    requires
        0 <= rows_upto <= rows.len(),
    ensures
        opened_tokens(rows, from, rows.len() as int, rows_upto) == tokens_in(
            rows,
            from,
            end_of_time(),
            rows_upto,
        ),
    decreases rows_upto,
{
    if rows_upto > 0 {
        let at = rows_upto - 1;
        lemma_opened_is_the_range(rows, from, at);
        if from <= rows[at].timestamp {
            let opener = lemma_profile_is_opened(rows, from, at);
            lemma_row_goes_to_its_opener(rows, from, rows.len() as int, at, opener);
        } else {
            lemma_row_outside_adds_nothing(rows, from, rows.len() as int, at);
        }
    } else {
        lemma_no_rows_no_tokens(rows, from, rows.len() as int);
    }
}

proof fn lemma_no_rows_no_tokens(rows: Seq<RequestLogView>, from: int, upto: int)
    ensures
        opened_tokens(rows, from, upto, 0) == 0,
    decreases upto,
{
    if upto > 0 {
        lemma_no_rows_no_tokens(rows, from, upto - 1);
    }
}

/// The entries of the open profiles hold the profiles' tokens, and each
/// holds the tokens of the range.
proof fn lemma_entries_hold_the_opened(rows: Seq<RequestLogView>, from: int, upto: int)
    requires
        counts_are_natural(rows),
        tokens_in(rows, from, end_of_time(), rows.len() as int) <= i32::MAX,
        0 <= upto <= rows.len(),
    ensures
        sum_of(entries_upto(rows, from, upto)) == opened_tokens(
            rows,
            from,
            upto,
            rows.len() as int,
        ),
        forall|i: int|
            0 <= i < entries_upto(rows, from, upto).len() ==> (#[trigger] entries_upto(
                rows,
                from,
                upto,
            )[i]).range_tokens == range_tokens_of(rows, from),
    decreases upto,
{
    if upto > 0 {
        lemma_entries_hold_the_opened(rows, from, upto - 1);
        if opens_profile(rows, from, upto - 1) {
            let entry = entry_of(rows, from, upto - 1);
            lemma_profile_within_range(rows, rows[upto - 1].profile_id, from, rows.len() as int);
            lemma_sum_push(entries_upto(rows, from, upto - 1), entry);
        }
    }
}

/// Where no row counts a negative number, the tokens of the range can be
/// shown as they are, and the ranking holds every profile of the range, the
/// tokens of its entries add up to the tokens of the range, which each entry
/// carries: the shares of the entries make the whole.
pub proof fn lemma_shares_make_the_whole(rows: Seq<RequestLogView>, from: int, limit: int)
    requires
        counts_are_natural(rows),
        tokens_in(rows, from, end_of_time(), rows.len() as int) <= i32::MAX,
        entries_upto(rows, from, rows.len() as int).len() <= limit,
    ensures
        sum_of(ranking_of(rows, from, limit)) == range_tokens_of(rows, from),
        forall|i: int|
            0 <= i < ranking_of(rows, from, limit).len() ==> (#[trigger] ranking_of(
                rows,
                from,
                limit,
            )[i]).range_tokens == range_tokens_of(rows, from),
{
    let n = rows.len() as int;
    let entries = entries_upto(rows, from, n);
    let total = range_tokens_of(rows, from);
    lemma_entries_hold_the_opened(rows, from, n);
    lemma_opened_is_the_range(rows, from, n);
    lemma_range_is_natural(rows, from, n);
    lemma_ordered_keeps(entries, entries.len() as int, total);
    assert(entries.subrange(0, entries.len() as int) =~= entries);
    let ordered = ordered_upto(entries, entries.len() as int);
    lemma_ranked_keeps(ordered, limit);
}

} // verus!
