//! Cutting texts at byte positions: removing a prefix and taking the first
//! line, with the proofs that the cuts fall between characters.

use vstd::prelude::*;
use vstd::string::*;
use vstd::utf8::*;

use crate::text::{bytes_start_with, lemma_utf8_injective, starts_with, utf8};

verus! {

/// The bytes of a concatenation are the concatenated bytes.
pub proof fn lemma_utf8_concat(a: Seq<char>, b: Seq<char>)
    ensures
        utf8(a + b) == utf8(a) + utf8(b),
    decreases a.len(),
{
    if a.len() == 0 {
        assert(a + b =~= b);
        assert(utf8(a) + utf8(b) =~= utf8(b));
    } else {
        lemma_utf8_concat(a.drop_first(), b);
        assert((a + b).drop_first() =~= a.drop_first() + b);
        assert((a + b)[0] == a[0]);
        assert(utf8(a + b) =~= utf8(a) + utf8(b));
    }
}

/// In well-formed UTF-8, a position right after a one-byte character that
/// starts at a character boundary is a character boundary too.
pub proof fn lemma_boundary_after_ascii(bytes: Seq<u8>, i: int)
    requires
        valid_utf8(bytes),
        0 <= i < bytes.len(),
        is_char_boundary(bytes, i),
        bytes[i] < 0x80,
    ensures
        is_char_boundary(bytes, i + 1),
    decreases bytes.len(),
{
    reveal_with_fuel(is_char_boundary, 2);
    reveal_with_fuel(valid_utf8, 2);
    let first = length_of_first_scalar(bytes);
    let rest = pop_first_scalar(bytes);
    if i == 0 {
        assert(is_leading_byte_width_1(bytes[0]));
        assert(first == 1);
        assert(is_char_boundary(rest, 0));
    } else {
        assert(1 <= first <= 4);
        assert(is_char_boundary(rest, i - first));
        assert(i - first >= 0);
        assert(rest[i - first] == bytes[i]);
        lemma_boundary_after_ascii(rest, i - first);
    }
}

/// Where well-formed UTF-8 begins with a well-formed prefix, the end of the
/// prefix is a character boundary.
pub proof fn lemma_prefix_boundary(bytes: Seq<u8>, prefix: Seq<u8>)
    requires
        valid_utf8(bytes),
        valid_utf8(prefix),
        starts_with(bytes, prefix),
    ensures
        is_char_boundary(bytes, prefix.len() as int),
    decreases prefix.len(),
{
    reveal_with_fuel(is_char_boundary, 2);
    reveal_with_fuel(valid_utf8, 2);
    if prefix.len() > 0 {
        let first = length_of_first_scalar(prefix);
        assert(bytes.subrange(0, prefix.len() as int) == prefix);
        assert(bytes[0] == bytes.subrange(0, prefix.len() as int)[0]);
        assert(length_of_first_scalar(bytes) == first);
        assert(1 <= first <= prefix.len());
        let rest = pop_first_scalar(bytes);
        let prest = pop_first_scalar(prefix);
        assert(rest.subrange(0, prest.len() as int) =~= prest) by {
            assert forall|k: int| 0 <= k < prest.len() implies rest[k] == prest[k] by {
                assert(bytes.subrange(0, prefix.len() as int)[k + first] == prefix[k + first]);
            }
        }
        lemma_prefix_boundary(rest, prest);
    }
}

/// The text that follows `prefix` in `s`, if `s` begins with `prefix`.
pub fn strip_prefix<'a>(s: &'a str, prefix: &str) -> (r: Option<&'a str>)
    ensures
        match r {
            Some(rest) => s@ == prefix@ + rest@,
            None => !starts_with(utf8(s@), utf8(prefix@)),
        },
{
    let bytes = s.as_bytes();
    let head = prefix.as_bytes();
    if !bytes_start_with(bytes, head) {
        return None;
    }
    proof {
        encode_utf8_valid_utf8(s@);
        encode_utf8_valid_utf8(prefix@);
        lemma_prefix_boundary(utf8(s@), utf8(prefix@));
    }
    let (_, rest) = s.split_at(head.len());
    proof {
        assert(utf8(s@) =~= utf8(prefix@) + utf8(rest@));
        lemma_utf8_concat(prefix@, rest@);
        lemma_utf8_injective(s@, prefix@ + rest@);
    }
    Some(rest)
}

/// A text that begins with `prefix` at the level of characters does so at
/// the level of bytes.
pub proof fn lemma_prefix_bytes(prefix: Seq<char>, rest: Seq<char>)
    ensures
        starts_with(utf8(prefix + rest), utf8(prefix)),
        utf8(prefix + rest).subrange(utf8(prefix).len() as int, utf8(prefix + rest).len() as int)
            == utf8(rest),
{
    lemma_utf8_concat(prefix, rest);
    assert((utf8(prefix) + utf8(rest)).subrange(0, utf8(prefix).len() as int) =~= utf8(prefix));
    assert((utf8(prefix) + utf8(rest)).subrange(
        utf8(prefix).len() as int,
        (utf8(prefix) + utf8(rest)).len() as int,
    ) =~= utf8(rest));
}

/// The position of the first line feed at or after `from`, or the length
/// where there is none.
pub open spec fn newline_at(bytes: Seq<u8>, from: int) -> int
    decreases bytes.len() - from,
{
    if from < 0 || from >= bytes.len() {
        bytes.len() as int
    } else if bytes[from] == 10 {
        from
    } else {
        newline_at(bytes, from + 1)
    }
}

/// The first line of a text, without its terminator: what stands before the
/// first line feed, less one carriage return directly before that line feed.
/// A last line without a line feed is taken whole.
pub open spec fn first_line(bytes: Seq<u8>) -> Seq<u8> {
    let end = newline_at(bytes, 0);
    let raw = bytes.subrange(0, end);
    if end < bytes.len() && raw.len() > 0 && raw.last() == 13 {
        raw.drop_last()
    } else {
        raw
    }
}

/// What follows the first line and its terminator.
pub open spec fn after_first_line(bytes: Seq<u8>) -> Seq<u8> {
    let end = newline_at(bytes, 0);
    if end < bytes.len() {
        bytes.subrange(end + 1, bytes.len() as int)
    } else {
        Seq::<u8>::empty()
    }
}

/// The first line feed is within the text or at its end.
pub proof fn lemma_newline_at_bounds(bytes: Seq<u8>, from: int)
    requires
        0 <= from <= bytes.len(),
    ensures
        from <= newline_at(bytes, from) <= bytes.len(),
        newline_at(bytes, from) < bytes.len() ==> bytes[newline_at(bytes, from)] == 10,
    decreases bytes.len() - from,
{
    if from < bytes.len() && bytes[from] != 10 {
        lemma_newline_at_bounds(bytes, from + 1);
    }
}

/// Splits a text into its first line and what follows it.
pub fn split_line<'a>(s: &'a str) -> (r: (&'a str, &'a str))
    ensures
        utf8(r.0@) == first_line(utf8(s@)),
        utf8(r.1@) == after_first_line(utf8(s@)),
{
    let bytes = s.as_bytes();
    let mut i: usize = 0;
    while i < bytes.len() && bytes[i] != 10
        invariant
            i <= bytes.len(),
            bytes@ == utf8(s@),
            newline_at(bytes@, i as int) == newline_at(bytes@, 0),
        decreases bytes.len() - i,
    {
        i += 1;
    }
    proof {
        encode_utf8_valid_utf8(s@);
        lemma_newline_at_bounds(bytes@, i as int);
        assert(newline_at(bytes@, 0) == i);
    }
    if i >= bytes.len() {
        proof {
            is_char_boundary_start_end_of_seq(utf8(s@));
        }
        let (line, rest) = s.split_at(i);
        proof {
            assert(utf8(line@) =~= first_line(utf8(s@)));
            assert(utf8(rest@) =~= after_first_line(utf8(s@)));
        }
        return (line, rest);
    }
    proof {
        is_char_boundary_iff_not_is_continuation_byte(utf8(s@), i as int);
    }
    let (head, tail) = s.split_at(i);
    proof {
        encode_utf8_valid_utf8(tail@);
        is_char_boundary_start_end_of_seq(utf8(tail@));
        assert(utf8(tail@)[0] == bytes@[i as int]);
        lemma_boundary_after_ascii(utf8(tail@), 0);
    }
    let (_, rest) = tail.split_at(1);
    proof {
        assert(utf8(rest@) =~= after_first_line(utf8(s@)));
    }
    let hb = head.as_bytes();
    if hb.len() > 0 && hb[hb.len() - 1] == 13 {
        proof {
            encode_utf8_valid_utf8(head@);
            is_char_boundary_iff_not_is_continuation_byte(utf8(head@), hb@.len() - 1);
        }
        let (line, _) = head.split_at(hb.len() - 1);
        proof {
            assert(utf8(line@) =~= first_line(utf8(s@)));
        }
        (line, rest)
    } else {
        proof {
            assert(utf8(head@) =~= first_line(utf8(s@)));
        }
        (head, rest)
    }
}

} // verus!
