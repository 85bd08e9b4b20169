//! What holds of texts and their parts.

use crate::text::{
    has_part, has_prefix, has_suffix, hex, joined, lemma_pieces_nonempty, lowered, lowered_char,
    part_at, pieces, signed_decimal, trimmed, trimmed_end, trimmed_start, white,
};
use vstd::prelude::*;

verus! {

/// Every printed ASCII character is part of a word; a blank, a tab and the line breaks are not.
pub proof fn words_are_set_apart_by_white_space(c: char)
    ensures
        white(' ') && white('\t') && white('\n') && white('\r'),
        '!' <= c && c <= '~' ==> !white(c),
{
}

/// Lower case changes the 26 letters alone, each to its own small letter, and nothing twice.
pub proof fn lower_case_changes_letters_alone(s: Seq<char>, i: int)
    requires
        0 <= i < s.len(),
    ensures
        lowered(s).len() == s.len(),
        lowered(lowered(s)) == lowered(s),
        'A' <= s[i] && s[i] <= 'Z' ==> 'a' <= lowered(s)[i] && lowered(s)[i] <= 'z' && lowered(
            s,
        )[i] as int - 'a' as int == s[i] as int - 'A' as int,
        !('A' <= s[i] && s[i] <= 'Z') ==> lowered(s)[i] == s[i],
{
    assert(lowered(lowered(s)) =~= lowered(s)) by {
        assert forall|k: int| 0 <= k < s.len() implies lowered_char(lowered_char(s[k]))
            == lowered_char(#[trigger] s[k]) by {}
    }
}

proof fn lemma_trimmed_start(s: Seq<char>) -> (k: int)
    ensures
        0 <= k <= s.len(),
        trimmed_start(s) == s.skip(k),
        forall|i: int| 0 <= i < k ==> white(#[trigger] s[i]),
        k < s.len() ==> !white(s[k]),
    decreases s.len(),
{
    if s.len() > 0 && white(s[0]) {
        let rest = s.drop_first();
        let k = lemma_trimmed_start(rest);
        assert(rest.skip(k) =~= s.skip(k + 1));
        assert forall|i: int| 0 <= i < k + 1 implies white(#[trigger] s[i]) by {
            if i > 0 {
                assert(s[i] == rest[i - 1]);
            }
        }
        if k + 1 < s.len() {
            assert(rest[k] == s[k + 1]);
        }
        k + 1
    } else {
        assert(s.skip(0) =~= s);
        0
    }
}

proof fn lemma_trimmed_end(s: Seq<char>) -> (k: int)
    ensures
        0 <= k <= s.len(),
        trimmed_end(s) == s.take(k),
        forall|i: int| k <= i < s.len() ==> white(#[trigger] s[i]),
        k > 0 ==> !white(s[k - 1]),
    decreases s.len(),
{
    if s.len() > 0 && white(s.last()) {
        let rest = s.drop_last();
        let k = lemma_trimmed_end(rest);
        assert(rest.take(k) =~= s.take(k));
        assert forall|i: int| k <= i < s.len() implies white(#[trigger] s[i]) by {
            if i < s.len() - 1 {
                assert(s[i] == rest[i]);
            }
        }
        k
    } else {
        assert(s.take(s.len() as int) =~= s);
        s.len() as int
    }
}

/// A trimmed text is the text without the white space on either side, and no more: it begins and
/// ends with a character of a word, and what is cut off is white space.
pub proof fn trimming_cuts_white_space_alone(s: Seq<char>)
    ensures
        trimmed(s).len() > 0 ==> !white(trimmed(s)[0]) && !white(trimmed(s).last()),
        exists|a: int, b: int|
            #![trigger s.subrange(a, b)]
            0 <= a <= b <= s.len() && trimmed(s) == s.subrange(a, b) && (forall|i: int|
                0 <= i < a || b <= i < s.len() ==> white(#[trigger] s[i])),
{
    let a = lemma_trimmed_start(s);
    let t = s.skip(a);
    let k = lemma_trimmed_end(t);
    let b = a + k;
    assert(t.take(k) =~= s.subrange(a, b));
    assert forall|i: int| 0 <= i < a || b <= i < s.len() implies white(#[trigger] s[i]) by {
        if b <= i {
            assert(t[i - a] == s[i]);
        }
    }
    if trimmed(s).len() > 0 {
        assert(trimmed(s)[0] == s[a]);
        assert(trimmed(s).last() == t[k - 1]);
    }
}

/// A text begins, and ends, with another exactly where it is the other with something more behind,
/// or before it; and holds it where it has something more on both sides.
pub proof fn parts_are_what_they_say(s: Seq<char>, part: Seq<char>, rest: Seq<char>)
    ensures
        has_prefix(s, part) <==> exists|more: Seq<char>| #[trigger] (part + more) == s,
        has_suffix(s, part) <==> exists|more: Seq<char>| #[trigger] (more + part) == s,
        has_prefix(s, part) ==> has_part(s, part),
        has_suffix(s, part) ==> has_part(s, part),
        has_part(s, part) ==> has_part(s + rest, part) && has_part(rest + s, part),
{
    let n = part.len() as int;
    if has_prefix(s, part) {
        assert(part + s.skip(n) =~= s);
        assert(s.subrange(0, n) =~= s.take(n));
        assert(part_at(s, part, 0));
    }
    if exists|more: Seq<char>| #[trigger] (part + more) == s {
        let more = choose|more: Seq<char>| #[trigger] (part + more) == s;
        assert((part + more).take(n) =~= part);
    }
    if has_suffix(s, part) {
        assert(s.take(s.len() - n) + part =~= s);
        assert(part_at(s, part, s.len() - n));
    }
    if exists|more: Seq<char>| #[trigger] (more + part) == s {
        let more = choose|more: Seq<char>| #[trigger] (more + part) == s;
        assert(s.subrange(s.len() - n, s.len() as int) =~= part);
    }
    if has_part(s, part) {
        let i = choose|i: int| part_at(s, part, i);
        assert((s + rest).subrange(i, i + n) =~= s.subrange(i, i + n));
        assert(part_at(s + rest, part, i));
        assert((rest + s).subrange(rest.len() + i, rest.len() + i + n) =~= s.subrange(i, i + n));
        assert(part_at(rest + s, part, rest.len() + i));
    }
}

/// The pieces of a text hold no separator, and joining them with it gives the text back.
pub proof fn pieces_join_to_the_text(s: Seq<char>, sep: char)
    ensures
        joined(pieces(s, sep), seq![sep]) == s,
        forall|i: int| 0 <= i < pieces(s, sep).len() ==> !(#[trigger] pieces(s, sep)[i]).contains(sep),
        pieces(s, sep).len() > 0,
    decreases s.len(),
{
    lemma_pieces_nonempty(s, sep);
    if s.len() > 0 {
        let rest = s.drop_last();
        let before = pieces(rest, sep);
        let after = pieces(s, sep);
        pieces_join_to_the_text(rest, sep);
        assert(s =~= rest.push(s.last()));
        if s.last() == sep {
            assert(after.drop_last() =~= before);
            assert(joined(after, seq![sep]) =~= rest + seq![sep] + Seq::<char>::empty());
            assert forall|i: int| 0 <= i < after.len() implies !(#[trigger] after[i]).contains(
                sep,
            ) by {
                if i < before.len() {
                    assert(after[i] == before[i]);
                }
            }
        } else {
            let last = before.last().push(s.last());
            assert(after.drop_last() =~= before.drop_last());
            assert(after.last() == last);
            if before.len() == 1 {
                assert(joined(after, seq![sep]) =~= rest.push(s.last()));
            } else {
                let head = joined(before.drop_last(), seq![sep]);
                assert(joined(after, seq![sep]) =~= (head + seq![sep] + before.last()).push(
                    s.last(),
                ));
            }
            assert forall|i: int| 0 <= i < after.len() implies !(#[trigger] after[i]).contains(
                sep,
            ) by {
                assert(!before[i].contains(sep));
                if i == after.len() - 1 {
                    assert forall|k: int| 0 <= k < last.len() implies last[k] != sep by {
                        if k < before.last().len() {
                            assert(before.last()[k] != sep) by {
                                assert(before[i] == before.last());
                                if before.last()[k] == sep {
                                    assert(before.last().contains(sep));
                                }
                            }
                        }
                    }
                } else {
                    assert(after[i] == before[i]);
                }
            }
        }
    } else {
        assert(joined(seq![s], seq![sep]) =~= s);
    }
}

/// A negative number is written as its size behind a minus sign, and any other without one.
pub proof fn signs_are_written(n: int)
    ensures
        n < 0 ==> signed_decimal(n)[0] == '-' && signed_decimal(n).skip(1)
            == crate::text::decimal((-n) as nat),
        n >= 0 ==> signed_decimal(n) == crate::text::decimal(n as nat),
        crate::text::digits_value(crate::text::decimal(n as nat)) == n as nat,
{
    crate::text::lemma_decimal_digits(n as nat);
    if n < 0 {
        assert(signed_decimal(n).skip(1) =~= crate::text::decimal((-n) as nat));
    }
}

/// Each byte is written as two hexadecimal digits in lower case.
pub proof fn bytes_are_written_as_two_digits(bytes: Seq<u8>)
    ensures
        hex(bytes).len() == 2 * bytes.len(),
        forall|i: int|
            0 <= i < hex(bytes).len() ==> ('0' <= #[trigger] hex(bytes)[i] && hex(bytes)[i] <= '9')
                || ('a' <= hex(bytes)[i] && hex(bytes)[i] <= 'f'),
    decreases bytes.len(),
{
    if bytes.len() > 0 {
        bytes_are_written_as_two_digits(bytes.drop_last());
        let before = hex(bytes.drop_last());
        assert forall|i: int| 0 <= i < hex(bytes).len() implies ('0' <= #[trigger] hex(bytes)[i]
            && hex(bytes)[i] <= '9') || ('a' <= hex(bytes)[i] && hex(bytes)[i] <= 'f') by {
            if i < before.len() {
                assert(hex(bytes)[i] == before[i]);
            }
        }
    }
}

} // verus!
