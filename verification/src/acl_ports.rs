//! Destination port ranges: reading them, and writing them in merged form.

use crate::text::{
    contains_char, decimal, digits_up_to, join, joined, lowered, parse_unsigned, pieces, split,
    text_eq_ignore_case, trim, trimmed, u64_text, unsigned_digits, white,
};
use crate::text::{
    lemma_decimal_digits, lemma_pieces_nonempty, lemma_pieces_push, lemma_pieces_single,
};
use vstd::prelude::*;
use vstd::relations::{sorted_by, total_ordering};
use vstd::string::*;

verus! {

/// What one comma separated part of a port list says.
pub enum PortPart {
    Blank,
    All,
    Range(u16, u16),
    Bad(Seq<char>),
}

/// The port that a text stands for, if it is one.
pub open spec fn port_value(s: Seq<char>) -> Option<nat> {
    digits_up_to(unsigned_digits(s), 65535)
}

/// What a part with a dash says.
pub open spec fn dashed_value(v: Seq<char>) -> PortPart {
    let ends = pieces(v, '-');
    match port_value(trimmed(ends[0])) {
        None => PortPart::Bad("invalid port range start in "@ + v),
        Some(start) => match port_value(trimmed(ends[1])) {
            None => PortPart::Bad("invalid port range end in "@ + v),
            Some(end) => if ends.len() > 2 {
                PortPart::Bad("invalid port range format "@ + v)
            } else if start > end {
                PortPart::Bad("invalid port range "@ + decimal(start) + "-"@ + decimal(end))
            } else {
                PortPart::Range(start as u16, end as u16)
            },
        },
    }
}

/// What one part of a port list says.
pub open spec fn part_value(part: Seq<char>) -> PortPart {
    let v = trimmed(part);
    if v.len() == 0 {
        PortPart::Blank
    } else if lowered(v) == lowered("all"@) {
        PortPart::All
    } else if v.contains(':') {
        PortPart::Bad("port action suffix is unsupported in Neutron ACL port merge: "@ + v)
    } else if v.contains('-') {
        dashed_value(v)
    } else {
        match port_value(v) {
            None => PortPart::Bad("invalid port "@ + v),
            Some(port) => PortPart::Range(port as u16, port as u16),
        }
    }
}

/// The ranges of the parts from the one at `i` on, after those read so far.
pub open spec fn ranges_from(
    parts: Seq<Seq<char>>,
    i: int,
    read: Seq<(u16, u16)>,
) -> Result<Seq<(u16, u16)>, Seq<char>>
    decreases parts.len() - i,
{
    if i >= parts.len() {
        Ok(read)
    } else {
        match part_value(parts[i]) {
            PortPart::Blank => ranges_from(parts, i + 1, read),
            PortPart::All => Ok(Seq::empty()),
            PortPart::Range(start, end) => ranges_from(parts, i + 1, read.push((start, end))),
            PortPart::Bad(reason) => Err(reason),
        }
    }
}

/// The ranges that a port list names; a list with `all` in it names none.
pub open spec fn ranges_value(ports: Seq<char>) -> Result<Seq<(u16, u16)>, Seq<char>> {
    ranges_from(pieces(ports, ','), 0, Seq::empty())
}

proof fn lemma_pieces_more(s: Seq<char>, sep: char)
    requires
        s.contains(sep),
    ensures
        pieces(s, sep).len() >= 2,
    decreases s.len(),
{
    let t = s.drop_last();
    lemma_pieces_nonempty(t, sep);
    if s.last() != sep {
        let i = s.index_of(sep);
        assert(t[i] == sep);
        lemma_pieces_more(t, sep);
    }
}

fn with_text(head: &str, tail: &str) -> (r: String)
    ensures
        r@ == head@ + tail@,
{
    let mut r = head.to_owned();
    r.append(tail);
    r
}

fn parse_dashed(value: &str) -> (r: Result<(u16, u16), String>)
    requires
        value@.contains('-'),
    ensures
        match r {
            Ok((start, end)) => dashed_value(value@) == PortPart::Range(start, end),
            Err(reason) => dashed_value(value@) == PortPart::Bad(reason@),
        },
{
    proof {
        lemma_pieces_more(value@, '-');
    }
    let ends = split(value, '-');
    let ghost models = ends.deep_view();
    assert(ends.len() == models.len());
    assert(models[0] == ends@[0]@ && models[1] == ends@[1]@);
    let start = match parse_unsigned(trim(ends[0].as_str()), 65535) {
        Some(start) => start,
        None => {
            return Err(with_text("invalid port range start in ", value));
        },
    };
    let end = match parse_unsigned(trim(ends[1].as_str()), 65535) {
        Some(end) => end,
        None => {
            return Err(with_text("invalid port range end in ", value));
        },
    };
    if ends.len() > 2 {
        return Err(with_text("invalid port range format ", value));
    }
    if start > end {
        let mut reason = with_text("invalid port range ", u64_text(start as u64).as_str());
        reason.append("-");
        reason.append(u64_text(end as u64).as_str());
        return Err(reason);
    }
    Ok((start as u16, end as u16))
}

/// Reads a comma separated list of ports and port ranges.
pub fn parse_acl_port_ranges(ports: &str) -> (r: Result<Vec<(u16, u16)>, String>)
    ensures
        match r {
            Ok(ranges) => ranges_value(ports@) == Ok::<Seq<(u16, u16)>, Seq<char>>(ranges@),
            Err(reason) => ranges_value(ports@) == Err::<Seq<(u16, u16)>, Seq<char>>(reason@),
        },
{
    let parts = split(ports, ',');
    let ghost models = parts.deep_view();
    let mut ranges: Vec<(u16, u16)> = Vec::new();
    let mut i: usize = 0;
    while i < parts.len()
        invariant
            i <= parts.len(),
            models == parts.deep_view(),
            models == pieces(ports@, ','),
            ranges_value(ports@) == ranges_from(models, i as int, ranges@),
        decreases parts.len() - i,
    {
        assert(models[i as int] == parts@[i as int]@);
        let value = trim(parts[i].as_str());
        if value.is_empty() {
            i += 1;
            continue;
        }
        if text_eq_ignore_case(value, "all") {
            let none: Vec<(u16, u16)> = Vec::new();
            assert(none@ =~= Seq::<(u16, u16)>::empty());
            return Ok(none);
        }
        if contains_char(value, ':') {
            return Err(
                with_text("port action suffix is unsupported in Neutron ACL port merge: ", value),
            );
        }
        if contains_char(value, '-') {
            match parse_dashed(value) {
                Ok(range) => {
                    ranges.push(range);
                },
                Err(reason) => {
                    return Err(reason);
                },
            }
        } else {
            match parse_unsigned(value, 65535) {
                Some(port) => {
                    ranges.push((port as u16, port as u16));
                },
                None => {
                    return Err(with_text("invalid port ", value));
                },
            }
        }
        i += 1;
    }
    Ok(ranges)
}

/// True when a range does not come after another, by start and then by end.
pub open spec fn range_le(a: (u16, u16), b: (u16, u16)) -> bool {
    a.0 < b.0 || (a.0 == b.0 && a.1 <= b.1)
}

/// Ranges in ascending order.
pub open spec fn sorted_ranges(ranges: Seq<(u16, u16)>) -> Seq<(u16, u16)> {
    ranges.sort_by(|a: (u16, u16), b: (u16, u16)| range_le(a, b))
}

/// Sorted ranges with those merged that meet or touch.
pub open spec fn merged_ranges(sorted: Seq<(u16, u16)>) -> Seq<(u16, u16)>
    decreases sorted.len(),
{
    if sorted.len() == 0 {
        Seq::empty()
    } else {
        let merged = merged_ranges(sorted.drop_last());
        let (start, end) = sorted.last();
        if merged.len() > 0 && start <= merged.last().1 + 1 {
            if end > merged.last().1 {
                merged.update(merged.len() - 1, (merged.last().0, end))
            } else {
                merged
            }
        } else {
            merged.push((start, end))
        }
    }
}

/// The notation of one range.
pub open spec fn range_text(range: (u16, u16)) -> Seq<char> {
    if range.0 == range.1 {
        decimal(range.0 as nat)
    } else {
        decimal(range.0 as nat) + "-"@ + decimal(range.1 as nat)
    }
}

/// The notation of ranges in merged form.
pub open spec fn ranges_text(ranges: Seq<(u16, u16)>) -> Seq<char> {
    joined(
        merged_ranges(sorted_ranges(ranges)).map_values(|range: (u16, u16)| range_text(range)),
        ","@,
    )
}

/// The notation of a list of ranges; the empty list, which means all ports, has none.
pub open spec fn serialized_ranges(ranges: Seq<(u16, u16)>) -> Option<Seq<char>> {
    if ranges.len() == 0 {
        None
    } else {
        Some(ranges_text(ranges))
    }
}

proof fn lemma_range_order()
    ensures
        total_ordering(|a: (u16, u16), b: (u16, u16)| range_le(a, b)),
{
    let le = |a: (u16, u16), b: (u16, u16)| range_le(a, b);
    assert(vstd::relations::reflexive(le));
    assert(vstd::relations::antisymmetric(le));
    assert(vstd::relations::transitive(le));
    assert(vstd::relations::strongly_connected(le));
}

fn sort_ranges(ranges: &Vec<(u16, u16)>) -> (r: Vec<(u16, u16)>)
    ensures
        r@ == sorted_ranges(ranges@),
{
    let ghost le = |a: (u16, u16), b: (u16, u16)| range_le(a, b);
    let mut r: Vec<(u16, u16)> = Vec::new();
    let mut i: usize = 0;
    assert(ranges@.take(0) =~= r@);
    while i < ranges.len()
        invariant
            i <= ranges.len(),
            le == (|a: (u16, u16), b: (u16, u16)| range_le(a, b)),
            sorted_by(r@, le),
            r@.to_multiset() == ranges@.take(i as int).to_multiset(),
        decreases ranges.len() - i,
    {
        let item = ranges[i];
        let mut place: usize = r.len();
        while place > 0 && (item.0 < r[place - 1].0 || (item.0 == r[place - 1].0 && item.1 < r[place
            - 1].1))
            invariant
                place <= r.len(),
                le == (|a: (u16, u16), b: (u16, u16)| range_le(a, b)),
                sorted_by(r@, le),
                forall|k: int| place <= k < r@.len() ==> range_le(item, #[trigger] r@[k]),
            decreases place,
        {
            place -= 1;
        }
        let ghost before = r@;
        proof {
            assert forall|k: int| 0 <= k < place implies range_le(#[trigger] before[k], item) by {
                if k < place - 1 {
                    assert(le(before[k], before[place - 1]));
                }
            }
        }
        r.insert(place, item);
        proof {
            vstd::seq_lib::to_multiset_insert(before, place as int, item);
            assert(ranges@.take(i + 1) =~= ranges@.take(i as int).push(item));
            vstd::seq_lib::to_multiset_build(ranges@.take(i as int), item);
            assert forall|a: int, b: int| 0 <= a < b < r@.len() implies #[trigger] le(
                r@[a],
                r@[b],
            ) by {
                let x = if a < place { a } else { a - 1 };
                let y = if b < place { b } else { b - 1 };
                if a == place {
                    assert(r@[b] == before[y]);
                } else if b == place {
                    assert(r@[a] == before[x]);
                } else {
                    assert(le(before[x], before[y]));
                }
            }
        }
        i += 1;
    }
    proof {
        assert(ranges@.take(i as int) =~= ranges@);
        lemma_range_order();
        ranges@.lemma_sort_by_ensures(le);
        vstd::seq_lib::lemma_sorted_unique(r@, ranges@.sort_by(le), le);
    }
    r
}

fn merge_ranges(sorted: &Vec<(u16, u16)>) -> (r: Vec<(u16, u16)>)
    ensures
        r@ == merged_ranges(sorted@),
{
    let mut r: Vec<(u16, u16)> = Vec::new();
    let mut i: usize = 0;
    assert(merged_ranges(sorted@.take(0)) =~= r@);
    while i < sorted.len()
        invariant
            i <= sorted.len(),
            r@ == merged_ranges(sorted@.take(i as int)),
        decreases sorted.len() - i,
    {
        let item = sorted[i];
        proof {
            assert(sorted@.take(i + 1).drop_last() =~= sorted@.take(i as int));
            assert(sorted@.take(i + 1).last() == item);
        }
        let n: usize = r.len();
        if n > 0 && item.0 as u32 <= r[n - 1].1 as u32 + 1 {
            let previous = r[n - 1];
            if item.1 > previous.1 {
                r[n - 1] = (previous.0, item.1);
            }
        } else {
            r.push(item);
        }
        i += 1;
    }
    assert(sorted@.take(i as int) =~= sorted@);
    r
}

fn write_range(range: (u16, u16)) -> (r: String)
    ensures
        r@ == range_text(range),
{
    let mut r = u64_text(range.0 as u64);
    if range.0 != range.1 {
        r.append("-");
        r.append(u64_text(range.1 as u64).as_str());
    }
    r
}

/// Writes ranges in ascending order with those merged that meet or touch.
pub fn serialize_acl_port_ranges(ranges: Vec<(u16, u16)>) -> (r: Option<String>)
    ensures
        r.deep_view() == serialized_ranges(ranges@),
{
    if ranges.len() == 0 {
        return None;
    }
    let sorted = sort_ranges(&ranges);
    let merged = merge_ranges(&sorted);
    let ghost wanted = merged@.map_values(|range: (u16, u16)| range_text(range));
    let mut parts: Vec<String> = Vec::new();
    let mut i: usize = 0;
    while i < merged.len()
        invariant
            i <= merged.len(),
            wanted == merged@.map_values(|range: (u16, u16)| range_text(range)),
            parts.deep_view() == wanted.take(i as int),
        decreases merged.len() - i,
    {
        let ghost before = parts.deep_view();
        let part = write_range(merged[i]);
        parts.push(part);
        assert(parts.deep_view() =~= before.push(part@));
        assert(wanted.take(i + 1) =~= wanted.take(i as int).push(wanted[i as int]));
        i += 1;
    }
    assert(wanted.take(i as int) =~= wanted);
    Some(join(&parts, ","))
}

/// True when a port list stands for all ports.
pub open spec fn all_ports(ports: Seq<char>) -> bool {
    trimmed(ports).len() == 0 || lowered(trimmed(ports)) == lowered("all"@)
}

/// Two port lists as one; a missing list, and one that stands for all ports,
/// takes in every other.
pub open spec fn merged_ports(
    existing: Option<Seq<char>>,
    incoming: Option<Seq<char>>,
) -> Result<Option<Seq<char>>, Seq<char>> {
    match (existing, incoming) {
        (Some(a), Some(b)) => if all_ports(a) || all_ports(b) {
            Ok(None)
        } else {
            match ranges_value(trimmed(a)) {
                Err(reason) => Err(reason),
                Ok(first) => match ranges_value(trimmed(b)) {
                    Err(reason) => Err(reason),
                    Ok(second) => Ok(serialized_ranges(first + second)),
                },
            }
        },
        _ => Ok(None),
    }
}

/// Merges two port lists.
pub fn merge_acl_ports(existing: Option<String>, incoming: Option<String>) -> (r: Result<
    Option<String>,
    String,
>)
    ensures
        crate::ordered::result_view(r) == merged_ports(existing.deep_view(), incoming.deep_view()),
{
    let (existing, incoming) = match (existing, incoming) {
        (Some(existing), Some(incoming)) => (existing, incoming),
        _ => {
            return Ok(None);
        },
    };
    let a = trim(existing.as_str());
    let b = trim(incoming.as_str());
    if a.is_empty() || b.is_empty() || text_eq_ignore_case(a, "all") || text_eq_ignore_case(
        b,
        "all",
    ) {
        return Ok(None);
    }
    let mut ranges = match parse_acl_port_ranges(a) {
        Ok(ranges) => ranges,
        Err(reason) => {
            return Err(reason);
        },
    };
    let mut more = match parse_acl_port_ranges(b) {
        Ok(more) => more,
        Err(reason) => {
            return Err(reason);
        },
    };
    let ghost first = ranges@;
    let ghost second = more@;
    ranges.append(&mut more);
    assert(ranges@ =~= first + second);
    Ok(serialize_acl_port_ranges(ranges))
}

/// True when a port lies in one of the ranges.
pub open spec fn ranges_cover(ranges: Seq<(u16, u16)>, port: int) -> bool {
    exists|i: int| 0 <= i < ranges.len() && (#[trigger] ranges[i]).0 <= port <= ranges[i].1
}

/// True when every range starts no later than it ends.
pub open spec fn ranges_valid(ranges: Seq<(u16, u16)>) -> bool {
    forall|i: int| 0 <= i < ranges.len() ==> (#[trigger] ranges[i]).0 <= ranges[i].1
}

/// True when ranges are in ascending order with a port between any two.
pub open spec fn ranges_separate(ranges: Seq<(u16, u16)>) -> bool {
    forall|i: int, j: int|
        0 <= i < j < ranges.len() ==> (#[trigger] ranges[i]).1 + 1 < (#[trigger] ranges[j]).0
}

proof fn lemma_cover_push(ranges: Seq<(u16, u16)>, range: (u16, u16), port: int)
    ensures
        ranges_cover(ranges.push(range), port) <==> (ranges_cover(ranges, port) || range.0 <= port
            <= range.1),
{
    let more = ranges.push(range);
    assert(more[ranges.len() as int] == range);
    if ranges_cover(ranges, port) {
        let k = choose|k: int|
            0 <= k < ranges.len() && (#[trigger] ranges[k]).0 <= port <= ranges[k].1;
        assert(more[k].0 <= port <= more[k].1);
    }
    if ranges_cover(more, port) {
        let k = choose|k: int| 0 <= k < more.len() && (#[trigger] more[k]).0 <= port <= more[k].1;
        if k < ranges.len() {
            assert(ranges[k].0 <= port <= ranges[k].1);
        }
    }
}

proof fn lemma_merged(sorted: Seq<(u16, u16)>, n: int)
    requires
        ranges_valid(sorted),
        sorted_by(sorted, |a: (u16, u16), b: (u16, u16)| range_le(a, b)),
        0 <= n <= sorted.len(),
    ensures
        ranges_valid(merged_ranges(sorted.take(n))),
        ranges_separate(merged_ranges(sorted.take(n))),
        n > 0 ==> merged_ranges(sorted.take(n)).len() > 0,
        n > 0 ==> merged_ranges(sorted.take(n)).last().0 <= sorted[n - 1].0,
        forall|port: int| #[trigger]
            ranges_cover(merged_ranges(sorted.take(n)), port) <==> ranges_cover(
                sorted.take(n),
                port,
            ),
    decreases n,
{
    let le = |a: (u16, u16), b: (u16, u16)| range_le(a, b);
    if n == 0 {
        assert(sorted.take(0) =~= Seq::<(u16, u16)>::empty());
    } else {
        lemma_merged(sorted, n - 1);
        let item = sorted[n - 1];
        let done = sorted.take(n - 1);
        let next = sorted.take(n);
        assert(next.drop_last() =~= done);
        assert(next =~= done.push(item));
        assert(next.last() == item);
        let a = merged_ranges(done);
        let b = merged_ranges(next);
        if n >= 2 {
            assert(le(sorted[n - 2], sorted[n - 1]));
        }
        assert forall|port: int| #[trigger] ranges_cover(b, port) <==> ranges_cover(
            next,
            port,
        ) by {
            lemma_cover_push(done, item, port);
            assert(ranges_cover(a, port) <==> ranges_cover(done, port));
            if a.len() > 0 && item.0 <= a.last().1 + 1 {
                let last = a.len() - 1;
                if ranges_cover(b, port) {
                    let k = choose|k: int|
                        0 <= k < b.len() && (#[trigger] b[k]).0 <= port <= b[k].1;
                    if k == last && port > a[last].1 {
                        assert(item.0 <= port <= item.1);
                    } else {
                        assert(a[k].0 <= port <= a[k].1);
                    }
                }
                if ranges_cover(a, port) {
                    let k = choose|k: int|
                        0 <= k < a.len() && (#[trigger] a[k]).0 <= port <= a[k].1;
                    assert(b[k].0 <= port <= b[k].1);
                }
                if item.0 <= port <= item.1 {
                    assert(b[last].0 <= port <= b[last].1);
                }
            } else {
                lemma_cover_push(a, item, port);
            }
        }
    }
}

/// The merged form of valid ranges covers the same ports with ranges that are
/// valid, in ascending order and never touch.
pub proof fn merged_ranges_cover_the_same_ports(ranges: Seq<(u16, u16)>)
    requires
        ranges_valid(ranges),
    ensures
        ranges_valid(merged_ranges(sorted_ranges(ranges))),
        ranges_separate(merged_ranges(sorted_ranges(ranges))),
        forall|port: int| #[trigger]
            ranges_cover(merged_ranges(sorted_ranges(ranges)), port) <==> ranges_cover(
                ranges,
                port,
            ),
{
    let le = |a: (u16, u16), b: (u16, u16)| range_le(a, b);
    let sorted = sorted_ranges(ranges);
    lemma_range_order();
    ranges.lemma_sort_by_ensures(le);
    broadcast use vstd::seq_lib::group_to_multiset_ensures;

    assert forall|x: (u16, u16)| #[trigger] sorted.contains(x) <==> ranges.contains(x) by {
        assert(sorted.to_multiset().count(x) == ranges.to_multiset().count(x));
    }
    assert forall|i: int| 0 <= i < sorted.len() implies (#[trigger] sorted[i]).0 <= sorted[i].1 by {
        assert(sorted.contains(sorted[i]));
        let k = ranges.index_of(sorted[i]);
        assert(ranges[k].0 <= ranges[k].1);
    }
    lemma_merged(sorted, sorted.len() as int);
    assert(sorted.take(sorted.len() as int) =~= sorted);
    assert forall|port: int| #[trigger] ranges_cover(merged_ranges(sorted), port) <==> ranges_cover(
        ranges,
        port,
    ) by {
        assert(ranges_cover(merged_ranges(sorted), port) <==> ranges_cover(sorted, port));
        if ranges_cover(sorted, port) {
            let k = choose|k: int|
                0 <= k < sorted.len() && (#[trigger] sorted[k]).0 <= port <= sorted[k].1;
            assert(sorted.contains(sorted[k]));
            let m = ranges.index_of(sorted[k]);
            assert(ranges[m].0 <= port <= ranges[m].1);
        }
        if ranges_cover(ranges, port) {
            let k = choose|k: int|
                0 <= k < ranges.len() && (#[trigger] ranges[k]).0 <= port <= ranges[k].1;
            assert(ranges.contains(ranges[k]));
            assert(sorted.contains(ranges[k]));
            let m = sorted.index_of(ranges[k]);
            assert(sorted[m].0 <= port <= sorted[m].1);
        }
    }
}

proof fn lemma_port_text(n: nat)
    requires
        n <= 65535,
    ensures
        port_value(decimal(n)) == Some(n),
        decimal(n).len() > 0,
        trimmed(decimal(n)) == decimal(n),
        forall|i: int| 0 <= i < decimal(n).len() ==> '0' <= #[trigger] decimal(n)[i] && decimal(n)[i]
            <= '9',
{
    lemma_decimal_digits(n);
    let s = decimal(n);
    assert('0' <= s[0] && s[0] <= '9');
    assert('0' <= s.last() && s.last() <= '9');
    assert(!white(s[0]));
    assert(!white(s.last()));
    assert(unsigned_digits(s) == s);
}

/// Reading the notation of one range gives the range.
pub(crate) proof fn lemma_range_part(range: (u16, u16))
    requires
        range.0 <= range.1,
    ensures
        part_value(range_text(range)) == PortPart::Range(range.0, range.1),
        !range_text(range).contains(','),
        digit_ends(range_text(range)),
{
    let a = decimal(range.0 as nat);
    let b = decimal(range.1 as nat);
    let s = range_text(range);
    lemma_port_text(range.0 as nat);
    lemma_port_text(range.1 as nat);
    reveal_strlit("all");
    reveal_strlit("-");
    assert("-"@ =~= seq!['-']);
    assert(s[0] == a[0]);
    assert(!white(s[0]));
    assert(lowered(s)[0] == s[0]);
    assert(lowered("all"@)[0] == 'a');
    if range.0 == range.1 {
        assert(!s.contains(':') && !s.contains('-') && !s.contains(','));
        assert(trimmed(s) == s);
    } else {
        assert(s =~= a.push('-') + b);
        assert(s.last() == b.last());
        assert(!white(s.last()));
        assert(trimmed(s) == s);
        assert(s[a.len() as int] == '-');
        assert(s.contains('-'));
        assert forall|i: int| 0 <= i < s.len() implies s[i] != ':' && s[i] != ',' by {
            if i < a.len() {
                assert(s[i] == a[i]);
            } else if i > a.len() {
                assert(s[i] == b[i - a.len() - 1]);
            }
        }
        assert(!s.contains(':') && !s.contains(','));
        assert(!a.contains('-'));
        assert(!b.contains('-'));
        lemma_pieces_single(a, '-');
        lemma_pieces_push(a, b, '-');
        assert(pieces(s, '-') =~= seq![a, b]);
    }
}

/// True when a text starts and ends with a digit.
pub open spec fn digit_ends(s: Seq<char>) -> bool {
    s.len() > 0 && '0' <= s[0] && s[0] <= '9' && '0' <= s.last() && s.last() <= '9'
}

proof fn lemma_joined_ends(parts: Seq<Seq<char>>)
    requires
        parts.len() > 0,
        forall|i: int| 0 <= i < parts.len() ==> digit_ends(#[trigger] parts[i]),
    ensures
        digit_ends(joined(parts, ","@)),
    decreases parts.len(),
{
    assert(digit_ends(parts[parts.len() - 1]));
    if parts.len() > 1 {
        lemma_joined_ends(parts.drop_last());
        let a = joined(parts.drop_last(), ","@);
        let s = a + ","@ + parts.last();
        assert(s[0] == a[0]);
        assert(s.last() == parts.last().last());
    }
}

proof fn lemma_joined_pieces(parts: Seq<Seq<char>>)
    requires
        parts.len() > 0,
        forall|i: int| 0 <= i < parts.len() ==> !(#[trigger] parts[i]).contains(','),
    ensures
        pieces(joined(parts, ","@), ',') == parts,
    decreases parts.len(),
{
    reveal_strlit(",");
    assert(","@ =~= seq![',']);
    if parts.len() == 1 {
        lemma_pieces_single(parts[0], ',');
        assert(parts =~= seq![parts[0]]);
    } else {
        let front = parts.drop_last();
        lemma_joined_pieces(front);
        let a = joined(front, ","@);
        let b = parts.last();
        assert(a + ","@ + b =~= a.push(',') + b);
        lemma_pieces_push(a, b, ',');
        assert(parts =~= front.push(b));
    }
}

proof fn lemma_ranges_from(parts: Seq<Seq<char>>, ranges: Seq<(u16, u16)>, i: int)
    requires
        parts.len() == ranges.len(),
        forall|k: int|
            0 <= k < parts.len() ==> part_value(#[trigger] parts[k]) == PortPart::Range(
                ranges[k].0,
                ranges[k].1,
            ),
        0 <= i <= parts.len(),
    ensures
        ranges_from(parts, i, ranges.take(i)) == Ok::<Seq<(u16, u16)>, Seq<char>>(ranges),
    decreases parts.len() - i,
{
    if i == parts.len() {
        assert(ranges.take(i) =~= ranges);
    } else {
        assert(part_value(parts[i]) == PortPart::Range(ranges[i].0, ranges[i].1));
        lemma_ranges_from(parts, ranges, i + 1);
        assert(ranges.take(i + 1) =~= ranges.take(i).push((ranges[i].0, ranges[i].1)));
    }
}

/// Reading the notation of valid ranges gives their merged form.
pub proof fn ranges_text_reads_back(ranges: Seq<(u16, u16)>)
    requires
        ranges.len() > 0,
        ranges_valid(ranges),
    ensures
        ranges_value(ranges_text(ranges)) == Ok::<Seq<(u16, u16)>, Seq<char>>(
            merged_ranges(sorted_ranges(ranges)),
        ),
        merged_ranges(sorted_ranges(ranges)).len() > 0,
        trimmed(ranges_text(ranges)) == ranges_text(ranges),
        !all_ports(ranges_text(ranges)),
{
    let le = |a: (u16, u16), b: (u16, u16)| range_le(a, b);
    merged_ranges_cover_the_same_ports(ranges);
    let merged = merged_ranges(sorted_ranges(ranges));
    let parts = merged.map_values(|range: (u16, u16)| range_text(range));
    assert(merged.len() > 0) by {
        let port = ranges[0].0 as int;
        assert(ranges_cover(ranges, port));
        assert(ranges_cover(merged, port));
    }
    assert forall|k: int| 0 <= k < parts.len() implies part_value(#[trigger] parts[k])
        == PortPart::Range(merged[k].0, merged[k].1) && !parts[k].contains(',') && digit_ends(
        parts[k],
    ) by {
        lemma_range_part(merged[k]);
    }
    lemma_joined_pieces(parts);
    lemma_joined_ends(parts);
    let text = ranges_text(ranges);
    assert(!white(text[0]) && !white(text.last()));
    reveal_strlit("all");
    assert(lowered(text)[0] == text[0]);
    assert(lowered("all"@)[0] == 'a');
    lemma_ranges_from(parts, merged, 0);
    assert(merged.take(0) =~= Seq::<(u16, u16)>::empty());
}

proof fn lemma_ranges_valid(parts: Seq<Seq<char>>, i: int, read: Seq<(u16, u16)>)
    requires
        0 <= i <= parts.len(),
        ranges_valid(read),
    ensures
        ranges_from(parts, i, read) matches Ok(ranges) ==> ranges_valid(ranges),
    decreases parts.len() - i,
{
    if i < parts.len() {
        match part_value(parts[i]) {
            PortPart::Range(start, end) => {
                lemma_ranges_valid(parts, i + 1, read.push((start, end)));
            },
            PortPart::Blank => {
                lemma_ranges_valid(parts, i + 1, read);
            },
            _ => {},
        }
    }
}

/// Every range that is read starts no later than it ends.
pub proof fn read_ranges_are_valid(ports: Seq<char>)
    ensures
        ranges_value(ports) matches Ok(ranges) ==> ranges_valid(ranges),
{
    lemma_ranges_valid(pieces(ports, ','), 0, Seq::empty());
}

/// Merging the notations of two lists of ranges gives the notation of ranges that cover the ports
/// of either.
pub proof fn merged_ports_unite(a: Seq<(u16, u16)>, b: Seq<(u16, u16)>)
    requires
        a.len() > 0,
        b.len() > 0,
        ranges_valid(a),
        ranges_valid(b),
    ensures
        ({
            let both = merged_ranges(sorted_ranges(a)) + merged_ranges(sorted_ranges(b));
            &&& merged_ports(Some(ranges_text(a)), Some(ranges_text(b))) == Ok::<
                Option<Seq<char>>,
                Seq<char>,
            >(Some(ranges_text(both)))
            &&& both.len() > 0
            &&& ranges_valid(both)
            &&& forall|port: int| #[trigger]
                ranges_cover(both, port) <==> ranges_cover(a, port) || ranges_cover(b, port)
        }),
{
    ranges_text_reads_back(a);
    ranges_text_reads_back(b);
    merged_ranges_cover_the_same_ports(a);
    merged_ranges_cover_the_same_ports(b);
    let first = merged_ranges(sorted_ranges(a));
    let second = merged_ranges(sorted_ranges(b));
    let both = first + second;
    assert forall|i: int| 0 <= i < both.len() implies (#[trigger] both[i]).0 <= both[i].1 by {
        if i < first.len() {
            assert(both[i] == first[i]);
        } else {
            assert(both[i] == second[i - first.len()]);
        }
    }
    assert forall|port: int| #[trigger]
        ranges_cover(both, port) <==> ranges_cover(a, port) || ranges_cover(b, port) by {
        assert(ranges_cover(first, port) <==> ranges_cover(a, port));
        assert(ranges_cover(second, port) <==> ranges_cover(b, port));
        if ranges_cover(both, port) {
            let k = choose|k: int|
                0 <= k < both.len() && (#[trigger] both[k]).0 <= port <= both[k].1;
            if k < first.len() {
                assert(first[k] == both[k]);
            } else {
                assert(second[k - first.len()] == both[k]);
            }
        }
        if ranges_cover(first, port) {
            let k = choose|k: int|
                0 <= k < first.len() && (#[trigger] first[k]).0 <= port <= first[k].1;
            assert(both[k] == first[k]);
        }
        if ranges_cover(second, port) {
            let k = choose|k: int|
                0 <= k < second.len() && (#[trigger] second[k]).0 <= port <= second[k].1;
            assert(both[first.len() + k] == second[k]);
        }
    }
}

/// A list of ports that is missing, blank or says that it is all stands for all ports, and so does
/// what it is merged with.
pub proof fn all_ports_stay_all(existing: Option<Seq<char>>, incoming: Option<Seq<char>>)
    ensures
        ({
            let all = |ports: Option<Seq<char>>|
                ports matches Some(text) ==> trimmed(text).len() == 0 || lowered(trimmed(text))
                    == lowered("all"@);
            all(existing) || all(incoming) ==> merged_ports(existing, incoming) == Ok::<
                Option<Seq<char>>,
                Seq<char>,
            >(None)
        }),
{
}

/// A part of a list of ports is blank, or says that it is all, or names one port, or the ports from
/// one to another that is not before it; anything else is refused.
pub proof fn port_lists_are_read_part_by_part(part: Seq<char>)
    ensures
        ({
            let v = trimmed(part);
            let ends = pieces(v, '-');
            let plain = v.len() > 0 && lowered(v) != lowered("all"@) && !v.contains(':');
            let number = |text: Seq<char>| digits_up_to(unsigned_digits(text), 65535);
            &&& part_value(part) == PortPart::Blank <==> v.len() == 0
            &&& part_value(part) == PortPart::All <==> v.len() > 0 && lowered(v) == lowered("all"@)
            &&& plain && !v.contains('-') ==> (number(v) matches Some(n) && part_value(part)
                == PortPart::Range(n as u16, n as u16)) || (number(v) is None && part_value(part)
                is Bad)
            &&& plain && v.contains('-') ==> {
                if ends.len() == 2 && number(trimmed(ends[0])) is Some && number(trimmed(ends[1]))
                    is Some && number(trimmed(ends[0]))->0 <= number(trimmed(ends[1]))->0 {
                    part_value(part) == PortPart::Range(
                        number(trimmed(ends[0]))->0 as u16,
                        number(trimmed(ends[1]))->0 as u16,
                    )
                } else {
                    part_value(part) is Bad
                }
            }
            &&& v.len() > 0 && lowered(v) != lowered("all"@) && v.contains(':') ==> part_value(part)
                is Bad
        }),
{
    let v = trimmed(part);
    if v.contains('-') {
        lemma_pieces_more(v, '-');
    }
}

} // verus!
