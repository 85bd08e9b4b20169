//! What holds of everything that is read of the switch and the host.

use crate::inventory::{
    external_ids, ifindex_value, interfaces_by_id, interfaces_by_name, last_heading, line_set,
    map_entries, map_entry, row_value, row_values, rows_inventory, table_rows, tap_name, tree_items,
    tree_text, JsonTree, LocalOvsInterfaceModel, OvsRowModel,
};
use crate::ordered::lemma_filter_step;
use crate::text::{all_digits, digits_value, trimmed, unsigned_digits};
use vstd::prelude::*;

verus! {

/// True when an interface is what a row of the switch tells of it: its name and identity, the index
/// that the host has for its name, and the managed bridge exactly where it is one of its ports.
pub open spec fn told_by(
    interface: LocalOvsInterfaceModel,
    row: OvsRowModel,
    bridge: Seq<char>,
    bridge_ports: Set<Seq<char>>,
    ifindexes: Map<Seq<char>, u32>,
) -> bool {
    &&& interface.name == row.name
    &&& interface.iface_id == row.iface_id
    &&& bridge_ports.contains(row.name) ==> interface.bridge == Some(bridge)
    &&& !bridge_ports.contains(row.name) ==> interface.bridge is None
    &&& ifindexes.dom().contains(row.name) ==> interface.ifindex == Some(ifindexes[row.name])
    &&& !ifindexes.dom().contains(row.name) ==> interface.ifindex is None
}

proof fn lemma_by_id(
    rows: Seq<OvsRowModel>,
    bridge: Seq<char>,
    bridge_ports: Set<Seq<char>>,
    ifindexes: Map<Seq<char>, u32>,
    n: int,
    id: Seq<char>,
)
    requires
        0 <= n <= rows.len(),
    ensures
        ({
            let found = interfaces_by_id(rows, bridge, bridge_ports, ifindexes, n);
            &&& found.dom().contains(id) <==> exists|i: int|
                0 <= i < n && (#[trigger] rows[i]).iface_id == Some(id)
            &&& forall|i: int|
                0 <= i < n && (#[trigger] rows[i]).iface_id == Some(id) && (forall|j: int|
                    i < j < n ==> (#[trigger] rows[j]).iface_id != Some(id)) ==> told_by(
                    found[id],
                    rows[i],
                    bridge,
                    bridge_ports,
                    ifindexes,
                )
        }),
    decreases n,
{
    if n > 0 {
        lemma_by_id(rows, bridge, bridge_ports, ifindexes, n - 1, id);
        let before = interfaces_by_id(rows, bridge, bridge_ports, ifindexes, n - 1);
        let found = interfaces_by_id(rows, bridge, bridge_ports, ifindexes, n);
        assert forall|i: int|
            0 <= i < n && (#[trigger] rows[i]).iface_id == Some(id) && (forall|j: int|
                i < j < n ==> (#[trigger] rows[j]).iface_id != Some(id)) implies told_by(
            found[id],
            rows[i],
            bridge,
            bridge_ports,
            ifindexes,
        ) by {
            if i < n - 1 {
                assert(rows[n - 1].iface_id != Some(id));
                assert(found[id] == before[id]);
            }
        }
    }
}

proof fn lemma_by_name(
    rows: Seq<OvsRowModel>,
    bridge: Seq<char>,
    bridge_ports: Set<Seq<char>>,
    ifindexes: Map<Seq<char>, u32>,
    n: int,
    name: Seq<char>,
)
    requires
        0 <= n <= rows.len(),
    ensures
        ({
            let found = interfaces_by_name(rows, bridge, bridge_ports, ifindexes, n);
            &&& found.dom().contains(name) <==> exists|i: int|
                0 <= i < n && (#[trigger] rows[i]).name == name
            &&& forall|i: int|
                0 <= i < n && (#[trigger] rows[i]).name == name && (forall|j: int|
                    i < j < n ==> (#[trigger] rows[j]).name != name) ==> told_by(
                    found[name],
                    rows[i],
                    bridge,
                    bridge_ports,
                    ifindexes,
                )
        }),
    decreases n,
{
    if n > 0 {
        lemma_by_name(rows, bridge, bridge_ports, ifindexes, n - 1, name);
        let before = interfaces_by_name(rows, bridge, bridge_ports, ifindexes, n - 1);
        let found = interfaces_by_name(rows, bridge, bridge_ports, ifindexes, n);
        assert forall|i: int|
            0 <= i < n && (#[trigger] rows[i]).name == name && (forall|j: int|
                i < j < n ==> (#[trigger] rows[j]).name != name) implies told_by(
            found[name],
            rows[i],
            bridge,
            bridge_ports,
            ifindexes,
        ) by {
            if i < n - 1 {
                assert(rows[n - 1].name != name);
                assert(found[name] == before[name]);
            }
        }
    }
}

/// An interface is found by its identity and by its name exactly where a row tells of it, and it is
/// what the last such row tells. What the host has of indexes is kept as it is.
pub proof fn interfaces_are_found_as_told(
    bridge: Seq<char>,
    bridge_ports: Set<Seq<char>>,
    rows: Seq<OvsRowModel>,
    ifindexes: Map<Seq<char>, u32>,
    key: Seq<char>,
    i: int,
)
    ensures
        ({
            let inventory = rows_inventory(bridge, bridge_ports, rows, ifindexes);
            &&& inventory.ovs_bridge == bridge
            &&& inventory.ovs_error is None
            &&& inventory.ifindexes == ifindexes
            &&& inventory.by_iface_id.dom().contains(key) <==> exists|j: int|
                0 <= j < rows.len() && (#[trigger] rows[j]).iface_id == Some(key)
            &&& inventory.by_name.dom().contains(key) <==> exists|j: int|
                0 <= j < rows.len() && (#[trigger] rows[j]).name == key
            &&& 0 <= i < rows.len() && rows[i].iface_id == Some(key) && (forall|j: int|
                i < j < rows.len() ==> (#[trigger] rows[j]).iface_id != Some(key)) ==> told_by(
                inventory.by_iface_id[key],
                rows[i],
                bridge,
                bridge_ports,
                ifindexes,
            )
            &&& 0 <= i < rows.len() && rows[i].name == key && (forall|j: int|
                i < j < rows.len() ==> (#[trigger] rows[j]).name != key) ==> told_by(
                inventory.by_name[key],
                rows[i],
                bridge,
                bridge_ports,
                ifindexes,
            )
        }),
{
    lemma_by_id(rows, bridge, bridge_ports, ifindexes, rows.len() as int, key);
    lemma_by_name(rows, bridge, bridge_ports, ifindexes, rows.len() as int, key);
}

proof fn lemma_heading(headings: Seq<JsonTree>, name: Seq<char>, n: int)
    requires
        0 <= n <= headings.len(),
    ensures
        last_heading(headings, name, n) matches Some(i) ==> 0 <= i < n && tree_text(headings[i])
            == Some(name) && forall|j: int|
            i < j < n ==> tree_text(#[trigger] headings[j]) != Some(name),
        last_heading(headings, name, n) is None ==> forall|j: int|
            0 <= j < n ==> tree_text(#[trigger] headings[j]) != Some(name),
    decreases n,
{
    if n > 0 {
        lemma_heading(headings, name, n - 1);
    }
}

/// The text that a row of a table has in a column, if it has one there.
pub open spec fn cell(row: JsonTree, column: int) -> Option<Seq<char>> {
    match row {
        JsonTree::List(cells) => if 0 <= column < cells@.len() {
            tree_text(cells@[column])
        } else {
            None
        },
        _ => None,
    }
}

proof fn lemma_rows(rows: Seq<JsonTree>, names: int, ids: int, n: int)
    requires
        0 <= n <= rows.len(),
        0 <= names,
        0 <= ids,
    ensures
        ({
            let read = row_values(rows, names, ids, n);
            &&& read.len() == rows.take(n).filter(|row: JsonTree| cell(row, names) is Some).len()
            &&& forall|k: int| #![trigger read[k]]
                0 <= k < read.len() ==> exists|i: int|
                    0 <= i < n && row_value(#[trigger] rows[i], names, ids) == Some(read[k])
            &&& forall|i: int|
                0 <= i < n && cell(#[trigger] rows[i], names) is Some ==> read.contains(
                    row_value(rows[i], names, ids)->0,
                )
        }),
    decreases n,
{
    let named = |row: JsonTree| cell(row, names) is Some;
    assert(rows.take(0).filter(named).len() == 0) by {
        rows.take(0).lemma_filter_len(named);
    }
    if n > 0 {
        lemma_rows(rows, names, ids, n - 1);
        lemma_filter_step(rows, named, n - 1);
        let before = row_values(rows, names, ids, n - 1);
        let read = row_values(rows, names, ids, n);
        let last = row_value(rows[n - 1], names, ids);
        assert(last is Some <==> cell(rows[n - 1], names) is Some);
        assert forall|k: int| #![trigger read[k]] 0 <= k < read.len() implies exists|i: int|
            0 <= i < n && row_value(#[trigger] rows[i], names, ids) == Some(read[k]) by {
            if k < before.len() {
                assert(read[k] == before[k]);
                let i = choose|i: int|
                    0 <= i < n - 1 && row_value(#[trigger] rows[i], names, ids) == Some(before[k]);
                assert(row_value(rows[i], names, ids) == Some(read[k]));
            } else {
                assert(row_value(rows[n - 1], names, ids) == Some(read[k]));
            }
        }
        assert forall|i: int| 0 <= i < n && cell(#[trigger] rows[i], names) is Some implies read.contains(
            row_value(rows[i], names, ids)->0,
        ) by {
            let row = row_value(rows[i], names, ids)->0;
            if i < n - 1 {
                let k = before.index_of(row);
                assert(before.contains(row));
                assert(read[k] == row);
            } else {
                assert(read[read.len() - 1] == row);
            }
        }
    }
}

/// A table is read by its headings: without a column for names or one for identities it is refused;
/// otherwise every row that has a name gives one interface of that name, and no other row does.
pub proof fn tables_are_read_by_their_headings(headings: Seq<JsonTree>, data: Seq<JsonTree>, i: int)
    ensures
        ({
            let named = exists|j: int|
                0 <= j < headings.len() && tree_text(#[trigger] headings[j]) == Some("name"@);
            let identified = exists|j: int|
                0 <= j < headings.len() && tree_text(#[trigger] headings[j]) == Some(
                    "external_ids"@,
                );
            let read = table_rows(headings, data);
            &&& read is Ok <==> named && identified
            &&& !named ==> read == Err::<Seq<OvsRowModel>, Seq<char>>(
                "ovs json missing name heading"@,
            )
            &&& named && !identified ==> read == Err::<Seq<OvsRowModel>, Seq<char>>(
                "ovs json missing external_ids heading"@,
            )
            &&& read matches Ok(rows) ==> {
                let names = last_heading(headings, "name"@, headings.len() as int)->0;
                &&& 0 <= names < headings.len()
                &&& tree_text(headings[names]) == Some("name"@)
                &&& rows.len() == data.filter(|row: JsonTree| cell(row, names) is Some).len()
                &&& 0 <= i < rows.len() ==> exists|j: int|
                    0 <= j < data.len() && cell(#[trigger] data[j], names) == Some(rows[i].name)
                &&& 0 <= i < data.len() && cell(data[i], names) is Some ==> exists|k: int|
                    0 <= k < rows.len() && cell(data[i], names) == Some((#[trigger] rows[k]).name)
            }
        }),
{
    let h = headings.len() as int;
    lemma_heading(headings, "name"@, h);
    lemma_heading(headings, "external_ids"@, h);
    if let Ok(rows) = table_rows(headings, data) {
        let names = last_heading(headings, "name"@, h)->0;
        let ids = last_heading(headings, "external_ids"@, h)->0;
        lemma_rows(data, names, ids, data.len() as int);
        assert(data.take(data.len() as int) =~= data);
        if 0 <= i < rows.len() {
            let j = choose|j: int|
                0 <= j < data.len() && row_value(#[trigger] data[j], names, ids) == Some(rows[i]);
            assert(cell(data[j], names) == Some(rows[i].name));
        }
        if 0 <= i < data.len() && cell(data[i], names) is Some {
            let row = row_value(data[i], names, ids)->0;
            assert(rows.contains(row));
            let k = rows.index_of(row);
            assert(rows[k] == row);
        }
    }
}

/// True when no entry after one is for the same key.
spec fn last_for(entries: Seq<JsonTree>, key: Seq<char>, i: int, n: int) -> bool {
    forall|j: int|
        i < j < n ==> !(map_entry(#[trigger] entries[j]) matches Some(pair) && pair.0 == key)
}

proof fn lemma_entries(entries: Seq<JsonTree>, n: int, key: Seq<char>)
    requires
        0 <= n <= entries.len(),
    ensures
        ({
            let read = map_entries(entries, n);
            &&& read.dom().contains(key) <==> exists|i: int|
                0 <= i < n && (map_entry(#[trigger] entries[i]) matches Some(pair) && pair.0 == key)
            &&& read.dom().contains(key) ==> exists|i: int|
                0 <= i < n && map_entry(#[trigger] entries[i]) == Some((key, read[key]))
                    && last_for(entries, key, i, n)
        }),
    decreases n,
{
    if n > 0 {
        lemma_entries(entries, n - 1, key);
        let before = map_entries(entries, n - 1);
        let read = map_entries(entries, n);
        if map_entry(entries[n - 1]) matches Some(pair) && pair.0 == key {
            assert(map_entry(entries[n - 1]) == Some((key, read[key])));
            assert(last_for(entries, key, n - 1, n));
        } else if read.dom().contains(key) {
            assert(read[key] == before[key]);
            let i = choose|i: int|
                0 <= i < n - 1 && map_entry(#[trigger] entries[i]) == Some((key, before[key]))
                    && last_for(entries, key, i, n - 1);
            assert(map_entry(entries[i]) == Some((key, read[key])));
            assert(last_for(entries, key, i, n));
        }
    }
}

/// The identity of an interface is what its row has under `iface-id` in its identities, and is
/// unknown where there is no such entry.
pub proof fn identities_are_read_from_their_column(row: JsonTree, names: int, ids: int)
    requires
        0 <= names,
        0 <= ids,
        row_value(row, names, ids) is Some,
    ensures
        ({
            let read = row_value(row, names, ids)->0;
            let cells = tree_items(row)->0;
            let known = external_ids(cells[ids]);
            &&& cell(row, names) == Some(read.name)
            &&& ids < cells.len() && known.dom().contains("iface-id"@) ==> read.iface_id == Some(
                known["iface-id"@],
            )
            &&& ids >= cells.len() || !known.dom().contains("iface-id"@) ==> read.iface_id is None
        }),
{
}

/// A column of identities holds the pairs that are written in it, and of two for one key the later.
pub proof fn identities_are_the_written_pairs(column: JsonTree, key: Seq<char>)
    ensures
        external_ids(column).dom().contains(key) ==> {
            let items = tree_items(column)->0;
            let entries = tree_items(items[1])->0;
            &&& tree_items(column) is Some
            &&& items.len() == 2
            &&& tree_text(items[0]) == Some("map"@)
            &&& exists|i: int|
                0 <= i < entries.len() && {
                    let pair = tree_items(#[trigger] entries[i])->0;
                    &&& tree_items(entries[i]) is Some
                    &&& pair.len() == 2
                    &&& tree_text(pair[0]) == Some(key)
                    &&& tree_text(pair[1]) == Some(external_ids(column)[key])
                    &&& forall|j: int|
                        i < j < entries.len() ==> !(map_entry(#[trigger] entries[j]) matches Some(
                            later,
                        ) && later.0 == key)
                }
        },
{
    if external_ids(column).dom().contains(key) {
        let entries = tree_items(tree_items(column)->0[1])->0;
        lemma_entries(entries, entries.len() as int, key);
        let read = map_entries(entries, entries.len() as int);
        let i = choose|i: int|
            0 <= i < entries.len() && map_entry(#[trigger] entries[i]) == Some((key, read[key]))
                && last_for(entries, key, i, entries.len() as int);
        assert(tree_items(entries[i]) is Some);
    }
}

/// The ports of a bridge are the lines that name one, without the white space around the names.
pub proof fn bridge_ports_are_the_lines(lines: Seq<Seq<char>>, n: int, name: Seq<char>)
    requires
        0 <= n <= lines.len(),
    ensures
        line_set(lines, n).contains(name) <==> name.len() > 0 && exists|i: int|
            0 <= i < n && trimmed(#[trigger] lines[i]) == name,
    decreases n,
{
    if n > 0 {
        bridge_ports_are_the_lines(lines, n - 1, name);
        if trimmed(lines[n - 1]) == name {
            assert(trimmed(lines[n - 1]) == name);
        }
    }
}

/// An index is a positive number of 32 bits, written in digits; anything else is none.
pub proof fn indexes_are_positive_numbers(raw: Seq<char>)
    ensures
        ({
            let digits = unsigned_digits(trimmed(raw));
            &&& ifindex_value(raw) matches Some(n) ==> {
                &&& n > 0
                &&& digits.len() > 0
                &&& all_digits(digits)
                &&& digits_value(digits) == n
            }
            &&& digits.len() > 0 && all_digits(digits) && 0 < digits_value(digits) <= 0xffff_ffff
                ==> ifindex_value(raw) is Some
        }),
{
}

/// The name that is guessed for the interface of a port is short enough for the host, and begins
/// with the port: ports whose identities agree in the first eleven characters share it, no others.
pub proof fn guessed_names_tell_the_port(a: Seq<char>, b: Seq<char>)
    requires
        a.len() > 0,
        b.len() > 0,
    ensures
        tap_name(a).len() <= 14,
        tap_name(a).take(3) == "tap"@,
        a.len() >= 11 && b.len() >= 11 ==> (tap_name(a) == tap_name(b) <==> a.take(11) == b.take(
            11,
        )),
        a.len() <= 11 ==> tap_name(a) == "tap"@ + a,
        tap_name(Seq::empty()) == Seq::<char>::empty(),
{
    reveal_strlit("tap");
    assert("tap"@.len() == 3);
    let x = a.take(
        if a.len() < 11 {
            a.len() as int
        } else {
            11
        },
    );
    let y = b.take(
        if b.len() < 11 {
            b.len() as int
        } else {
            11
        },
    );
    assert(tap_name(a) == "tap"@ + x);
    assert(tap_name(b) == "tap"@ + y);
    assert(("tap"@ + x).take(3) =~= "tap"@);
    assert(("tap"@ + x).skip(3) =~= x);
    assert(("tap"@ + y).skip(3) =~= y);
    if a.len() <= 11 {
        assert(x =~= a);
    }
}

} // verus!
