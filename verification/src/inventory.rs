//! The interfaces of the host: what the switch and the kernel report of them.

use crate::ordered::{result_view, OrderedMap, Value};
use crate::text::{
    digits_up_to, parse_unsigned, pieces, split, starts_with, text_eq, trim, trimmed,
    unsigned_digits,
};
use vstd::prelude::*;
use vstd::string::*;

verus! {

/// An interface that the switch of the host knows.
#[derive(Debug, PartialEq, Eq)]
pub struct LocalOvsInterface {
    pub name: String,
    pub ifindex: Option<u32>,
    pub bridge: Option<String>,
    pub iface_id: Option<String>,
}

/// The model of [`LocalOvsInterface`].
#[verifier::ext_equal]
pub struct LocalOvsInterfaceModel {
    pub name: Seq<char>,
    pub ifindex: Option<u32>,
    pub bridge: Option<Seq<char>>,
    pub iface_id: Option<Seq<char>>,
}

impl DeepView for LocalOvsInterface {
    type V = LocalOvsInterfaceModel;

    open spec fn deep_view(&self) -> LocalOvsInterfaceModel {
        LocalOvsInterfaceModel {
            name: self.name.deep_view(),
            ifindex: self.ifindex.deep_view(),
            bridge: self.bridge.deep_view(),
            iface_id: self.iface_id.deep_view(),
        }
    }
}

impl Value for LocalOvsInterface {
    fn duplicate(&self) -> (r: Self) {
        LocalOvsInterface {
            name: self.name.duplicate(),
            ifindex: self.ifindex.duplicate(),
            bridge: self.bridge.duplicate(),
            iface_id: self.iface_id.duplicate(),
        }
    }

    fn same(&self, other: &Self) -> (r: bool) {
        self.name.same(&other.name)
            && self.ifindex.same(&other.ifindex)
            && self.bridge.same(&other.bridge)
            && self.iface_id.same(&other.iface_id)
    }
}

impl Clone for LocalOvsInterface {
    fn clone(&self) -> (r: Self)
        ensures
            r.deep_view() == self.deep_view(),
    {
        self.duplicate()
    }
}

/// The interfaces of the host as last read.
#[derive(Debug, PartialEq, Eq)]
pub struct LocalInterfaceInventory {
    pub ovs_bridge: String,
    /// Why the switch could not be read, if it could not.
    pub ovs_error: Option<String>,
    pub by_iface_id: OrderedMap<String, LocalOvsInterface>,
    pub by_name: OrderedMap<String, LocalOvsInterface>,
    /// The interface indexes that the host reports by name.
    pub ifindexes: OrderedMap<String, u32>,
}

/// The model of [`LocalInterfaceInventory`].
#[verifier::ext_equal]
pub struct LocalInterfaceInventoryModel {
    pub ovs_bridge: Seq<char>,
    pub ovs_error: Option<Seq<char>>,
    pub by_iface_id: Map<Seq<char>, LocalOvsInterfaceModel>,
    pub by_name: Map<Seq<char>, LocalOvsInterfaceModel>,
    pub ifindexes: Map<Seq<char>, u32>,
}

impl DeepView for LocalInterfaceInventory {
    type V = LocalInterfaceInventoryModel;

    open spec fn deep_view(&self) -> LocalInterfaceInventoryModel {
        LocalInterfaceInventoryModel {
            ovs_bridge: self.ovs_bridge.deep_view(),
            ovs_error: self.ovs_error.deep_view(),
            by_iface_id: self.by_iface_id.deep_view(),
            by_name: self.by_name.deep_view(),
            ifindexes: self.ifindexes.deep_view(),
        }
    }
}

impl Value for LocalInterfaceInventory {
    fn duplicate(&self) -> (r: Self) {
        LocalInterfaceInventory {
            ovs_bridge: self.ovs_bridge.duplicate(),
            ovs_error: self.ovs_error.duplicate(),
            by_iface_id: self.by_iface_id.duplicate(),
            by_name: self.by_name.duplicate(),
            ifindexes: self.ifindexes.duplicate(),
        }
    }

    fn same(&self, other: &Self) -> (r: bool) {
        self.ovs_bridge.same(&other.ovs_bridge)
            && self.ovs_error.same(&other.ovs_error)
            && self.by_iface_id.same(&other.by_iface_id)
            && self.by_name.same(&other.by_name)
            && self.ifindexes.same(&other.ifindexes)
    }
}

impl Clone for LocalInterfaceInventory {
    fn clone(&self) -> (r: Self)
        ensures
            r.deep_view() == self.deep_view(),
    {
        self.duplicate()
    }
}

/// Why a text is no JSON document, if it is none.
pub uninterp spec fn json_fault(text: Seq<char>) -> Option<Seq<char>>;

/// The member of a JSON object with the given key, as JSON text.
pub uninterp spec fn json_member(text: Seq<char>, key: Seq<char>) -> Option<Seq<char>>;

/// The items of a JSON array, each as JSON text.
pub uninterp spec fn json_items(text: Seq<char>) -> Option<Seq<Seq<char>>>;

/// The characters of a JSON string.
pub uninterp spec fn json_string(text: Seq<char>) -> Option<Seq<char>>;

/// `serde_json::from_str` reads a document or says where the text breaks the
/// grammar; the message depends on the text alone.
#[verifier::external_body]
fn read_json_fault(text: &str) -> (r: Option<String>)
    ensures
        r.deep_view() == json_fault(text@),
{
    match serde_json::from_str::<serde_json::Value>(text) {
        Ok(_) => None,
        Err(error) => Some(error.to_string()),
    }
}

/// `serde_json::Value::get` with a key gives the member of an object, and
/// nothing for any other value; the member is handed on as JSON text.
#[verifier::external_body]
fn read_json_member(text: &str, key: &str) -> (r: Option<String>)
    ensures
        r.deep_view() == json_member(text@, key@),
{
    let value: serde_json::Value = serde_json::from_str(text).ok()?;
    value.get(key).map(|member| member.to_string())
}

/// `serde_json::Value::as_array` gives the items of an array, and nothing for
/// any other value; the items are handed on as JSON texts.
#[verifier::external_body]
fn read_json_items(text: &str) -> (r: Option<Vec<String>>)
    ensures
        r.deep_view() == json_items(text@),
{
    let value: serde_json::Value = serde_json::from_str(text).ok()?;
    value.as_array().map(|items| items.iter().map(|item| item.to_string()).collect())
}

/// `serde_json::Value::as_str` gives the characters of a string, and nothing
/// for any other value.
#[verifier::external_body]
fn read_json_string(text: &str) -> (r: Option<String>)
    ensures
        r.deep_view() == json_string(text@),
{
    let value: serde_json::Value = serde_json::from_str(text).ok()?;
    value.as_str().map(|characters| characters.to_owned())
}

/// A JSON value as far as the interface table is read: strings, and arrays of values.
#[derive(Debug, PartialEq, Eq)]
pub enum JsonTree {
    Text(String),
    List(Vec<JsonTree>),
    Other,
}

/// How deep the interface table is read: a row, a column, the halves of a map, its entries and
/// their strings.
pub const OVS_TABLE_DEPTH: u8 = 5;

/// The characters of a string.
pub open spec fn tree_text(tree: JsonTree) -> Option<Seq<char>> {
    match tree {
        JsonTree::Text(text) => Some(text@),
        _ => None,
    }
}

/// The items of an array.
pub open spec fn tree_items(tree: JsonTree) -> Option<Seq<JsonTree>> {
    match tree {
        JsonTree::List(items) => Some(items@),
        _ => None,
    }
}

/// True when a tree is what a JSON text says, down to a depth.
pub open spec fn reads_as(tree: JsonTree, text: Seq<char>, depth: nat) -> bool
    decreases depth,
{
    if depth == 0 {
        tree is Other
    } else {
        match (json_string(text), json_items(text)) {
            (Some(characters), _) => tree_text(tree) == Some(characters),
            (None, Some(items)) => {
                &&& tree is List
                &&& tree_items(tree)->0.len() == items.len()
                &&& forall|i: int|
                    0 <= i < items.len() ==> reads_as(
                        tree_items(tree)->0[i],
                        #[trigger] items[i],
                        (depth - 1) as nat,
                    )
            },
            (None, None) => tree is Other,
        }
    }
}

/// True when trees are what JSON texts say.
pub open spec fn all_read_as(trees: Seq<JsonTree>, texts: Seq<Seq<char>>, depth: nat) -> bool {
    &&& trees.len() == texts.len()
    &&& forall|i: int| 0 <= i < texts.len() ==> reads_as(trees[i], #[trigger] texts[i], depth)
}

/// Reads a JSON text down to a depth.
pub fn read_tree(text: &str, depth: u8) -> (r: JsonTree)
    ensures
        reads_as(r, text@, depth as nat),
    decreases depth, 1int,
{
    if depth == 0 {
        return JsonTree::Other;
    }
    if let Some(characters) = read_json_string(text) {
        return JsonTree::Text(characters);
    }
    match read_json_items(text) {
        Some(items) => JsonTree::List(read_trees(&items, depth - 1)),
        None => JsonTree::Other,
    }
}

/// Reads JSON texts down to a depth.
pub fn read_trees(texts: &Vec<String>, depth: u8) -> (r: Vec<JsonTree>)
    ensures
        all_read_as(r@, texts.deep_view(), depth as nat),
    decreases depth, 2int,
{
    let ghost models = texts.deep_view();
    let mut r: Vec<JsonTree> = Vec::new();
    let mut i: usize = 0;
    while i < texts.len()
        invariant
            i <= texts.len(),
            models == texts.deep_view(),
            r@.len() == i,
            forall|k: int| 0 <= k < i ==> reads_as(r@[k], #[trigger] models[k], depth as nat),
        decreases texts.len() - i,
    {
        assert(models[i as int] == texts@[i as int]@);
        let tree = read_tree(texts[i].as_str(), depth);
        r.push(tree);
        i += 1;
    }
    r
}

fn is_text(tree: &JsonTree, wanted: &str) -> (r: bool)
    ensures
        r == (tree_text(*tree) == Some(wanted@)),
{
    match tree {
        JsonTree::Text(text) => text_eq(text.as_str(), wanted),
        _ => false,
    }
}

/// The index of the last heading with a name, below `n`.
pub open spec fn last_heading(headings: Seq<JsonTree>, name: Seq<char>, n: int) -> Option<int>
    decreases n,
{
    if n <= 0 {
        None
    } else if tree_text(headings[n - 1]) == Some(name) {
        Some(n - 1)
    } else {
        last_heading(headings, name, n - 1)
    }
}

fn find_heading(headings: &Vec<JsonTree>, name: &str) -> (r: Option<usize>)
    ensures
        match r {
            Some(i) => last_heading(headings@, name@, headings@.len() as int) == Some(i as int) && i
                < headings@.len(),
            None => last_heading(headings@, name@, headings@.len() as int) is None,
        },
{
    let mut n: usize = headings.len();
    while n > 0
        invariant
            n <= headings.len(),
            last_heading(headings@, name@, headings@.len() as int) == last_heading(
                headings@,
                name@,
                n as int,
            ),
        decreases n,
    {
        if is_text(&headings[n - 1], name) {
            return Some(n - 1);
        }
        n -= 1;
    }
    None
}

/// The pair of strings of an entry of a switch map.
pub open spec fn map_entry(entry: JsonTree) -> Option<(Seq<char>, Seq<char>)> {
    match tree_items(entry) {
        Some(pair) if pair.len() == 2 => match (tree_text(pair[0]), tree_text(pair[1])) {
            (Some(key), Some(value)) => Some((key, value)),
            _ => None,
        },
        _ => None,
    }
}

/// The entries below `n` of a switch map.
pub open spec fn map_entries(entries: Seq<JsonTree>, n: int) -> Map<Seq<char>, Seq<char>>
    decreases n,
{
    if n <= 0 {
        Map::empty()
    } else {
        match map_entry(entries[n - 1]) {
            Some((key, value)) => map_entries(entries, n - 1).insert(key, value),
            None => map_entries(entries, n - 1),
        }
    }
}

/// The map that a switch column holds; anything else counts as empty.
pub open spec fn external_ids(column: JsonTree) -> Map<Seq<char>, Seq<char>> {
    match tree_items(column) {
        Some(items) if items.len() == 2 && tree_text(items[0]) == Some("map"@) => {
            match tree_items(items[1]) {
                Some(entries) => map_entries(entries, entries.len() as int),
                None => Map::empty(),
            }
        },
        _ => Map::empty(),
    }
}

fn read_entry(entry: &JsonTree) -> (r: Option<(String, String)>)
    ensures
        r.deep_view() == map_entry(*entry),
{
    match entry {
        JsonTree::List(pair) if pair.len() == 2 => match (&pair[0], &pair[1]) {
            (JsonTree::Text(key), JsonTree::Text(value)) => Some(
                (key.duplicate(), value.duplicate()),
            ),
            _ => None,
        },
        _ => None,
    }
}

/// Reads the map that a switch column holds.
pub fn parse_ovs_external_ids(column: &JsonTree) -> (r: OrderedMap<String, String>)
    ensures
        r.deep_view() == external_ids(*column),
{
    let mut result: OrderedMap<String, String> = OrderedMap::new();
    let items = match column {
        JsonTree::List(items) => items,
        _ => {
            return result;
        },
    };
    if items.len() != 2 || !is_text(&items[0], "map") {
        return result;
    }
    let entries = match &items[1] {
        JsonTree::List(entries) => entries,
        _ => {
            return result;
        },
    };
    let mut i: usize = 0;
    while i < entries.len()
        invariant
            i <= entries.len(),
            result.deep_view() == map_entries(entries@, i as int),
        decreases entries.len() - i,
    {
        if let Some((key, value)) = read_entry(&entries[i]) {
            result.insert(key, value);
        }
        i += 1;
    }
    result
}

/// What a row of the interface table says: a name and the port it belongs to.
#[derive(Debug, PartialEq, Eq)]
pub struct OvsRow {
    pub name: String,
    pub iface_id: Option<String>,
}

/// The model of [`OvsRow`].
#[verifier::ext_equal]
pub struct OvsRowModel {
    pub name: Seq<char>,
    pub iface_id: Option<Seq<char>>,
}

impl DeepView for OvsRow {
    type V = OvsRowModel;

    open spec fn deep_view(&self) -> OvsRowModel {
        OvsRowModel { name: self.name@, iface_id: self.iface_id.deep_view() }
    }
}

/// What a row says, if it has a name.
pub open spec fn row_value(row: JsonTree, name_index: int, ids_index: int) -> Option<OvsRowModel> {
    match tree_items(row) {
        None => None,
        Some(values) => if name_index >= values.len() {
            None
        } else {
            match tree_text(values[name_index]) {
                None => None,
                Some(name) => {
                    let ids = if ids_index < values.len() {
                        external_ids(values[ids_index])
                    } else {
                        Map::empty()
                    };
                    Some(OvsRowModel { name, iface_id: lookup(ids, "iface-id"@) })
                },
            }
        },
    }
}

/// What the rows below `n` say.
pub open spec fn row_values(
    rows: Seq<JsonTree>,
    name_index: int,
    ids_index: int,
    n: int,
) -> Seq<OvsRowModel>
    decreases n,
{
    if n <= 0 {
        Seq::empty()
    } else {
        match row_value(rows[n - 1], name_index, ids_index) {
            Some(row) => row_values(rows, name_index, ids_index, n - 1).push(row),
            None => row_values(rows, name_index, ids_index, n - 1),
        }
    }
}

/// The rows of a table with headings, or why it has none.
pub open spec fn table_rows(headings: Seq<JsonTree>, data: Seq<JsonTree>) -> Result<
    Seq<OvsRowModel>,
    Seq<char>,
> {
    match last_heading(headings, "name"@, headings.len() as int) {
        None => Err("ovs json missing name heading"@),
        Some(name_index) => match last_heading(
            headings,
            "external_ids"@,
            headings.len() as int,
        ) {
            None => Err("ovs json missing external_ids heading"@),
            Some(ids_index) => Ok(row_values(data, name_index, ids_index, data.len() as int)),
        },
    }
}

fn parse_row(row: &JsonTree, name_index: usize, ids_index: usize) -> (r: Option<OvsRow>)
    ensures
        r.deep_view() == row_value(*row, name_index as int, ids_index as int),
{
    let values = match row {
        JsonTree::List(values) => values,
        _ => {
            return None;
        },
    };
    if name_index >= values.len() {
        return None;
    }
    let name = match &values[name_index] {
        JsonTree::Text(name) => name.duplicate(),
        _ => {
            return None;
        },
    };
    let ids = if ids_index < values.len() {
        parse_ovs_external_ids(&values[ids_index])
    } else {
        OrderedMap::new()
    };
    let iface_id = match ids.get_text("iface-id") {
        Some(id) => Some(id.duplicate()),
        None => None,
    };
    Some(OvsRow { name, iface_id })
}

/// Reads the rows of a table with headings.
pub fn parse_ovs_table(headings: &Vec<JsonTree>, data: &Vec<JsonTree>) -> (r: Result<
    Vec<OvsRow>,
    String,
>)
    ensures
        result_view(r) == table_rows(headings@, data@),
{
    let name_index = match find_heading(headings, "name") {
        Some(index) => index,
        None => {
            return Err("ovs json missing name heading".to_owned());
        },
    };
    let ids_index = match find_heading(headings, "external_ids") {
        Some(index) => index,
        None => {
            return Err("ovs json missing external_ids heading".to_owned());
        },
    };
    let mut rows: Vec<OvsRow> = Vec::new();
    let mut i: usize = 0;
    assert(rows.deep_view() =~= Seq::<OvsRowModel>::empty());
    while i < data.len()
        invariant
            i <= data.len(),
            rows.deep_view() == row_values(data@, name_index as int, ids_index as int, i as int),
        decreases data.len() - i,
    {
        let ghost before = rows.deep_view();
        if let Some(row) = parse_row(&data[i], name_index, ids_index) {
            rows.push(row);
            assert(rows.deep_view() =~= before.push(row.deep_view()));
        }
        i += 1;
    }
    Ok(rows)
}

/// The items of an array that is a member of a JSON object.
pub open spec fn member_items(payload: Seq<char>, key: Seq<char>) -> Option<Seq<Seq<char>>> {
    match json_member(payload, key) {
        None => None,
        Some(text) => json_items(text),
    }
}

/// True when rows, or an error, are what an interface table in JSON comes to.
pub open spec fn payload_rows(
    payload: Seq<char>,
    rows: Result<Seq<OvsRowModel>, Seq<char>>,
) -> bool {
    match (json_fault(payload), member_items(payload, "headings"@), member_items(payload, "data"@)) {
        (Some(fault), _, _) => rows == Err::<Seq<OvsRowModel>, Seq<char>>(
            "parse ovs-vsctl json: "@ + fault,
        ),
        (None, None, _) => rows == Err::<Seq<OvsRowModel>, Seq<char>>("ovs json missing headings"@),
        (None, Some(_), None) => rows == Err::<Seq<OvsRowModel>, Seq<char>>(
            "ovs json missing data"@,
        ),
        (None, Some(names), Some(texts)) => exists|headings: Seq<JsonTree>, data: Seq<JsonTree>|
            all_read_as(headings, names, OVS_TABLE_DEPTH as nat) && all_read_as(
                data,
                texts,
                OVS_TABLE_DEPTH as nat,
            ) && rows == #[trigger] table_rows(headings, data),
    }
}

fn read_member_items(payload: &str, key: &str) -> (r: Option<Vec<String>>)
    ensures
        r.deep_view() == member_items(payload@, key@),
{
    match read_json_member(payload, key) {
        Some(text) => read_json_items(text.as_str()),
        None => None,
    }
}

/// Reads the rows of an interface table in JSON.
pub fn parse_ovs_rows(payload: &str) -> (r: Result<Vec<OvsRow>, String>)
    ensures
        payload_rows(payload@, result_view(r)),
{
    if let Some(fault) = read_json_fault(payload) {
        let mut error = "parse ovs-vsctl json: ".to_owned();
        error.append(fault.as_str());
        return Err(error);
    }
    let headings = match read_member_items(payload, "headings") {
        Some(headings) => headings,
        None => {
            return Err("ovs json missing headings".to_owned());
        },
    };
    let data = match read_member_items(payload, "data") {
        Some(data) => data,
        None => {
            return Err("ovs json missing data".to_owned());
        },
    };
    let heading_trees = read_trees(&headings, OVS_TABLE_DEPTH);
    let data_trees = read_trees(&data, OVS_TABLE_DEPTH);
    let rows = parse_ovs_table(&heading_trees, &data_trees);
    assert(result_view(rows) == table_rows(heading_trees@, data_trees@));
    rows
}

/// The value of a key of a map, if it has one.
pub open spec fn lookup<K, W>(m: Map<K, W>, k: K) -> Option<W> {
    if m.dom().contains(k) {
        Some(m[k])
    } else {
        None
    }
}

/// The interface that a row stands for.
pub open spec fn row_interface(
    row: OvsRowModel,
    ovs_bridge: Seq<char>,
    bridge_ports: Set<Seq<char>>,
    ifindexes: Map<Seq<char>, u32>,
) -> LocalOvsInterfaceModel {
    LocalOvsInterfaceModel {
        name: row.name,
        ifindex: lookup(ifindexes, row.name),
        bridge: if bridge_ports.contains(row.name) {
            Some(ovs_bridge)
        } else {
            None
        },
        iface_id: row.iface_id,
    }
}

/// The interfaces of the rows below `n`, by the port they belong to.
pub open spec fn interfaces_by_id(
    rows: Seq<OvsRowModel>,
    ovs_bridge: Seq<char>,
    bridge_ports: Set<Seq<char>>,
    ifindexes: Map<Seq<char>, u32>,
    n: int,
) -> Map<Seq<char>, LocalOvsInterfaceModel>
    decreases n,
{
    if n <= 0 {
        Map::empty()
    } else {
        let before = interfaces_by_id(rows, ovs_bridge, bridge_ports, ifindexes, n - 1);
        match rows[n - 1].iface_id {
            Some(id) => before.insert(
                id,
                row_interface(rows[n - 1], ovs_bridge, bridge_ports, ifindexes),
            ),
            None => before,
        }
    }
}

/// The interfaces of the rows below `n`, by name.
pub open spec fn interfaces_by_name(
    rows: Seq<OvsRowModel>,
    ovs_bridge: Seq<char>,
    bridge_ports: Set<Seq<char>>,
    ifindexes: Map<Seq<char>, u32>,
    n: int,
) -> Map<Seq<char>, LocalOvsInterfaceModel>
    decreases n,
{
    if n <= 0 {
        Map::empty()
    } else {
        interfaces_by_name(rows, ovs_bridge, bridge_ports, ifindexes, n - 1).insert(
            rows[n - 1].name,
            row_interface(rows[n - 1], ovs_bridge, bridge_ports, ifindexes),
        )
    }
}

/// The inventory that the rows of the interface table make up.
pub open spec fn rows_inventory(
    ovs_bridge: Seq<char>,
    bridge_ports: Set<Seq<char>>,
    rows: Seq<OvsRowModel>,
    ifindexes: Map<Seq<char>, u32>,
) -> LocalInterfaceInventoryModel {
    LocalInterfaceInventoryModel {
        ovs_bridge,
        ovs_error: None,
        by_iface_id: interfaces_by_id(
            rows,
            ovs_bridge,
            bridge_ports,
            ifindexes,
            rows.len() as int,
        ),
        by_name: interfaces_by_name(
            rows,
            ovs_bridge,
            bridge_ports,
            ifindexes,
            rows.len() as int,
        ),
        ifindexes,
    }
}

impl LocalInterfaceInventory {
    /// The inventory of a host whose switch could not be read.
    pub fn unavailable(ovs_bridge: &str, error: String, ifindexes: OrderedMap<String, u32>) -> (r:
        LocalInterfaceInventory)
        ensures
            r.deep_view() == (LocalInterfaceInventoryModel {
                ovs_bridge: ovs_bridge@,
                ovs_error: Some(error@),
                by_iface_id: Map::empty(),
                by_name: Map::empty(),
                ifindexes: ifindexes.deep_view(),
            }),
    {
        LocalInterfaceInventory {
            ovs_bridge: ovs_bridge.to_owned(),
            ovs_error: Some(error),
            by_iface_id: OrderedMap::new(),
            by_name: OrderedMap::new(),
            ifindexes,
        }
    }

    /// Makes the inventory of the rows of the interface table.
    pub fn from_ovs_rows(
        ovs_bridge: &str,
        bridge_ports: &OrderedMap<String, bool>,
        rows: &Vec<OvsRow>,
        ifindexes: OrderedMap<String, u32>,
    ) -> (r: LocalInterfaceInventory)
        ensures
            r.deep_view() == rows_inventory(
                ovs_bridge@,
                bridge_ports.deep_view().dom(),
                rows.deep_view(),
                ifindexes.deep_view(),
            ),
    {
        let ghost models = rows.deep_view();
        let ghost members = bridge_ports.deep_view().dom();
        let ghost indexes = ifindexes.deep_view();
        let mut by_iface_id: OrderedMap<String, LocalOvsInterface> = OrderedMap::new();
        let mut by_name: OrderedMap<String, LocalOvsInterface> = OrderedMap::new();
        let mut i: usize = 0;
        while i < rows.len()
            invariant
                i <= rows.len(),
                models == rows.deep_view(),
                members == bridge_ports.deep_view().dom(),
                indexes == ifindexes.deep_view(),
                by_iface_id.deep_view() == interfaces_by_id(
                    models,
                    ovs_bridge@,
                    members,
                    indexes,
                    i as int,
                ),
                by_name.deep_view() == interfaces_by_name(
                    models,
                    ovs_bridge@,
                    members,
                    indexes,
                    i as int,
                ),
            decreases rows.len() - i,
        {
            let row = &rows[i];
            assert(models[i as int] == row.deep_view());
            let interface = LocalOvsInterface {
                name: row.name.duplicate(),
                ifindex: match ifindexes.get(&row.name) {
                    Some(index) => Some(*index),
                    None => None,
                },
                bridge: if bridge_ports.contains_key(&row.name) {
                    Some(ovs_bridge.to_owned())
                } else {
                    None
                },
                iface_id: row.iface_id.duplicate(),
            };
            assert(interface.deep_view() == row_interface(
                row.deep_view(),
                ovs_bridge@,
                members,
                indexes,
            ));
            if let Some(id) = &row.iface_id {
                by_iface_id.insert(id.duplicate(), interface.duplicate());
            }
            by_name.insert(row.name.duplicate(), interface);
            i += 1;
        }
        LocalInterfaceInventory {
            ovs_bridge: ovs_bridge.to_owned(),
            ovs_error: None,
            by_iface_id,
            by_name,
            ifindexes,
        }
    }

    /// Makes the inventory of an interface table in JSON.
    pub fn from_ovs_json(
        ovs_bridge: &str,
        bridge_ports: &OrderedMap<String, bool>,
        payload: &str,
        ifindexes: OrderedMap<String, u32>,
    ) -> (r: Result<LocalInterfaceInventory, String>)
        ensures
            match r {
                Ok(inventory) => exists|rows: Seq<OvsRowModel>|
                    payload_rows(payload@, Ok(rows)) && inventory.deep_view()
                        == #[trigger] rows_inventory(
                        ovs_bridge@,
                        bridge_ports.deep_view().dom(),
                        rows,
                        ifindexes.deep_view(),
                    ),
                Err(error) => payload_rows(payload@, Err(error@)),
            },
    {
        match parse_ovs_rows(payload) {
            Ok(rows) => Ok(
                LocalInterfaceInventory::from_ovs_rows(ovs_bridge, bridge_ports, &rows, ifindexes),
            ),
            Err(error) => Err(error),
        }
    }

    /// Whether the inventory says what is and what is not on the host.
    pub fn is_authoritative(&self) -> (r: bool)
        ensures
            r == (self.deep_view().ovs_error is None),
    {
        self.ovs_error.is_none()
    }
}

/// The lines below `n` of a text that are not blank, without white space around them.
pub open spec fn line_set(lines: Seq<Seq<char>>, n: int) -> Set<Seq<char>>
    decreases n,
{
    if n <= 0 {
        Set::empty()
    } else if trimmed(lines[n - 1]).len() > 0 {
        line_set(lines, n - 1).insert(trimmed(lines[n - 1]))
    } else {
        line_set(lines, n - 1)
    }
}

/// Reads the names that the switch lists one to a line.
pub fn parse_bridge_ports(output: &str) -> (r: OrderedMap<String, bool>)
    ensures
        r.deep_view().dom() == line_set(
            pieces(output@, '\n'),
            pieces(output@, '\n').len() as int,
        ),
{
    let lines = split(output, '\n');
    let ghost models = lines.deep_view();
    let mut names: OrderedMap<String, bool> = OrderedMap::new();
    let mut i: usize = 0;
    assert(names.deep_view().dom() =~= Set::empty());
    while i < lines.len()
        invariant
            i <= lines.len(),
            models == lines.deep_view(),
            names.deep_view().dom() == line_set(models, i as int),
        decreases lines.len() - i,
    {
        assert(models[i as int] == lines@[i as int]@);
        let name = trim(lines[i].as_str());
        if !name.is_empty() {
            names.insert(name.to_owned(), true);
        }
        assert(names.deep_view().dom() =~= line_set(models, i + 1));
        i += 1;
    }
    names
}

/// The error text of a switch command that did not succeed.
pub fn ovs_command_failure(command: &str, stderr: &str) -> (r: String)
    ensures
        r@ == "ovs-vsctl "@ + command@ + " failed: "@ + trimmed(stderr@),
{
    let mut r = "ovs-vsctl ".to_owned();
    r.append(command);
    r.append(" failed: ");
    r.append(trim(stderr));
    r
}

/// The interface index that the kernel wrote; zero stands for none.
pub open spec fn ifindex_value(raw: Seq<char>) -> Option<u32> {
    match digits_up_to(unsigned_digits(trimmed(raw)), u32::MAX as nat) {
        Some(n) if n > 0 => Some(n as u32),
        _ => None,
    }
}

/// Reads the interface index that the kernel wrote.
pub fn parse_ifindex(raw: &str) -> (r: Option<u32>)
    ensures
        r == ifindex_value(raw@),
{
    match parse_unsigned(trim(raw), u32::MAX) {
        Some(n) => if n > 0 {
            Some(n)
        } else {
            None
        },
        None => None,
    }
}

/// The time that is left for a switch command, in nanoseconds.
pub fn remaining_ovs_inventory_time(deadline_ns: u64, now_ns: u64, command: &str) -> (r: Result<
    u64,
    String,
>)
    ensures
        match r {
            Ok(left) => now_ns < deadline_ns && left == deadline_ns - now_ns,
            Err(error) => deadline_ns <= now_ns && error@ == "ovs-vsctl "@ + command@
                + " timed out"@,
        },
{
    if now_ns < deadline_ns {
        Ok(deadline_ns - now_ns)
    } else {
        let mut error = "ovs-vsctl ".to_owned();
        error.append(command);
        error.append(" timed out");
        Err(error)
    }
}

/// A span of milliseconds, or the largest number if it is longer than that.
pub fn elapsed_ms(millis: u128) -> (r: u64)
    ensures
        r == if millis > u64::MAX {
            u64::MAX as int
        } else {
            millis as int
        },
{
    if millis > u64::MAX as u128 {
        u64::MAX
    } else {
        millis as u64
    }
}

/// The name that a tap of a port has by default.
pub open spec fn tap_name(port_id: Seq<char>) -> Seq<char> {
    if port_id.len() == 0 {
        Seq::empty()
    } else {
        "tap"@ + port_id.take(
            if port_id.len() < 11 {
                port_id.len() as int
            } else {
                11
            },
        )
    }
}

/// Guesses the name of the tap of a port.
pub fn guess_tap_name(port_id: &str) -> (r: String)
    ensures
        r@ == tap_name(port_id@),
{
    if port_id.is_empty() {
        return String::new();
    }
    let n: usize = port_id.unicode_len();
    let m: usize = if n < 11 {
        n
    } else {
        11
    };
    let mut r = "tap".to_owned();
    r.append(port_id.substring_char(0, m));
    assert(port_id@.subrange(0, m as int) =~= port_id@.take(m as int));
    r
}

/// True for the owner of a port of a virtual machine; a port without one may be.
pub open spec fn compute_owner(device_owner: Option<Seq<char>>) -> bool {
    match device_owner {
        None => true,
        Some(owner) => owner.len() == 0 || crate::text::has_prefix(owner, "compute:"@),
    }
}

/// Whether a port belongs to a virtual machine.
pub fn is_compute_owner(device_owner: Option<&str>) -> (r: bool)
    ensures
        r == compute_owner(device_owner.deep_view()),
{
    match device_owner {
        None => true,
        Some(owner) => owner.is_empty() || starts_with(owner, "compute:"),
    }
}

/// True when a text is missing, empty or the given one.
pub open spec fn blank_or(text: Option<Seq<char>>, wanted: Seq<char>) -> bool {
    match text {
        None => true,
        Some(t) => t.len() == 0 || t == wanted,
    }
}

/// Whether a port is plugged into the switch.
pub fn is_ovs_vif(vif_type: Option<&str>) -> (r: bool)
    ensures
        r == blank_or(vif_type.deep_view(), "ovs"@),
{
    match vif_type {
        None => true,
        Some(text) => text.is_empty() || text_eq(text, "ovs"),
    }
}

/// Whether a port has an ordinary network card.
pub fn is_normal_vnic(vnic_type: Option<&str>) -> (r: bool)
    ensures
        r == blank_or(vnic_type.deep_view(), "normal"@),
{
    match vnic_type {
        None => true,
        Some(text) => text.is_empty() || text_eq(text, "normal"),
    }
}

/// Whether a detached port still has ACL state that must be purged: it has as
/// long as its interface exists.
pub fn detached_port_cleanup_requires_acl_purge(interface_exists: bool) -> (r: bool)
    ensures
        r == interface_exists,
{
    interface_exists
}

} // verus!
