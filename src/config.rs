//! The generic configuration tree and the walk that reports the keys no
//! descriptor field consumed.
use vstd::prelude::*;

verus! {

/// A node of the generic key/value tree a manifest parses into.
#[derive(Debug)]
pub enum ConfigValue {
    Str(String),
    Int(i64),
    Bool(bool),
    /// A leaf of another kind (a float or a date), kept as its text.
    Other(String),
    Array(Vec<ConfigValue>),
    /// Entries in document order.
    Table(Vec<(String, ConfigValue)>),
}

/// The dotted path of `k` under `key`.
pub open spec fn extend_key(key: Seq<char>, k: Seq<char>) -> Seq<char> {
    if key.len() == 0 {
        k
    } else {
        key + "."@ + k
    }
}

/// The dotted paths of the leaves of `v`, which stands at `key`, in
/// document order. Array elements share the array's path.
pub open spec fn leaf_paths(v: ConfigValue, key: Seq<char>) -> Seq<Seq<char>>
    decreases v, 1int, 0int,
{
    match v {
        ConfigValue::Table(t) => entry_paths(v, key, t@.len() as int),
        ConfigValue::Array(a) => item_paths(v, key, a@.len() as int),
        _ => seq![key],
    }
}

/// The leaf paths of the first `n` entries of the table `v`.
pub open spec fn entry_paths(v: ConfigValue, key: Seq<char>, n: int) -> Seq<Seq<char>>
    decreases v, 0int, n,
{
    match v {
        ConfigValue::Table(t) => if 0 < n <= t@.len() {
            entry_paths(v, key, n - 1) + leaf_paths(t@[n - 1].1, extend_key(key, t@[n - 1].0@))
        } else {
            seq![]
        },
        _ => seq![],
    }
}

/// The leaf paths of the first `n` elements of the array `v`.
pub open spec fn item_paths(v: ConfigValue, key: Seq<char>, n: int) -> Seq<Seq<char>>
    decreases v, 0int, n,
{
    match v {
        ConfigValue::Array(a) => if 0 < n <= a@.len() {
            item_paths(v, key, n - 1) + leaf_paths(a@[n - 1], key)
        } else {
            seq![]
        },
        _ => seq![],
    }
}

/// The warning reported for an unused key.
pub open spec fn unused_warning(key: Seq<char>) -> Seq<char> {
    "unused manifest key: "@ + key
}

pub open spec fn unused_warnings(v: ConfigValue, key: Seq<char>) -> Seq<Seq<char>> {
    leaf_paths(v, key).map_values(|p: Seq<char>| unused_warning(p))
}

fn extend(key: &String, k: &String) -> (r: String)
    ensures
        r@ == extend_key(key@, k@),
{
    if key.as_str().unicode_len() == 0 {
        k.clone()
    } else {
        let mut s = key.clone();
        s.append(".");
        s.append(k.as_str());
        s
    }
}

/// Appends a warning for every leaf of `v`, which stands at `key`.
pub fn add_unused_keys(warnings: &mut Vec<String>, v: &ConfigValue, key: &String)
    ensures
        crate::target::strs(final(warnings)@) == crate::target::strs(old(warnings)@) + unused_warnings(*v, key@),
    decreases *v,
{
    let ghost start = crate::target::strs(warnings@);
    match v {
        ConfigValue::Table(t) => {
            let mut i: usize = 0;
            assert(entry_paths(*v, key@, 0) =~= seq![]);
            while i < t.len()
                invariant
                    *v == ConfigValue::Table(*t),
                    i <= t@.len(),
                    crate::target::strs(warnings@) =~= start + entry_paths(*v, key@, i as int).map_values(
                        |p: Seq<char>| unused_warning(p),
                    ),
                decreases t@.len() - i,
            {
                let k = extend(key, &t[i].0);
                let ghost mid = crate::target::strs(warnings@);
                assert(decreases_to!(*v => t@[i as int].1));
                add_unused_keys(warnings, &t[i].1, &k);
                assert(entry_paths(*v, key@, i + 1) == entry_paths(*v, key@, i as int) + leaf_paths(t@[i as int].1, k@));
                assert(entry_paths(*v, key@, i + 1).map_values(|p: Seq<char>| unused_warning(p)) =~= entry_paths(
                    *v,
                    key@,
                    i as int,
                ).map_values(|p: Seq<char>| unused_warning(p)) + unused_warnings(t@[i as int].1, k@));
                i = i + 1;
            }
            assert(unused_warnings(*v, key@) == entry_paths(*v, key@, t@.len() as int).map_values(
                |p: Seq<char>| unused_warning(p),
            ));
        },
        ConfigValue::Array(a) => {
            let mut i: usize = 0;
            assert(item_paths(*v, key@, 0) =~= seq![]);
            while i < a.len()
                invariant
                    *v == ConfigValue::Array(*a),
                    i <= a@.len(),
                    crate::target::strs(warnings@) =~= start + item_paths(*v, key@, i as int).map_values(
                        |p: Seq<char>| unused_warning(p),
                    ),
                decreases a@.len() - i,
            {
                assert(decreases_to!(*v => a@[i as int]));
                add_unused_keys(warnings, &a[i], key);
                assert(item_paths(*v, key@, i + 1).map_values(|p: Seq<char>| unused_warning(p)) =~= item_paths(
                    *v,
                    key@,
                    i as int,
                ).map_values(|p: Seq<char>| unused_warning(p)) + unused_warnings(a@[i as int], key@));
                i = i + 1;
            }
        },
        _ => {
            let mut s = String::from_str("unused manifest key: ");
            s.append(key.as_str());
            let ghost before = warnings@;
            warnings.push(s);
            assert(crate::target::strs(warnings@) =~= crate::target::strs(before).push(s@));
            assert(unused_warnings(*v, key@) =~= seq![unused_warning(key@)]);
        },
    }
}

/// The keys a section accepts: leaves, a table of named fields, or a table
/// whose every entry has the same shape. Arrays take their elements' shape.
pub enum KeySchema {
    Leaf,
    Fields(Vec<(&'static str, KeySchema)>),
    Entries(Box<KeySchema>),
}

/// The shape of the field `k` among `fs`: the first with that name.
pub open spec fn schema_lookup(fs: Seq<(&'static str, KeySchema)>, k: Seq<char>) -> Option<KeySchema>
    decreases fs.len(),
{
    if fs.len() == 0 {
        None
    } else if fs[0].0@ == k {
        Some(fs[0].1)
    } else {
        schema_lookup(fs.drop_first(), k)
    }
}

/// The paths of the entry `x` at `k` of a table under `sc`, that `sc` does
/// not accept.
pub open spec fn entry_unknown(sc: KeySchema, k: Seq<char>, x: ConfigValue, path: Seq<char>) -> Seq<Seq<char>>
    decreases x, 2int, 0int,
{
    match sc {
        KeySchema::Fields(fs) => match schema_lookup(fs@, k) {
            Some(s) => unknown_paths(x, s, path),
            None => leaf_paths(x, path),
        },
        KeySchema::Entries(s) => unknown_paths(x, *s, path),
        KeySchema::Leaf => seq![],
    }
}

/// The dotted paths of the leaves of `v`, at `key`, that `sc` does not
/// accept, in document order.
pub open spec fn unknown_paths(v: ConfigValue, sc: KeySchema, key: Seq<char>) -> Seq<Seq<char>>
    decreases v, 1int, 0int,
{
    if sc is Leaf {
        seq![]
    } else {
        match v {
            ConfigValue::Table(t) => unknown_entry_paths(v, sc, key, t@.len() as int),
            ConfigValue::Array(a) => unknown_item_paths(v, sc, key, a@.len() as int),
            _ => seq![],
        }
    }
}

pub open spec fn unknown_entry_paths(v: ConfigValue, sc: KeySchema, key: Seq<char>, n: int) -> Seq<Seq<char>>
    decreases v, 0int, n,
{
    match v {
        ConfigValue::Table(t) => if 0 < n <= t@.len() {
            unknown_entry_paths(v, sc, key, n - 1) + entry_unknown(
                sc,
                t@[n - 1].0@,
                t@[n - 1].1,
                extend_key(key, t@[n - 1].0@),
            )
        } else {
            seq![]
        },
        _ => seq![],
    }
}

pub open spec fn unknown_item_paths(v: ConfigValue, sc: KeySchema, key: Seq<char>, n: int) -> Seq<Seq<char>>
    decreases v, 0int, n,
{
    match v {
        ConfigValue::Array(a) => if 0 < n <= a@.len() {
            unknown_item_paths(v, sc, key, n - 1) + unknown_paths(a@[n - 1], sc, key)
        } else {
            seq![]
        },
        _ => seq![],
    }
}

pub(crate) fn field_schema<'a>(fs: &'a Vec<(&'static str, KeySchema)>, k: &str) -> (r: Option<&'a KeySchema>)
    ensures
        match r {
            Some(s) => schema_lookup(fs@, k@) == Some(*s),
            None => schema_lookup(fs@, k@) is None,
        },
{
    let mut i: usize = 0;
    assert(fs@.subrange(0, fs@.len() as int) =~= fs@);
    while i < fs.len()
        invariant
            i <= fs@.len(),
            schema_lookup(fs@, k@) == schema_lookup(fs@.subrange(i as int, fs@.len() as int), k@),
        decreases fs@.len() - i,
    {
        assert(fs@.subrange(i as int, fs@.len() as int).drop_first() =~= fs@.subrange(i + 1, fs@.len() as int));
        if crate::path::str_eq(fs[i].0, k) {
            return Some(&fs[i].1);
        }
        i = i + 1;
    }
    None
}

/// The warnings for the leaves of `v`, at `key`, that `sc` does not accept.
pub open spec fn unknown_warnings(v: ConfigValue, sc: KeySchema, key: Seq<char>) -> Seq<Seq<char>> {
    unknown_paths(v, sc, key).map_values(|p: Seq<char>| unused_warning(p))
}

/// Appends a warning for every leaf of `v`, at `key`, that `schema` does
/// not accept.
pub fn add_unknown_keys(warnings: &mut Vec<String>, v: &ConfigValue, schema: &KeySchema, key: &String)
    ensures
        crate::target::strs(final(warnings)@) == crate::target::strs(old(warnings)@) + unknown_warnings(
            *v,
            *schema,
            key@,
        ),
    decreases *v,
{
    let ghost start = crate::target::strs(warnings@);
    let is_leaf = match schema {
        KeySchema::Leaf => true,
        _ => false,
    };
    if is_leaf {
        assert(crate::target::strs(warnings@) =~= start + unknown_warnings(*v, *schema, key@));
        return;
    }
    match v {
        ConfigValue::Table(t) => {
            let mut i: usize = 0;
            assert(unknown_entry_paths(*v, *schema, key@, 0) =~= seq![]);
            while i < t.len()
                invariant
                    *v == ConfigValue::Table(*t),
                    !(*schema is Leaf),
                    i <= t@.len(),
                    crate::target::strs(warnings@) =~= start + unknown_entry_paths(*v, *schema, key@, i as int).map_values(
                        |p: Seq<char>| unused_warning(p),
                    ),
                decreases t@.len() - i,
            {
                let k = extend(key, &t[i].0);
                assert(entry_paths(*v, key@, i + 1) == entry_paths(*v, key@, i as int) + leaf_paths(t@[i as int].1, k@));
                assert(decreases_to!(*v => t@[i as int].1));
                let ghost e = entry_unknown(*schema, t@[i as int].0@, t@[i as int].1, k@);
                match schema {
                    KeySchema::Fields(fs) => match field_schema(fs, t[i].0.as_str()) {
                        Some(s) => add_unknown_keys(warnings, &t[i].1, s, &k),
                        None => add_unused_keys(warnings, &t[i].1, &k),
                    },
                    KeySchema::Entries(s) => add_unknown_keys(warnings, &t[i].1, s, &k),
                    KeySchema::Leaf => {},
                }
                assert(unknown_entry_paths(*v, *schema, key@, i + 1) == unknown_entry_paths(*v, *schema, key@, i as int) + e);
                assert(unknown_entry_paths(*v, *schema, key@, i + 1).map_values(|p: Seq<char>| unused_warning(p)) =~= unknown_entry_paths(
                    *v,
                    *schema,
                    key@,
                    i as int,
                ).map_values(|p: Seq<char>| unused_warning(p)) + e.map_values(|p: Seq<char>| unused_warning(p)));
                i = i + 1;
            }
        },
        ConfigValue::Array(a) => {
            let mut i: usize = 0;
            assert(unknown_item_paths(*v, *schema, key@, 0) =~= seq![]);
            while i < a.len()
                invariant
                    *v == ConfigValue::Array(*a),
                    !(*schema is Leaf),
                    i <= a@.len(),
                    crate::target::strs(warnings@) =~= start + unknown_item_paths(*v, *schema, key@, i as int).map_values(
                        |p: Seq<char>| unused_warning(p),
                    ),
                decreases a@.len() - i,
            {
                assert(item_paths(*v, key@, i + 1) == item_paths(*v, key@, i as int) + leaf_paths(a@[i as int], key@));
                assert(decreases_to!(*v => a@[i as int]));
                add_unknown_keys(warnings, &a[i], schema, key);
                assert(unknown_item_paths(*v, *schema, key@, i + 1).map_values(|p: Seq<char>| unused_warning(p)) =~= unknown_item_paths(
                    *v,
                    *schema,
                    key@,
                    i as int,
                ).map_values(|p: Seq<char>| unused_warning(p)) + unknown_warnings(a@[i as int], *schema, key@));
                i = i + 1;
            }
        },
        _ => {
            assert(crate::target::strs(warnings@) =~= start + unknown_warnings(*v, *schema, key@));
        },
    }
}

/// `v` is a table with entries `tbl`.
pub open spec fn is_table_of(v: ConfigValue, tbl: Seq<(String, ConfigValue)>) -> bool {
    match v {
        ConfigValue::Table(x) => x@ == tbl,
        _ => false,
    }
}

/// `v` is the table `tbl`, or an array holding it.
pub open spec fn holds_table(v: ConfigValue, tbl: Seq<(String, ConfigValue)>) -> bool {
    is_table_of(v, tbl) || (v is Array && exists|m: int|
        0 <= m < v->Array_0@.len() && is_table_of(#[trigger] v->Array_0@[m], tbl))
}

/// A field that a schema lookup finds is one of the schema's fields.
pub proof fn lemma_schema_lookup_member(fs: Seq<(&'static str, KeySchema)>, k: Seq<char>)
    requires
        schema_lookup(fs, k) is Some,
    ensures
        exists|i: int| 0 <= i < fs.len() && fs[i].0@ == k && Some(fs[i].1) == schema_lookup(fs, k),
    decreases fs.len(),
{
    if fs[0].0@ != k {
        lemma_schema_lookup_member(fs.drop_first(), k);
        let i = choose|i: int|
            0 <= i < fs.drop_first().len() && fs.drop_first()[i].0@ == k && Some(fs.drop_first()[i].1)
                == schema_lookup(fs.drop_first(), k);
        assert(fs[i + 1] == fs.drop_first()[i]);
    }
}

proof fn lemma_entry_paths_contain(v: ConfigValue, sc: KeySchema, key: Seq<char>, j: int, n: int, p: Seq<char>)
    requires
        v is Table,
        0 <= j < n <= v->Table_0@.len(),
        entry_unknown(sc, v->Table_0@[j].0@, v->Table_0@[j].1, extend_key(key, v->Table_0@[j].0@)).contains(p),
    ensures
        unknown_entry_paths(v, sc, key, n).contains(p),
    decreases n,
{
    let t = v->Table_0@;
    let prev = unknown_entry_paths(v, sc, key, n - 1);
    let e = entry_unknown(sc, t[n - 1].0@, t[n - 1].1, extend_key(key, t[n - 1].0@));
    assert(unknown_entry_paths(v, sc, key, n) == prev + e);
    if j == n - 1 {
        let m = choose|m: int| 0 <= m < e.len() && e[m] == p;
        assert((prev + e)[prev.len() + m] == p);
    } else {
        lemma_entry_paths_contain(v, sc, key, j, n - 1, p);
        let m = choose|m: int| 0 <= m < prev.len() && prev[m] == p;
        assert((prev + e)[m] == p);
    }
}

proof fn lemma_item_paths_contain(v: ConfigValue, sc: KeySchema, key: Seq<char>, j: int, n: int, p: Seq<char>)
    requires
        v is Array,
        0 <= j < n <= v->Array_0@.len(),
        unknown_paths(v->Array_0@[j], sc, key).contains(p),
    ensures
        unknown_item_paths(v, sc, key, n).contains(p),
    decreases n,
{
    let a = v->Array_0@;
    let prev = unknown_item_paths(v, sc, key, n - 1);
    let e = unknown_paths(a[n - 1], sc, key);
    assert(unknown_item_paths(v, sc, key, n) == prev + e);
    if j == n - 1 {
        let m = choose|m: int| 0 <= m < e.len() && e[m] == p;
        assert((prev + e)[prev.len() + m] == p);
    } else {
        lemma_item_paths_contain(v, sc, key, j, n - 1, p);
        let m = choose|m: int| 0 <= m < prev.len() && prev[m] == p;
        assert((prev + e)[m] == p);
    }
}

/// Under a table schema, a field the schema lacks is unknown whole: every
/// leaf below it is among the unknown paths, for a table and for each
/// table of an array.
pub proof fn lemma_unknown_field_reported(v: ConfigValue, sc: KeySchema, key: Seq<char>, tbl: Seq<(String, ConfigValue)>, j: int, p: Seq<char>)
    requires
        sc matches KeySchema::Fields(fs) && schema_lookup(fs@, tbl[j].0@) is None,
        0 <= j < tbl.len(),
        holds_table(v, tbl),
        leaf_paths(tbl[j].1, extend_key(key, tbl[j].0@)).contains(p),
    ensures
        unknown_paths(v, sc, key).contains(p),
{
    if v is Table {
        lemma_entry_paths_contain(v, sc, key, j, tbl.len() as int, p);
    } else {
        let m = choose|m: int| 0 <= m < v->Array_0@.len() && is_table_of(#[trigger] v->Array_0@[m], tbl);
        let elem = v->Array_0@[m];
        lemma_entry_paths_contain(elem, sc, key, j, tbl.len() as int, p);
        lemma_item_paths_contain(v, sc, key, m, v->Array_0@.len() as int, p);
    }
}

/// A path that an entry of the table `v` leaves unknown is unknown in `v`.
pub proof fn lemma_unknown_in_entry(v: ConfigValue, sc: KeySchema, key: Seq<char>, j: int, p: Seq<char>)
    requires
        v is Table,
        !(sc is Leaf),
        0 <= j < v->Table_0@.len(),
        entry_unknown(sc, v->Table_0@[j].0@, v->Table_0@[j].1, extend_key(key, v->Table_0@[j].0@)).contains(p),
    ensures
        unknown_paths(v, sc, key).contains(p),
{
    lemma_entry_paths_contain(v, sc, key, j, v->Table_0@.len() as int, p);
}

proof fn lemma_leaf_entries_contain(v: ConfigValue, key: Seq<char>, j: int, n: int, p: Seq<char>)
    requires
        v is Table,
        0 <= j < n <= v->Table_0@.len(),
        leaf_paths(v->Table_0@[j].1, extend_key(key, v->Table_0@[j].0@)).contains(p),
    ensures
        entry_paths(v, key, n).contains(p),
    decreases n,
{
    let t = v->Table_0@;
    let prev = entry_paths(v, key, n - 1);
    let e = leaf_paths(t[n - 1].1, extend_key(key, t[n - 1].0@));
    assert(entry_paths(v, key, n) == prev + e);
    if j == n - 1 {
        let m = choose|m: int| 0 <= m < e.len() && e[m] == p;
        assert((prev + e)[prev.len() + m] == p);
    } else {
        lemma_leaf_entries_contain(v, key, j, n - 1, p);
        let m = choose|m: int| 0 <= m < prev.len() && prev[m] == p;
        assert((prev + e)[m] == p);
    }
}

/// A leaf below an entry of the table `v` is a leaf of `v`.
pub proof fn lemma_leaf_in_entry(v: ConfigValue, key: Seq<char>, j: int, p: Seq<char>)
    requires
        v is Table,
        0 <= j < v->Table_0@.len(),
        leaf_paths(v->Table_0@[j].1, extend_key(key, v->Table_0@[j].0@)).contains(p),
    ensures
        leaf_paths(v, key).contains(p),
{
    lemma_leaf_entries_contain(v, key, j, v->Table_0@.len() as int, p);
}

} // verus!
