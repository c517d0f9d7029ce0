//! Merge rules of the user configuration file.
//!
//! The user layer of `config.toml` is read as a table, settings sections are
//! merged into it, and the table is written back. Merging is deep: nested
//! tables merge key by key, any other incoming value replaces the existing
//! one, and keys the incoming side does not mention are kept untouched —
//! so fields this program does not model survive a save.
//!
//! A value is a table, a boolean (the one scalar these rules create), or
//! any other TOML value `L`, carried through unchanged.

use vstd::prelude::*;

verus! {

/// A configuration value.
pub enum ConfigValue<L> {
    Table(ConfigTable<L>),
    Boolean(bool),
    Other(L),
}

/// A table: key / value entries.
pub struct ConfigTable<L> {
    pub entries: Vec<(String, ConfigValue<L>)>,
}

/// Whether some entry has key `k`.
pub open spec fn has_key<L>(e: Seq<(String, ConfigValue<L>)>, k: Seq<char>) -> bool {
    exists|j: int| 0 <= j < e.len() && #[trigger] e[j].0@ == k
}

/// The value of key `k` (meaningful when `has_key(e, k)`).
pub open spec fn value_of<L>(e: Seq<(String, ConfigValue<L>)>, k: Seq<char>) -> ConfigValue<L> {
    e[choose|j: int| 0 <= j < e.len() && #[trigger] e[j].0@ == k].1
}

/// The value of key `k`, if any.
pub open spec fn lookup<L>(e: Seq<(String, ConfigValue<L>)>, k: Seq<char>) -> Option<ConfigValue<L>> {
    if has_key(e, k) {
        Some(value_of(e, k))
    } else {
        None
    }
}

/// No two entries share a key.
pub open spec fn keys_unique<L>(e: Seq<(String, ConfigValue<L>)>) -> bool {
    forall|i: int, j: int| 0 <= i < e.len() && 0 <= j < e.len() && i != j ==> #[trigger] e[i].0@ != #[trigger] e[j].0@
}

/// A value whose tables, at every depth, have unique keys.
pub open spec fn wf_value<L>(v: ConfigValue<L>) -> bool
    decreases v,
{
    match v {
        ConfigValue::Table(t) => wf_entries(t.entries@),
        _ => true,
    }
}

/// Entries with unique keys whose values are well formed at every depth.
pub open spec fn wf_entries<L>(e: Seq<(String, ConfigValue<L>)>) -> bool
    decreases e,
{
    &&& keys_unique(e)
    &&& forall|j: int| 0 <= j < e.len() ==> wf_value(#[trigger] e[j].1)
}

/// `r` is the deep merge of incoming `i` into existing `e`: its keys are
/// those of both; keys only in `e` keep their value; every key of `i` gets
/// the merged entry of its existing and incoming values.
pub open spec fn merged_into<L>(
    e: Seq<(String, ConfigValue<L>)>,
    i: Seq<(String, ConfigValue<L>)>,
    r: Seq<(String, ConfigValue<L>)>,
) -> bool
    decreases i,
{
    &&& forall|k: Seq<char>| #[trigger] has_key(r, k) == (has_key(e, k) || has_key(i, k))
    &&& forall|k: Seq<char>| has_key(e, k) && !has_key(i, k) ==> #[trigger] value_of(r, k) == value_of(e, k)
    &&& forall|j: int| 0 <= j < i.len() ==> merged_entry(lookup(e, (#[trigger] i[j]).0@), i[j].1, value_of(r, i[j].0@))
}

/// `r` is the merge of incoming value `iv` over existing value `ev`: two
/// tables merge deeply, otherwise the incoming value replaces.
pub open spec fn merged_entry<L>(ev: Option<ConfigValue<L>>, iv: ConfigValue<L>, r: ConfigValue<L>) -> bool
    decreases iv,
{
    match (ev, iv) {
        (Some(ConfigValue::Table(et)), ConfigValue::Table(it)) => match r {
            ConfigValue::Table(rt) => merged_into(et.entries@, it.entries@, rt.entries@),
            _ => false,
        },
        _ => r == iv,
    }
}

/// With unique keys, the value of an entry's key is that entry's value.
pub proof fn lemma_value_of_entry<L>(e: Seq<(String, ConfigValue<L>)>, j: int)
    requires
        keys_unique(e),
        0 <= j < e.len(),
    ensures
        has_key(e, e[j].0@),
        value_of(e, e[j].0@) == e[j].1,
{
    let k = e[j].0@;
    assert(e[j].0@ == k);
    let c = choose|x: int| 0 <= x < e.len() && #[trigger] e[x].0@ == k;
    if c != j {
        assert(e[c].0@ != e[j].0@);
    }
}

/// Replacing the value at `idx` (keeping its key) changes only that key.
proof fn lemma_update_value<L>(e: Seq<(String, ConfigValue<L>)>, idx: int, key: String, v: ConfigValue<L>)
    requires
        keys_unique(e),
        0 <= idx < e.len(),
        e[idx].0 == key,
    ensures
        keys_unique(e.update(idx, (key, v))),
        forall|k: Seq<char>| #[trigger] has_key(e.update(idx, (key, v)), k) == has_key(e, k),
        value_of(e.update(idx, (key, v)), key@) == v,
        forall|k: Seq<char>| k != key@ && has_key(e, k) ==> #[trigger] value_of(e.update(idx, (key, v)), k) == value_of(e, k),
{
    let u = e.update(idx, (key, v));
    assert forall|k: Seq<char>| #[trigger] has_key(u, k) == has_key(e, k) by {
        if has_key(e, k) {
            let j = choose|j: int| 0 <= j < e.len() && #[trigger] e[j].0@ == k;
            assert(u[j].0@ == k);
        }
        if has_key(u, k) {
            let j = choose|j: int| 0 <= j < u.len() && #[trigger] u[j].0@ == k;
            assert(e[j].0@ == k);
        }
    }
    lemma_value_of_entry(u, idx);
    assert forall|k: Seq<char>| k != key@ && has_key(e, k) implies #[trigger] value_of(u, k) == value_of(e, k) by {
        let j = choose|j: int| 0 <= j < e.len() && #[trigger] e[j].0@ == k;
        lemma_value_of_entry(e, j);
        assert(j != idx);
        assert(u[j] == e[j]);
        lemma_value_of_entry(u, j);
    }
}

/// Appending an entry with a new key adds exactly that key.
proof fn lemma_push_new_key<L>(e: Seq<(String, ConfigValue<L>)>, key: String, v: ConfigValue<L>)
    requires
        keys_unique(e),
        !has_key(e, key@),
    ensures
        keys_unique(e.push((key, v))),
        forall|k: Seq<char>| #[trigger] has_key(e.push((key, v)), k) == (has_key(e, k) || k == key@),
        value_of(e.push((key, v)), key@) == v,
        forall|k: Seq<char>| k != key@ && has_key(e, k) ==> #[trigger] value_of(e.push((key, v)), k) == value_of(e, k),
{
    let u = e.push((key, v));
    assert forall|i: int, j: int| 0 <= i < u.len() && 0 <= j < u.len() && i != j implies #[trigger] u[i].0@ != #[trigger] u[j].0@ by {
        if i == e.len() {
            assert(e[j].0@ == u[j].0@);
        } else if j == e.len() {
            assert(e[i].0@ == u[i].0@);
        }
    }
    assert forall|k: Seq<char>| #[trigger] has_key(u, k) == (has_key(e, k) || k == key@) by {
        if has_key(e, k) {
            let j = choose|j: int| 0 <= j < e.len() && #[trigger] e[j].0@ == k;
            assert(u[j].0@ == k);
        }
        if k == key@ {
            assert(u[e.len() as int].0@ == k);
        }
        if has_key(u, k) {
            let j = choose|j: int| 0 <= j < u.len() && #[trigger] u[j].0@ == k;
            if j < e.len() {
                assert(e[j].0@ == k);
            }
        }
    }
    lemma_value_of_entry(u, e.len() as int);
    assert forall|k: Seq<char>| k != key@ && has_key(e, k) implies #[trigger] value_of(u, k) == value_of(e, k) by {
        let j = choose|j: int| 0 <= j < e.len() && #[trigger] e[j].0@ == k;
        lemma_value_of_entry(e, j);
        assert(u[j] == e[j]);
        lemma_value_of_entry(u, j);
    }
}

/// Index of the entry with key `key`, if any.
pub fn find_key<L>(entries: &Vec<(String, ConfigValue<L>)>, key: &String) -> (r: Option<usize>)
    requires
        keys_unique(entries@),
    ensures
        match r {
            Some(i) => i < entries@.len() && entries@[i as int].0@ == key@,
            None => !has_key(entries@, key@),
        },
{
    let n = entries.len();
    let mut i: usize = 0;
    while i < n
        invariant
            n == entries@.len(),
            i <= n,
            forall|j: int| 0 <= j < i ==> entries@[j].0@ != key@,
        decreases n - i,
    {
        if entries[i].0 == *key {
            return Some(i);
        }
        i = i + 1;
    }
    assert(!has_key(entries@, key@)) by {
        if has_key(entries@, key@) {
            let j = choose|j: int| 0 <= j < entries@.len() && #[trigger] entries@[j].0@ == key@;
            assert(entries@[j].0@ != key@);
        }
    }
    None
}

/// Merge an incoming value over an existing one: two tables merge deeply,
/// otherwise the incoming value replaces the existing one.
pub fn merge_value<L>(existing: ConfigValue<L>, incoming: ConfigValue<L>) -> (r: ConfigValue<L>)
    requires
        wf_value(existing),
        wf_value(incoming),
    ensures
        wf_value(r),
        merged_entry(Some(existing), incoming, r),
    decreases incoming,
{
    match incoming {
        ConfigValue::Table(s) => match existing {
            ConfigValue::Table(d) => {
                let mut d = d;
                merge_toml_tables(&mut d, s);
                ConfigValue::Table(d)
            },
            _ => ConfigValue::Table(s),
        },
        other => other,
    }
}

/// Deep-merge `incoming` into `existing`: nested tables recurse, any other
/// incoming value replaces, keys absent from `incoming` are kept.
pub fn merge_toml_tables<L>(existing: &mut ConfigTable<L>, incoming: ConfigTable<L>)
    requires
        wf_entries(old(existing).entries@),
        wf_entries(incoming.entries@),
    ensures
        wf_entries(final(existing).entries@),
        merged_into(old(existing).entries@, incoming.entries@, final(existing).entries@),
    decreases incoming,
{
    let ghost e0 = existing.entries@;
    let ghost i0 = incoming.entries@;
    let ghost whole = incoming;
    let ConfigTable { entries: rest } = incoming;
    let mut rest = rest;
    let ghost mut j: int = 0;
    proof {
        assert(i0.subrange(0, 0) =~= Seq::<(String, ConfigValue<L>)>::empty());
        assert(rest@ =~= i0.subrange(0, i0.len() as int));
        assert forall|k: Seq<char>| #[trigger] has_key(existing.entries@, k)
            == (has_key(e0, k) || has_key(i0.subrange(0, 0), k)) by {}
    }
    while rest.len() > 0
        invariant
            0 <= j <= i0.len(),
            i0 == whole.entries@,
            whole == incoming,
            rest@ == i0.subrange(j, i0.len() as int),
            wf_entries(existing.entries@),
            wf_entries(i0),
            wf_entries(e0),
            merged_into(e0, i0.subrange(0, j), existing.entries@),
        decreases rest.len(),
    {
        let ghost r0 = existing.entries@;
        let ghost p = i0.subrange(0, j);
        let ghost p2 = i0.subrange(0, j + 1);
        let (k, v) = rest.remove(0);
        proof {
            assert(k == i0[j].0 && v == i0[j].1);
            assert(p2 =~= p.push(i0[j]));
            assert(wf_value(i0[j].1));
            assert forall|x: int| 0 <= x < p.len() implies (#[trigger] p[x]).0@ != k@ by {
                assert(p[x] == i0[x]);
                assert(i0[x].0@ != i0[j].0@);
            }
            assert(!has_key(p, k@)) by {
                if has_key(p, k@) {
                    let x = choose|x: int| 0 <= x < p.len() && #[trigger] p[x].0@ == k@;
                }
            }
            assert(has_key(r0, k@) == has_key(e0, k@));
            assert(decreases_to!(whole => whole.entries));
            assert(decreases_to!(whole.entries => whole.entries@));
            assert(decreases_to!(whole.entries@ => whole.entries@[j]));
            assert(decreases_to!(whole.entries@[j] => whole.entries@[j].1));
            assert(decreases_to!(whole => v));
            assert(decreases_to!(incoming => v));
        }
        match find_key(&existing.entries, &k) {
            Some(idx) => {
                let (key, old) = existing.entries.remove(idx);
                proof {
                    lemma_value_of_entry(r0, idx as int);
                    assert(old == value_of(e0, k@));
                    assert(wf_value(old)) by {
                        assert(wf_value(r0[idx as int].1));
                    }
                }
                let merged = merge_value(old, v);
                existing.entries.insert(idx, (key, merged));
                proof {
                    assert(existing.entries@ =~= r0.update(idx as int, (key, merged)));
                    lemma_update_value(r0, idx as int, key, merged);
                    lemma_merge_step(e0, p, r0, k@, v, merged, existing.entries@);
                }
            },
            None => {
                existing.entries.push((k, v));
                proof {
                    lemma_push_new_key(r0, k, v);
                    lemma_merge_step(e0, p, r0, k@, v, v, existing.entries@);
                }
            },
        }
        proof {
            j = j + 1;
            assert(rest@ =~= i0.subrange(j, i0.len() as int));
            assert(p2 == i0.subrange(0, j));
        }
    }
    proof {
        assert(i0.subrange(0, j) =~= i0);
    }
}

/// One step of the merge loop: adding the incoming entry `(k, v)` (a key not
/// yet merged) to `r0` as `merged` keeps `r1` the merge of the longer prefix.
proof fn lemma_merge_step<L>(
    e0: Seq<(String, ConfigValue<L>)>,
    p: Seq<(String, ConfigValue<L>)>,
    r0: Seq<(String, ConfigValue<L>)>,
    k: Seq<char>,
    v: ConfigValue<L>,
    merged: ConfigValue<L>,
    r1: Seq<(String, ConfigValue<L>)>,
)
    requires
        merged_into(e0, p, r0),
        !has_key(p, k),
        merged_entry(lookup(e0, k), v, merged),
        forall|x: Seq<char>| #[trigger] has_key(r1, x) == (has_key(r0, x) || x == k),
        has_key(r1, k),
        value_of(r1, k) == merged,
        forall|x: Seq<char>| x != k && has_key(r0, x) ==> #[trigger] value_of(r1, x) == value_of(r0, x),
    ensures
        forall|s: String| s@ == k ==> merged_into(e0, p.push((s, v)), r1),
{
    assert forall|s: String| s@ == k implies merged_into(e0, p.push((s, v)), r1) by {
        let p2 = p.push((s, v));
        assert forall|x: Seq<char>| #[trigger] has_key(p2, x) == (has_key(p, x) || x == k) by {
            if has_key(p, x) {
                let y = choose|y: int| 0 <= y < p.len() && #[trigger] p[y].0@ == x;
                assert(p2[y].0@ == x);
            }
            if x == k {
                assert(p2[p.len() as int].0@ == x);
            }
            if has_key(p2, x) {
                let y = choose|y: int| 0 <= y < p2.len() && #[trigger] p2[y].0@ == x;
                if y < p.len() {
                    assert(p[y].0@ == x);
                }
            }
        }
        assert forall|x: Seq<char>| #[trigger] has_key(r1, x) == (has_key(e0, x) || has_key(p2, x)) by {
            assert(has_key(r0, x) == (has_key(e0, x) || has_key(p, x)));
            if x == k {
                assert(has_key(r1, x));
            }
        }
        assert forall|x: Seq<char>| has_key(e0, x) && !has_key(p2, x) implies #[trigger] value_of(r1, x) == value_of(e0, x) by {
            assert(has_key(r0, x));
            assert(x != k);
        }
        assert forall|y: int| 0 <= y < p2.len() implies merged_entry(lookup(e0, (#[trigger] p2[y]).0@), p2[y].1, value_of(r1, p2[y].0@)) by {
            if y < p.len() {
                assert(p2[y] == p[y]);
                assert(merged_entry(lookup(e0, p[y].0@), p[y].1, value_of(r0, p[y].0@)));
                assert(has_key(p, p[y].0@));
                assert(p[y].0@ != k);
                assert(has_key(r0, p[y].0@));
            }
        }
    }
}

/// `after` differs from `before` at most at key `key`.
pub open spec fn unchanged_except<L>(
    before: Seq<(String, ConfigValue<L>)>,
    after: Seq<(String, ConfigValue<L>)>,
    key: Seq<char>,
) -> bool {
    &&& forall|x: Seq<char>| x != key ==> #[trigger] has_key(after, x) == has_key(before, x)
    &&& forall|x: Seq<char>| x != key && has_key(before, x) ==> #[trigger] value_of(after, x) == value_of(before, x)
}

/// `after` is `before` with section `key` merged from a serialized section:
/// a non-empty table merges into the existing section (creating it when
/// absent, replacing a non-table one); an empty table leaves everything as
/// it was; a non-table or a failed serialization removes the section.
pub open spec fn section_merged<L>(
    before: Seq<(String, ConfigValue<L>)>,
    key: Seq<char>,
    serialized: Option<ConfigValue<L>>,
    after: Seq<(String, ConfigValue<L>)>,
) -> bool {
    match serialized {
        Some(ConfigValue::Table(t)) => if t.entries@.len() == 0 {
            after == before
        } else {
            &&& unchanged_except(before, after, key)
            &&& has_key(after, key)
            &&& match lookup(before, key) {
                Some(ConfigValue::Table(et)) => match value_of(after, key) {
                    ConfigValue::Table(rt) => merged_into(et.entries@, t.entries@, rt.entries@),
                    _ => false,
                },
                Some(_) => value_of(after, key) == ConfigValue::Table(t),
                None => match value_of(after, key) {
                    ConfigValue::Table(rt) => merged_into(Seq::empty(), t.entries@, rt.entries@),
                    _ => false,
                },
            }
        },
        _ => unchanged_except(before, after, key) && !has_key(after, key),
    }
}

/// Removing the entry at `idx` drops exactly its key.
proof fn lemma_remove_entry<L>(e: Seq<(String, ConfigValue<L>)>, idx: int)
    requires
        keys_unique(e),
        0 <= idx < e.len(),
    ensures
        keys_unique(e.remove(idx)),
        unchanged_except(e, e.remove(idx), e[idx].0@),
        !has_key(e.remove(idx), e[idx].0@),
        forall|j: int| 0 <= j < e.remove(idx).len() ==> exists|m: int| 0 <= m < e.len() && #[trigger] e.remove(idx)[j] == e[m],
{
    let key = e[idx].0@;
    let u = e.remove(idx);
    assert forall|a: int, b: int| 0 <= a < u.len() && 0 <= b < u.len() && a != b implies #[trigger] u[a].0@ != #[trigger] u[b].0@ by {
        let ea = if a < idx { a } else { a + 1 };
        let eb = if b < idx { b } else { b + 1 };
        assert(u[a] == e[ea] && u[b] == e[eb]);
    }
    assert forall|j: int| 0 <= j < u.len() implies exists|m: int| 0 <= m < e.len() && #[trigger] u[j] == e[m] by {
        let m = if j < idx { j } else { j + 1 };
        assert(u[j] == e[m]);
    }
    assert forall|x: Seq<char>| x != key implies #[trigger] has_key(u, x) == has_key(e, x) by {
        if has_key(e, x) {
            let j = choose|j: int| 0 <= j < e.len() && #[trigger] e[j].0@ == x;
            assert(j != idx);
            let m = if j < idx { j } else { j - 1 };
            assert(u[m].0@ == x);
        }
        if has_key(u, x) {
            let j = choose|j: int| 0 <= j < u.len() && #[trigger] u[j].0@ == x;
            let m = if j < idx { j } else { j + 1 };
            assert(e[m].0@ == x);
        }
    }
    assert forall|x: Seq<char>| x != key && has_key(e, x) implies #[trigger] value_of(u, x) == value_of(e, x) by {
        let j = choose|j: int| 0 <= j < e.len() && #[trigger] e[j].0@ == x;
        lemma_value_of_entry(e, j);
        assert(j != idx);
        let m = if j < idx { j } else { j - 1 };
        assert(u[m] == e[j]);
        lemma_value_of_entry(u, m);
    }
    assert(!has_key(u, key)) by {
        if has_key(u, key) {
            let j = choose|j: int| 0 <= j < u.len() && #[trigger] u[j].0@ == key;
            let m = if j < idx { j } else { j + 1 };
            assert(e[m].0@ == key);
        }
    }
}

/// Remove the entry with key `key`, if any.
pub fn remove_key<L>(table: &mut ConfigTable<L>, key: &String)
    requires
        wf_entries(old(table).entries@),
    ensures
        wf_entries(final(table).entries@),
        unchanged_except(old(table).entries@, final(table).entries@, key@),
        !has_key(final(table).entries@, key@),
{
    match find_key(&table.entries, key) {
        Some(idx) => {
            let ghost e = table.entries@;
            let _ = table.entries.remove(idx);
            proof {
                lemma_remove_entry(e, idx as int);
                assert forall|j: int| 0 <= j < table.entries@.len() implies wf_value(#[trigger] table.entries@[j].1) by {
                    let m = choose|m: int| 0 <= m < e.len() && #[trigger] e.remove(idx as int)[j] == e[m];
                    assert(wf_value(e[m].1));
                }
            }
        },
        None => {
            assert(unchanged_except(table.entries@, table.entries@, key@));
        },
    }
}

/// Merge a serialized settings section into `table[key]`, keeping the keys
/// of the existing section that the serialized one does not mention.
/// `serialized` is `None` when serializing the section failed.
pub fn merge_section<L>(table: &mut ConfigTable<L>, key: &str, serialized: Option<ConfigValue<L>>)
    requires
        wf_entries(old(table).entries@),
        serialized matches Some(v) ==> wf_value(v),
    ensures
        wf_entries(final(table).entries@),
        section_merged(old(table).entries@, key@, serialized, final(table).entries@),
{
    let key_string = key.to_owned();
    let ghost e = table.entries@;
    match serialized {
        Some(ConfigValue::Table(new_fields)) => {
            if new_fields.entries.len() == 0 {
                return;
            }
            match find_key(&table.entries, &key_string) {
                Some(idx) => {
                    let (k, old) = table.entries.remove(idx);
                    proof {
                        lemma_value_of_entry(e, idx as int);
                        assert(wf_value(e[idx as int].1));
                    }
                    let ghost old_copy = old;
                    let merged = match old {
                        ConfigValue::Table(existing) => {
                            let mut existing = existing;
                            merge_toml_tables(&mut existing, new_fields);
                            ConfigValue::Table(existing)
                        },
                        _ => ConfigValue::Table(new_fields),
                    };
                    proof {
                        assert(wf_value(merged));
                    }
                    table.entries.insert(idx, (k, merged));
                    proof {
                        assert(table.entries@ =~= e.update(idx as int, (k, merged)));
                        lemma_update_value(e, idx as int, k, merged);
                        assert forall|j: int| 0 <= j < table.entries@.len() implies wf_value(#[trigger] table.entries@[j].1) by {
                            if j != idx {
                                assert(table.entries@[j] == e[j]);
                            }
                        }
                    }
                },
                None => {
                    let mut fresh: ConfigTable<L> = ConfigTable { entries: Vec::new() };
                    proof {
                        assert(fresh.entries@ =~= Seq::<(String, ConfigValue<L>)>::empty());
                    }
                    merge_toml_tables(&mut fresh, new_fields);
                    let v = ConfigValue::Table(fresh);
                    table.entries.push((key_string, v));
                    proof {
                        lemma_push_new_key(e, key_string, v);
                        assert forall|j: int| 0 <= j < table.entries@.len() implies wf_value(#[trigger] table.entries@[j].1) by {
                            if j < e.len() {
                                assert(table.entries@[j] == e[j]);
                            }
                        }
                    }
                },
            }
        },
        _ => {
            remove_key(table, &key_string);
        },
    }
}

/// `after` is `before` with key `key` set to `v`.
pub open spec fn key_set<L>(
    before: Seq<(String, ConfigValue<L>)>,
    key: Seq<char>,
    v: ConfigValue<L>,
    after: Seq<(String, ConfigValue<L>)>,
) -> bool {
    &&& unchanged_except(before, after, key)
    &&& has_key(after, key)
    &&& value_of(after, key) == v
}

/// Set key `key` of `table` to `v`, replacing any existing value.
pub fn insert_entry<L>(table: &mut ConfigTable<L>, key: String, v: ConfigValue<L>)
    requires
        wf_entries(old(table).entries@),
        wf_value(v),
    ensures
        wf_entries(final(table).entries@),
        key_set(old(table).entries@, key@, v, final(table).entries@),
{
    let ghost e = table.entries@;
    match find_key(&table.entries, &key) {
        Some(idx) => {
            let (k, _) = table.entries.remove(idx);
            table.entries.insert(idx, (k, v));
            proof {
                assert(table.entries@ =~= e.update(idx as int, (k, v)));
                lemma_update_value(e, idx as int, k, v);
                assert forall|j: int| 0 <= j < table.entries@.len() implies wf_value(#[trigger] table.entries@[j].1) by {
                    if j != idx {
                        assert(table.entries@[j] == e[j]);
                    }
                }
            }
        },
        None => {
            let ghost kv = key@;
            table.entries.push((key, v));
            proof {
                lemma_push_new_key(e, key, v);
                assert forall|j: int| 0 <= j < table.entries@.len() implies wf_value(#[trigger] table.entries@[j].1) by {
                    if j < e.len() {
                        assert(table.entries@[j] == e[j]);
                    }
                }
            }
        },
    }
}

/// Entries of the table at `key`, or no entries when `key` is absent or
/// holds something other than a table.
pub open spec fn subtable_or_empty<L>(e: Seq<(String, ConfigValue<L>)>, key: Seq<char>) -> Seq<(String, ConfigValue<L>)> {
    match lookup(e, key) {
        Some(ConfigValue::Table(t)) => t.entries@,
        _ => Seq::empty(),
    }
}

/// Take the table at `key` out of `table` (an empty one when `key` is absent
/// or holds something other than a table), leaving `key` removed.
fn take_subtable<L>(table: &mut ConfigTable<L>, key: &String) -> (sub: ConfigTable<L>)
    requires
        wf_entries(old(table).entries@),
    ensures
        wf_entries(final(table).entries@),
        wf_entries(sub.entries@),
        sub.entries@ == subtable_or_empty(old(table).entries@, key@),
        unchanged_except(old(table).entries@, final(table).entries@, key@),
        !has_key(final(table).entries@, key@),
{
    let ghost e = table.entries@;
    match find_key(&table.entries, key) {
        Some(idx) => {
            let (_, v) = table.entries.remove(idx);
            proof {
                lemma_value_of_entry(e, idx as int);
                lemma_remove_entry(e, idx as int);
                assert(wf_value(e[idx as int].1));
                assert forall|j: int| 0 <= j < table.entries@.len() implies wf_value(#[trigger] table.entries@[j].1) by {
                    let m = choose|m: int| 0 <= m < e.len() && #[trigger] e.remove(idx as int)[j] == e[m];
                    assert(wf_value(e[m].1));
                }
            }
            match v {
                ConfigValue::Table(t) => t,
                _ => {
                    let t = ConfigTable { entries: Vec::new() };
                    assert(t.entries@ =~= Seq::<(String, ConfigValue<L>)>::empty());
                    t
                },
            }
        },
        None => {
            let t = ConfigTable { entries: Vec::new() };
            assert(t.entries@ =~= Seq::<(String, ConfigValue<L>)>::empty());
            assert(unchanged_except(table.entries@, table.entries@, key@));
            t
        },
    }
}

/// The `[ui]` table with `transparent_background` set to `value`: `after`
/// keeps every other key of `before`, and its `ui` table is the previous one
/// (an empty one when `ui` was absent or not a table) with
/// `transparent_background` set.
pub open spec fn transparency_set<L>(
    before: Seq<(String, ConfigValue<L>)>,
    value: bool,
    after: Seq<(String, ConfigValue<L>)>,
) -> bool {
    &&& unchanged_except(before, after, "ui"@)
    &&& has_key(after, "ui"@)
    &&& value_of(after, "ui"@) matches ConfigValue::Table(t)
        && key_set(subtable_or_empty(before, "ui"@), "transparent_background"@, ConfigValue::Boolean(value), t.entries@)
}

/// Set `[ui].transparent_background` in the user layer, normalizing a
/// missing or non-table `ui` to a table first.
pub fn set_transparent_background<L>(root: &mut ConfigTable<L>, value: bool)
    requires
        wf_entries(old(root).entries@),
    ensures
        wf_entries(final(root).entries@),
        transparency_set(old(root).entries@, value, final(root).entries@),
{
    let ghost e = root.entries@;
    let ui_key = "ui".to_owned();
    let mut ui = take_subtable(root, &ui_key);
    let ghost e1 = root.entries@;
    let ghost u0 = ui.entries@;
    insert_entry(&mut ui, "transparent_background".to_owned(), ConfigValue::Boolean(value));
    let ghost u1 = ui.entries@;
    let v = ConfigValue::Table(ui);
    insert_entry(root, ui_key, v);
    proof {
        assert forall|x: Seq<char>| x != "ui"@ implies #[trigger] has_key(root.entries@, x) == has_key(e, x) by {
            assert(has_key(root.entries@, x) == has_key(e1, x));
        }
        assert forall|x: Seq<char>| x != "ui"@ && has_key(e, x) implies #[trigger] value_of(root.entries@, x) == value_of(e, x) by {
            assert(has_key(e1, x));
            assert(value_of(root.entries@, x) == value_of(e1, x));
        }
    }
}

/// Merge the `[toolset.ask_user_question]` section: nothing happens when
/// neither of its fields is set; otherwise `toolset` is normalized to a
/// table (created, or replacing a non-table) and the section merged in it.
pub open spec fn ask_section_merged<L>(
    before: Seq<(String, ConfigValue<L>)>,
    fields_present: bool,
    serialized: Option<ConfigValue<L>>,
    after: Seq<(String, ConfigValue<L>)>,
) -> bool {
    if !fields_present {
        after == before
    } else {
        &&& unchanged_except(before, after, "toolset"@)
        &&& has_key(after, "toolset"@)
        &&& value_of(after, "toolset"@) matches ConfigValue::Table(t)
            && section_merged(subtable_or_empty(before, "toolset"@), "ask_user_question"@, serialized, t.entries@)
    }
}

/// Merge `[toolset.ask_user_question]` into the root table. `fields_present`
/// tells whether `timeout_enabled` or `timeout_secs` is set; `[toolset]` as a
/// whole is never merged, only this sub-table.
pub fn merge_ask_user_question_section<L>(
    table: &mut ConfigTable<L>,
    fields_present: bool,
    serialized: Option<ConfigValue<L>>,
)
    requires
        wf_entries(old(table).entries@),
        serialized matches Some(v) ==> wf_value(v),
    ensures
        wf_entries(final(table).entries@),
        ask_section_merged(old(table).entries@, fields_present, serialized, final(table).entries@),
{
    if !fields_present {
        return;
    }
    let ghost e = table.entries@;
    let toolset_key = "toolset".to_owned();
    let mut toolset = take_subtable(table, &toolset_key);
    let ghost e1 = table.entries@;
    merge_section(&mut toolset, "ask_user_question", serialized);
    let v = ConfigValue::Table(toolset);
    insert_entry(table, toolset_key, v);
    proof {
        assert forall|x: Seq<char>| x != "toolset"@ implies #[trigger] has_key(table.entries@, x) == has_key(e, x) by {
            assert(has_key(table.entries@, x) == has_key(e1, x));
        }
        assert forall|x: Seq<char>| x != "toolset"@ && has_key(e, x) implies #[trigger] value_of(table.entries@, x) == value_of(e, x) by {
            assert(has_key(e1, x));
            assert(value_of(table.entries@, x) == value_of(e1, x));
        }
    }
}

/// What reading the user layer of the configuration file produced.
pub enum RootRead<L> {
    /// The file was read and parsed.
    Parsed(ConfigValue<L>),
    /// The file does not exist.
    Missing,
    /// The file was read but is not valid TOML (parser message).
    Unparseable(String),
    /// The file exists but could not be read (I/O message).
    Unreadable(String),
}

/// Why the user layer cannot be used as the base of a save.
#[derive(Debug, Clone, PartialEq, Eq)]
pub enum RootReadError {
    /// Refuse to overwrite an unparseable file: an empty fallback would drop
    /// every section this program does not model.
    Unparseable(String),
    /// The file exists but could not be read.
    Unreadable(String),
}

/// The root table of the user layer: the parsed table; an empty table when
/// the file is missing or its root is not a table; an error when the file is
/// unparseable or unreadable.
pub fn user_root_from_read<L>(read: RootRead<L>) -> (r: Result<ConfigTable<L>, RootReadError>)
    requires
        read matches RootRead::Parsed(v) ==> wf_value(v),
    ensures
        match read {
            RootRead::Parsed(ConfigValue::Table(t)) => r matches Ok(root) && root == t,
            RootRead::Parsed(_) => r matches Ok(root) && root.entries@.len() == 0,
            RootRead::Missing => r matches Ok(root) && root.entries@.len() == 0,
            RootRead::Unparseable(m) => r == Err::<ConfigTable<L>, RootReadError>(RootReadError::Unparseable(m)),
            RootRead::Unreadable(m) => r == Err::<ConfigTable<L>, RootReadError>(RootReadError::Unreadable(m)),
        },
        r matches Ok(root) ==> wf_entries(root.entries@),
{
    match read {
        RootRead::Parsed(ConfigValue::Table(t)) => Ok(t),
        RootRead::Parsed(_) | RootRead::Missing => {
            let t = ConfigTable { entries: Vec::new() };
            assert(t.entries@ =~= Seq::<(String, ConfigValue<L>)>::empty());
            Ok(t)
        },
        RootRead::Unparseable(m) => Err(RootReadError::Unparseable(m)),
        RootRead::Unreadable(m) => Err(RootReadError::Unreadable(m)),
    }
}

/// Whether every table in `v`, at every depth, has unique keys.
pub fn is_well_formed<L>(v: &ConfigValue<L>) -> (r: bool)
    ensures
        r == wf_value(*v),
    decreases *v,
{
    match v {
        ConfigValue::Table(t) => entries_well_formed(&t.entries),
        _ => true,
    }
}

/// Whether entries have unique keys and well-formed values at every depth.
pub fn entries_well_formed<L>(e: &Vec<(String, ConfigValue<L>)>) -> (r: bool)
    ensures
        r == wf_entries(e@),
    decreases e@,
{
    let n = e.len();
    let mut i: usize = 0;
    while i < n
        invariant
            n == e@.len(),
            i <= n,
            forall|a: int, b: int| 0 <= a < i && 0 <= b < n && a != b ==> #[trigger] e@[a].0@ != #[trigger] e@[b].0@,
            forall|a: int| 0 <= a < i ==> wf_value(#[trigger] e@[a].1),
        decreases n - i,
    {
        let mut j: usize = 0;
        while j < n
            invariant
                n == e@.len(),
                i < n,
                j <= n,
                forall|b: int| 0 <= b < j && b != i ==> e@[i as int].0@ != #[trigger] e@[b].0@,
            decreases n - j,
        {
            if j != i && e[i].0 == e[j].0 {
                assert(!keys_unique(e@)) by {
                    assert(e@[i as int].0@ == e@[j as int].0@);
                }
                return false;
            }
            j = j + 1;
        }
        proof {
            assert(decreases_to!(e@ => e@[i as int]));
            assert(decreases_to!(e@[i as int] => e@[i as int].1));
        }
        if !is_well_formed(&e[i].1) {
            return false;
        }
        i = i + 1;
    }
    true
}

/// Key `key` of `after` as merging serialized section `serialized` over
/// `before` leaves it (see [`section_merged`]).
pub open spec fn section_at<L>(
    before: Seq<(String, ConfigValue<L>)>,
    key: Seq<char>,
    serialized: Option<ConfigValue<L>>,
    after: Seq<(String, ConfigValue<L>)>,
) -> bool {
    match serialized {
        Some(ConfigValue::Table(t)) => if t.entries@.len() == 0 {
            lookup(after, key) == lookup(before, key)
        } else {
            &&& has_key(after, key)
            &&& match lookup(before, key) {
                Some(ConfigValue::Table(et)) => match value_of(after, key) {
                    ConfigValue::Table(rt) => merged_into(et.entries@, t.entries@, rt.entries@),
                    _ => false,
                },
                Some(_) => value_of(after, key) == ConfigValue::Table(t),
                None => match value_of(after, key) {
                    ConfigValue::Table(rt) => merged_into(Seq::empty(), t.entries@, rt.entries@),
                    _ => false,
                },
            }
        },
        _ => !has_key(after, key),
    }
}

/// Key `"toolset"` of `after` as merging the ask-user-question section over
/// `before` leaves it (see [`ask_section_merged`]).
pub open spec fn ask_section_at<L>(
    before: Seq<(String, ConfigValue<L>)>,
    fields_present: bool,
    serialized: Option<ConfigValue<L>>,
    after: Seq<(String, ConfigValue<L>)>,
) -> bool {
    if !fields_present {
        lookup(after, "toolset"@) == lookup(before, "toolset"@)
    } else {
        &&& has_key(after, "toolset"@)
        &&& value_of(after, "toolset"@) matches ConfigValue::Table(t)
            && section_merged(subtable_or_empty(before, "toolset"@), "ask_user_question"@, serialized, t.entries@)
    }
}

/// Serialized settings sections of a save. A `None` section is one whose
/// serialization failed.
pub struct SaveSections<L> {
    pub cli: Option<ConfigValue<L>>,
    pub models: Option<ConfigValue<L>>,
    pub ui: Option<ConfigValue<L>>,
    pub harness: Option<ConfigValue<L>>,
    pub session: Option<ConfigValue<L>>,
    /// Whether `timeout_enabled` or `timeout_secs` of the ask-user-question
    /// tool is set.
    pub ask_fields_present: bool,
    pub ask_user_question: Option<ConfigValue<L>>,
    /// Whether the privacy settings equal their defaults.
    pub privacy_is_default: bool,
    pub privacy: Option<ConfigValue<L>>,
    /// Whether the skills settings equal their defaults.
    pub skills_is_default: bool,
    pub skills: Option<ConfigValue<L>>,
}

/// Every serialized section is well formed.
pub open spec fn sections_wf<L>(s: SaveSections<L>) -> bool {
    &&& s.cli matches Some(v) ==> wf_value(v)
    &&& s.models matches Some(v) ==> wf_value(v)
    &&& s.ui matches Some(v) ==> wf_value(v)
    &&& s.harness matches Some(v) ==> wf_value(v)
    &&& s.session matches Some(v) ==> wf_value(v)
    &&& s.ask_user_question matches Some(v) ==> wf_value(v)
    &&& s.privacy matches Some(v) ==> wf_value(v)
    &&& s.skills matches Some(v) ==> wf_value(v)
}

/// Whether a serialized section, if any, is well formed.
pub fn section_well_formed<L>(o: &Option<ConfigValue<L>>) -> (b: bool)
    ensures
        b == (*o matches Some(v) ==> wf_value(v)),
{
    match o {
        Some(v) => is_well_formed(v),
        None => true,
    }
}

/// Whether every serialized section is well formed.
pub fn sections_well_formed<L>(s: &SaveSections<L>) -> (b: bool)
    ensures
        b == sections_wf(*s),
{
    section_well_formed(&s.cli) && section_well_formed(&s.models) && section_well_formed(&s.ui)
        && section_well_formed(&s.harness) && section_well_formed(&s.session)
        && section_well_formed(&s.ask_user_question) && section_well_formed(&s.privacy)
        && section_well_formed(&s.skills)
}

/// Whether `x` is one of the keys a save writes.
pub open spec fn is_saved_key(x: Seq<char>) -> bool {
    x == "cli"@ || x == "models"@ || x == "ui"@ || x == "harness"@ || x == "session"@
        || x == "toolset"@ || x == "privacy"@ || x == "skills"@
}

/// `after` is the user layer `before` with the settings sections saved:
/// `cli`, `models`, `ui`, `harness` and `session` merged; the ask-user-question
/// sub-table merged under `toolset`; `privacy` and `skills` removed when at
/// their defaults and merged otherwise; every other key untouched.
pub open spec fn sections_saved<L>(
    before: Seq<(String, ConfigValue<L>)>,
    s: SaveSections<L>,
    after: Seq<(String, ConfigValue<L>)>,
) -> bool {
    &&& forall|x: Seq<char>| !is_saved_key(x) ==> #[trigger] has_key(after, x) == has_key(before, x)
    &&& forall|x: Seq<char>| !is_saved_key(x) && has_key(before, x) ==> #[trigger] value_of(after, x) == value_of(before, x)
    &&& section_at(before, "cli"@, s.cli, after)
    &&& section_at(before, "models"@, s.models, after)
    &&& section_at(before, "ui"@, s.ui, after)
    &&& section_at(before, "harness"@, s.harness, after)
    &&& section_at(before, "session"@, s.session, after)
    &&& ask_section_at(before, s.ask_fields_present, s.ask_user_question, after)
    &&& if s.privacy_is_default { !has_key(after, "privacy"@) } else { section_at(before, "privacy"@, s.privacy, after) }
    &&& if s.skills_is_default { !has_key(after, "skills"@) } else { section_at(before, "skills"@, s.skills, after) }
}

/// `lookup` agrees wherever `has_key` and `value_of` agree.
proof fn lemma_lookup_agrees<L>(a: Seq<(String, ConfigValue<L>)>, b: Seq<(String, ConfigValue<L>)>, k: Seq<char>)
    requires
        has_key(a, k) == has_key(b, k),
        has_key(a, k) ==> value_of(a, k) == value_of(b, k),
    ensures
        lookup(a, k) == lookup(b, k),
{
}

/// The key-local facts of a section merge only read the key itself.
proof fn lemma_section_at_transfer<L>(
    a: Seq<(String, ConfigValue<L>)>,
    a2: Seq<(String, ConfigValue<L>)>,
    k: Seq<char>,
    ser: Option<ConfigValue<L>>,
    b: Seq<(String, ConfigValue<L>)>,
    b2: Seq<(String, ConfigValue<L>)>,
)
    requires
        section_at(a, k, ser, b),
        lookup(a, k) == lookup(a2, k),
        lookup(b, k) == lookup(b2, k),
    ensures
        section_at(a2, k, ser, b2),
{
    if has_key(b, k) {
        assert(has_key(b2, k));
    }
    if has_key(b2, k) {
        assert(has_key(b, k));
    }
}

/// Save the settings sections into the user layer.
pub fn merge_config_sections<L>(table: &mut ConfigTable<L>, sections: SaveSections<L>)
    requires
        wf_entries(old(table).entries@),
        sections_wf(sections),
    ensures
        wf_entries(final(table).entries@),
        sections_saved(old(table).entries@, sections, final(table).entries@),
{
    let ghost t0 = table.entries@;
    let ghost s = sections;
    let SaveSections {
        cli,
        models,
        ui,
        harness,
        session,
        ask_fields_present,
        ask_user_question,
        privacy_is_default,
        privacy,
        skills_is_default,
        skills,
    } = sections;
    merge_section(table, "cli", cli);
    let ghost t1 = table.entries@;
    merge_section(table, "models", models);
    let ghost t2 = table.entries@;
    merge_section(table, "ui", ui);
    let ghost t3 = table.entries@;
    merge_section(table, "harness", harness);
    let ghost t4 = table.entries@;
    merge_section(table, "session", session);
    let ghost t5 = table.entries@;
    merge_ask_user_question_section(table, ask_fields_present, ask_user_question);
    let ghost t6 = table.entries@;
    if privacy_is_default {
        remove_key(table, &"privacy".to_owned());
    } else {
        merge_section(table, "privacy", privacy);
    }
    let ghost t7 = table.entries@;
    if skills_is_default {
        remove_key(table, &"skills".to_owned());
    } else {
        merge_section(table, "skills", skills);
    }
    let ghost t8 = table.entries@;
    proof {
        lemma_sections_chain(t0, t1, t2, t3, t4, t5, t6, t7, t8, s);
    }
}

/// A section merge leaves its key-local facts and every other key as stated.
proof fn lemma_section_merged_parts<L>(
    before: Seq<(String, ConfigValue<L>)>,
    key: Seq<char>,
    ser: Option<ConfigValue<L>>,
    after: Seq<(String, ConfigValue<L>)>,
)
    requires
        section_merged(before, key, ser, after),
    ensures
        unchanged_except(before, after, key),
        section_at(before, key, ser, after),
{
    match ser {
        Some(ConfigValue::Table(t)) => {
            if t.entries@.len() == 0 {
                assert(unchanged_except(before, after, key));
            }
        },
        _ => {},
    }
}

/// Facts at key `k` pass through a step that changes only key `m != k`.
proof fn lemma_key_untouched<L>(
    a: Seq<(String, ConfigValue<L>)>,
    b: Seq<(String, ConfigValue<L>)>,
    m: Seq<char>,
    k: Seq<char>,
)
    requires
        unchanged_except(a, b, m),
        k != m,
    ensures
        lookup(a, k) == lookup(b, k),
{
    assert(has_key(b, k) == has_key(a, k));
    if has_key(a, k) {
        assert(value_of(b, k) == value_of(a, k));
    }
}

proof fn lemma_sections_chain<L>(
    t0: Seq<(String, ConfigValue<L>)>,
    t1: Seq<(String, ConfigValue<L>)>,
    t2: Seq<(String, ConfigValue<L>)>,
    t3: Seq<(String, ConfigValue<L>)>,
    t4: Seq<(String, ConfigValue<L>)>,
    t5: Seq<(String, ConfigValue<L>)>,
    t6: Seq<(String, ConfigValue<L>)>,
    t7: Seq<(String, ConfigValue<L>)>,
    t8: Seq<(String, ConfigValue<L>)>,
    s: SaveSections<L>,
)
    requires
        section_merged(t0, "cli"@, s.cli, t1),
        section_merged(t1, "models"@, s.models, t2),
        section_merged(t2, "ui"@, s.ui, t3),
        section_merged(t3, "harness"@, s.harness, t4),
        section_merged(t4, "session"@, s.session, t5),
        ask_section_merged(t5, s.ask_fields_present, s.ask_user_question, t6),
        s.privacy_is_default ==> unchanged_except(t6, t7, "privacy"@) && !has_key(t7, "privacy"@),
        !s.privacy_is_default ==> section_merged(t6, "privacy"@, s.privacy, t7),
        s.skills_is_default ==> unchanged_except(t7, t8, "skills"@) && !has_key(t8, "skills"@),
        !s.skills_is_default ==> section_merged(t7, "skills"@, s.skills, t8),
    ensures
        sections_saved(t0, s, t8),
{
    reveal_strlit("cli");
    reveal_strlit("models");
    reveal_strlit("ui");
    reveal_strlit("harness");
    reveal_strlit("session");
    reveal_strlit("toolset");
    reveal_strlit("privacy");
    reveal_strlit("skills");
    assert("cli"@.len() == 3);
    assert("models"@.len() == 6);
    assert("ui"@.len() == 2);
    assert("harness"@.len() == 7);
    assert("session"@.len() == 7);
    assert("toolset"@.len() == 7);
    assert("privacy"@.len() == 7);
    assert("skills"@.len() == 6);
    assert("harness"@[0] != "session"@[0]);
    assert("harness"@[0] != "toolset"@[0]);
    assert("harness"@[0] != "privacy"@[0]);
    assert("session"@[0] != "toolset"@[0]);
    assert("session"@[0] != "privacy"@[0]);
    assert("toolset"@[0] != "privacy"@[0]);
    assert("models"@[0] != "skills"@[0]);
    let keys = seq!["cli"@, "models"@, "ui"@, "harness"@, "session"@, "toolset"@, "privacy"@, "skills"@];
    let ts = seq![t0, t1, t2, t3, t4, t5, t6, t7, t8];
    lemma_section_merged_parts(t0, "cli"@, s.cli, t1);
    lemma_section_merged_parts(t1, "models"@, s.models, t2);
    lemma_section_merged_parts(t2, "ui"@, s.ui, t3);
    lemma_section_merged_parts(t3, "harness"@, s.harness, t4);
    lemma_section_merged_parts(t4, "session"@, s.session, t5);
    if s.ask_fields_present {
    } else {
        assert(unchanged_except(t5, t6, "toolset"@));
    }
    if !s.privacy_is_default {
        lemma_section_merged_parts(t6, "privacy"@, s.privacy, t7);
    }
    if !s.skills_is_default {
        lemma_section_merged_parts(t7, "skills"@, s.skills, t8);
    }
    // Every step changes only its own key.
    assert(forall|m: int| 0 <= m < 8 ==> unchanged_except(#[trigger] ts[m], ts[m + 1], keys[m]));
    // Lookups of a key are the same before every step that does not own it.
    assert forall|x: Seq<char>, a: int, b: int|
        0 <= a <= b <= 8 && (forall|m: int| a <= m < b ==> keys[m] != x)
        implies #[trigger] lookup(ts[a], x) == #[trigger] lookup(ts[b], x) by {
        lemma_lookup_chain(ts, keys, x, a, b);
    }
    assert(lookup(t0, "cli"@) == lookup(t0, "cli"@));
    lemma_section_at_transfer(t0, t0, "cli"@, s.cli, t1, t8);
    lemma_section_at_transfer(t1, t0, "models"@, s.models, t2, t8);
    lemma_section_at_transfer(t2, t0, "ui"@, s.ui, t3, t8);
    lemma_section_at_transfer(t3, t0, "harness"@, s.harness, t4, t8);
    lemma_section_at_transfer(t4, t0, "session"@, s.session, t5, t8);
    assert(lookup(t5, "toolset"@) == lookup(t0, "toolset"@));
    assert(lookup(t6, "toolset"@) == lookup(t8, "toolset"@));
    assert(subtable_or_empty(t5, "toolset"@) == subtable_or_empty(t0, "toolset"@));
    if s.ask_fields_present {
        assert(has_key(t6, "toolset"@));
        assert(has_key(t8, "toolset"@));
        assert(value_of(t8, "toolset"@) == value_of(t6, "toolset"@));
    }
    if s.privacy_is_default {
        assert(lookup(t7, "privacy"@) == lookup(t8, "privacy"@));
    } else {
        lemma_section_at_transfer(t6, t0, "privacy"@, s.privacy, t7, t8);
    }
    assert forall|x: Seq<char>| !is_saved_key(x) implies #[trigger] has_key(t8, x) == has_key(t0, x) by {
        assert(lookup(t0, x) == lookup(t8, x));
    }
    assert forall|x: Seq<char>| !is_saved_key(x) && has_key(t0, x) implies #[trigger] value_of(t8, x) == value_of(t0, x) by {
        assert(lookup(t0, x) == lookup(t8, x));
    }
}

/// Lookups of `x` agree across a run of steps none of which owns `x`.
proof fn lemma_lookup_chain<L>(
    ts: Seq<Seq<(String, ConfigValue<L>)>>,
    keys: Seq<Seq<char>>,
    x: Seq<char>,
    a: int,
    b: int,
)
    requires
        ts.len() == keys.len() + 1,
        0 <= a <= b < ts.len(),
        forall|m: int| 0 <= m < keys.len() ==> unchanged_except(#[trigger] ts[m], ts[m + 1], keys[m]),
        forall|m: int| a <= m < b ==> keys[m] != x,
    ensures
        lookup(ts[a], x) == lookup(ts[b], x),
    decreases b - a,
{
    if a < b {
        lemma_lookup_chain(ts, keys, x, a, b - 1);
        assert(unchanged_except(ts[b - 1], ts[b], keys[b - 1]));
        lemma_key_untouched(ts[b - 1], ts[b], keys[b - 1], x);
    }
}

} // verus!
