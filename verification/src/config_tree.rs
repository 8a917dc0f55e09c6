//! Configuration profiles: a profile's table is laid over the configuration.

use vstd::prelude::*;

use crate::text::{chars_equal, chars_of};

verus! {

/// A configuration document as the overlay logic reads it: tables of named
/// entries, and leaf values (kept by the caller; a leaf holds their index).
#[derive(Debug)]
pub enum ConfigTree {
    Table(Vec<(String, ConfigTree)>),
    Leaf(usize),
}

/// A configuration document as plain values.
pub enum TreeView {
    Table(Seq<(Seq<char>, TreeView)>),
    Leaf(usize),
}

impl ConfigTree {
    pub open spec fn tview(self) -> TreeView
        decreases self,
    {
        match self {
            ConfigTree::Table(entries) => {
                proof {
                    assert forall|i: int| 0 <= i < entries@.len() implies decreases_to!(self => entries@[i].1) by {
                        assert(decreases_to!(self => entries));
                        assert(decreases_to!(entries => entries@));
                        assert(decreases_to!(entries@ => entries@[i]));
                        assert(decreases_to!(entries@[i] => entries@[i].1));
                    }
                }
                TreeView::Table(
                    Seq::new(
                        entries@.len(),
                        |i: int|
                            if 0 <= i < entries@.len() {
                                (entries@[i].0@, entries@[i].1.tview())
                            } else {
                                (Seq::empty(), TreeView::Leaf(0))
                            },
                    ),
                )
            },
            ConfigTree::Leaf(i) => TreeView::Leaf(i),
        }
    }
}

/// Index of the first entry named `key`, or -1.
pub open spec fn entry_index(entries: Seq<(Seq<char>, TreeView)>, key: Seq<char>, from: int) -> int
    decreases entries.len() - from,
{
    if from < 0 || from >= entries.len() {
        -1
    } else if entries[from].0 == key {
        from
    } else {
        entry_index(entries, key, from + 1)
    }
}

pub open spec fn profiles_key() -> Seq<char> {
    seq!['p', 'r', 'o', 'f', 'i', 'l', 'e', 's']
}

pub open spec fn table_len(t: TreeView) -> nat {
    match t {
        TreeView::Table(o) => o.len(),
        TreeView::Leaf(_) => 0,
    }
}

/// `overlay` laid over `base`: table over table merges entry by entry (a
/// `profiles` entry of the overlay is skipped; an entry the base has is
/// merged into it, a new one is added at the end); anything else replaces
/// the base.
pub open spec fn overlaid(base: TreeView, overlay: TreeView) -> TreeView
    decreases overlay, table_len(overlay) + 1,
{
    match (base, overlay) {
        (TreeView::Table(b), TreeView::Table(o)) => TreeView::Table(overlaid_entries(b, overlay, o.len())),
        _ => overlay,
    }
}

/// The base entries after the first `k` entries of the overlay table.
pub open spec fn overlaid_entries(b: Seq<(Seq<char>, TreeView)>, overlay: TreeView, k: nat) -> Seq<(Seq<char>, TreeView)>
    decreases overlay, k,
{
    match overlay {
        TreeView::Table(o) => if k == 0 || k > o.len() {
            b
        } else {
            let prev = overlaid_entries(b, overlay, (k - 1) as nat);
            let key = o[k - 1].0;
            let v = o[k - 1].1;
            if key == profiles_key() {
                prev
            } else {
                let idx = entry_index(prev, key, 0);
                if idx >= 0 {
                    proof {
                        assert(decreases_to!(overlay => o));
                        assert(decreases_to!(o => o[k - 1]));
                        assert(decreases_to!(o[k - 1] => o[k - 1].1));
                    }
                    prev.update(idx, (key, overlaid(prev[idx].1, v)))
                } else {
                    prev.push((key, v))
                }
            }
        },
        TreeView::Leaf(_) => b,
    }
}

/// The plain form of a table's entries.
pub open spec fn entries_view(entries: Seq<(String, ConfigTree)>) -> Seq<(Seq<char>, TreeView)> {
    Seq::new(entries.len(), |i: int| (entries[i].0@, entries[i].1.tview()))
}

proof fn lemma_table_view(t: ConfigTree)
    requires
        t is Table,
    ensures
        t.tview() == TreeView::Table(entries_view(t->Table_0@)),
{
    let entries = t->Table_0;
    assert(t.tview()->Table_0 =~= entries_view(entries@));
}

fn find_entry(entries: &Vec<(String, ConfigTree)>, key: &String) -> (r: Option<usize>)
    ensures
        match r {
            Some(i) => entry_index(entries_view(entries@), key@, 0) == i && i < entries@.len(),
            None => entry_index(entries_view(entries@), key@, 0) == -1,
        },
{
    let ghost ev = entries_view(entries@);
    let mut i: usize = 0;
    while i < entries.len()
        invariant
            i <= entries@.len(),
            ev == entries_view(entries@),
            entry_index(ev, key@, 0) == entry_index(ev, key@, i as int),
        decreases entries@.len() - i,
    {
        if entries[i].0 == *key {
            return Some(i);
        }
        i += 1;
    }
    None
}

impl ConfigTree {
    /// A copy of the document.
    pub fn duplicate(&self) -> (r: ConfigTree)
        ensures
            r.tview() == self.tview(),
        decreases self,
    {
        match self {
            ConfigTree::Leaf(i) => ConfigTree::Leaf(*i),
            ConfigTree::Table(entries) => {
                let mut out: Vec<(String, ConfigTree)> = Vec::new();
                let mut k: usize = 0;
                while k < entries.len()
                    invariant
                        k <= entries@.len(),
                        out@.len() == k,
                        *self == ConfigTree::Table(*entries),
                        entries_view(out@) == entries_view(entries@).take(k as int),
                    decreases entries@.len() - k,
                {
                    proof {
                        assert(decreases_to!(*self => self->Table_0));
                        assert(decreases_to!(self->Table_0 => self->Table_0@));
                        assert(decreases_to!(self->Table_0@ => self->Table_0@[k as int]));
                        assert(decreases_to!(self->Table_0@[k as int] => self->Table_0@[k as int].1));
                    }
                    let ghost before = out@;
                    let child = entries[k].1.duplicate();
                    let name = entries[k].0.clone();
                    out.push((name, child));
                    k += 1;
                    assert forall|i: int| 0 <= i < k implies #[trigger] entries_view(out@)[i] == entries_view(entries@)[i] by {
                        if i < k - 1 {
                            assert(out@[i] == before[i]);
                            assert(entries_view(before)[i] == entries_view(entries@).take(k - 1)[i]);
                        }
                    }
                    assert(entries_view(out@) =~= entries_view(entries@).take(k as int));
                }
                assert(entries_view(entries@).take(entries@.len() as int) =~= entries_view(entries@));
                let r = ConfigTree::Table(out);
                proof {
                    lemma_table_view(r);
                    lemma_table_view(*self);
                }
                r
            },
        }
    }
}

proof fn lemma_entry_index_found(entries: Seq<(Seq<char>, TreeView)>, key: Seq<char>, from: int)
    requires
        0 <= from,
    ensures
        entry_index(entries, key, from) >= 0 ==> from <= entry_index(entries, key, from) < entries.len()
            && entries[entry_index(entries, key, from)].0 == key,
        entry_index(entries, key, from) >= -1,
    decreases entries.len() - from,
{
    if from < entries.len() && entries[from].0 != key {
        lemma_entry_index_found(entries, key, from + 1);
    }
}

/// Lays `overlay` over `base` (see `overlaid`).
pub fn merge_config_trees(base: &mut ConfigTree, overlay: &ConfigTree)
    ensures
        final(base).tview() == overlaid(old(base).tview(), overlay.tview()),
    decreases overlay,
{
    let profiles = ['p', 'r', 'o', 'f', 'i', 'l', 'e', 's'];
    assert(profiles@ =~= profiles_key());
    if let ConfigTree::Table(o) = overlay {
        if let ConfigTree::Table(b) = base {
            proof {
                lemma_table_view(*overlay);
                lemma_table_view(*old(base));
            }
            let ghost ov = overlay.tview();
            let ghost b0 = entries_view(b@);
            assert(overlaid_entries(b0, ov, 0) == b0);
            let mut k: usize = 0;
            while k < o.len()
                invariant
                    k <= o@.len(),
                    *overlay == ConfigTree::Table(*o),
                    ov == TreeView::Table(entries_view(o@)),
                    profiles@ == profiles_key(),
                    entries_view(b@) == overlaid_entries(b0, ov, k as nat),
                decreases o@.len() - k,
            {
                let ghost prev = entries_view(b@);
                let name = chars_of(o[k].0.as_str());
                if chars_equal(&name, &profiles) {
                    k += 1;
                } else {
                    match find_entry(b, &o[k].0) {
                        Some(idx) => {
                            proof {
                                lemma_entry_index_found(prev, o@[k as int].0@, 0);
                            }
                            let ghost bb = b@;
                            let (kname, mut child) = b.remove(idx);
                            assert(kname == bb[idx as int].0 && child == bb[idx as int].1);
                            proof {
                                assert(decreases_to!(*overlay => overlay->Table_0));
                                assert(decreases_to!(overlay->Table_0 => overlay->Table_0@));
                                assert(decreases_to!(overlay->Table_0@ => overlay->Table_0@[k as int]));
                                assert(decreases_to!(overlay->Table_0@[k as int] => overlay->Table_0@[k as int].1));
                            }
                            merge_config_trees(&mut child, &o[k].1);
                            b.insert(idx, (kname, child));
                            assert(b@ =~= bb.update(idx as int, (kname, child)));
                            assert(entries_view(o@)[k as int] == (o@[k as int].0@, o@[k as int].1.tview()));
                            assert(overlaid_entries(b0, ov, (k + 1) as nat) == prev.update(
                                idx as int,
                                (o@[k as int].0@, overlaid(prev[idx as int].1, o@[k as int].1.tview())),
                            ));
                            k += 1;
                            assert(entries_view(b@) =~= overlaid_entries(b0, ov, k as nat));
                        },
                        None => {
                            assert(entries_view(o@)[k as int] == (o@[k as int].0@, o@[k as int].1.tview()));
                            let copy = o[k].1.duplicate();
                            let key = o[k].0.clone();
                            b.push((key, copy));
                            k += 1;
                            assert(entries_view(b@) =~= overlaid_entries(b0, ov, k as nat));
                        },
                    }
                }
            }
            proof {
                lemma_table_view(*base);
            }
            return;
        }
    }
    *base = overlay.duplicate();
}

/// The entry named `key` of a table, if any.
pub open spec fn lookup(entries: Seq<(Seq<char>, TreeView)>, key: Seq<char>) -> Option<TreeView> {
    let i = entry_index(entries, key, 0);
    if i >= 0 && i < entries.len() {
        Some(entries[i].1)
    } else {
        None
    }
}

/// The names of the profiles a document defines: the keys of its
/// `profiles` table, in order.
pub open spec fn profile_names_of(root: TreeView) -> Seq<Seq<char>> {
    match root {
        TreeView::Table(e) => match lookup(e, profiles_key()) {
            Some(TreeView::Table(p)) => Seq::new(p.len(), |i: int| p[i].0),
            _ => Seq::empty(),
        },
        TreeView::Leaf(_) => Seq::empty(),
    }
}

/// The table a profile lays over the document, if the document has it.
pub open spec fn profile_overlay(root: TreeView, name: Seq<char>) -> Option<TreeView> {
    match root {
        TreeView::Table(e) => match lookup(e, profiles_key()) {
            Some(TreeView::Table(p)) => lookup(p, name),
            _ => None,
        },
        TreeView::Leaf(_) => None,
    }
}

/// A table without its first entry named `key`.
pub open spec fn without_entry(entries: Seq<(Seq<char>, TreeView)>, key: Seq<char>) -> Seq<(Seq<char>, TreeView)> {
    let i = entry_index(entries, key, 0);
    if i >= 0 && i < entries.len() {
        entries.remove(i)
    } else {
        entries
    }
}

/// The document a configuration is read from: the selected profile (when
/// the document has it) laid over it, and the `profiles` table dropped.
pub open spec fn with_profile(root: TreeView, name: Option<Seq<char>>) -> TreeView {
    let merged = match name {
        Some(n) => match profile_overlay(root, n) {
            Some(ov) => overlaid(root, ov),
            None => root,
        },
        None => root,
    };
    match merged {
        TreeView::Table(e) => TreeView::Table(without_entry(e, profiles_key())),
        other => other,
    }
}

/// Applies profile `name` to a configuration document (see `with_profile`)
/// and returns the names of the profiles it defines, and whether the
/// profile asked for was found.
pub fn apply_profile(root: &mut ConfigTree, name: Option<&String>) -> (r: (Vec<String>, bool))
    ensures
        final(root).tview() == with_profile(old(root).tview(), match name {
            Some(n) => Some(n@),
            None => None,
        }),
        r.0@.map_values(|s: String| s@) == profile_names_of(old(root).tview()),
        r.1 == (name matches Some(n) && profile_overlay(old(root).tview(), n@) is Some),
{
    let key: String = "profiles".to_owned();
    proof {
        reveal_strlit("profiles");
        assert(key@ =~= profiles_key());
    }
    let mut names: Vec<String> = Vec::new();
    let mut overlay: Option<ConfigTree> = None;
    if let ConfigTree::Table(entries) = &*root {
        proof {
            lemma_table_view(*root);
        }
        if let Some(pi) = find_entry(entries, &key) {
            proof {
                lemma_entry_index_found(entries_view(entries@), key@, 0);
            }
            if let ConfigTree::Table(ptab) = &entries[pi].1 {
                proof {
                    lemma_table_view(entries@[pi as int].1);
                }
                let mut j: usize = 0;
                while j < ptab.len()
                    invariant
                        j <= ptab@.len(),
                        names@.len() == j,
                        names@.map_values(|s: String| s@) == Seq::new(j as nat, |i: int| ptab@[i].0@),
                    decreases ptab@.len() - j,
                {
                    let ghost before = names@.map_values(|s: String| s@);
                    let nm = ptab[j].0.clone();
                    assert(nm@ == ptab@[j as int].0@);
                    names.push(nm);
                    assert(names@.map_values(|s: String| s@) =~= before.push(ptab@[j as int].0@));
                    j += 1;
                    assert(names@.map_values(|s: String| s@) =~= Seq::new(j as nat, |i: int| ptab@[i].0@));
                }
                assert(Seq::new(ptab@.len(), |i: int| ptab@[i].0@) =~= Seq::new(
                    entries_view(ptab@).len(),
                    |i: int| entries_view(ptab@)[i].0,
                ));
                if let Some(n) = name {
                    if let Some(ni) = find_entry(ptab, n) {
                        proof {
                            lemma_entry_index_found(entries_view(ptab@), n@, 0);
                        }
                        overlay = Some(ptab[ni].1.duplicate());
                    }
                }
            }
        }
    }
    let found = overlay.is_some();
    let ghost start = root.tview();
    if let Some(ov) = &overlay {
        merge_config_trees(root, ov);
    }
    let ghost merged = root.tview();
    let mut doc = ConfigTree::Leaf(0);
    std::mem::swap(&mut doc, root);
    match doc {
        ConfigTree::Table(mut entries) => {
            proof {
                lemma_table_view(ConfigTree::Table(entries));
            }
            let ghost before = entries@;
            if let Some(pi) = find_entry(&entries, &key) {
                proof {
                    lemma_entry_index_found(entries_view(entries@), key@, 0);
                }
                entries.remove(pi);
                assert(entries_view(entries@) =~= entries_view(before).remove(pi as int));
            }
            *root = ConfigTree::Table(entries);
            proof {
                lemma_table_view(*root);
            }
        },
        other => {
            *root = other;
        },
    }
    (names, found)
}

/// No two entries of a table share a name (as in a TOML table).
pub open spec fn distinct_keys(entries: Seq<(Seq<char>, TreeView)>) -> bool {
    forall|i: int, j: int| 0 <= i < j < entries.len() ==> entries[i].0 != entries[j].0
}

/// Two tables whose entries have the same names, in the same places, find
/// every name at the same place.
proof fn lemma_entry_index_same_keys(
    a: Seq<(Seq<char>, TreeView)>,
    b: Seq<(Seq<char>, TreeView)>,
    key: Seq<char>,
    from: int,
)
    requires
        0 <= from,
        a.len() == b.len(),
        forall|i: int| 0 <= i < a.len() ==> (#[trigger] a[i]).0 == b[i].0,
    ensures
        entry_index(a, key, from) == entry_index(b, key, from),
    decreases a.len() - from,
{
    if from < a.len() && a[from].0 != key {
        lemma_entry_index_same_keys(a, b, key, from + 1);
    }
}

/// Where a name is found once an entry is added at the end.
proof fn lemma_entry_index_push(
    a: Seq<(Seq<char>, TreeView)>,
    e: (Seq<char>, TreeView),
    key: Seq<char>,
    from: int,
)
    requires
        0 <= from <= a.len(),
    ensures
        entry_index(a.push(e), key, from) == (if entry_index(a, key, from) >= 0 {
            entry_index(a, key, from)
        } else if e.0 == key {
            a.len() as int
        } else {
            -1
        }),
    decreases a.len() - from,
{
    let ap = a.push(e);
    if from < a.len() {
        assert(ap[from] == a[from]);
        if a[from].0 != key {
            lemma_entry_index_push(a, e, key, from + 1);
        }
    } else {
        assert(ap[from] == e);
        assert(entry_index(ap, key, from + 1) == -1);
    }
}

/// What a name reads after the first `k` entries of `o` are laid over `b`:
/// the overlay's plain value for a name it sets (once) to one, the base's
/// for a name it does not set (and for `profiles`, which it never sets).
proof fn lemma_overlaid_entries_reads(
    b: Seq<(Seq<char>, TreeView)>,
    o: Seq<(Seq<char>, TreeView)>,
    k: nat,
    key: Seq<char>,
)
    requires
        k <= o.len(),
        distinct_keys(o),
    ensures
        (key == profiles_key() || entry_index(o.take(k as int), key, 0) < 0) ==> lookup(
            overlaid_entries(b, TreeView::Table(o), k),
            key,
        ) == lookup(b, key),
        key != profiles_key() && entry_index(o.take(k as int), key, 0) >= 0 && o[entry_index(
            o.take(k as int),
            key,
            0,
        )].1 is Leaf ==> lookup(overlaid_entries(b, TreeView::Table(o), k), key) == Some(
            o[entry_index(o.take(k as int), key, 0)].1,
        ),
    decreases k,
{
    if k > 0 {
        let prev = overlaid_entries(b, TreeView::Table(o), (k - 1) as nat);
        lemma_overlaid_entries_reads(b, o, (k - 1) as nat, key);
        let name = o[k - 1].0;
        let v = o[k - 1].1;
        let ok = o.take(k as int);
        let op = o.take(k - 1);
        assert(ok =~= op.push(o[k - 1]));
        lemma_entry_index_push(op, o[k - 1], key, 0);
        lemma_entry_index_found(op, key, 0);
        lemma_entry_index_found(prev, key, 0);
        lemma_entry_index_found(prev, name, 0);
        if name != profiles_key() {
            let idx = entry_index(prev, name, 0);
            if idx >= 0 {
                let next = prev.update(idx, (name, overlaid(prev[idx].1, v)));
                lemma_entry_index_same_keys(next, prev, key, 0);
                assert(overlaid_entries(b, TreeView::Table(o), k) == next);
                if key != name && entry_index(op, key, 0) >= 0 {
                    let j = entry_index(op, key, 0);
                    assert(op[j] == o[j]);
                }
                if key == name && entry_index(op, key, 0) >= 0 {
                    let j = entry_index(op, key, 0);
                    assert(o[j].0 == key);
                    assert(j < k - 1);
                    assert(false);
                }
            } else {
                let next = prev.push((name, v));
                lemma_entry_index_push(prev, (name, v), key, 0);
                assert(overlaid_entries(b, TreeView::Table(o), k) == next);
                if key != name && entry_index(op, key, 0) >= 0 {
                    let j = entry_index(op, key, 0);
                    assert(op[j] == o[j]);
                }
                if key == name && entry_index(op, key, 0) >= 0 {
                    let j = entry_index(op, key, 0);
                    assert(o[j].0 == key);
                    assert(false);
                }
            }
        } else {
            assert(overlaid_entries(b, TreeView::Table(o), k) == prev);
            if entry_index(op, key, 0) >= 0 {
                let j = entry_index(op, key, 0);
                assert(op[j] == o[j]);
            }
        }
    }
}

/// Laying a table over a table, as a profile is laid over the
/// configuration: a name that the overlay sets to a plain value reads back
/// that value; a name that the overlay does not set, and `profiles`, read
/// back what the base held.
pub proof fn lemma_overlay_reads_back(
    base: Seq<(Seq<char>, TreeView)>,
    overlay: Seq<(Seq<char>, TreeView)>,
    key: Seq<char>,
)
    requires
        distinct_keys(overlay),
    ensures
        ({
            let merged = overlaid(TreeView::Table(base), TreeView::Table(overlay))->Table_0;
            &&& key != profiles_key() ==> (lookup(overlay, key) matches Some(TreeView::Leaf(v)) ==> lookup(
                merged,
                key,
            ) == Some(TreeView::Leaf(v)))
            &&& (key == profiles_key() || lookup(overlay, key) is None) ==> lookup(merged, key) == lookup(base, key)
        }),
{
    lemma_overlaid_entries_reads(base, overlay, overlay.len(), key);
    assert(overlay.take(overlay.len() as int) =~= overlay);
    lemma_entry_index_found(overlay, key, 0);
}

/// Where a name is found once the entry at `i` (named otherwise) is taken
/// out: at the same place before `i`, one place earlier after it.
proof fn lemma_entry_index_remove(s: Seq<(Seq<char>, TreeView)>, i: int, key: Seq<char>, from: int)
    requires
        0 <= i < s.len(),
        s[i].0 != key,
        0 <= from <= s.len(),
    ensures
        from <= i ==> entry_index(s.remove(i), key, from) == (if entry_index(s, key, from) < 0 {
            -1
        } else if entry_index(s, key, from) < i {
            entry_index(s, key, from)
        } else {
            entry_index(s, key, from) - 1
        }),
        from > i ==> entry_index(s.remove(i), key, from - 1) == (if entry_index(s, key, from) < 0 {
            -1
        } else {
            entry_index(s, key, from) - 1
        }),
    decreases s.len() - from,
{
    let r = s.remove(i);
    if from < s.len() {
        lemma_entry_index_remove(s, i, key, from + 1);
        lemma_entry_index_found(s, key, from + 1);
        if from < i {
            assert(r[from] == s[from]);
            if s[from].0 == key {
                assert(entry_index(r, key, from) == from);
                assert(entry_index(s, key, from) == from);
            } else {
                assert(entry_index(r, key, from) == entry_index(r, key, from + 1));
                assert(entry_index(s, key, from) == entry_index(s, key, from + 1));
            }
        } else if from == i {
            assert(entry_index(s, key, from) == entry_index(s, key, from + 1));
        } else {
            assert(r[from - 1] == s[from]);
            if s[from].0 == key {
                assert(entry_index(r, key, from - 1) == from - 1);
            } else {
                assert(entry_index(r, key, from - 1) == entry_index(r, key, from));
            }
        }
    }
}

/// Taking out the first entry named `drop` leaves what every other name reads.
proof fn lemma_without_entry_reads(s: Seq<(Seq<char>, TreeView)>, drop: Seq<char>, key: Seq<char>)
    requires
        key != drop,
    ensures
        lookup(without_entry(s, drop), key) == lookup(s, key),
{
    let i = entry_index(s, drop, 0);
    lemma_entry_index_found(s, drop, 0);
    lemma_entry_index_found(s, key, 0);
    if i >= 0 && i < s.len() {
        lemma_entry_index_remove(s, i, key, 0);
        let j = entry_index(s, key, 0);
        if j >= 0 {
            if j < i {
                assert(s.remove(i)[j] == s[j]);
            } else {
                assert(j != i);
                assert(s.remove(i)[j - 1] == s[j]);
            }
        }
    }
}

/// Applying a profile, as a configuration is read: a top-level name that
/// the profile sets to a plain value reads back that value, a name that it
/// does not set reads back the document's own, and the `profiles` table is
/// gone from a document that had one (with distinct names).
pub proof fn lemma_profile_reads_back(root: Seq<(Seq<char>, TreeView)>, name: Seq<char>, key: Seq<char>)
    requires
        profile_overlay(TreeView::Table(root), name) matches Some(TreeView::Table(o)) && distinct_keys(o),
    ensures
        with_profile(TreeView::Table(root), Some(name)) is Table,
        ({
            let o = profile_overlay(TreeView::Table(root), name)->0->Table_0;
            let e = with_profile(TreeView::Table(root), Some(name))->Table_0;
            &&& key != profiles_key() ==> (lookup(o, key) matches Some(TreeView::Leaf(v)) ==> lookup(e, key)
                == Some(TreeView::Leaf(v)))
            &&& (key != profiles_key() && lookup(o, key) is None) ==> lookup(e, key) == lookup(root, key)
        }),
{
    let o = profile_overlay(TreeView::Table(root), name)->0->Table_0;
    lemma_overlay_reads_back(root, o, key);
    let merged = overlaid(TreeView::Table(root), TreeView::Table(o))->Table_0;
    if key != profiles_key() {
        lemma_without_entry_reads(merged, profiles_key(), key);
    }
}

} // verus!
