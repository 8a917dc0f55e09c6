//! The entries the tab strip draws.

use vstd::prelude::*;

use crate::tabs::{TabId, TabInfo};
use crate::window_state::{short_path, short_path_label};

verus! {

/// One row of the tab strip.
#[derive(Clone, Debug)]
pub struct TabBarEntry {
    pub id: TabId,
    pub title: String,
    pub cwd: Option<String>,
    pub active: bool,
    /// A foreground command is currently running in this tab.
    pub busy: bool,
    /// How long the current command has been running, in milliseconds (when `busy`).
    pub elapsed: Option<u64>,
    pub pinned: bool,
    pub accent: Option<[u8; 3]>,
}

/// The entry drawn for a tab: its directory shortened, and how long its
/// command has run by `now` (zero when the start lies ahead).
pub open spec fn entry_of(info: TabInfo, now: u64) -> TabBarEntry {
    TabBarEntry {
        id: info.id,
        title: info.title,
        cwd: info.cwd,
        active: info.active,
        busy: info.running_since is Some,
        elapsed: match info.running_since {
            Some(since) => Some(if now >= since { (now - since) as u64 } else { 0 }),
            None => None,
        },
        pinned: info.pinned,
        accent: info.accent,
    }
}

/// `a` sorts before or with `b`: pinned tabs first, then by id.
pub open spec fn entry_key_le(a: TabBarEntry, b: TabBarEntry) -> bool {
    (a.pinned && !b.pinned) || (a.pinned == b.pinned && a.id.0 <= b.id.0)
}

/// `x` placed after every element of `s` that sorts before or with it.
pub open spec fn insert_entry(s: Seq<TabBarEntry>, x: TabBarEntry) -> Seq<TabBarEntry>
    decreases s.len(),
{
    if s.len() == 0 {
        seq![x]
    } else if entry_key_le(s.last(), x) {
        s.push(x)
    } else {
        insert_entry(s.drop_last(), x).push(s.last())
    }
}

/// The entries of the first `k` tabs, pinned first, then by id; equal keys
/// keep their order.
pub open spec fn sorted_entries(infos: Seq<TabInfo>, now: u64, k: nat) -> Seq<TabBarEntry>
    decreases k,
{
    if k == 0 {
        Seq::empty()
    } else {
        insert_entry(sorted_entries(infos, now, (k - 1) as nat), entry_of(infos[k - 1], now))
    }
}

/// Two entries agree but for how their directory is written: the second
/// holds the shortened form of the first's.
pub open spec fn shortened(e: TabBarEntry, s: TabBarEntry) -> bool {
    &&& s.id == e.id
    &&& s.title@ == e.title@
    &&& s.active == e.active
    &&& s.busy == e.busy
    &&& s.elapsed == e.elapsed
    &&& s.pinned == e.pinned
    &&& s.accent == e.accent
    &&& match (e.cwd, s.cwd) {
        (Some(a), Some(b)) => b@ == short_path_label(a@),
        (None, None) => true,
        _ => false,
    }
}

proof fn lemma_insert_entry(s: Seq<TabBarEntry>, x: TabBarEntry, k: int)
    requires
        0 <= k <= s.len(),
        forall|j: int| k <= j < s.len() ==> !entry_key_le(#[trigger] s[j], x),
        k == 0 || entry_key_le(s[k - 1], x),
    ensures
        insert_entry(s, x) == s.take(k).push(x) + s.skip(k),
    decreases s.len(),
{
    if s.len() == 0 {
        assert(s.take(k).push(x) + s.skip(k) =~= seq![x]);
    } else if entry_key_le(s.last(), x) {
        assert(k == s.len());
        assert(s.take(k).push(x) + s.skip(k) =~= s.push(x));
    } else {
        lemma_insert_entry(s.drop_last(), x, k);
        assert(s.take(k).push(x) + s.skip(k) =~= (s.drop_last().take(k).push(x) + s.drop_last().skip(k)).push(
            s.last(),
        ));
    }
}

/// The tab strip's entries at time `now` (milliseconds): one per tab,
/// pinned tabs first, then by id, with directories shortened.
pub fn tab_bar_entries(infos: Vec<TabInfo>, now: u64) -> (r: Vec<TabBarEntry>)
    ensures
        r@.len() == infos@.len(),
        forall|i: int| 0 <= i < r@.len() ==> shortened(
            #[trigger] sorted_entries(infos@, now, infos@.len())[i],
            r@[i],
        ),
{
    let ghost all = infos@;
    let total = infos.len();
    let mut sorted: Vec<TabBarEntry> = Vec::new();
    let mut n: usize = 0;
    for info in it: infos
        invariant
            it.seq() == all,
            all.len() == total,
            n == it.index(),
            sorted@.len() == n,
            forall|i: int| 0 <= i < n ==> shortened(
                #[trigger] sorted_entries(all, now, n as nat)[i],
                sorted@[i],
            ),
            sorted_entries(all, now, n as nat).len() == n,
    {
        let ghost prev = sorted_entries(all, now, n as nat);
        let ghost x = entry_of(info, now);
        assert(info == all[n as int]);
        let entry = TabBarEntry {
            id: info.id,
            title: info.title,
            cwd: match info.cwd {
                Some(c) => Some(short_path(c.as_str())),
                None => None,
            },
            active: info.active,
            busy: info.running_since.is_some(),
            elapsed: match info.running_since {
                Some(since) => Some(now.saturating_sub(since)),
                None => None,
            },
            pinned: info.pinned,
            accent: info.accent,
        };
        assert(shortened(x, entry));
        let mut pos = sorted.len();
        while pos > 0 && !(sorted[pos - 1].pinned && !entry.pinned || (sorted[pos - 1].pinned == entry.pinned
            && sorted[pos - 1].id.0 <= entry.id.0))
            invariant
                pos <= sorted@.len() == prev.len(),
                forall|i: int| 0 <= i < prev.len() ==> shortened(#[trigger] prev[i], sorted@[i]),
                forall|j: int| pos <= j < prev.len() ==> !entry_key_le(#[trigger] prev[j], x),
                shortened(x, entry),
            decreases pos,
        {
            assert(shortened(prev[pos - 1], sorted@[pos - 1]));
            pos -= 1;
        }
        proof {
            if pos > 0 {
                assert(shortened(prev[pos - 1], sorted@[pos - 1]));
            }
            lemma_insert_entry(prev, x, pos as int);
        }
        let ghost before = sorted@;
        sorted.insert(pos, entry);
        n += 1;
        proof {
            let next = sorted_entries(all, now, n as nat);
            assert(next == insert_entry(prev, x));
            assert(next =~= prev.take(pos as int).push(x) + prev.skip(pos as int));
            assert(sorted@ =~= before.take(pos as int).push(entry) + before.skip(pos as int));
            assert forall|i: int| 0 <= i < n implies shortened(#[trigger] next[i], sorted@[i]) by {
                if i < pos {
                    assert(next[i] == prev[i]);
                    assert(sorted@[i] == before[i]);
                } else if i > pos {
                    assert(next[i] == prev[i - 1]);
                    assert(sorted@[i] == before[i - 1]);
                }
            }
        }
    }
    sorted
}

/// Entries in tab-strip order: pinned tabs first, then by id.
pub open spec fn in_strip_order(s: Seq<TabBarEntry>) -> bool {
    forall|i: int, j: int| 0 <= i < j < s.len() ==> entry_key_le(#[trigger] s[i], #[trigger] s[j])
}

/// The entries of the tabs, in the tabs' own order.
pub open spec fn entries_of(infos: Seq<TabInfo>, now: u64) -> Seq<TabBarEntry> {
    infos.map_values(|i: TabInfo| entry_of(i, now))
}

proof fn lemma_insert_entry_in_order(s: Seq<TabBarEntry>, x: TabBarEntry)
    requires
        in_strip_order(s),
    ensures
        in_strip_order(insert_entry(s, x)),
        insert_entry(s, x).to_multiset() == s.to_multiset().insert(x),
    decreases s.len(),
{
    broadcast use vstd::seq_lib::group_to_multiset_ensures;

    if s.len() == 0 {
        assert(seq![x] =~= s.push(x));
    } else if entry_key_le(s.last(), x) {
        let u = s.push(x);
        assert forall|i: int, j: int| 0 <= i < j < u.len() implies entry_key_le(#[trigger] u[i], #[trigger] u[j]) by {
            if j == s.len() {
                if i < s.len() - 1 {
                    assert(entry_key_le(s[i], s[s.len() - 1]));
                }
            } else {
                assert(entry_key_le(s[i], s[j]));
            }
        }
    } else {
        let t = s.drop_last();
        let last = s.last();
        assert(in_strip_order(t)) by {
            assert forall|i: int, j: int| 0 <= i < j < t.len() implies entry_key_le(#[trigger] t[i], #[trigger] t[j]) by {
                assert(entry_key_le(s[i], s[j]));
            }
        }
        lemma_insert_entry_in_order(t, x);
        let u = insert_entry(t, x);
        assert forall|k: int| 0 <= k < u.len() implies entry_key_le(#[trigger] u[k], last) by {
            assert(u.contains(u[k]));
            assert(u.to_multiset().count(u[k]) > 0);
            if u[k] != x {
                assert(t.to_multiset().count(u[k]) > 0);
                assert(t.contains(u[k]));
                let idx = choose|idx: int| 0 <= idx < t.len() && t[idx] == u[k];
                assert(entry_key_le(s[idx], s[s.len() - 1]));
            }
        }
        let w = u.push(last);
        assert forall|i: int, j: int| 0 <= i < j < w.len() implies entry_key_le(#[trigger] w[i], #[trigger] w[j]) by {
            if j == u.len() {
                assert(entry_key_le(u[i], last));
            } else {
                assert(entry_key_le(u[i], u[j]));
            }
        }
        assert(t.push(last) =~= s);
        assert(w.to_multiset() =~= s.to_multiset().insert(x));
    }
}

proof fn lemma_sorted_entries_in_order(infos: Seq<TabInfo>, now: u64, k: nat)
    requires
        k <= infos.len(),
    ensures
        in_strip_order(sorted_entries(infos, now, k)),
        sorted_entries(infos, now, k).to_multiset() == entries_of(infos.take(k as int), now).to_multiset(),
    decreases k,
{
    broadcast use vstd::seq_lib::group_to_multiset_ensures;

    if k == 0 {
        assert(entries_of(infos.take(0), now) =~= Seq::<TabBarEntry>::empty());
    } else {
        lemma_sorted_entries_in_order(infos, now, (k - 1) as nat);
        let prev = sorted_entries(infos, now, (k - 1) as nat);
        lemma_insert_entry_in_order(prev, entry_of(infos[k - 1], now));
        assert(entries_of(infos.take(k as int), now) =~= entries_of(infos.take(k - 1), now).push(
            entry_of(infos[k - 1], now),
        ));
    }
}

/// The tab strip lists the entry of every tab exactly once, pinned tabs
/// first, then by id.
pub proof fn lemma_strip_lists_each_tab_in_order(infos: Seq<TabInfo>, now: u64)
    ensures
        in_strip_order(sorted_entries(infos, now, infos.len())),
        sorted_entries(infos, now, infos.len()).to_multiset() == entries_of(infos, now).to_multiset(),
{
    lemma_sorted_entries_in_order(infos, now, infos.len());
    assert(infos.take(infos.len() as int) =~= infos);
}

/// Whole seconds that a command started at `since` has run by `now`
/// (milliseconds; zero when the start lies ahead).
pub open spec fn run_secs(since: u64, now: u64) -> nat {
    if now >= since {
        ((now - since) / 1000) as nat
    } else {
        0
    }
}

/// The longest that any of the first `k` tabs has been running a command,
/// in whole seconds; `None` when none of them is.
pub open spec fn longest_run(infos: Seq<TabInfo>, now: u64, k: nat) -> Option<nat>
    decreases k,
{
    if k == 0 {
        None
    } else {
        let prev = longest_run(infos, now, (k - 1) as nat);
        match infos[k - 1].running_since {
            None => prev,
            Some(since) => match prev {
                Some(p) => Some(if run_secs(since, now) > p { run_secs(since, now) } else { p }),
                None => Some(run_secs(since, now)),
            },
        }
    }
}

/// Follows the busy tabs' elapsed-time label: `last` becomes the longest
/// run in whole seconds (`None` when no tab is busy); `true` when the label
/// shows a new number and the strip needs painting again.
pub fn busy_timer_tick(last: &mut Option<u64>, infos: &Vec<TabInfo>, now: u64) -> (r: bool)
    ensures
        match longest_run(infos@, now, infos@.len()) {
            None => *final(last) is None && !r,
            Some(secs) => *final(last) == Some(secs as u64) && r == (*old(last) != Some(secs as u64)),
        },
{
    let mut longest: Option<u64> = None;
    let mut i: usize = 0;
    while i < infos.len()
        invariant
            i <= infos@.len(),
            match longest_run(infos@, now, i as nat) {
                None => longest is None,
                Some(p) => p <= u64::MAX && longest == Some(p as u64),
            },
        decreases infos@.len() - i,
    {
        match infos[i].running_since {
            Some(since) => {
                let gap = if now >= since { now - since } else { 0 };
                let secs = gap / 1000;
                assert(secs == run_secs(since, now));
                longest = match longest {
                    Some(p) => Some(if secs > p { secs } else { p }),
                    None => Some(secs),
                };
            },
            None => {},
        }
        assert(infos@[i as int].running_since == infos[i as int].running_since);
        i += 1;
    }
    match longest {
        None => {
            *last = None;
            false
        },
        Some(secs) => {
            if *last == Some(secs) {
                false
            } else {
                *last = Some(secs);
                true
            }
        },
    }
}

} // verus!
