//! The tabs of a window: their order, which one is active, and the per-tab
//! state the window keeps (title, split tree, focus, pin and colour).

use vstd::prelude::*;

use crate::split::SplitNode;
use crate::text::{chars_of, string_from_chars};

verus! {

#[derive(Debug, Clone, Copy, PartialEq, Eq, Hash, Structural)]
pub struct TabId(pub usize);

/// The colours a tab accent cycles through.
pub open spec fn accent_presets() -> Seq<[u8; 3]> {
    seq![[231u8, 76u8, 60u8], [46u8, 204u8, 113u8], [52u8, 152u8, 219u8], [155u8, 89u8, 182u8], [241u8, 196u8, 15u8], [230u8, 126u8, 34u8]]
}

/// A tab: its panes (a split tree of sessions `S` with divider positions `R`)
/// and what the sidebar shows of it.
pub struct Tab<S, R> {
    pub id: TabId,
    pub title: String,
    pub root: SplitNode<S, R>,
    pub focused_leaf: usize,
    pub pinned: bool,
    pub accent: Option<[u8; 3]>,
}

/// A snapshot of a tab used to build the sidebar entries.
pub struct TabInfo {
    pub id: TabId,
    pub title: String,
    pub cwd: Option<String>,
    pub active: bool,
    pub running_since: Option<u64>,
    pub pinned: bool,
    pub accent: Option<[u8; 3]>,
}

/// Earliest start among the running commands of `panes` (milliseconds).
pub open spec fn earliest_running(panes: Seq<Option<u64>>) -> Option<u64>
    decreases panes.len(),
{
    if panes.len() == 0 {
        None
    } else {
        let rest = earliest_running(panes.drop_last());
        match (panes.last(), rest) {
            (Some(t), Some(u)) => Some(if t < u { t } else { u }),
            (Some(t), None) => Some(t),
            (None, r) => r,
        }
    }
}

/// The start time a pane keeps after a refresh: cleared when idle, set to
/// `now` when it became busy, kept while it stays busy.
pub open spec fn refreshed_since(current: Option<u64>, busy: bool, now: u64) -> Option<u64> {
    if busy {
        if current is None {
            Some(now)
        } else {
            current
        }
    } else {
        None
    }
}

impl<S, R> Tab<S, R> {
    pub fn new(id: TabId, title: String, session: S) -> (r: Self)
        ensures
            r.id == id,
            r.title == title,
            r.root.leaves() == seq![(session, None::<u64>)],
            r.root.wf(),
            r.focused_leaf == 0,
            !r.pinned,
            r.accent is None,
    {
        Tab { id, title, root: SplitNode::leaf(session), focused_leaf: 0, pinned: false, accent: None }
    }

    pub fn leaf_count(&self) -> (r: usize)
        requires
            self.root.leaves().len() <= usize::MAX,
        ensures
            r == self.root.leaves().len(),
    {
        self.root.leaf_count()
    }

    /// Session of the focused pane.
    pub fn focused_session(&self) -> (r: Option<&S>)
        requires
            self.root.leaves().len() <= usize::MAX,
        ensures
            match r {
                Some(s) => self.focused_leaf < self.root.leaves().len() && *s == self.root.leaves()[self.focused_leaf as int].0,
                None => self.focused_leaf >= self.root.leaves().len(),
            },
    {
        self.root.leaf_session(self.focused_leaf)
    }

    pub fn leaf_session(&self, leaf_id: usize) -> (r: Option<&S>)
        requires
            self.root.leaves().len() <= usize::MAX,
        ensures
            match r {
                Some(s) => leaf_id < self.root.leaves().len() && *s == self.root.leaves()[leaf_id as int].0,
                None => leaf_id >= self.root.leaves().len(),
            },
    {
        self.root.leaf_session(leaf_id)
    }

    /// Session of the focused pane, to change in place.
    pub fn focused_session_mut(&mut self) -> (r: Option<&mut S>)
        requires
            old(self).root.leaves().len() <= usize::MAX,
        ensures
            match r {
                Some(s) => old(self).focused_leaf < old(self).root.leaves().len()
                    && *s == old(self).root.leaves()[old(self).focused_leaf as int].0
                    && final(self).root.leaves() == old(self).root.leaves().update(
                    old(self).focused_leaf as int,
                    (*final(s), old(self).root.leaves()[old(self).focused_leaf as int].1),
                ) && final(self).root.dividers() == old(self).root.dividers()
                    && final(self).root.wf() == old(self).root.wf() && final(self).id == old(self).id
                    && final(self).title == old(self).title && final(self).focused_leaf == old(self).focused_leaf
                    && final(self).pinned == old(self).pinned && final(self).accent == old(self).accent,
                None => old(self).focused_leaf >= old(self).root.leaves().len() && *final(self) == *old(self),
            },
    {
        let leaf = self.focused_leaf;
        self.root.leaf_session_mut(leaf)
    }

    /// Session of pane `leaf_id`, to change in place.
    pub fn leaf_session_mut(&mut self, leaf_id: usize) -> (r: Option<&mut S>)
        requires
            old(self).root.leaves().len() <= usize::MAX,
        ensures
            match r {
                Some(s) => leaf_id < old(self).root.leaves().len() && *s == old(self).root.leaves()[leaf_id as int].0
                    && final(self).root.leaves() == old(self).root.leaves().update(
                    leaf_id as int,
                    (*final(s), old(self).root.leaves()[leaf_id as int].1),
                ) && final(self).root.dividers() == old(self).root.dividers()
                    && final(self).root.wf() == old(self).root.wf() && final(self).id == old(self).id
                    && final(self).title == old(self).title && final(self).focused_leaf == old(self).focused_leaf
                    && final(self).pinned == old(self).pinned && final(self).accent == old(self).accent,
                None => leaf_id >= old(self).root.leaves().len() && *final(self) == *old(self),
            },
    {
        self.root.leaf_session_mut(leaf_id)
    }

    /// When the earliest still-running command of the tab started.
    pub fn running_since(&self) -> (r: Option<u64>)
        requires
            self.root.leaves().len() <= usize::MAX,
        ensures
            r == earliest_running(self.root.leaves().map_values(|p: (S, Option<u64>)| p.1)),
    {
        let count = self.leaf_count();
        let ghost all = self.root.leaves().map_values(|p: (S, Option<u64>)| p.1);
        let mut best: Option<u64> = None;
        let mut i: usize = 0;
        while i < count
            invariant
                i <= count == self.root.leaves().len(),
                all == self.root.leaves().map_values(|p: (S, Option<u64>)| p.1),
                self.root.leaves().len() <= usize::MAX,
                best == earliest_running(all.take(i as int)),
            decreases count - i,
        {
            assert(all.take(i + 1).drop_last() =~= all.take(i as int));
            let here = match self.root.leaf_running_since(i) {
                Some(t) => t,
                None => None,
            };
            best = match (here, best) {
                (Some(t), Some(u)) => Some(if t < u { t } else { u }),
                (Some(t), None) => Some(t),
                (None, b) => b,
            };
            i += 1;
        }
        assert(all.take(count as int) =~= all);
        best
    }

    /// Updates each pane's start time from whether it is busy now
    /// (`busy[i]` for pane `i`; panes without an entry count as idle).
    pub fn refresh_running_since(&mut self, now: u64, busy: &Vec<bool>)
        requires
            old(self).root.leaves().len() <= usize::MAX,
        ensures
            final(self).root.leaves().len() == old(self).root.leaves().len(),
            forall|i: int| 0 <= i < old(self).root.leaves().len() ==> #[trigger] final(self).root.leaves()[i] == (
                old(self).root.leaves()[i].0,
                refreshed_since(old(self).root.leaves()[i].1, i < busy@.len() && busy@[i], now),
            ),
            final(self).root.dividers() == old(self).root.dividers(),
            final(self).root.wf() == old(self).root.wf(),
            final(self).id == old(self).id,
            final(self).title == old(self).title,
            final(self).focused_leaf == old(self).focused_leaf,
            final(self).pinned == old(self).pinned,
            final(self).accent == old(self).accent,
    {
        let count = self.root.leaf_count();
        let mut leaf: usize = 0;
        while leaf < count
            invariant
                leaf <= count == old(self).root.leaves().len(),
                self.root.leaves().len() == count,
                forall|i: int| 0 <= i < leaf ==> #[trigger] self.root.leaves()[i] == (
                    old(self).root.leaves()[i].0,
                    refreshed_since(old(self).root.leaves()[i].1, i < busy@.len() && busy@[i], now),
                ),
                forall|i: int| leaf <= i < count ==> #[trigger] self.root.leaves()[i] == old(self).root.leaves()[i],
                self.root.dividers() == old(self).root.dividers(),
                self.root.wf() == old(self).root.wf(),
                self.id == old(self).id,
                self.title == old(self).title,
                self.focused_leaf == old(self).focused_leaf,
                self.pinned == old(self).pinned,
                self.accent == old(self).accent,
            decreases count - leaf,
        {
            let is_busy = leaf < busy.len() && busy[leaf];
            let current = match self.root.leaf_running_since(leaf) {
                Some(t) => t,
                None => None,
            };
            let next = if is_busy {
                if current.is_none() {
                    Some(now)
                } else {
                    current
                }
            } else {
                None
            };
            self.root.set_leaf_running_since(leaf, next);
            leaf += 1;
        }
    }
}

/// Index of the first tab with `id` at or after `from`, or -1.
pub open spec fn find_tab<S, R>(tabs: Seq<Tab<S, R>>, id: TabId, from: int) -> int
    decreases tabs.len() - from,
{
    if from < 0 || from >= tabs.len() {
        -1
    } else if tabs[from].id == id {
        from
    } else {
        find_tab(tabs, id, from + 1)
    }
}

/// The active index after the tab at `removed` is taken out of `len` tabs.
pub open spec fn active_after_removal(active: nat, removed: int, len: nat) -> nat {
    if len == 1 {
        0
    } else if active >= len - 1 {
        (len - 2) as nat
    } else if removed < active {
        (active - 1) as nat
    } else {
        active
    }
}

/// The tab after the active one, wrapping around.
pub open spec fn next_index(active: nat, len: nat) -> nat {
    if len <= 1 {
        active
    } else {
        ((active as int + 1) % (len as int)) as nat
    }
}

/// The tab before the active one, wrapping around.
pub open spec fn prev_index(active: nat, len: nat) -> nat {
    if len <= 1 {
        active
    } else if active == 0 {
        (len - 1) as nat
    } else {
        (active - 1) as nat
    }
}

/// The next accent colour: the first preset after none, then each preset in
/// turn, then none again (an unknown colour counts as the first preset).
pub open spec fn next_accent(current: Option<[u8; 3]>) -> Option<[u8; 3]> {
    match current {
        None => Some(accent_presets()[0]),
        Some(c) => {
            let idx = if accent_presets().contains(c) {
                accent_presets().index_of(c)
            } else {
                0
            };
            if idx + 1 < 6 {
                Some(accent_presets()[idx + 1])
            } else {
                None
            }
        },
    }
}

/// The tab list of a window and its active tab.
pub struct TabManager<S, R> {
    tabs: Vec<Tab<S, R>>,
    active: usize,
}

impl<S, R> TabManager<S, R> {
    #[verifier::type_invariant]
    spec fn active_in_range(self) -> bool {
        if self.tabs@.len() == 0 {
            self.active == 0
        } else {
            self.active < self.tabs@.len()
        }
    }

    /// The tabs, in sidebar order.
    pub closed spec fn tab_list(self) -> Seq<Tab<S, R>> {
        self.tabs@
    }

    /// Index of the active tab.
    pub closed spec fn active_at(self) -> nat {
        self.active as nat
    }

    /// The active index is that of an existing tab (0 when there are none).
    pub open spec fn active_valid(self) -> bool {
        if self.tab_list().len() == 0 {
            self.active_at() == 0
        } else {
            self.active_at() < self.tab_list().len()
        }
    }

    pub fn empty() -> (r: Self)
        ensures
            r.tab_list() == Seq::<Tab<S, R>>::empty(),
            r.active_at() == 0,
            r.active_valid(),
    {
        TabManager { tabs: Vec::new(), active: 0 }
    }

    pub fn with_initial(tab: Tab<S, R>) -> (r: Self)
        ensures
            r.tab_list() == seq![tab],
            r.active_at() == 0,
            r.active_valid(),
    {
        let mut tabs: Vec<Tab<S, R>> = Vec::new();
        tabs.push(tab);
        assert(tabs@ =~= seq![tab]);
        TabManager { tabs, active: 0 }
    }

    pub fn is_empty(&self) -> (r: bool)
        ensures
            r == (self.tab_list().len() == 0),
    {
        self.tabs.len() == 0
    }

    pub fn len(&self) -> (r: usize)
        ensures
            r == self.tab_list().len(),
    {
        self.tabs.len()
    }

    pub fn active_index(&self) -> (r: usize)
        ensures
            r == self.active_at(),
    {
        self.active
    }

    pub fn active_id(&self) -> (r: Option<TabId>)
        ensures
            match r {
                Some(id) => self.active_at() < self.tab_list().len() && id == self.tab_list()[self.active_at() as int].id,
                None => self.tab_list().len() == 0,
            },
    {
        proof {
            use_type_invariant(self);
        }
        if self.active < self.tabs.len() {
            Some(self.tabs[self.active].id)
        } else {
            None
        }
    }

    pub fn active_tab(&self) -> (r: Option<&Tab<S, R>>)
        ensures
            match r {
                Some(t) => self.active_at() < self.tab_list().len() && *t == self.tab_list()[self.active_at() as int],
                None => self.tab_list().len() == 0,
            },
    {
        proof {
            use_type_invariant(self);
        }
        if self.active < self.tabs.len() {
            Some(&self.tabs[self.active])
        } else {
            None
        }
    }

    /// The window's title: the active tab's, or `fallback` when there is no tab.
    pub fn window_title(&self, fallback: &String) -> (r: String)
        ensures
            r@ == (if self.tab_list().len() > 0 {
                self.tab_list()[self.active_at() as int].title@
            } else {
                fallback@
            }),
    {
        match self.active_tab() {
            Some(tab) => tab.title.clone(),
            None => fallback.clone(),
        }
    }

    pub fn tab_at_index(&self, index: usize) -> (r: Option<&Tab<S, R>>)
        ensures
            match r {
                Some(t) => index < self.tab_list().len() && *t == self.tab_list()[index as int],
                None => index >= self.tab_list().len(),
            },
    {
        if index < self.tabs.len() {
            Some(&self.tabs[index])
        } else {
            None
        }
    }

    pub fn tab_at_index_mut(&mut self, index: usize) -> (r: Option<&mut Tab<S, R>>)
        ensures
            match r {
                Some(t) => index < old(self).tab_list().len() && *t == old(self).tab_list()[index as int]
                    && final(self).tab_list() == old(self).tab_list().update(index as int, *final(t))
                    && final(self).active_at() == old(self).active_at(),
                None => index >= old(self).tab_list().len() && final(self).tab_list() == old(self).tab_list()
                    && final(self).active_at() == old(self).active_at(),
            },
    {
        proof {
            use_type_invariant(&*self);
        }
        if index < self.tabs.len() {
            Some(&mut self.tabs[index])
        } else {
            None
        }
    }

    pub fn active_tab_mut(&mut self) -> (r: Option<&mut Tab<S, R>>)
        ensures
            match r {
                Some(t) => old(self).active_at() < old(self).tab_list().len() && *t == old(self).tab_list()[old(self).active_at() as int]
                    && final(self).tab_list() == old(self).tab_list().update(old(self).active_at() as int, *final(t))
                    && final(self).active_at() == old(self).active_at(),
                None => old(self).tab_list().len() == 0 && final(self).tab_list() == old(self).tab_list()
                    && final(self).active_at() == old(self).active_at(),
            },
    {
        proof {
            use_type_invariant(&*self);
        }
        let index = self.active;
        self.tab_at_index_mut(index)
    }

    /// Position of the first tab with `id`.
    pub fn tab_index(&self, id: TabId) -> (r: Option<usize>)
        ensures
            match r {
                Some(i) => find_tab(self.tab_list(), id, 0) == i,
                None => find_tab(self.tab_list(), id, 0) == -1,
            },
    {
        find_index(&self.tabs, id)
    }

    pub fn tab_by_id(&self, id: TabId) -> (r: Option<&Tab<S, R>>)
        ensures
            match r {
                Some(t) => find_tab(self.tab_list(), id, 0) >= 0 && *t == self.tab_list()[find_tab(self.tab_list(), id, 0)],
                None => find_tab(self.tab_list(), id, 0) == -1,
            },
    {
        proof {
            lemma_find_tab_range(self.tab_list(), id, 0);
        }
        match self.tab_index(id) {
            Some(i) => Some(&self.tabs[i]),
            None => None,
        }
    }

    pub fn tab_by_id_mut(&mut self, id: TabId) -> (r: Option<&mut Tab<S, R>>)
        ensures
            match r {
                Some(t) => find_tab(old(self).tab_list(), id, 0) >= 0
                    && *t == old(self).tab_list()[find_tab(old(self).tab_list(), id, 0)]
                    && final(self).tab_list() == old(self).tab_list().update(find_tab(old(self).tab_list(), id, 0), *final(t))
                    && final(self).active_at() == old(self).active_at(),
                None => find_tab(old(self).tab_list(), id, 0) == -1 && final(self).tab_list() == old(self).tab_list()
                    && final(self).active_at() == old(self).active_at(),
            },
    {
        proof {
            lemma_find_tab_range(self.tab_list(), id, 0);
        }
        match self.tab_index(id) {
            Some(i) => self.tab_at_index_mut(i),
            None => None,
        }
    }
}

impl<S, R> TabManager<S, R> {
    /// Takes the tab list out, leaving an empty manager.
    fn take_parts(&mut self) -> (r: (Vec<Tab<S, R>>, usize))
        ensures
            r.0@ == old(self).tab_list(),
            r.1 == old(self).active_at(),
            r.0@.len() == 0 ==> r.1 == 0,
            r.0@.len() > 0 ==> r.1 < r.0@.len(),
            final(self).tab_list() == Seq::<Tab<S, R>>::empty(),
    {
        proof {
            use_type_invariant(&*self);
        }
        let active = self.active;
        self.active = 0;
        let mut tabs: Vec<Tab<S, R>> = Vec::new();
        std::mem::swap(&mut tabs, &mut self.tabs);
        (tabs, active)
    }

    /// Puts a tab list and active index back.
    fn put_parts(&mut self, tabs: Vec<Tab<S, R>>, active: usize)
        requires
            tabs@.len() == 0 ==> active == 0,
            tabs@.len() > 0 ==> active < tabs@.len(),
        ensures
            final(self).tab_list() == tabs@,
            final(self).active_at() == active,
            final(self).active_valid(),
    {
        *self = TabManager { tabs, active };
    }

    /// Adds a tab at the end and makes it active.
    pub fn push_tab(&mut self, tab: Tab<S, R>) -> (r: TabId)
        ensures
            r == tab.id,
            final(self).tab_list() == old(self).tab_list().push(tab),
            final(self).active_at() == old(self).tab_list().len(),
            final(self).active_valid(),
    {
        let id = tab.id;
        let (mut tabs, _) = self.take_parts();
        tabs.push(tab);
        let active = tabs.len() - 1;
        self.put_parts(tabs, active);
        id
    }

    /// Removes the tab at `index` and keeps the active index on a tab: the
    /// same tab when an earlier one was removed, otherwise the one now at its
    /// place (or the last tab).
    fn remove_at(&mut self, index: usize) -> (r: Tab<S, R>)
        requires
            index < old(self).tab_list().len(),
        ensures
            r == old(self).tab_list()[index as int],
            final(self).tab_list() == old(self).tab_list().remove(index as int),
            final(self).active_at() == active_after_removal(old(self).active_at(), index as int, old(self).tab_list().len()),
            final(self).active_valid(),
    {
        let (mut tabs, mut active) = self.take_parts();
        let tab = tabs.remove(index);
        if tabs.len() == 0 {
            active = 0;
        } else if active >= tabs.len() {
            active = tabs.len() - 1;
        } else if index < active {
            active -= 1;
        }
        self.put_parts(tabs, active);
        tab
    }

    /// Closes the first tab with `id`; `false` when there is none.
    pub fn close_tab(&mut self, id: TabId) -> (r: bool)
        ensures
            r == (find_tab(old(self).tab_list(), id, 0) >= 0),
            r ==> final(self).tab_list() == old(self).tab_list().remove(find_tab(old(self).tab_list(), id, 0)),
            r ==> final(self).active_at() == active_after_removal(
                old(self).active_at(),
                find_tab(old(self).tab_list(), id, 0),
                old(self).tab_list().len(),
            ),
            r && find_tab(old(self).tab_list(), id, 0) != old(self).active_at() ==> final(self).tab_list()[final(self).active_at() as int] == old(self).tab_list()[old(self).active_at() as int],
            !r ==> final(self).tab_list() == old(self).tab_list() && final(self).active_at() == old(self).active_at(),
            final(self).active_valid(),
    {
        proof {
            use_type_invariant(&*self);
            lemma_find_tab_range(self.tab_list(), id, 0);
        }
        match self.tab_index(id) {
            Some(index) => {
                self.remove_at(index);
                true
            },
            None => false,
        }
    }

    /// Takes the first tab with `id` out of the window (to move it elsewhere).
    pub fn take_tab(&mut self, id: TabId) -> (r: Option<Tab<S, R>>)
        ensures
            r is Some == (find_tab(old(self).tab_list(), id, 0) >= 0),
            r matches Some(t) ==> t == old(self).tab_list()[find_tab(old(self).tab_list(), id, 0)]
                && final(self).tab_list() == old(self).tab_list().remove(find_tab(old(self).tab_list(), id, 0))
                && final(self).active_at() == active_after_removal(
                old(self).active_at(),
                find_tab(old(self).tab_list(), id, 0),
                old(self).tab_list().len(),
            ),
            r is None ==> final(self).tab_list() == old(self).tab_list() && final(self).active_at() == old(self).active_at(),
            final(self).active_valid(),
    {
        proof {
            use_type_invariant(&*self);
            lemma_find_tab_range(self.tab_list(), id, 0);
        }
        match self.tab_index(id) {
            Some(index) => Some(self.remove_at(index)),
            None => None,
        }
    }

    /// Activates the first tab with `id`; `false` when there is none.
    pub fn set_active(&mut self, id: TabId) -> (r: bool)
        ensures
            r == (find_tab(old(self).tab_list(), id, 0) >= 0),
            final(self).tab_list() == old(self).tab_list(),
            final(self).active_at() == (if r { find_tab(old(self).tab_list(), id, 0) as nat } else { old(self).active_at() }),
            final(self).active_valid(),
    {
        proof {
            use_type_invariant(&*self);
            lemma_find_tab_range(self.tab_list(), id, 0);
        }
        match self.tab_index(id) {
            Some(index) => {
                self.active = index;
                true
            },
            None => false,
        }
    }

    /// Activates the next tab, wrapping around.
    pub fn next_tab(&mut self)
        ensures
            final(self).tab_list() == old(self).tab_list(),
            final(self).active_at() == next_index(old(self).active_at(), old(self).tab_list().len()),
            final(self).active_valid(),
    {
        proof {
            use_type_invariant(&*self);
        }
        if self.tabs.len() <= 1 {
            return;
        }
        self.active = (self.active + 1) % self.tabs.len();
    }

    /// Activates the previous tab, wrapping around.
    pub fn prev_tab(&mut self)
        ensures
            final(self).tab_list() == old(self).tab_list(),
            final(self).active_at() == prev_index(old(self).active_at(), old(self).tab_list().len()),
            final(self).active_valid(),
    {
        proof {
            use_type_invariant(&*self);
        }
        if self.tabs.len() <= 1 {
            return;
        }
        self.active = if self.active == 0 {
            self.tabs.len() - 1
        } else {
            self.active - 1
        };
    }

    /// Activates tab number `number` (counting from 1); out-of-range numbers do nothing.
    pub fn select_tab_number(&mut self, number: usize)
        ensures
            final(self).tab_list() == old(self).tab_list(),
            final(self).active_at() == (if 1 <= number <= old(self).tab_list().len() {
                (number - 1) as nat
            } else {
                old(self).active_at()
            }),
            final(self).active_valid(),
    {
        proof {
            use_type_invariant(&*self);
        }
        if number == 0 || number > self.tabs.len() {
            return;
        }
        self.active = number - 1;
    }

    /// A snapshot of each tab, in sidebar order; `cwds[i]` is the working
    /// directory of tab `i` (none where the list is short).
    pub fn infos(&self, cwds: &Vec<Option<String>>) -> (r: Vec<TabInfo>)
        requires
            forall|i: int| 0 <= i < self.tab_list().len() ==> (#[trigger] self.tab_list()[i]).root.leaves().len() <= usize::MAX,
        ensures
            r@.len() == self.tab_list().len(),
            forall|i: int| 0 <= i < r@.len() ==> {
                let t = #[trigger] self.tab_list()[i];
                let info = r@[i];
                &&& info.id == t.id
                &&& info.title@ == t.title@
                &&& info.cwd == (if i < cwds@.len() { cwds@[i] } else { None })
                &&& info.active == (i == self.active_at())
                &&& info.running_since == earliest_running(t.root.leaves().map_values(|p: (S, Option<u64>)| p.1))
                &&& info.pinned == t.pinned
                &&& info.accent == t.accent
            },
    {
        let mut out: Vec<TabInfo> = Vec::new();
        let mut i: usize = 0;
        while i < self.tabs.len()
            invariant
                i <= self.tabs@.len(),
                self.tabs@ == self.tab_list(),
                self.active as nat == self.active_at(),
                forall|k: int| 0 <= k < self.tab_list().len() ==> (#[trigger] self.tab_list()[k]).root.leaves().len() <= usize::MAX,
                out@.len() == i,
                forall|k: int| 0 <= k < i ==> {
                    let t = #[trigger] self.tab_list()[k];
                    let info = out@[k];
                    &&& info.id == t.id
                    &&& info.title@ == t.title@
                    &&& info.cwd == (if k < cwds@.len() { cwds@[k] } else { None })
                    &&& info.active == (k == self.active_at())
                    &&& info.running_since == earliest_running(t.root.leaves().map_values(|p: (S, Option<u64>)| p.1))
                    &&& info.pinned == t.pinned
                    &&& info.accent == t.accent
                },
            decreases self.tabs@.len() - i,
        {
            let tab = &self.tabs[i];
            let cwd = if i < cwds.len() {
                match &cwds[i] {
                    Some(c) => Some(c.clone()),
                    None => None,
                }
            } else {
                None
            };
            out.push(TabInfo {
                id: tab.id,
                title: tab.title.clone(),
                cwd,
                active: i == self.active,
                running_since: tab.running_since(),
                pinned: tab.pinned,
                accent: tab.accent,
            });
            i += 1;
        }
        out
    }

    /// Renames the first tab with `id`.
    pub fn set_title(&mut self, id: TabId, title: String)
        ensures
            final(self).active_at() == old(self).active_at(),
            find_tab(old(self).tab_list(), id, 0) >= 0 ==> final(self).tab_list() == old(self).tab_list().update(
                find_tab(old(self).tab_list(), id, 0),
                Tab { title, ..old(self).tab_list()[find_tab(old(self).tab_list(), id, 0)] },
            ),
            find_tab(old(self).tab_list(), id, 0) < 0 ==> final(self).tab_list() == old(self).tab_list(),
            final(self).active_valid(),
    {
        if let Some(tab) = self.tab_by_id_mut(id) {
            tab.title = title;
        }
        proof {
            use_type_invariant(&*self);
        }
    }

    /// Gives the first tab with `id` the title `fallback`.
    pub fn reset_title(&mut self, id: TabId, fallback: &str)
        ensures
            final(self).active_at() == old(self).active_at(),
            find_tab(old(self).tab_list(), id, 0) >= 0 ==> exists|t: String| t@ == fallback@
                && final(self).tab_list() == old(self).tab_list().update(
                find_tab(old(self).tab_list(), id, 0),
                Tab { title: t, ..old(self).tab_list()[find_tab(old(self).tab_list(), id, 0)] },
            ),
            find_tab(old(self).tab_list(), id, 0) < 0 ==> final(self).tab_list() == old(self).tab_list(),
            final(self).active_valid(),
    {
        let title = fallback.to_owned();
        let ghost t = title;
        if let Some(tab) = self.tab_by_id_mut(id) {
            tab.title = title;
        }
        assert(find_tab(old(self).tab_list(), id, 0) >= 0 ==> final(self).tab_list() == old(self).tab_list().update(
            find_tab(old(self).tab_list(), id, 0),
            Tab { title: t, ..old(self).tab_list()[find_tab(old(self).tab_list(), id, 0)] },
        ));
        proof {
            use_type_invariant(&*self);
        }
    }

    /// Pins or unpins the first tab with `id`.
    pub fn toggle_pin(&mut self, id: TabId)
        ensures
            final(self).active_at() == old(self).active_at(),
            find_tab(old(self).tab_list(), id, 0) >= 0 ==> final(self).tab_list() == old(self).tab_list().update(
                find_tab(old(self).tab_list(), id, 0),
                Tab {
                    pinned: !old(self).tab_list()[find_tab(old(self).tab_list(), id, 0)].pinned,
                    ..old(self).tab_list()[find_tab(old(self).tab_list(), id, 0)]
                },
            ),
            find_tab(old(self).tab_list(), id, 0) < 0 ==> final(self).tab_list() == old(self).tab_list(),
            final(self).active_valid(),
    {
        if let Some(tab) = self.tab_by_id_mut(id) {
            tab.pinned = !tab.pinned;
        }
        proof {
            use_type_invariant(&*self);
        }
    }

    /// Keeps the active tab among the first `limit` tabs (a grid shows no
    /// more): when it lies further on, the tab at `limit - 1` becomes active,
    /// found by its id.
    pub fn keep_active_within(&mut self, limit: usize)
        ensures
            final(self).tab_list() == old(self).tab_list(),
            final(self).active_valid(),
            ({
                let n = if old(self).tab_list().len() < limit { old(self).tab_list().len() } else { limit as nat };
                final(self).active_at() == (if n > 0 && old(self).active_at() >= n {
                    find_tab(old(self).tab_list(), old(self).tab_list()[n - 1].id, 0) as nat
                } else {
                    old(self).active_at()
                })
            }),
    {
        proof {
            use_type_invariant(&*self);
        }
        let n = if self.tabs.len() < limit { self.tabs.len() } else { limit };
        if n > 0 && self.active >= n {
            let id = self.tabs[n - 1].id;
            proof {
                lemma_find_tab_found(self.tab_list(), id, 0, n - 1);
            }
            self.set_active(id);
        }
    }

    /// Moves the first tab with `id` to the next accent colour.
    pub fn cycle_tab_color(&mut self, id: TabId)
        ensures
            final(self).active_at() == old(self).active_at(),
            find_tab(old(self).tab_list(), id, 0) >= 0 ==> final(self).tab_list() == old(self).tab_list().update(
                find_tab(old(self).tab_list(), id, 0),
                Tab {
                    accent: next_accent(old(self).tab_list()[find_tab(old(self).tab_list(), id, 0)].accent),
                    ..old(self).tab_list()[find_tab(old(self).tab_list(), id, 0)]
                },
            ),
            find_tab(old(self).tab_list(), id, 0) < 0 ==> final(self).tab_list() == old(self).tab_list(),
            final(self).active_valid(),
    {
        if let Some(tab) = self.tab_by_id_mut(id) {
            tab.accent = next_accent_of(tab.accent);
        }
        proof {
            use_type_invariant(&*self);
        }
    }

    /// Moves the first tab with `from_id` to position `to_index` (measured
    /// before the move; clamped to the end) and keeps the same tab active.
    pub fn reorder_tab(&mut self, from_id: TabId, to_index: usize) -> (r: bool)
        ensures
            r == (find_tab(old(self).tab_list(), from_id, 0) >= 0),
            r ==> final(self).tab_list() == old(self).tab_list().remove(find_tab(old(self).tab_list(), from_id, 0)).insert(
                reorder_target(find_tab(old(self).tab_list(), from_id, 0), to_index as int, old(self).tab_list().len()),
                old(self).tab_list()[find_tab(old(self).tab_list(), from_id, 0)],
            ),
            r ==> final(self).active_at() == find_tab(final(self).tab_list(), old(self).tab_list()[old(self).active_at() as int].id, 0),
            r ==> final(self).tab_list()[final(self).active_at() as int].id == old(self).tab_list()[old(self).active_at() as int].id,
            r ==> final(self).tab_list().to_multiset() == old(self).tab_list().to_multiset(),
            !r ==> final(self).tab_list() == old(self).tab_list() && final(self).active_at() == old(self).active_at(),
            final(self).active_valid(),
    {
        proof {
            use_type_invariant(&*self);
            lemma_find_tab_range(self.tab_list(), from_id, 0);
        }
        let from_index = match self.tab_index(from_id) {
            Some(i) => i,
            None => return false,
        };
        let active_id = self.tabs[self.active].id;
        let (mut tabs, old_active) = self.take_parts();
        let ghost old_tabs = tabs@;
        let tab = tabs.remove(from_index);
        let mut insert_at = if to_index < tabs.len() {
            to_index
        } else {
            tabs.len()
        };
        if from_index < insert_at {
            insert_at = if insert_at > 0 {
                insert_at - 1
            } else {
                0
            };
        }
        tabs.insert(insert_at, tab);
        proof {
            let moved = old_tabs.remove(from_index as int);
            assert(tabs@ == moved.insert(insert_at as int, old_tabs[from_index as int]));
            lemma_remove_insert_multiset(old_tabs, from_index as int, insert_at as int);
            broadcast use vstd::seq_lib::group_to_multiset_ensures;
            assert(old_tabs.contains(old_tabs[old_active as int]));
            assert(old_tabs.to_multiset().count(old_tabs[old_active as int]) > 0);
            lemma_find_tab_exists(tabs@, old_tabs[old_active as int], active_id);
            lemma_find_tab_range(tabs@, active_id, 0);
        }
        let idx = match find_index(&tabs, active_id) {
            Some(i) => i,
            None => 0,
        };
        self.put_parts(tabs, idx);
        true
    }
}

/// Position of the first tab with `id` in `tabs`.
fn find_index<S, R>(tabs: &Vec<Tab<S, R>>, id: TabId) -> (r: Option<usize>)
    ensures
        match r {
            Some(i) => find_tab(tabs@, id, 0) == i,
            None => find_tab(tabs@, id, 0) == -1,
        },
{
    let mut i: usize = 0;
    while i < tabs.len()
        invariant
            i <= tabs@.len(),
            find_tab(tabs@, id, 0) == find_tab(tabs@, id, i as int),
        decreases tabs@.len() - i,
    {
        if tabs[i].id == id {
            return Some(i);
        }
        i += 1;
    }
    None
}

/// Where a moved tab lands: `to` clamped to the tabs that remain, one less
/// when the tab came from before that place.
pub open spec fn reorder_target(from: int, to: int, len: nat) -> int {
    let clamped = if to < len - 1 { to } else { len - 1 };
    if from < clamped {
        if clamped > 0 { clamped - 1 } else { 0 }
    } else {
        clamped
    }
}

fn next_accent_of(current: Option<[u8; 3]>) -> (r: Option<[u8; 3]>)
    ensures
        r == next_accent(current),
{
    let presets: [[u8; 3]; 6] = [[231, 76, 60], [46, 204, 113], [52, 152, 219], [155, 89, 182], [241, 196, 15], [230, 126, 34]];
    assert(presets@ =~= accent_presets());
    match current {
        None => Some(presets[0]),
        Some(c) => {
            let mut idx: usize = 0;
            let mut found = false;
            let mut i: usize = 0;
            while i < 6
                invariant
                    i <= 6,
                    presets@ == accent_presets(),
                    !found ==> idx == 0,
                    !found ==> forall|k: int| 0 <= k < i ==> presets@[k] != c,
                    found ==> idx < 6 && presets@[idx as int] == c && forall|k: int| 0 <= k < idx ==> presets@[k] != c,
                decreases 6 - i,
            {
                if !found && presets[i][0] == c[0] && presets[i][1] == c[1] && presets[i][2] == c[2] {
                    assert(presets@[i as int]@ =~= c@);
                    found = true;
                    idx = i;
                }
                i += 1;
            }
            proof {
                if found {
                    assert(accent_presets().contains(c));
                    accent_presets().index_of_first_ensures(c);
                } else {
                    assert(!accent_presets().contains(c));
                }
            }
            if idx + 1 < 6 {
                Some(presets[idx + 1])
            } else {
                None
            }
        },
    }
}

/// Moving an element within a sequence keeps its elements.
pub proof fn lemma_remove_insert_multiset<T>(s: Seq<T>, from: int, to: int)
    requires
        0 <= from < s.len(),
        0 <= to <= s.len() - 1,
    ensures
        s.remove(from).insert(to, s[from]).to_multiset() == s.to_multiset(),
{
    broadcast use vstd::seq_lib::group_to_multiset_ensures;
    let r = s.remove(from);
    assert(s =~= r.insert(from, s[from]));
}

/// A tab with `id` that is in the list is found.
pub proof fn lemma_find_tab_exists<S, R>(tabs: Seq<Tab<S, R>>, t: Tab<S, R>, id: TabId)
    requires
        tabs.to_multiset().count(t) > 0,
        t.id == id,
    ensures
        find_tab(tabs, id, 0) >= 0,
{
    broadcast use vstd::seq_lib::group_to_multiset_ensures;
    assert(tabs.contains(t));
    let k = tabs.index_of(t);
    lemma_find_tab_before(tabs, id, 0, k);
}

/// `find_tab` succeeds when a tab with `id` lies at or after `from`.
pub proof fn lemma_find_tab_before<S, R>(tabs: Seq<Tab<S, R>>, id: TabId, from: int, k: int)
    requires
        0 <= from <= k < tabs.len(),
        tabs[k].id == id,
    ensures
        find_tab(tabs, id, from) >= 0,
    decreases k - from,
{
    if tabs[from].id != id {
        lemma_find_tab_before(tabs, id, from + 1, k);
    }
}

/// Activating the next tab and then the previous one returns to the same tab.
pub proof fn lemma_prev_undoes_next(active: nat, len: nat)
    requires
        active < len,
    ensures
        prev_index(next_index(active, len), len) == active,
        next_index(prev_index(active, len), len) == active,
{
    if len > 1 {
        if active + 1 < len {
            vstd::arithmetic::div_mod::lemma_small_mod((active + 1) as nat, len);
        } else {
            vstd::arithmetic::div_mod::lemma_mod_self_0(len as int);
        }
        let p = prev_index(active, len);
        if p + 1 < len {
            vstd::arithmetic::div_mod::lemma_small_mod((p + 1) as nat, len);
        } else {
            vstd::arithmetic::div_mod::lemma_mod_self_0(len as int);
        }
    }
}

/// `find_tab` gives -1 or the index of a tab with that id, at or after `from`.
pub proof fn lemma_find_tab_range<S, R>(tabs: Seq<Tab<S, R>>, id: TabId, from: int)
    ensures
        find_tab(tabs, id, from) == -1 || (from <= find_tab(tabs, id, from) < tabs.len()
            && tabs[find_tab(tabs, id, from)].id == id),
    decreases tabs.len() - from,
{
    if from >= 0 && from < tabs.len() && tabs[from].id != id {
        lemma_find_tab_range(tabs, id, from + 1);
    }
}

/// A tab with `id` at `at` (from `from` on) is found, at `at` or before.
pub proof fn lemma_find_tab_found<S, R>(tabs: Seq<Tab<S, R>>, id: TabId, from: int, at: int)
    requires
        0 <= from <= at < tabs.len(),
        tabs[at].id == id,
    ensures
        from <= find_tab(tabs, id, from) <= at,
    decreases at - from,
{
    if tabs[from].id != id {
        lemma_find_tab_found(tabs, id, from + 1, at);
    }
}

/// The directories of the tabs that know theirs, in tab order: what a
/// session saves for the next start.
pub open spec fn known_cwds(infos: Seq<TabInfo>) -> Seq<Seq<char>>
    decreases infos.len(),
{
    if infos.len() == 0 {
        Seq::empty()
    } else {
        let prev = known_cwds(infos.drop_last());
        match infos.last().cwd {
            Some(c) => prev.push(c@),
            None => prev,
        }
    }
}

/// The directories to save for the next session (see `known_cwds`).
pub fn session_cwds(infos: &Vec<TabInfo>) -> (r: Vec<String>)
    ensures
        r@.map_values(|c: String| c@) == known_cwds(infos@),
{
    let mut out: Vec<String> = Vec::new();
    let mut i: usize = 0;
    while i < infos.len()
        invariant
            i <= infos@.len(),
            out@.map_values(|c: String| c@) == known_cwds(infos@.take(i as int)),
        decreases infos@.len() - i,
    {
        let ghost before = out@;
        assert(infos@.take(i + 1).drop_last() =~= infos@.take(i as int));
        match &infos[i].cwd {
            Some(c) => {
                let owned = c.clone();
                out.push(owned);
                assert(out@.map_values(|c: String| c@) =~= before.map_values(|c: String| c@).push(owned@));
            },
            None => {},
        }
        i += 1;
    }
    assert(infos@.take(infos@.len() as int) =~= infos@);
    out
}

/// The title of a tab's copy: the title and ` (copy)`.
pub open spec fn copy_title_spec(title: Seq<char>) -> Seq<char> {
    title + seq![' ', '(', 'c', 'o', 'p', 'y', ')']
}

/// The title given to a duplicated tab (see `copy_title_spec`).
pub fn copy_title(title: &String) -> (r: String)
    ensures
        r@ == copy_title_spec(title@),
{
    let mut out = chars_of(title.as_str());
    out.push(' ');
    out.push('(');
    out.push('c');
    out.push('o');
    out.push('p');
    out.push('y');
    out.push(')');
    assert(out@ =~= copy_title_spec(title@));
    string_from_chars(&out)
}

/// Dropping a tab on the place it already holds, or on the place just after
/// it (the gap before the next tab), leaves the tabs in their order; moving
/// it anywhere else moves it: the tab that was at `to` (or the last tab,
/// for a place past the end) then sits right after it, when `to` lies after
/// the tab, and right before it otherwise.
pub proof fn lemma_reorder_places_tab<T>(tabs: Seq<T>, from: int, to: int)
    requires
        0 <= from < tabs.len(),
        0 <= to,
    ensures
        ({
            let moved = tabs.remove(from).insert(reorder_target(from, to, tabs.len()), tabs[from]);
            let at = reorder_target(from, to, tabs.len());
            &&& (to == from || to == from + 1) ==> moved == tabs
            &&& moved.len() == tabs.len()
            &&& moved[at] == tabs[from]
            &&& from + 1 < to < tabs.len() ==> at + 1 < moved.len() && moved[at + 1] == tabs[to]
            &&& to < from ==> at + 1 < moved.len() && moved[at + 1] == tabs[to] && at == to
        }),
{
    let moved = tabs.remove(from).insert(reorder_target(from, to, tabs.len()), tabs[from]);
    if to == from || to == from + 1 {
        assert(moved =~= tabs);
    }
}

} // verus!
