//! Tabs: up to nine open tabs, one of them active, how tab actions change them, and the line
//! of tab labels.

use crate::app::keymap::TabAction;
use crate::config::theme::{default_tab_format, tab_label, TabTheme};
use crate::utils::{contains_text, file_name_of, path_file_name};
use vstd::prelude::*;

verus! {

/// The most tabs that can be open at once.
pub const MAX_TABS: usize = 9;

/// The active tab after stepping `dir` tabs from `current` among `n`, wrapping around.
pub open spec fn stepped(current: int, dir: int, n: int) -> int {
    (current + dir + n) % n
}

/// Several open tabs, one of them active.
pub struct TabManager<T> {
    tabs: Vec<T>,
    ids: Vec<usize>,
    current: usize,
    next_tab_id: usize,
}

impl<T> TabManager<T> {
    /// The open tabs, in order.
    pub closed spec fn tabs_view(&self) -> Seq<T> {
        self.tabs@
    }

    /// The index of the active tab.
    pub closed spec fn current_view(&self) -> int {
        self.current as int
    }

    /// The id the next opened tab gets.
    pub closed spec fn next_id_view(&self) -> int {
        self.next_tab_id as int
    }

    /// The ids of the open tabs, in the order of the tabs.
    pub closed spec fn ids_view(&self) -> Seq<usize> {
        self.ids@
    }

    /// While any tab is open, the active index is one of them, and no more than the maximum
    /// are open. Every tab has an id, the ids rise from the first tab to the last, and all lie
    /// below the id the next tab gets.
    pub open spec fn wf(&self) -> bool {
        &&& self.tabs_view().len() <= MAX_TABS
        &&& (self.tabs_view().len() > 0 ==> 0 <= self.current_view() < self.tabs_view().len())
        &&& self.ids_view().len() == self.tabs_view().len()
        &&& forall|i: int, j: int| 0 <= i < j < self.ids_view().len() ==> self.ids_view()[i] < self.ids_view()[j]
        &&& forall|i: int| 0 <= i < self.ids_view().len() ==> self.ids_view()[i] < self.next_id_view()
    }

    /// Two tabs, with ids 0 and 1, the second active; the next tab opened gets id 2.
    pub fn new(existing: T, new_tab: T) -> (r: Self)
        ensures
            r.wf(),
            r.tabs_view() == seq![existing, new_tab],
            r.ids_view() == seq![0usize, 1usize],
            r.current_view() == 1,
            r.next_id_view() == 2,
    {
        let mut tabs: Vec<T> = Vec::new();
        tabs.push(existing);
        tabs.push(new_tab);
        let mut ids: Vec<usize> = Vec::new();
        ids.push(0);
        ids.push(1);
        TabManager { tabs, ids, current: 1, next_tab_id: 2 }
    }

    /// The id of the tab at `i`.
    pub fn tab_id(&self, i: usize) -> (r: usize)
        requires
            self.wf(),
            i < self.tabs_view().len(),
        ensures
            r == self.ids_view()[i as int],
    {
        self.ids[i]
    }

    /// Whether another tab can be opened: fewer than the maximum are open and ids are left.
    pub fn can_add(&self) -> (r: bool)
        ensures
            r == (self.tabs_view().len() < MAX_TABS && self.next_id_view() < usize::MAX),
    {
        self.tabs.len() < MAX_TABS && self.next_tab_id < usize::MAX
    }

    /// The number of open tabs.
    pub fn len(&self) -> (r: usize)
        ensures
            r == self.tabs_view().len(),
    {
        self.tabs.len()
    }

    /// Whether no tab is open.
    pub fn is_empty(&self) -> (r: bool)
        ensures
            r == (self.tabs_view().len() == 0),
    {
        self.tabs.len() == 0
    }

    /// The index of the active tab.
    pub fn current(&self) -> (r: usize)
        ensures
            r == self.current_view(),
    {
        self.current
    }

    /// The active tab.
    pub fn current_tab(&self) -> (r: &T)
        requires
            self.wf(),
            self.tabs_view().len() > 0,
        ensures
            *r == self.tabs_view()[self.current_view()],
    {
        &self.tabs[self.current]
    }

    /// The tab at `i`.
    pub fn tab(&self, i: usize) -> (r: &T)
        requires
            i < self.tabs_view().len(),
        ensures
            *r == self.tabs_view()[i as int],
    {
        &self.tabs[i]
    }

    /// Opens `tab` after the others under the next tab id and makes it active, unless the
    /// maximum is open or no id is left (then the tab is dropped and nothing changes); returns
    /// the index of the active tab.
    pub fn add_tab(&mut self, tab: T) -> (r: usize)
        requires
            old(self).wf(),
        ensures
            final(self).wf(),
            r == final(self).current_view(),
            !(old(self).tabs_view().len() < MAX_TABS && old(self).next_id_view() < usize::MAX) ==> {
                &&& final(self).tabs_view() == old(self).tabs_view()
                &&& final(self).ids_view() == old(self).ids_view()
                &&& final(self).current_view() == old(self).current_view()
                &&& final(self).next_id_view() == old(self).next_id_view()
            },
            old(self).tabs_view().len() < MAX_TABS && old(self).next_id_view() < usize::MAX ==> {
                &&& final(self).tabs_view() == old(self).tabs_view().push(tab)
                &&& final(self).ids_view() == old(self).ids_view().push(old(self).next_id_view() as usize)
                &&& final(self).current_view() == old(self).tabs_view().len()
                &&& final(self).next_id_view() == old(self).next_id_view() + 1
            },
    {
        if self.tabs.len() >= MAX_TABS || self.next_tab_id == usize::MAX {
            return self.current;
        }
        self.ids.push(self.next_tab_id);
        self.next_tab_id = self.next_tab_id + 1;
        self.tabs.push(tab);
        self.current = self.tabs.len() - 1;
        self.current
    }

    /// Makes the tab `dir` steps away active, wrapping around; nothing changes with no tab open.
    /// A step back further than the number of tabs is not taken.
    pub fn switch(&mut self, dir: i8)
        requires
            old(self).wf(),
            old(self).tabs_view().len() > 0 ==> old(self).current_view() + dir + old(self).tabs_view().len() >= 0,
        ensures
            final(self).wf(),
            final(self).tabs_view() == old(self).tabs_view(),
            final(self).ids_view() == old(self).ids_view(),
            final(self).next_id_view() == old(self).next_id_view(),
            old(self).tabs_view().len() == 0 ==> final(self).current_view() == old(self).current_view(),
            old(self).tabs_view().len() > 0 ==> final(self).current_view() == stepped(old(self).current_view(), dir as int, old(self).tabs_view().len() as int),
    {
        let n = self.tabs.len();
        if n == 0 {
            return;
        }
        let n64: i64 = n as i64;
        let sum: i64 = self.current as i64 + dir as i64 + n64;
        let v: i64 = sum % n64;
        assert(0 <= v < n64);
        self.current = v as usize;
    }

    /// Makes the tab at `idx` active, where there is one.
    pub fn set_active(&mut self, idx: usize)
        requires
            old(self).wf(),
        ensures
            final(self).wf(),
            final(self).tabs_view() == old(self).tabs_view(),
            final(self).ids_view() == old(self).ids_view(),
            final(self).next_id_view() == old(self).next_id_view(),
            final(self).current_view() == (if idx < old(self).tabs_view().len() { idx as int } else { old(self).current_view() }),
    {
        if idx < self.tabs.len() {
            self.current = idx;
        }
    }

    /// Closes the tab at `idx` (nothing where there is none) and returns whether any tab is
    /// still open. The active index stays, moved back onto the last tab where it fell off.
    pub fn close_tab(&mut self, idx: usize) -> (r: bool)
        requires
            old(self).wf(),
        ensures
            final(self).wf(),
            final(self).next_id_view() == old(self).next_id_view(),
            r == (final(self).tabs_view().len() > 0),
            idx >= old(self).tabs_view().len() ==> final(self).tabs_view() == old(self).tabs_view()
                && final(self).ids_view() == old(self).ids_view()
                && final(self).current_view() == old(self).current_view(),
            idx < old(self).tabs_view().len() ==> {
                &&& final(self).tabs_view() == old(self).tabs_view().remove(idx as int)
                &&& final(self).ids_view() == old(self).ids_view().remove(idx as int)
                &&& final(self).current_view() == (if final(self).tabs_view().len() == 0 {
                    0
                } else if old(self).current_view() >= final(self).tabs_view().len() {
                    final(self).tabs_view().len() - 1
                } else {
                    old(self).current_view()
                })
            },
    {
        if idx >= self.tabs.len() {
            return self.tabs.len() > 0;
        }
        self.tabs.remove(idx);
        self.ids.remove(idx);
        if self.tabs.len() == 0 {
            self.current = 0;
            false
        } else {
            if self.current >= self.tabs.len() {
                self.current = self.tabs.len() - 1;
            }
            true
        }
    }

    /// Takes out the only remaining tab.
    pub fn into_last(self) -> (r: T)
        requires
            self.tabs_view().len() == 1,
        ensures
            r == self.tabs_view()[0],
    {
        let mut tabs = self.tabs;
        tabs.remove(0)
    }
}

/// One application state, or several in tabs.
pub enum AppContainer<T> {
    Single(T),
    Tabs(TabManager<T>),
}

/// What a tab action asks of the caller.
#[derive(Debug, Clone, Copy, PartialEq, Eq, Structural)]
pub enum TabOutcome {
    /// The action was handled.
    Consumed,
    /// The last tab was closed: the application ends.
    Quit,
    /// A tab was opened and is active: its contents are to be loaded.
    Opened,
}

/// Handles a tab action. `New` opens `new_tab` (made by the caller from the active tab's
/// directory): from a single state this makes two tabs, the old state and the new one,
/// the new one active; with tabs open it is added, unless nine are open. `Close` ends the
/// application from a single state, else closes the active tab and returns to a single state
/// when one tab is left. `Next` and `Prev` step through the tabs, wrapping around; `Switch(n)`
/// makes tab `n` (counted from 1) active where there is one.
pub fn handle_tab_action<T>(container: AppContainer<T>, action: TabAction, new_tab: Option<T>) -> (r: (AppContainer<T>, TabOutcome))
    requires
        container matches AppContainer::Tabs(m) ==> m.wf(),
        action == TabAction::New ==> new_tab is Some,
    ensures
        r.0 matches AppContainer::Tabs(m) ==> m.wf(),
        match (container, action) {
            (AppContainer::Single(s), TabAction::New) => r.1 == TabOutcome::Opened && (r.0 matches AppContainer::Tabs(m)
                && m.tabs_view() == seq![s, new_tab->0] && m.current_view() == 1 && m.next_id_view() == 2),
            (AppContainer::Single(s), TabAction::Close) => r.1 == TabOutcome::Quit && r.0 == AppContainer::Single(s),
            (AppContainer::Single(s), _) => r.1 == TabOutcome::Consumed && r.0 == AppContainer::Single(s),
            (AppContainer::Tabs(m), TabAction::New) => if m.tabs_view().len() < MAX_TABS && m.next_id_view() < usize::MAX {
                r.1 == TabOutcome::Opened && (r.0 matches AppContainer::Tabs(m2)
                    && m2.tabs_view() == m.tabs_view().push(new_tab->0) && m2.current_view() == m.tabs_view().len()
                    && m2.ids_view() == m.ids_view().push(m.next_id_view() as usize))
            } else {
                r.1 == TabOutcome::Consumed && (r.0 matches AppContainer::Tabs(m2) && m2.tabs_view() == m.tabs_view()
                    && m2.current_view() == m.current_view() && m2.next_id_view() == m.next_id_view())
            },
            (AppContainer::Tabs(m), TabAction::Close) => {
                let rest = if m.tabs_view().len() > 0 { m.tabs_view().remove(m.current_view()) } else { m.tabs_view() };
                if rest.len() == 0 {
                    r.1 == TabOutcome::Quit
                } else if rest.len() == 1 {
                    r.1 == TabOutcome::Consumed && r.0 == AppContainer::<T>::Single(rest[0])
                } else {
                    r.1 == TabOutcome::Consumed && (r.0 matches AppContainer::Tabs(m2) && m2.tabs_view() == rest)
                }
            },
            (AppContainer::Tabs(m), TabAction::Next) => r.1 == TabOutcome::Consumed && (r.0 matches AppContainer::Tabs(m2)
                && m2.tabs_view() == m.tabs_view() && m2.next_id_view() == m.next_id_view()
                && (m.tabs_view().len() > 0 ==> m2.current_view() == stepped(m.current_view(), 1, m.tabs_view().len() as int))),
            (AppContainer::Tabs(m), TabAction::Prev) => r.1 == TabOutcome::Consumed && (r.0 matches AppContainer::Tabs(m2)
                && m2.tabs_view() == m.tabs_view() && m2.next_id_view() == m.next_id_view()
                && (m.tabs_view().len() > 0 ==> m2.current_view() == stepped(m.current_view(), -1, m.tabs_view().len() as int))),
            (AppContainer::Tabs(m), TabAction::Switch(n)) => r.1 == TabOutcome::Consumed && (r.0 matches AppContainer::Tabs(m2)
                && m2.tabs_view() == m.tabs_view() && m2.next_id_view() == m.next_id_view()
                && m2.current_view() == (if 1 <= n && n - 1 < m.tabs_view().len() { n - 1 } else { m.current_view() })),
        },
{
    match container {
        AppContainer::Single(s) => match action {
            TabAction::New => {
                let t = match new_tab {
                    Some(t) => t,
                    None => {
                        return (AppContainer::Single(s), TabOutcome::Consumed);
                    },
                };
                (AppContainer::Tabs(TabManager::new(s, t)), TabOutcome::Opened)
            },
            TabAction::Close => (AppContainer::Single(s), TabOutcome::Quit),
            _ => (AppContainer::Single(s), TabOutcome::Consumed),
        },
        AppContainer::Tabs(mut m) => match action {
            TabAction::New => {
                let t = match new_tab {
                    Some(t) => t,
                    None => {
                        return (AppContainer::Tabs(m), TabOutcome::Consumed);
                    },
                };
                if !m.can_add() {
                    (AppContainer::Tabs(m), TabOutcome::Consumed)
                } else {
                    m.add_tab(t);
                    (AppContainer::Tabs(m), TabOutcome::Opened)
                }
            },
            TabAction::Close => {
                let cur = m.current();
                m.close_tab(cur);
                if m.len() == 1 {
                    let last = m.into_last();
                    (AppContainer::Single(last), TabOutcome::Consumed)
                } else if m.is_empty() {
                    (AppContainer::Tabs(m), TabOutcome::Quit)
                } else {
                    (AppContainer::Tabs(m), TabOutcome::Consumed)
                }
            },
            TabAction::Next => {
                m.switch(1);
                (AppContainer::Tabs(m), TabOutcome::Consumed)
            },
            TabAction::Prev => {
                m.switch(-1);
                (AppContainer::Tabs(m), TabOutcome::Consumed)
            },
            TabAction::Switch(n) => {
                if n >= 1 {
                    let idx = (n - 1) as usize;
                    if idx < m.len() {
                        m.set_active(idx);
                    }
                }
                (AppContainer::Tabs(m), TabOutcome::Consumed)
            },
        },
    }
}

/// No two open tabs share an id.
pub proof fn lemma_tab_ids_distinct<T>(m: TabManager<T>, i: int, j: int)
    requires
        m.wf(),
        0 <= i < m.tabs_view().len(),
        0 <= j < m.tabs_view().len(),
        i != j,
    ensures
        m.ids_view()[i] != m.ids_view()[j],
{
    if i < j {
        assert(m.ids_view()[i] < m.ids_view()[j]);
    } else {
        assert(m.ids_view()[j] < m.ids_view()[i]);
    }
}

/// While tabs are open, the active one is always one of them, whatever is added, closed or
/// switched to.
pub proof fn lemma_active_tab_in_range<T>(m: TabManager<T>)
    requires
        m.wf(),
        m.tabs_view().len() > 0,
    ensures
        0 <= m.current_view() < m.tabs_view().len(),
{
}

/// How a part of the tab line is drawn.
#[derive(Debug, Clone, Copy, PartialEq, Eq, Structural)]
pub enum TabPartKind {
    /// The label of the active tab.
    Active,
    /// The label of another tab.
    Inactive,
    /// The separator between two labels.
    Separator,
}

/// One part of the tab line: its text and how it is drawn.
#[derive(Debug, Clone, PartialEq, Eq)]
pub struct TabPart {
    pub text: String,
    pub kind: TabPartKind,
}

/// The name a tab shows for its directory: the directory's own name, else the whole path.
pub open spec fn tab_name(dir: Seq<char>) -> Seq<char> {
    match file_name_of(dir) {
        Some(n) => n,
        None => dir,
    }
}

/// The label of tab `i` among tabs showing `dirs`, with `current` active.
pub open spec fn tab_line_label(dirs: Seq<Seq<char>>, current: int, theme: TabTheme, i: int) -> Seq<char> {
    let format = match theme.line_format {
        Some(f) => f@,
        None => default_tab_format(),
    };
    let uses_name = theme.line_format matches Some(f) && contains_text(f@, "{name}"@);
    tab_label(
        format,
        (i + 1) as nat,
        if i == current { theme.marker@ } else { Seq::empty() },
        theme.separator@,
        if uses_name { tab_name(dirs[i]) } else { Seq::empty() },
    )
}

/// Part `k` of the tab line: the labels of the tabs in order (the active one drawn as such),
/// with the separator between each two.
pub open spec fn tab_line_part(dirs: Seq<Seq<char>>, current: int, theme: TabTheme, k: int) -> (Seq<char>, TabPartKind) {
    if k % 2 == 0 {
        (tab_line_label(dirs, current, theme, k / 2), if k / 2 == current { TabPartKind::Active } else { TabPartKind::Inactive })
    } else {
        (theme.separator@, TabPartKind::Separator)
    }
}

/// The tab line for tabs showing `dirs`, with tab `current` active: nothing for a single tab,
/// else each label (see `tab_line_part`) with separators between.
pub fn tab_line(dirs: &[String], current: usize, theme: &TabTheme) -> (r: Vec<TabPart>)
    requires
        dirs@.len() < usize::MAX / 2,
    ensures
        dirs@.len() <= 1 ==> r@.len() == 0,
        dirs@.len() > 1 ==> r@.len() == 2 * dirs@.len() - 1,
        dirs@.len() > 1 ==> forall|k: int| 0 <= k < r@.len() ==> (#[trigger] r@[k]).text@ == tab_line_part(
            dirs@.map_values(|d: String| d@), current as int, *theme, k).0
            && r@[k].kind == tab_line_part(dirs@.map_values(|d: String| d@), current as int, *theme, k).1,
{
    let mut out: Vec<TabPart> = Vec::new();
    let n = dirs.len();
    if n <= 1 {
        return out;
    }
    let uses_name = theme.uses_name();
    let ghost views = dirs@.map_values(|d: String| d@);
    let mut i: usize = 0;
    while i < n
        invariant
            n == dirs@.len(),
            1 < n < usize::MAX / 2,
            i <= n,
            views == dirs@.map_values(|d: String| d@),
            uses_name == (theme.line_format matches Some(f) && contains_text(f@, "{name}"@)),
            out@.len() == (if i == 0 { 0 } else { 2 * i - 1 }),
            forall|k: int| 0 <= k < out@.len() ==> (#[trigger] out@[k]).text@ == tab_line_part(views, current as int, *theme, k).0
                && out@[k].kind == tab_line_part(views, current as int, *theme, k).1,
        decreases n - i,
    {
        if i > 0 {
            let ghost k = out@.len() as int;
            assert(k % 2 == 1);
            out.push(TabPart { text: theme.separator.clone(), kind: TabPartKind::Separator });
        }
        let dir = dirs[i].as_str();
        let name = if uses_name {
            match path_file_name(dir) {
                Some(nm) => nm,
                None => String::from_str(dir),
            }
        } else {
            String::new()
        };
        assert(name@ == (if uses_name { tab_name(views[i as int]) } else { Seq::<char>::empty() }));
        let is_current = i == current;
        let label = theme.format_tab(i, is_current, Some(name.as_str()));
        let ghost k = out@.len() as int;
        assert(k == 2 * i);
        assert(k % 2 == 0 && k / 2 == i);
        out.push(TabPart { text: label, kind: if is_current { TabPartKind::Active } else { TabPartKind::Inactive } });
        i += 1;
    }
    out
}

} // verus!
