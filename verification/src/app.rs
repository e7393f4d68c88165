//! The explorer's state across tabs: which are open, which is active, what
//! was closed, and what each user request does to them.
use vstd::prelude::*;
use crate::fs_entry::FsEntry;
use crate::path::{PathPart, PartView, joined, parts_view};
use crate::settings::{AppState, Settings};
use crate::sidebar::Action;
use crate::tab::{Tab, navigated, refreshed, stepped_back, stepped_forward, went_up};

verus! {

broadcast use vstd::seq_lib::group_seq_properties;

/// `t` is a tab at `p` with nothing listed yet and no history.
pub open spec fn fresh_tab(t: Tab, p: Seq<char>) -> bool {
    &&& t.current_path@ == p
    &&& t.address_text@ == p
    &&& t.filter@ == Seq::<char>::empty()
    &&& t.back_stack@ == Seq::<String>::empty()
    &&& t.forward_stack@ == Seq::<String>::empty()
    &&& t.entries@ == Seq::<FsEntry>::empty()
    &&& t.selected is None
    &&& t.error is None
}

/// Where a session starts when it does not restore saved tabs: the user's
/// home folder where it is known, else `C:\`.
pub fn start_path_from(home: Option<String>) -> (r: String)
    ensures
        match home {
            Some(h) => r@ == h@,
            None => r@ == "C:\\"@,
        },
{
    match home {
        Some(h) => h,
        None => {
            let r = "C:\\".to_string();
            proof {
                vstd::string::to_string_from_display_ensures_for_str("C:\\", r);
            }
            r
        },
    }
}

/// Calls `directories::UserDirs::new` and reads its home folder. Nothing is
/// claimed of the result: it depends on the environment.
#[verifier::external_body]
fn home_dir() -> Option<String> {
    directories::UserDirs::new().map(|d| d.home_dir().to_string_lossy().into_owned())
}

/// The folder a new session or a replaced last tab starts in.
pub fn default_start_path() -> String {
    start_path_from(home_dir())
}

/// A request made from a file or folder in the listing.
pub enum EntryAction {
    Navigate(String),
    Open(String),
    OpenInNewTab(String),
    CopyPath(String),
    Reveal(String),
    Delete(String),
}

/// Outside work that a request leaves for the caller to do.
pub enum Effect {
    /// Nothing to do.
    Nothing,
    /// List the current path of this tab again.
    Reload(usize),
    /// Open this file with the system's default program.
    OpenFile(String),
    /// Put this text on the clipboard.
    CopyText(String),
    /// Run the system file manager with this argument.
    RevealInFileManager(String),
    /// Move this path to the recycle bin, then list the active tab again.
    TrashThenReload(String),
}

/// The open tabs and everything around them.
pub struct ExplorerApp {
    tabs: Vec<Tab>,
    active_tab: usize,
    closed_tabs: Vec<String>,
    settings: Settings,
    show_settings: bool,
    dirty: bool,
    applied_galaxy: Option<bool>,
}

/// The argument that makes the Windows file manager select `p`.
pub open spec fn reveal_argument(p: Seq<char>) -> Seq<char> {
    "/select,"@ + p
}

impl ExplorerApp {
    /// There is at least one tab, and the active one exists.
    pub open spec fn wf(&self) -> bool {
        self.tab_seq().len() > 0 && 0 <= self.active() < self.tab_seq().len()
    }

    pub closed spec fn tab_seq(&self) -> Seq<Tab> {
        self.tabs@
    }

    pub closed spec fn active(&self) -> int {
        self.active_tab as int
    }

    /// Paths of closed tabs, the most recently closed last.
    pub closed spec fn closed(&self) -> Seq<Seq<char>> {
        self.closed_tabs.deep_view()
    }

    pub closed spec fn prefs(&self) -> Settings {
        self.settings
    }

    /// Whether there are changes not yet saved.
    pub closed spec fn is_dirty(&self) -> bool {
        self.dirty
    }

    pub closed spec fn settings_open(&self) -> bool {
        self.show_settings
    }

    /// The style last applied: galaxy or plain, or none yet.
    pub closed spec fn applied_style(&self) -> Option<bool> {
        self.applied_galaxy
    }

    /// The current path of each tab, in order.
    pub open spec fn paths(&self) -> Seq<Seq<char>> {
        self.tab_seq().map_values(|t: Tab| t.current_path@)
    }

    /// The active tab.
    pub open spec fn active_view(&self) -> Tab {
        self.tab_seq()[self.active()]
    }

    /// `self` and `other` differ at most in their tabs and in whether they
    /// have unsaved changes.
    pub open spec fn same_frame(&self, other: &Self) -> bool {
        &&& self.closed() == other.closed()
        &&& self.prefs() == other.prefs()
        &&& self.settings_open() == other.settings_open()
        &&& self.applied_style() == other.applied_style()
    }

    /// `new` is `old` with only the active tab changed, to `t`.
    pub open spec fn only_active_changed(old: &Self, new: &Self, t: Tab) -> bool {
        &&& new.same_frame(old)
        &&& new.active() == old.active()
        &&& new.tab_seq() == old.tab_seq().update(old.active(), t)
    }
}

/// `app` is how a session saved as `s` opens: the saved tabs when restoring
/// is on and there are any, else one tab at `start`; the saved active index, kept in
/// range; the saved closed tabs and settings; nothing unsaved.
pub open spec fn opened_from(s: AppState, start: Seq<char>, app: ExplorerApp) -> bool {
    let n = app.tab_seq().len();
    &&& app.wf()
    &&& (s.settings.restore_tabs_on_startup && s.tabs.len() > 0) ==> app.paths()
        == s.tabs.deep_view()
    &&& !(s.settings.restore_tabs_on_startup && s.tabs.len() > 0) ==> app.paths() == seq![start]
    &&& forall|i: int| 0 <= i < n ==> fresh_tab(#[trigger] app.tab_seq()[i], app.paths()[i])
    &&& app.active() == (if s.active_tab < n - 1 {
        s.active_tab as int
    } else {
        n - 1
    })
    &&& app.closed() == s.closed_tabs.deep_view()
    &&& app.prefs() == s.settings
    &&& !app.is_dirty()
    &&& !app.settings_open()
    &&& app.applied_style() is None
}

/// `s` records the session `app`: settings, tab paths, active index and
/// closed tabs.
pub open spec fn saved_as(app: ExplorerApp, s: AppState) -> bool {
    &&& s.settings == app.prefs()
    &&& s.tabs.deep_view() == app.paths()
    &&& s.active_tab == app.active()
    &&& s.closed_tabs.deep_view() == app.closed()
}

/// `new` is `old` with a fresh tab at `p` added at the end and made active.
pub open spec fn tab_opened(old: ExplorerApp, new: ExplorerApp, p: Seq<char>) -> bool {
    let n = old.tab_seq().len();
    &&& new.wf()
    &&& new.tab_seq().len() == n + 1
    &&& new.tab_seq().take(n as int) == old.tab_seq()
    &&& fresh_tab(new.tab_seq()[n as int], p)
    &&& new.active() == n
    &&& new.is_dirty()
}

/// `new` is `old` after closing tab `idx`: its path is remembered as the
/// most recently closed; the last tab is replaced by a fresh one at
/// `start` rather than removed; otherwise the active index follows its tab, or moves to
/// the tab that takes the closed one's place.
pub open spec fn tab_closed(old: ExplorerApp, new: ExplorerApp, idx: int, start: Seq<char>) -> bool {
    let n = old.tab_seq().len();
    &&& new.wf()
    &&& new.closed() == old.closed().push(old.paths()[idx])
    &&& new.prefs() == old.prefs()
    &&& new.settings_open() == old.settings_open()
    &&& new.applied_style() == old.applied_style()
    &&& new.is_dirty()
    &&& n == 1 ==> {
        &&& new.tab_seq().len() == 1
        &&& fresh_tab(new.tab_seq()[0], start)
        &&& new.active() == 0
    }
    &&& n > 1 ==> {
        &&& new.tab_seq() == old.tab_seq().remove(idx)
        &&& new.active() == (if old.active() >= n - 1 {
            n - 2
        } else if old.active() > idx {
            old.active() - 1
        } else {
            old.active()
        })
    }
}

/// `new` is `old` with its most recently closed tab reopened at the end
/// and made active.
pub open spec fn tab_reopened(old: ExplorerApp, new: ExplorerApp) -> bool {
    &&& tab_opened(old, new, old.closed().last())
    &&& new.closed() == old.closed().drop_last()
    &&& new.prefs() == old.prefs()
    &&& new.settings_open() == old.settings_open()
    &&& new.applied_style() == old.applied_style()
}

/// Saving a session and opening it again, with restoring on, brings back
/// the same tabs in the same order, the same active tab, the same closed
/// tabs and the same settings.
pub proof fn lemma_session_restores(
    app: ExplorerApp,
    saved: AppState,
    start: Seq<char>,
    reopened: ExplorerApp,
)
    requires
        app.wf(),
        app.prefs().restore_tabs_on_startup,
        saved_as(app, saved),
        opened_from(saved, start, reopened),
    ensures
        reopened.paths() == app.paths(),
        reopened.active() == app.active(),
        reopened.closed() == app.closed(),
        reopened.prefs() == app.prefs(),
{
    assert(saved.tabs.deep_view().len() == saved.tabs@.len());
    assert(app.paths().len() == app.tab_seq().len());
}

/// Reopening right after closing a tab (not the last one) brings its path
/// back as the active tab, at the end, and forgets it as closed again.
pub proof fn lemma_reopen_after_close(
    a: ExplorerApp,
    b: ExplorerApp,
    c: ExplorerApp,
    idx: int,
    start: Seq<char>,
)
    requires
        a.wf(),
        0 <= idx < a.tab_seq().len(),
        a.tab_seq().len() > 1,
        tab_closed(a, b, idx, start),
        tab_reopened(b, c),
    ensures
        c.paths() == a.paths().remove(idx).push(a.paths()[idx]),
        c.active_view().current_path@ == a.paths()[idx],
        c.active() == a.tab_seq().len() - 1,
        c.closed() == a.closed(),
        c.prefs() == a.prefs(),
{
    let n = b.tab_seq().len();
    assert(c.tab_seq() =~= b.tab_seq().push(c.tab_seq()[n as int]));
    assert(b.paths() =~= a.paths().remove(idx));
    assert(c.paths() =~= b.paths().push(c.tab_seq()[n as int].current_path@));
    assert(c.closed() =~= a.closed());
}

/// Reopening again steps further back: two reopens bring back the two most
/// recently closed tabs, the latest first.
pub proof fn lemma_reopen_steps_back(a: ExplorerApp, b: ExplorerApp, c: ExplorerApp)
    requires
        a.wf(),
        a.closed().len() >= 2,
        tab_reopened(a, b),
        tab_reopened(b, c),
    ensures
        b.active_view().current_path@ == a.closed()[a.closed().len() - 1],
        c.active_view().current_path@ == a.closed()[a.closed().len() - 2],
        c.closed() == a.closed().take(a.closed().len() - 2),
        c.tab_seq().len() == a.tab_seq().len() + 2,
{
    assert(c.closed() =~= a.closed().take(a.closed().len() - 2));
}

/// Where `move_tab` puts the moved tab: just before the tab it was dropped
/// on.
pub open spec fn insert_position(from: int, to: int) -> int {
    if from < to {
        to - 1
    } else {
        to
    }
}

/// Where the active tab ends up when the tab at `from` is moved before the
/// tab at `to`: with its tab.
pub open spec fn moved_index(a: int, from: int, to: int) -> int {
    let k = insert_position(from, to);
    if a == from {
        k
    } else {
        let a1 = if a > from {
            a - 1
        } else {
            a
        };
        if a1 >= k {
            a1 + 1
        } else {
            a1
        }
    }
}

proof fn lemma_move_keeps(o: Seq<Tab>, from: int, to: int, a: int)
    requires
        0 <= from < o.len(),
        0 <= to < o.len(),
        from != to,
        0 <= a < o.len(),
    ensures
        0 <= moved_index(a, from, to) < o.len(),
        o.remove(from).insert(insert_position(from, to), o[from])[moved_index(a, from, to)]
            == o[a],
{
    let r = o.remove(from);
    let k = insert_position(from, to);
    let n = r.insert(k, o[from]);
    if a != from {
        let a1 = if a > from {
            a - 1
        } else {
            a
        };
        assert(r[a1] == o[a]);
        assert(n[moved_index(a, from, to)] == r[a1]);
    }
}

/// Dragging a tab onto another puts it just before that tab: dragged to
/// the right, it lands at the target's old place less one, with the target
/// right after it; dragged to the left, it takes the target's place and
/// the target moves one to the right. The number of tabs stays the same.
pub proof fn lemma_move_lands_before_target(
    old: ExplorerApp,
    new: ExplorerApp,
    from: usize,
    to: usize,
)
    requires
        old.wf(),
        handled(old, new, Request::MoveTab(from, to), Effect::Nothing),
        from != to,
        from < old.tab_seq().len(),
        to < old.tab_seq().len(),
    ensures
        new.tab_seq().len() == old.tab_seq().len(),
        from < to ==> new.tab_seq()[to - 1] == old.tab_seq()[from as int] && new.tab_seq()[to as int]
            == old.tab_seq()[to as int],
        to < from ==> new.tab_seq()[to as int] == old.tab_seq()[from as int] && new.tab_seq()[to
            + 1] == old.tab_seq()[to as int],
        new.active_view() == old.active_view(),
{
}

/// Closing a tab other than the last one, while more than one is open:
/// the active index stays where it was unless it was past the closed tab,
/// so closing the active tab makes the tab that slid into its place
/// active; closing a tab before the active one keeps the same tab active.
pub proof fn lemma_close_keeps_place(old: ExplorerApp, new: ExplorerApp, idx: int, start: Seq<char>)
    requires
        old.wf(),
        0 <= idx < old.tab_seq().len(),
        old.tab_seq().len() > 1,
        tab_closed(old, new, idx, start),
    ensures
        new.tab_seq().len() == old.tab_seq().len() - 1,
        idx == old.active() && idx < old.tab_seq().len() - 1 ==> new.active() == old.active()
            && new.active_view() == old.tab_seq()[idx + 1],
        idx == old.active() && idx == old.tab_seq().len() - 1 ==> new.active() == idx - 1
            && new.active_view() == old.tab_seq()[idx - 1],
        idx != old.active() ==> new.active_view() == old.active_view(),
        idx > old.active() ==> new.active() == old.active(),
        idx < old.active() ==> new.active() == old.active() - 1,
{
}

/// Copies a list of strings.
fn copy_strings(v: &Vec<String>) -> (r: Vec<String>)
    ensures
        r.deep_view() == v.deep_view(),
{
    let mut r: Vec<String> = Vec::new();
    let mut i: usize = 0;
    while i < v.len()
        invariant
            i <= v.len(),
            r@.len() == i,
            forall|k: int| 0 <= k < i ==> (#[trigger] r@[k])@ == v@[k]@,
        decreases v.len() - i,
    {
        r.push(v[i].clone());
        i = i + 1;
    }
    proof {
        assert(r.deep_view() =~= v.deep_view());
    }
    r
}

/// `new` is `old` with only the active tab changed; `effect` lists that tab
/// again where it moved, and asks nothing otherwise; the change is to be
/// saved.
pub open spec fn active_moved(old: ExplorerApp, new: ExplorerApp, effect: Effect) -> bool {
    &&& ExplorerApp::only_active_changed(&old, &new, new.active_view())
    &&& effect is Reload ==> effect == Effect::Reload(old.active() as usize)
    &&& !(effect is Reload) ==> effect is Nothing
    &&& new.is_dirty()
}

/// What a request from the listing does: navigating moves the active tab,
/// opening in a new tab adds one, and the rest leave the state alone and
/// hand the outside work to the caller.
pub open spec fn entry_handled(
    old: ExplorerApp,
    new: ExplorerApp,
    action: EntryAction,
    effect: Effect,
) -> bool {
    match action {
        EntryAction::Navigate(p) => {
            &&& active_moved(old, new, effect)
            &&& navigated(old.active_view(), new.active_view(), p@, effect is Reload)
        },
        EntryAction::OpenInNewTab(p) => {
            &&& tab_opened(old, new, p@)
            &&& new.same_frame(&old)
            &&& effect == Effect::Reload(new.active() as usize)
        },
        EntryAction::Open(p) => new == old && effect == Effect::OpenFile(p),
        EntryAction::CopyPath(p) => new == old && effect == Effect::CopyText(p),
        EntryAction::Reveal(p) => {
            &&& new == old
            &&& effect matches Effect::RevealInFileManager(a)
            &&& a@ == reveal_argument(p@)
        },
        EntryAction::Delete(p) => new == old && effect == Effect::TrashThenReload(p),
    }
}

impl ExplorerApp {
    /// Opens a session saved as `state`, or a single tab at `start` (the
    /// folder a new session starts in, see `default_start_path`) when it
    /// does not restore tabs. The tabs it opens list nothing until each is
    /// refreshed.
    #[verifier::spinoff_prover]
    pub fn new(state: AppState, start: String) -> (app: Self)
        ensures
            opened_from(state, start@, app),
    {
        let AppState { settings, tabs: paths, active_tab, closed_tabs } = state;
        let mut tabs: Vec<Tab> = Vec::new();
        if settings.restore_tabs_on_startup && paths.len() > 0 {
            let mut i: usize = 0;
            while i < paths.len()
                invariant
                    i <= paths.len(),
                    tabs.len() == i,
                    forall|k: int|
                        0 <= k < i ==> fresh_tab(#[trigger] tabs@[k], paths.deep_view()[k]),
                decreases paths.len() - i,
            {
                tabs.push(Tab::new(paths[i].clone()));
                i = i + 1;
            }
        }
        if tabs.len() == 0 {
            tabs.push(Tab::new(start));
        }
        let last = tabs.len() - 1;
        let active = if active_tab < last {
            active_tab
        } else {
            last
        };
        let app = ExplorerApp {
            tabs,
            active_tab: active,
            closed_tabs,
            settings,
            show_settings: false,
            dirty: false,
            applied_galaxy: None,
        };
        proof {
            if settings.restore_tabs_on_startup && paths.len() > 0 {
                assert(app.paths() =~= paths.deep_view());
            } else {
                assert(app.paths() =~= seq![start@]);
            }
        }
        app
    }

    /// What is saved of this session.
    pub fn session(&self) -> (s: AppState)
        requires
            self.wf(),
        ensures
            saved_as(*self, s),
    {
        let mut tabs: Vec<String> = Vec::new();
        let mut i: usize = 0;
        while i < self.tabs.len()
            invariant
                i <= self.tabs.len(),
                tabs@.len() == i,
                forall|k: int| 0 <= k < i ==> (#[trigger] tabs@[k])@ == self.tabs@[k].current_path@,
            decreases self.tabs.len() - i,
        {
            tabs.push(self.tabs[i].current_path.clone());
            i = i + 1;
        }
        proof {
            assert(tabs.deep_view() =~= self.paths());
        }
        AppState {
            settings: self.settings,
            tabs,
            active_tab: self.active_tab,
            closed_tabs: copy_strings(&self.closed_tabs),
        }
    }

    /// Opens `path` in a new tab at the end and makes it active. Returns the
    /// new tab's index; it lists nothing until refreshed.
    pub fn open_new_tab(&mut self, path: String) -> (i: usize)
        requires
            old(self).wf(),
        ensures
            tab_opened(*old(self), *final(self), path@),
            final(self).same_frame(&*old(self)),
            i == final(self).active(),
    {
        let ghost p = path@;
        self.tabs.push(Tab::new(path));
        self.active_tab = self.tabs.len() - 1;
        self.dirty = true;
        proof {
            assert(self.tabs@.take(old(self).tabs@.len() as int) =~= old(self).tabs@);
        }
        self.active_tab
    }

    /// Closes tab `idx`, remembering its path for reopening; the last tab is
    /// replaced by a fresh one at `start` (see `default_start_path`).
    /// Returns the index of a tab to refresh: that fresh tab.
    #[verifier::spinoff_prover]
    pub fn close_tab(&mut self, idx: usize, start: String) -> (reload: Option<usize>)
        requires
            old(self).wf(),
            idx < old(self).tab_seq().len(),
        ensures
            tab_closed(*old(self), *final(self), idx as int, start@),
            reload == (if old(self).tab_seq().len() == 1 {
                Some(idx)
            } else {
                None::<usize>
            }),
            old(self).tab_seq().len() > 1 && idx != old(self).active() ==> final(self).active_view() == old(self).active_view(),
    {
        if self.tabs.len() == 1 {
            let path = self.tabs[idx].current_path.clone();
            self.closed_tabs.push(path);
            self.tabs.set(idx, Tab::new(start));
            self.dirty = true;
            proof {
                assert(self.closed_tabs.deep_view() =~= old(self).closed().push(
                    old(self).paths()[idx as int],
                ));
            }
            return Some(idx);
        }
        let tab = self.tabs.remove(idx);
        self.closed_tabs.push(tab.current_path);
        if self.active_tab >= self.tabs.len() {
            self.active_tab = self.tabs.len() - 1;
        } else if self.active_tab > idx {
            self.active_tab = self.active_tab - 1;
        }
        self.dirty = true;
        proof {
            assert(self.closed_tabs.deep_view() =~= old(self).closed().push(
                old(self).paths()[idx as int],
            ));
        }
        None
    }

    /// Reopens the most recently closed tab, if any, as a new active tab.
    /// Returns the index of the tab to refresh.
    #[verifier::spinoff_prover]
    pub fn reopen_closed_tab(&mut self) -> (reload: Option<usize>)
        requires
            old(self).wf(),
        ensures
            final(self).wf(),
            old(self).closed().len() == 0 ==> reload is None && *final(self) == *old(self),
            old(self).closed().len() > 0 ==> {
                &&& tab_reopened(*old(self), *final(self))
                &&& reload == Some(final(self).active() as usize)
            },
    {
        if self.closed_tabs.len() == 0 {
            return None;
        }
        match self.closed_tabs.pop() {
            Some(path) => {
                proof {
                    assert(self.closed_tabs.deep_view() =~= old(self).closed().drop_last());
                }
                Some(self.open_new_tab(path))
            },
            None => None,
        }
    }

    /// Moves the tab at `from` so it lands at the position of the tab `to`
    /// (just before it), keeping the active tab pointed at the same tab it
    /// was before. Indices out of range, or equal, change nothing.
    #[verifier::spinoff_prover]
    pub fn move_tab(&mut self, from: usize, to: usize)
        requires
            old(self).wf(),
        ensures
            final(self).wf(),
            final(self).same_frame(&*old(self)),
            (from == to || from >= old(self).tab_seq().len() || to >= old(self).tab_seq().len())
                ==> *final(self) == *old(self),
            !(from == to || from >= old(self).tab_seq().len() || to >= old(self).tab_seq().len()) ==> {
                &&& final(self).tab_seq() == old(self).tab_seq().remove(from as int).insert(
                    insert_position(from as int, to as int),
                    old(self).tab_seq()[from as int],
                )
                &&& final(self).active() == moved_index(old(self).active(), from as int, to as int)
                &&& final(self).active_view() == old(self).active_view()
                &&& final(self).is_dirty()
            },
    {
        if from == to || from >= self.tabs.len() || to >= self.tabs.len() {
            return;
        }
        let active_is_from = self.active_tab == from;
        let tab = self.tabs.remove(from);
        let insert_at = if from < to {
            to - 1
        } else {
            to
        };
        let mut active = self.active_tab;
        if !active_is_from {
            if active > from {
                active = active - 1;
            }
            if active >= insert_at {
                active = active + 1;
            }
        }
        proof {
            lemma_move_keeps(old(self).tabs@, from as int, to as int, old(self).active_tab as int);
        }
        self.tabs.insert(insert_at, tab);
        self.active_tab = if active_is_from {
            insert_at
        } else {
            active
        };
        self.dirty = true;
    }

    /// Makes tab `i` the active one.
    pub fn select_tab(&mut self, i: usize)
        requires
            old(self).wf(),
            i < old(self).tab_seq().len(),
        ensures
            final(self).wf(),
            final(self).same_frame(&*old(self)),
            final(self).tab_seq() == old(self).tab_seq(),
            final(self).active() == i,
            final(self).is_dirty() == old(self).is_dirty(),
    {
        self.active_tab = i;
    }
}

impl ExplorerApp {
    /// The open tabs.
    pub fn tabs(&self) -> (r: &Vec<Tab>)
        ensures
            r@ == self.tab_seq(),
    {
        &self.tabs
    }

    /// The index of the active tab.
    pub fn active_tab(&self) -> (r: usize)
        ensures
            r == self.active(),
    {
        self.active_tab
    }

    /// The active tab.
    pub fn current(&self) -> (r: &Tab)
        requires
            self.wf(),
        ensures
            *r == self.active_view(),
    {
        &self.tabs[self.active_tab]
    }

    /// Paths of closed tabs, the most recently closed last.
    pub fn closed_tabs(&self) -> (r: &Vec<String>)
        ensures
            r.deep_view() == self.closed(),
    {
        &self.closed_tabs
    }

    /// The user's settings.
    pub fn settings(&self) -> (r: Settings)
        ensures
            r == self.prefs(),
    {
        self.settings
    }

    /// Whether the settings window is shown.
    pub fn show_settings(&self) -> (r: bool)
        ensures
            r == self.settings_open(),
    {
        self.show_settings
    }

    /// Takes in the listing of tab `i`'s current path.
    pub fn refresh_tab(&mut self, i: usize, listing: Option<Vec<FsEntry>>)
        requires
            old(self).wf(),
            i < old(self).tab_seq().len(),
        ensures
            final(self).wf(),
            final(self).same_frame(&*old(self)),
            final(self).active() == old(self).active(),
            final(self).is_dirty() == old(self).is_dirty(),
            final(self).tab_seq().len() == old(self).tab_seq().len(),
            refreshed(old(self).tab_seq()[i as int], final(self).tab_seq()[i as int], listing),
            forall|j: int|
                0 <= j < old(self).tab_seq().len() && j != i ==> #[trigger] final(self).tab_seq()[j] == old(self).tab_seq()[j],
    {
        let mut t = Tab::new(String::new());
        self.tabs.set_and_swap(i, &mut t);
        t.refresh(listing);
        let ghost nt = t;
        self.tabs.set_and_swap(i, &mut t);
        proof {
            assert(self.tabs@ =~= old(self).tabs@.update(i as int, nt));
        }
    }

    /// Sends the active tab to `path`. Returns the tab to refresh if it
    /// moved.
    pub fn navigate_active(&mut self, path: String) -> (reload: Option<usize>)
        requires
            old(self).wf(),
        ensures
            final(self).wf(),
            Self::only_active_changed(&*old(self), &*final(self), final(self).active_view()),
            navigated(old(self).active_view(), final(self).active_view(), path@, reload is Some),
            reload is Some ==> reload == Some(old(self).active() as usize),
            final(self).is_dirty(),
    {
        let i = self.active_tab;
        let mut t = Tab::new(String::new());
        self.tabs.set_and_swap(i, &mut t);
        let moved = t.navigate_to(path);
        let ghost nt = t;
        self.tabs.set_and_swap(i, &mut t);
        proof {
            assert(self.tabs@ =~= old(self).tabs@.update(i as int, nt));
        }
        self.dirty = true;
        if moved {
            Some(i)
        } else {
            None
        }
    }

    /// Steps the active tab back. Returns the tab to refresh if it moved.
    pub fn go_back_active(&mut self) -> (reload: Option<usize>)
        requires
            old(self).wf(),
        ensures
            final(self).wf(),
            Self::only_active_changed(&*old(self), &*final(self), final(self).active_view()),
            stepped_back(old(self).active_view(), final(self).active_view(), reload is Some),
            reload is Some ==> reload == Some(old(self).active() as usize),
            final(self).is_dirty(),
    {
        let i = self.active_tab;
        let mut t = Tab::new(String::new());
        self.tabs.set_and_swap(i, &mut t);
        let moved = t.go_back();
        let ghost nt = t;
        self.tabs.set_and_swap(i, &mut t);
        proof {
            assert(self.tabs@ =~= old(self).tabs@.update(i as int, nt));
        }
        self.dirty = true;
        if moved {
            Some(i)
        } else {
            None
        }
    }

    /// Steps the active tab forward. Returns the tab to refresh if it moved.
    pub fn go_forward_active(&mut self) -> (reload: Option<usize>)
        requires
            old(self).wf(),
        ensures
            final(self).wf(),
            Self::only_active_changed(&*old(self), &*final(self), final(self).active_view()),
            stepped_forward(old(self).active_view(), final(self).active_view(), reload is Some),
            reload is Some ==> reload == Some(old(self).active() as usize),
            final(self).is_dirty(),
    {
        let i = self.active_tab;
        let mut t = Tab::new(String::new());
        self.tabs.set_and_swap(i, &mut t);
        let moved = t.go_forward();
        let ghost nt = t;
        self.tabs.set_and_swap(i, &mut t);
        proof {
            assert(self.tabs@ =~= old(self).tabs@.update(i as int, nt));
        }
        self.dirty = true;
        if moved {
            Some(i)
        } else {
            None
        }
    }

    /// Sends the active tab to its parent folder. Returns the tab to refresh
    /// if it moved.
    pub fn go_up_active(&mut self) -> (reload: Option<usize>)
        requires
            old(self).wf(),
        ensures
            final(self).wf(),
            Self::only_active_changed(&*old(self), &*final(self), final(self).active_view()),
            went_up(old(self).active_view(), final(self).active_view(), reload is Some),
            reload is Some ==> reload == Some(old(self).active() as usize),
            final(self).is_dirty(),
    {
        let i = self.active_tab;
        let mut t = Tab::new(String::new());
        self.tabs.set_and_swap(i, &mut t);
        let moved = t.go_up();
        let ghost nt = t;
        self.tabs.set_and_swap(i, &mut t);
        proof {
            assert(self.tabs@ =~= old(self).tabs@.update(i as int, nt));
        }
        self.dirty = true;
        if moved {
            Some(i)
        } else {
            None
        }
    }

    /// Sends the active tab to what the address bar holds.
    pub fn submit_address(&mut self) -> (reload: Option<usize>)
        requires
            old(self).wf(),
        ensures
            final(self).wf(),
            Self::only_active_changed(&*old(self), &*final(self), final(self).active_view()),
            navigated(
                old(self).active_view(),
                final(self).active_view(),
                old(self).active_view().address_text@,
                reload is Some,
            ),
            reload is Some ==> reload == Some(old(self).active() as usize),
            final(self).is_dirty(),
    {
        let target = self.tabs[self.active_tab].address_text.clone();
        self.navigate_active(target)
    }

    /// Sets the active tab's search text.
    pub fn set_filter(&mut self, text: String)
        requires
            old(self).wf(),
        ensures
            final(self).wf(),
            Self::only_active_changed(&*old(self), &*final(self), final(self).active_view()),
            final(self).active_view() == (Tab { filter: text, ..old(self).active_view() }),
            final(self).is_dirty() == old(self).is_dirty(),
    {
        let i = self.active_tab;
        let mut t = Tab::new(String::new());
        self.tabs.set_and_swap(i, &mut t);
        t.filter = text;
        let ghost nt = t;
        self.tabs.set_and_swap(i, &mut t);
        proof {
            assert(self.tabs@ =~= old(self).tabs@.update(i as int, nt));
        }
    }

    /// Sets the active tab's address bar text.
    pub fn set_address_text(&mut self, text: String)
        requires
            old(self).wf(),
        ensures
            final(self).wf(),
            Self::only_active_changed(&*old(self), &*final(self), final(self).active_view()),
            final(self).active_view() == (Tab { address_text: text, ..old(self).active_view() }),
            final(self).is_dirty() == old(self).is_dirty(),
    {
        let i = self.active_tab;
        let mut t = Tab::new(String::new());
        self.tabs.set_and_swap(i, &mut t);
        t.address_text = text;
        let ghost nt = t;
        self.tabs.set_and_swap(i, &mut t);
        proof {
            assert(self.tabs@ =~= old(self).tabs@.update(i as int, nt));
        }
    }

    /// Marks `path` as the selected entry of the active tab.
    pub fn select_entry(&mut self, path: String)
        requires
            old(self).wf(),
        ensures
            final(self).wf(),
            Self::only_active_changed(&*old(self), &*final(self), final(self).active_view()),
            final(self).active_view() == (Tab { selected: Some(path), ..old(self).active_view() }),
            final(self).is_dirty() == old(self).is_dirty(),
    {
        let i = self.active_tab;
        let mut t = Tab::new(String::new());
        self.tabs.set_and_swap(i, &mut t);
        t.selected = Some(path);
        let ghost nt = t;
        self.tabs.set_and_swap(i, &mut t);
        proof {
            assert(self.tabs@ =~= old(self).tabs@.update(i as int, nt));
        }
    }

    /// Opens the active tab's current path in a new tab.
    pub fn open_tab_here(&mut self) -> (i: usize)
        requires
            old(self).wf(),
        ensures
            tab_opened(*old(self), *final(self), old(self).active_view().current_path@),
            final(self).same_frame(&*old(self)),
            i == final(self).active(),
    {
        let path = self.tabs[self.active_tab].current_path.clone();
        self.open_new_tab(path)
    }

    /// Carries out a sidebar click. Returns the tab to refresh, if any.
    #[verifier::spinoff_prover]
    pub fn sidebar_action(&mut self, action: Action) -> (reload: Option<usize>)
        requires
            old(self).wf(),
        ensures
            final(self).wf(),
            match action {
                Action::Navigate(p) => {
                    &&& Self::only_active_changed(
                        &*old(self),
                        &*final(self),
                        final(self).active_view(),
                    )
                    &&& navigated(
                        old(self).active_view(),
                        final(self).active_view(),
                        p@,
                        reload is Some,
                    )
                    &&& reload is Some ==> reload == Some(old(self).active() as usize)
                    &&& final(self).is_dirty()
                },
                Action::OpenInNewTab(p) => {
                    &&& tab_opened(*old(self), *final(self), p@)
                    &&& final(self).same_frame(&*old(self))
                    &&& reload == Some(final(self).active() as usize)
                },
            },
    {
        match action {
            Action::Navigate(p) => self.navigate_active(p),
            Action::OpenInNewTab(p) => Some(self.open_new_tab(p)),
        }
    }

    /// Carries out a request from the listing. Navigating and opening a new
    /// tab change the tabs; the rest are outside work for the caller.
    #[verifier::spinoff_prover]
    pub fn handle_entry_action(&mut self, action: EntryAction) -> (effect: Effect)
        requires
            old(self).wf(),
        ensures
            final(self).wf(),
            entry_handled(*old(self), *final(self), action, effect),
    {
        match action {
            EntryAction::Navigate(p) => match self.navigate_active(p) {
                Some(i) => Effect::Reload(i),
                None => Effect::Nothing,
            },
            EntryAction::Open(p) => Effect::OpenFile(p),
            EntryAction::OpenInNewTab(p) => Effect::Reload(self.open_new_tab(p)),
            EntryAction::CopyPath(p) => Effect::CopyText(p),
            EntryAction::Reveal(p) => {
                let mut a = "/select,".to_string();
                proof {
                    vstd::string::to_string_from_display_ensures_for_str("/select,", a);
                }
                a.append(p.as_str());
                Effect::RevealInFileManager(a)
            },
            EntryAction::Delete(p) => Effect::TrashThenReload(p),
        }
    }

    /// Shows or hides the settings window.
    pub fn set_show_settings(&mut self, show: bool)
        requires
            old(self).wf(),
        ensures
            final(self).wf(),
            final(self).settings_open() == show,
            final(self).tab_seq() == old(self).tab_seq(),
            final(self).active() == old(self).active(),
            final(self).closed() == old(self).closed(),
            final(self).prefs() == old(self).prefs(),
            final(self).applied_style() == old(self).applied_style(),
            final(self).is_dirty() == old(self).is_dirty(),
    {
        self.show_settings = show;
    }

    /// Changes the settings; a change is a change to save.
    pub fn set_settings(&mut self, settings: Settings)
        requires
            old(self).wf(),
        ensures
            final(self).wf(),
            final(self).prefs() == settings,
            final(self).tab_seq() == old(self).tab_seq(),
            final(self).active() == old(self).active(),
            final(self).closed() == old(self).closed(),
            final(self).settings_open() == old(self).settings_open(),
            final(self).applied_style() == old(self).applied_style(),
            final(self).is_dirty() == (old(self).is_dirty() || settings != old(self).prefs()),
    {
        if settings != self.settings {
            self.settings = settings;
            self.dirty = true;
        }
    }

    /// The style to apply now, if the galaxy setting differs from what was
    /// applied last (or nothing was applied yet); it then counts as applied.
    pub fn pending_style(&mut self) -> (r: Option<bool>)
        requires
            old(self).wf(),
        ensures
            final(self).wf(),
            r == (if old(self).applied_style() == Some(old(self).prefs().galaxy_mode) {
                None::<bool>
            } else {
                Some(old(self).prefs().galaxy_mode)
            }),
            final(self).applied_style() == Some(old(self).prefs().galaxy_mode),
            final(self).tab_seq() == old(self).tab_seq(),
            final(self).active() == old(self).active(),
            final(self).closed() == old(self).closed(),
            final(self).prefs() == old(self).prefs(),
            final(self).settings_open() == old(self).settings_open(),
            final(self).is_dirty() == old(self).is_dirty(),
    {
        let want = Some(self.settings.galaxy_mode);
        let same = match self.applied_galaxy {
            Some(g) => g == self.settings.galaxy_mode,
            None => false,
        };
        if same {
            None
        } else {
            self.applied_galaxy = want;
            want
        }
    }

    /// The session to save, where there are unsaved changes; they then
    /// count as saved.
    pub fn take_save(&mut self) -> (r: Option<AppState>)
        requires
            old(self).wf(),
        ensures
            final(self).wf(),
            !final(self).is_dirty(),
            old(self).is_dirty() ==> (r matches Some(s) && saved_as(*old(self), s)),
            !old(self).is_dirty() ==> r is None,
            final(self).tab_seq() == old(self).tab_seq(),
            final(self).active() == old(self).active(),
            final(self).same_frame(&*old(self)),
    {
        if self.dirty {
            self.dirty = false;
            Some(self.session())
        } else {
            None
        }
    }
}

/// One thing the user (or the file system) asks of the explorer during a
/// frame.
pub enum Request {
    /// Bring back the most recently closed tab.
    ReopenClosedTab,
    /// Open the active tab's folder in a new tab.
    OpenTabHere,
    /// Drag the tab at the first index onto the tab at the second.
    MoveTab(usize, usize),
    /// Make this tab the active one.
    SelectTab(usize),
    /// Close this tab; the folder is where a replacement for the last tab
    /// opens.
    CloseTab(usize, String),
    /// Show or hide the settings window.
    ShowSettings(bool),
    /// Take these settings.
    ChangeSettings(Settings),
    /// Step the active tab back.
    Back,
    /// Step the active tab forward.
    Forward,
    /// Send the active tab to its parent folder.
    Up,
    /// Send the active tab to this path.
    Navigate(String),
    /// Send the active tab to what its address bar holds.
    SubmitAddress,
    /// Set the active tab's search text.
    SetFilter(String),
    /// Set the active tab's address bar text.
    SetAddressText(String),
    /// Mark this path as the selected entry of the active tab.
    SelectEntry(String),
    /// A click in the sidebar.
    Sidebar(Action),
    /// A request from the listing.
    Entry(EntryAction),
    /// The listing of this tab's current path, read from disk (`None` where
    /// the path does not exist).
    Listing(usize, Option<Vec<FsEntry>>),
}

impl ExplorerApp {
    /// `req` names only tabs that exist.
    pub open spec fn accepts(&self, req: Request) -> bool {
        match req {
            Request::SelectTab(i) => i < self.tab_seq().len(),
            Request::CloseTab(i, _) => i < self.tab_seq().len(),
            Request::Listing(i, _) => i < self.tab_seq().len(),
            _ => true,
        }
    }
}

/// What `req` does to `old`, giving `new` and leaving `effect` to the
/// caller: the contract of the method that carries it out.
pub open spec fn handled(old: ExplorerApp, new: ExplorerApp, req: Request, effect: Effect) -> bool {
    match req {
        Request::ReopenClosedTab => if old.closed().len() == 0 {
            new == old && effect is Nothing
        } else {
            tab_reopened(old, new) && effect == Effect::Reload(new.active() as usize)
        },
        Request::OpenTabHere => {
            &&& tab_opened(old, new, old.active_view().current_path@)
            &&& new.same_frame(&old)
            &&& effect == Effect::Reload(new.active() as usize)
        },
        Request::MoveTab(from, to) => {
            let n = old.tab_seq().len();
            &&& effect is Nothing
            &&& new.same_frame(&old)
            &&& (from == to || from >= n || to >= n) ==> new == old
            &&& !(from == to || from >= n || to >= n) ==> {
                &&& new.tab_seq() == old.tab_seq().remove(from as int).insert(
                    insert_position(from as int, to as int),
                    old.tab_seq()[from as int],
                )
                &&& new.active() == moved_index(old.active(), from as int, to as int)
                &&& new.active_view() == old.active_view()
                &&& new.is_dirty()
            }
        },
        Request::SelectTab(i) => {
            &&& effect is Nothing
            &&& new.same_frame(&old)
            &&& new.tab_seq() == old.tab_seq()
            &&& new.active() == i
            &&& new.is_dirty() == old.is_dirty()
        },
        Request::CloseTab(i, start) => {
            &&& tab_closed(old, new, i as int, start@)
            &&& effect == (if old.tab_seq().len() == 1 {
                Effect::Reload(i)
            } else {
                Effect::Nothing
            })
        },
        Request::ShowSettings(show) => {
            &&& effect is Nothing
            &&& new.settings_open() == show
            &&& new.tab_seq() == old.tab_seq()
            &&& new.active() == old.active()
            &&& new.closed() == old.closed()
            &&& new.prefs() == old.prefs()
            &&& new.applied_style() == old.applied_style()
            &&& new.is_dirty() == old.is_dirty()
        },
        Request::ChangeSettings(settings) => {
            &&& effect is Nothing
            &&& new.prefs() == settings
            &&& new.tab_seq() == old.tab_seq()
            &&& new.active() == old.active()
            &&& new.closed() == old.closed()
            &&& new.settings_open() == old.settings_open()
            &&& new.applied_style() == old.applied_style()
            &&& new.is_dirty() == (old.is_dirty() || settings != old.prefs())
        },
        Request::Back => active_moved(old, new, effect) && stepped_back(
            old.active_view(),
            new.active_view(),
            effect is Reload,
        ),
        Request::Forward => active_moved(old, new, effect) && stepped_forward(
            old.active_view(),
            new.active_view(),
            effect is Reload,
        ),
        Request::Up => active_moved(old, new, effect) && went_up(
            old.active_view(),
            new.active_view(),
            effect is Reload,
        ),
        Request::Navigate(p) => active_moved(old, new, effect) && navigated(
            old.active_view(),
            new.active_view(),
            p@,
            effect is Reload,
        ),
        Request::SubmitAddress => active_moved(old, new, effect) && navigated(
            old.active_view(),
            new.active_view(),
            old.active_view().address_text@,
            effect is Reload,
        ),
        Request::SetFilter(text) => {
            &&& effect is Nothing
            &&& ExplorerApp::only_active_changed(&old, &new, new.active_view())
            &&& new.active_view() == (Tab { filter: text, ..old.active_view() })
            &&& new.is_dirty() == old.is_dirty()
        },
        Request::SetAddressText(text) => {
            &&& effect is Nothing
            &&& ExplorerApp::only_active_changed(&old, &new, new.active_view())
            &&& new.active_view() == (Tab { address_text: text, ..old.active_view() })
            &&& new.is_dirty() == old.is_dirty()
        },
        Request::SelectEntry(path) => {
            &&& effect is Nothing
            &&& ExplorerApp::only_active_changed(&old, &new, new.active_view())
            &&& new.active_view() == (Tab { selected: Some(path), ..old.active_view() })
            &&& new.is_dirty() == old.is_dirty()
        },
        Request::Sidebar(action) => match action {
            Action::Navigate(p) => active_moved(old, new, effect) && navigated(
                old.active_view(),
                new.active_view(),
                p@,
                effect is Reload,
            ),
            Action::OpenInNewTab(p) => {
                &&& tab_opened(old, new, p@)
                &&& new.same_frame(&old)
                &&& effect == Effect::Reload(new.active() as usize)
            },
        },
        Request::Entry(action) => entry_handled(old, new, action, effect),
        Request::Listing(i, listing) => {
            &&& effect is Nothing
            &&& new.same_frame(&old)
            &&& new.active() == old.active()
            &&& new.is_dirty() == old.is_dirty()
            &&& new.tab_seq().len() == old.tab_seq().len()
            &&& refreshed(old.tab_seq()[i as int], new.tab_seq()[i as int], listing)
            &&& forall|j: int|
                0 <= j < old.tab_seq().len() && j != i ==> #[trigger] new.tab_seq()[j]
                    == old.tab_seq()[j]
        },
    }
}

/// The effect that asks to list tab `reload` again, or nothing.
fn reload_effect(reload: Option<usize>) -> (e: Effect)
    ensures
        match reload {
            Some(i) => e == Effect::Reload(i),
            None => e is Nothing,
        },
{
    match reload {
        Some(i) => Effect::Reload(i),
        None => Effect::Nothing,
    }
}

impl ExplorerApp {
    /// Carries out one request and returns the outside work it leaves.
    #[verifier::spinoff_prover]
    pub fn apply(&mut self, req: Request) -> (effect: Effect)
        requires
            old(self).wf(),
            old(self).accepts(req),
        ensures
            final(self).wf(),
            handled(*old(self), *final(self), req, effect),
    {
        let effect = match req {
            Request::ReopenClosedTab => reload_effect(self.reopen_closed_tab()),
            Request::OpenTabHere => Effect::Reload(self.open_tab_here()),
            Request::MoveTab(from, to) => {
                self.move_tab(from, to);
                Effect::Nothing
            },
            Request::SelectTab(i) => {
                self.select_tab(i);
                Effect::Nothing
            },
            Request::CloseTab(i, start) => reload_effect(self.close_tab(i, start)),
            Request::ShowSettings(show) => {
                self.set_show_settings(show);
                Effect::Nothing
            },
            Request::ChangeSettings(settings) => {
                self.set_settings(settings);
                Effect::Nothing
            },
            Request::Back => reload_effect(self.go_back_active()),
            Request::Forward => reload_effect(self.go_forward_active()),
            Request::Up => reload_effect(self.go_up_active()),
            Request::Navigate(p) => reload_effect(self.navigate_active(p)),
            Request::SubmitAddress => reload_effect(self.submit_address()),
            Request::SetFilter(text) => {
                self.set_filter(text);
                Effect::Nothing
            },
            Request::SetAddressText(text) => {
                self.set_address_text(text);
                Effect::Nothing
            },
            Request::SelectEntry(path) => {
                self.select_entry(path);
                Effect::Nothing
            },
            Request::Sidebar(action) => reload_effect(self.sidebar_action(action)),
            Request::Entry(action) => self.handle_entry_action(action),
            Request::Listing(i, listing) => {
                self.refresh_tab(i, listing);
                Effect::Nothing
            },
        };
        effect
    }
}

/// Every request that names only existing tabs keeps the explorer well
/// formed: at least one tab, and an active tab that exists.
pub proof fn lemma_request_keeps_wf(old: ExplorerApp, new: ExplorerApp, req: Request, effect: Effect)
    requires
        old.wf(),
        old.accepts(req),
        handled(old, new, req, effect),
    ensures
        new.wf(),
{
    match req {
        Request::MoveTab(from, to) => {
            let n = old.tab_seq().len();
            if !(from == to || from >= n || to >= n) {
                lemma_move_keeps(old.tab_seq(), from as int, to as int, old.active());
            }
        },
        _ => {},
    }
}

/// However many requests a frame (or a whole session) brings, one after
/// another, each naming only tabs that exist when it comes: every state
/// along the way keeps at least one tab and an active tab that exists.
pub proof fn lemma_requests_keep_wf(
    states: Seq<ExplorerApp>,
    reqs: Seq<Request>,
    effects: Seq<Effect>,
)
    requires
        states.len() == reqs.len() + 1,
        effects.len() == reqs.len(),
        states[0].wf(),
        forall|i: int| 0 <= i < reqs.len() ==> #[trigger] states[i].accepts(reqs[i]),
        forall|i: int|
            0 <= i < reqs.len() ==> #[trigger] handled(states[i], states[i + 1], reqs[i], effects[i]),
    ensures
        forall|i: int| 0 <= i < states.len() ==> #[trigger] states[i].wf(),
    decreases reqs.len(),
{
    if reqs.len() > 0 {
        let k = reqs.len() - 1;
        lemma_requests_keep_wf(states.drop_last(), reqs.drop_last(), effects.drop_last());
        assert(states.drop_last()[k] == states[k]);
        assert(states[k].accepts(reqs[k]));
        assert(handled(states[k], states[k + 1], reqs[k], effects[k]));
        lemma_request_keeps_wf(states[k], states[k + 1], reqs[k], effects[k]);
        assert forall|i: int| 0 <= i < states.len() implies #[trigger] states[i].wf() by {
            if i < states.len() - 1 {
                assert(states.drop_last()[i] == states[i]);
            }
        }
    }
}

/// The labels and paths of breadcrumb segments as characters.
pub open spec fn crumbs_view(v: Seq<(String, String)>) -> Seq<(Seq<char>, Seq<char>)> {
    v.map_values(|c: (String, String)| (c.0@, c.1@))
}

/// One step of building breadcrumbs from a path component: a drive prefix
/// starts over at that drive's root; the root separator counts only at the
/// start; a name extends the path built so far; `.` and `..` are skipped.
pub open spec fn crumb_step(
    st: (Seq<(Seq<char>, Seq<char>)>, Seq<char>),
    part: PartView,
    sep: Seq<char>,
) -> (Seq<(Seq<char>, Seq<char>)>, Seq<char>) {
    match part {
        PartView::Prefix(p) => {
            let root = p + seq!['\\'];
            (st.0.push((p, root)), root)
        },
        PartView::RootDir => {
            if st.0.len() == 0 {
                let a = joined(st.1, sep);
                (st.0.push((sep, a)), a)
            } else {
                st
            }
        },
        PartView::Normal(s) => {
            let a = joined(st.1, s);
            (st.0.push((s, a)), a)
        },
        _ => st,
    }
}

/// Breadcrumbs for a path's components, with the segments and the path
/// built so far.
pub open spec fn crumbs(parts: Seq<PartView>, sep: Seq<char>) -> (
    Seq<(Seq<char>, Seq<char>)>,
    Seq<char>,
)
    decreases parts.len(),
{
    if parts.len() == 0 {
        (Seq::empty(), Seq::empty())
    } else {
        crumb_step(crumbs(parts.drop_last(), sep), parts.last(), sep)
    }
}

/// Building breadcrumbs only ever adds segments: those made for the first
/// `j` components stay, in order, at the front of those made for all.
proof fn lemma_crumbs_grow(parts: Seq<PartView>, sep: Seq<char>, j: int)
    requires
        0 <= j <= parts.len(),
    ensures
        crumbs(parts.take(j), sep).0.len() <= crumbs(parts, sep).0.len(),
        forall|k: int|
            0 <= k < crumbs(parts.take(j), sep).0.len() ==> crumbs(parts, sep).0[k] == crumbs(
                parts.take(j),
                sep,
            ).0[k],
    decreases parts.len(),
{
    if j < parts.len() {
        lemma_crumbs_grow(parts.drop_last(), sep, j);
        assert(parts.drop_last().take(j) =~= parts.take(j));
    } else {
        assert(parts.take(j) =~= parts);
    }
}

/// A drive prefix `p` among a path's components gives a segment labelled
/// `p` that leads to the drive's root, `p` followed by `\`, not to the
/// drive's current folder.
pub proof fn lemma_drive_segment_leads_to_root(
    parts: Seq<PartView>,
    sep: Seq<char>,
    i: int,
    p: Seq<char>,
)
    requires
        0 <= i < parts.len(),
        parts[i] == PartView::Prefix(p),
    ensures
        crumbs(parts, sep).0.contains((p, p + seq!['\\'])),
{
    let t = parts.take(i + 1);
    assert(t.drop_last() =~= parts.take(i));
    assert(t.last() == parts[i]);
    let c = crumbs(t, sep).0;
    assert(c.last() == (p, p + seq!['\\']));
    lemma_crumbs_grow(parts, sep, i + 1);
    assert(crumbs(parts, sep).0[c.len() - 1] == (p, p + seq!['\\']));
}

/// A drive-rooted path `p\a\b` gives three segments: the drive, leading
/// to its root, then each folder, leading to the path joined so far from
/// that root. The root separator itself gives no segment of its own.
pub proof fn lemma_drive_path_crumbs(p: Seq<char>, a: Seq<char>, b: Seq<char>, sep: Seq<char>)
    ensures
        crumbs(
            seq![PartView::Prefix(p), PartView::RootDir, PartView::Normal(a), PartView::Normal(b)],
            sep,
        ).0 == seq![
            (p, p + seq!['\\']),
            (a, joined(p + seq!['\\'], a)),
            (b, joined(joined(p + seq!['\\'], a), b)),
        ],
{
    let parts = seq![
        PartView::Prefix(p),
        PartView::RootDir,
        PartView::Normal(a),
        PartView::Normal(b),
    ];
    assert(parts.drop_last() =~= seq![PartView::Prefix(p), PartView::RootDir, PartView::Normal(a)]);
    assert(parts.drop_last().drop_last() =~= seq![PartView::Prefix(p), PartView::RootDir]);
    assert(parts.drop_last().drop_last().drop_last() =~= seq![PartView::Prefix(p)]);
    assert(parts.drop_last().drop_last().drop_last().drop_last() =~= Seq::<PartView>::empty());
    reveal_with_fuel(crumbs, 5);
    assert(crumbs(parts, sep).0 =~= seq![
        (p, p + seq!['\\']),
        (a, joined(p + seq!['\\'], a)),
        (b, joined(joined(p + seq!['\\'], a), b)),
    ]);
}

/// A rooted path `/a/b` gives a segment for the root, labelled with the
/// separator and leading to the root, then one per folder, each leading to
/// the path joined so far.
pub proof fn lemma_rooted_path_crumbs(a: Seq<char>, b: Seq<char>, sep: Seq<char>)
    ensures
        crumbs(seq![PartView::RootDir, PartView::Normal(a), PartView::Normal(b)], sep).0 == seq![
            (sep, joined(Seq::empty(), sep)),
            (a, joined(joined(Seq::empty(), sep), a)),
            (b, joined(joined(joined(Seq::empty(), sep), a), b)),
        ],
{
    let parts = seq![PartView::RootDir, PartView::Normal(a), PartView::Normal(b)];
    assert(parts.drop_last() =~= seq![PartView::RootDir, PartView::Normal(a)]);
    assert(parts.drop_last().drop_last() =~= seq![PartView::RootDir]);
    assert(parts.drop_last().drop_last().drop_last() =~= Seq::<PartView>::empty());
    reveal_with_fuel(crumbs, 4);
    assert(crumbs(parts, sep).0 =~= seq![
        (sep, joined(Seq::empty(), sep)),
        (a, joined(joined(Seq::empty(), sep), a)),
        (b, joined(joined(joined(Seq::empty(), sep), a), b)),
    ]);
}

/// `.` and `..` components add no segment and change no path.
pub proof fn lemma_dots_add_nothing(parts: Seq<PartView>, sep: Seq<char>)
    ensures
        crumbs(parts.push(PartView::CurDir), sep) == crumbs(parts, sep),
        crumbs(parts.push(PartView::ParentDir), sep) == crumbs(parts, sep),
{
    assert(parts.push(PartView::CurDir).drop_last() =~= parts);
    assert(parts.push(PartView::ParentDir).drop_last() =~= parts);
}

/// Clickable breadcrumb segments `(label, path)` for the components of a
/// path, with `sep` as the root's label.
#[verifier::spinoff_prover]
pub fn breadcrumbs_from_parts(parts: &Vec<PathPart>, sep: &str) -> (r: Vec<(String, String)>)
    ensures
        crumbs_view(r@) == crumbs(parts_view(parts@), sep@).0,
        forall|i: int|
            0 <= i < parts@.len() && (#[trigger] parts_view(parts@)[i]) is Prefix
                ==> crumbs_view(r@).contains(
                (parts_view(parts@)[i]->Prefix_0, parts_view(parts@)[i]->Prefix_0 + seq!['\\']),
            ),
{
    let mut segs: Vec<(String, String)> = Vec::new();
    let mut acc = String::new();
    let mut i: usize = 0;
    while i < parts.len()
        invariant
            i <= parts.len(),
            (crumbs_view(segs@), acc@) == crumbs(parts_view(parts@).take(i as int), sep@),
        decreases parts.len() - i,
    {
        let ghost before = (crumbs_view(segs@), acc@);
        proof {
            let pv = parts_view(parts@);
            assert(pv.take(i + 1).drop_last() =~= pv.take(i as int));
            assert(pv.take(i + 1).last() == parts@[i as int]@);
        }
        let ghost step = crumb_step(before, parts@[i as int]@, sep@);
        match &parts[i] {
            PathPart::Prefix(p) => {
                let mut root = p.clone();
                root.append("\\");
                proof {
                    reveal_strlit("\\");
                    assert(root@ =~= p@ + seq!['\\']);
                }
                acc = root.clone();
                segs.push((p.clone(), root));
                proof {
                    assert(crumbs_view(segs@) =~= step.0);
                }
            },
            PathPart::RootDir => {
                if segs.len() == 0 {
                    acc = crate::path::join_path(acc.as_str(), sep);
                    let label = sep.to_string();
                    proof {
                        vstd::string::to_string_from_display_ensures_for_str(sep, label);
                    }
                    segs.push((label, acc.clone()));
                    proof {
                        assert(crumbs_view(segs@) =~= step.0);
                    }
                }
            },
            PathPart::Normal(n) => {
                acc = crate::path::join_path(acc.as_str(), n.as_str());
                segs.push((n.clone(), acc.clone()));
                proof {
                    assert(crumbs_view(segs@) =~= step.0);
                }
            },
            _ => {},
        }
        i = i + 1;
    }
    proof {
        assert(parts_view(parts@).take(parts.len() as int) =~= parts_view(parts@));
        assert forall|i: int|
            0 <= i < parts@.len() && (#[trigger] parts_view(parts@)[i]) is Prefix implies crumbs_view(
                segs@,
            ).contains(
                (parts_view(parts@)[i]->Prefix_0, parts_view(parts@)[i]->Prefix_0 + seq!['\\']),
            ) by {
            lemma_drive_segment_leads_to_root(
                parts_view(parts@),
                sep@,
                i,
                parts_view(parts@)[i]->Prefix_0,
            );
        }
    }
    segs
}

/// Clickable breadcrumb segments `(label, path)` for a path.
pub fn breadcrumb_segments(path: &str) -> (r: Vec<(String, String)>)
    ensures
        exists|sep: Seq<char>|
            (sep == seq!['/'] || sep == seq!['\\']) && crumbs_view(r@) == crumbs(
                crate::path::components(path@),
                sep,
            ).0,
{
    let parts = crate::path::components_of(path);
    let sep = crate::path::main_separator();
    breadcrumbs_from_parts(&parts, sep.as_str())
}

} // verus!
