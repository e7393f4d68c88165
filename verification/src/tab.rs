//! One browsing tab: where it is, where it has been, and what it lists.
use vstd::prelude::*;
use crate::fs_entry::FsEntry;
use crate::path::{file_name, parent_path, same_path};
use crate::text::{blank, contains, lowercase};

verus! {

broadcast use vstd::seq_lib::group_seq_properties;

/// The navigation state of a tab: the paths to go back to (the most recent
/// last), the current path, and the paths to go forward to (the nearest
/// last).
pub type Nav = (Seq<Seq<char>>, Seq<char>, Seq<Seq<char>>);

/// Going to `p`: the current path is remembered for going back, and the
/// forward paths are forgotten.
pub open spec fn went_to(n: Nav, p: Seq<char>) -> Nav {
    (n.0.push(n.1), p, Seq::empty())
}

/// Going back one step.
pub open spec fn went_back(n: Nav) -> Nav
    recommends
        n.0.len() > 0,
{
    (n.0.drop_last(), n.0.last(), n.2.push(n.1))
}

/// Going forward one step.
pub open spec fn went_forward(n: Nav) -> Nav
    recommends
        n.2.len() > 0,
{
    (n.0.push(n.1), n.2.last(), n.2.drop_last())
}

/// The whole history a tab can step through, oldest first.
pub open spec fn history(n: Nav) -> Seq<Seq<char>> {
    n.0.push(n.1) + n.2.reverse()
}

/// A browsing tab.
pub struct Tab {
    pub current_path: String,
    pub address_text: String,
    pub filter: String,
    pub back_stack: Vec<String>,
    pub forward_stack: Vec<String>,
    pub entries: Vec<FsEntry>,
    pub selected: Option<String>,
    pub error: Option<String>,
}

/// The message shown for a path that does not exist.
pub open spec fn not_found_message(p: Seq<char>) -> Seq<char> {
    "Path not found: "@ + p
}

/// `new` is `old` moved to the navigation state `n`: selection and filter
/// cleared, the address bar showing the new path; the listing is not yet
/// refreshed.
pub open spec fn moved_to(old: Tab, new: Tab, n: Nav) -> bool {
    &&& new.nav() == n
    &&& new.selected is None
    &&& new.filter@ == Seq::<char>::empty()
    &&& new.address_text@ == n.1
    &&& new.entries == old.entries
    &&& new.error == old.error
}

/// `new` is `old` after an attempt to go to `p`, which moved it or not.
pub open spec fn navigated(old: Tab, new: Tab, p: Seq<char>, moved: bool) -> bool {
    &&& moved == !same_path(p, old.current_path@)
    &&& moved ==> moved_to(old, new, went_to(old.nav(), p))
    &&& !moved ==> new == old
}

/// `new` is `old` after an attempt to step back.
pub open spec fn stepped_back(old: Tab, new: Tab, moved: bool) -> bool {
    &&& moved == (old.back_stack.len() > 0)
    &&& moved ==> moved_to(old, new, went_back(old.nav()))
    &&& !moved ==> new == old
}

/// `new` is `old` after an attempt to step forward.
pub open spec fn stepped_forward(old: Tab, new: Tab, moved: bool) -> bool {
    &&& moved == (old.forward_stack.len() > 0)
    &&& moved ==> moved_to(old, new, went_forward(old.nav()))
    &&& !moved ==> new == old
}

/// `new` is `old` after an attempt to go to the parent folder.
pub open spec fn went_up(old: Tab, new: Tab, moved: bool) -> bool {
    match parent_path(old.current_path@) {
        Some(p) => navigated(old, new, p, moved),
        None => !moved && new == old,
    }
}

/// `new` is `old` after taking in `listing` for its current path.
pub open spec fn refreshed(old: Tab, new: Tab, listing: Option<Vec<FsEntry>>) -> bool {
    &&& new.current_path == old.current_path
    &&& new.back_stack == old.back_stack
    &&& new.forward_stack == old.forward_stack
    &&& new.filter == old.filter
    &&& new.selected == old.selected
    &&& new.address_text@ == old.current_path@
    &&& match listing {
        Some(es) => new.entries@ == es@ && new.error is None,
        None => {
            &&& new.entries@ == Seq::<FsEntry>::empty()
            &&& new.error matches Some(m)
            &&& m@ == not_found_message(old.current_path@)
        },
    }
}

impl Tab {
    /// The tab's navigation state.
    pub open spec fn nav(&self) -> Nav {
        (self.back_stack.deep_view(), self.current_path@, self.forward_stack.deep_view())
    }

    /// Whether entry `i` matches the tab's filter: the filter is blank, or
    /// the lowercase name contains the lowercase filter.
    pub open spec fn shows(&self, i: int) -> bool {
        blank(self.filter@) || contains(
            lowercase(self.entries@[i].name@),
            lowercase(self.filter@),
        )
    }

    /// The indices of the entries the filter lets through, in order.
    pub open spec fn shown_indices(&self) -> Seq<usize> {
        Seq::new(self.entries@.len(), |i: int| i as usize).filter(|i: usize| self.shows(i as int))
    }

    /// The title of a tab at path `p`: its last component, or the whole
    /// path where it has none.
    pub open spec fn title_of(p: Seq<char>) -> Seq<char> {
        match file_name(p) {
            Some(n) => n,
            None => p,
        }
    }

    /// A new tab at `path`, its address bar showing the path, with nothing
    /// listed yet; `refresh` lists it.
    pub fn new(path: String) -> (t: Tab)
        ensures
            t.current_path == path,
            t.address_text@ == path@,
            t.filter@ == Seq::<char>::empty(),
            t.back_stack@ == Seq::<String>::empty(),
            t.forward_stack@ == Seq::<String>::empty(),
            t.entries@ == Seq::<FsEntry>::empty(),
            t.selected is None,
            t.error is None,
    {
        let address_text = path.clone();
        Tab {
            current_path: path,
            address_text,
            filter: String::new(),
            back_stack: Vec::new(),
            forward_stack: Vec::new(),
            entries: Vec::new(),
            selected: None,
            error: None,
        }
    }

    /// Takes in what listing the current path gave: `Some` with its entries
    /// (already in listing order) where the path exists, `None` where it
    /// does not. The address bar is reset to the current path.
    pub fn refresh(&mut self, listing: Option<Vec<FsEntry>>)
        ensures
            refreshed(*old(self), *final(self), listing),
    {
        match listing {
            Some(es) => {
                self.entries = es;
                self.error = None;
            },
            None => {
                self.entries = Vec::new();
                let mut m = "Path not found: ".to_string();
                proof {
                    vstd::string::to_string_from_display_ensures_for_str("Path not found: ", m);
                }
                m.append(self.current_path.as_str());
                self.error = Some(m);
            },
        }
        self.address_text = self.current_path.clone();
    }

    /// Indices of entries matching the current case-insensitive filter.
    #[verifier::spinoff_prover]
    pub fn filtered_indices(&self) -> (r: Vec<usize>)
        ensures
            r@ == self.shown_indices(),
            forall|i: int|
                0 <= i < self.entries@.len() ==> (r@.contains(i as usize) <==> (blank(self.filter@)
                    || contains(lowercase((#[trigger] self.entries@[i]).name@), lowercase(self.filter@)))),
    {
        let n = self.entries.len();
        let everything = crate::text::is_blank(self.filter.as_str());
        let needle_text = crate::text::to_lowercase(self.filter.as_str());
        let needle = crate::text::chars_of(needle_text.as_str());
        let ghost pred = |i: usize| self.shows(i as int);
        let mut r: Vec<usize> = Vec::new();
        let mut i: usize = 0;
        assert(Seq::new(0, |k: int| k as usize).filter(pred) =~= Seq::<usize>::empty()) by {
            reveal(Seq::filter);
        }
        while i < n
            invariant
                n == self.entries.len(),
                i <= n,
                everything == blank(self.filter@),
                needle@ == lowercase(self.filter@),
                pred == (|i: usize| self.shows(i as int)),
                r@ == Seq::new(i as nat, |k: int| k as usize).filter(pred),
            decreases n - i,
        {
            let keep = if everything {
                true
            } else {
                let name = crate::text::to_lowercase(self.entries[i].name.as_str());
                let hay = crate::text::chars_of(name.as_str());
                crate::text::contains_chars(&hay, &needle)
            };
            proof {
                assert(Seq::new((i + 1) as nat, |k: int| k as usize) =~= Seq::new(
                    i as nat,
                    |k: int| k as usize,
                ).push(i));
                Seq::new(i as nat, |k: int| k as usize).lemma_filter_push(i, pred);
            }
            if keep {
                r.push(i);
            }
            i = i + 1;
        }
        proof {
            assert forall|i: int| 0 <= i < self.entries@.len() implies (r@.contains(i as usize) <==> (
            blank(self.filter@) || contains(
                lowercase((#[trigger] self.entries@[i]).name@),
                lowercase(self.filter@),
            ))) by {
                lemma_filter_matches_names(*self, i);
            }
        }
        r
    }

    /// The tab's title.
    pub fn title(&self) -> (r: String)
        ensures
            r@ == Self::title_of(self.current_path@),
    {
        match crate::path::file_name_of(self.current_path.as_str()) {
            Some(n) => n,
            None => self.current_path.clone(),
        }
    }

    /// Goes to `path` unless it is the current path already. Returns whether
    /// the tab moved; a tab that moved lists nothing new until `refresh`.
    pub fn navigate_to(&mut self, path: String) -> (moved: bool)
        ensures
            navigated(*old(self), *final(self), path@, moved),
    {
        if crate::path::paths_equal(path.as_str(), self.current_path.as_str()) {
            return false;
        }
        let cur = self.current_path.clone();
        self.back_stack.push(cur);
        self.forward_stack = Vec::new();
        self.address_text = path.clone();
        self.current_path = path;
        self.selected = None;
        self.filter = String::new();
        proof {
            assert(self.back_stack.deep_view() =~= old(self).back_stack.deep_view().push(
                old(self).current_path@,
            ));
            assert(self.forward_stack.deep_view() =~= Seq::<Seq<char>>::empty());
        }
        true
    }

    /// Steps back in the history, where there is somewhere to go back to.
    pub fn go_back(&mut self) -> (moved: bool)
        ensures
            stepped_back(*old(self), *final(self), moved),
    {
        if self.back_stack.len() == 0 {
            return false;
        }
        match self.back_stack.pop() {
            Some(prev) => {
                let cur = self.current_path.clone();
                self.forward_stack.push(cur);
                self.address_text = prev.clone();
                self.current_path = prev;
                self.selected = None;
                self.filter = String::new();
                proof {
                    assert(self.back_stack.deep_view() =~= old(self).back_stack.deep_view().drop_last());
                    assert(self.forward_stack.deep_view() =~= old(self).forward_stack.deep_view().push(old(self).current_path@));
                }
                true
            },
            None => false,
        }
    }

    /// Steps forward in the history, where there is somewhere to go.
    pub fn go_forward(&mut self) -> (moved: bool)
        ensures
            stepped_forward(*old(self), *final(self), moved),
    {
        if self.forward_stack.len() == 0 {
            return false;
        }
        match self.forward_stack.pop() {
            Some(next) => {
                let cur = self.current_path.clone();
                self.back_stack.push(cur);
                self.address_text = next.clone();
                self.current_path = next;
                self.selected = None;
                self.filter = String::new();
                proof {
                    assert(self.forward_stack.deep_view() =~= old(self).forward_stack.deep_view().drop_last());
                    assert(self.back_stack.deep_view() =~= old(self).back_stack.deep_view().push(
                        old(self).current_path@,
                    ));
                }
                true
            },
            None => false,
        }
    }

    /// Goes to the parent of the current path, where it has one.
    pub fn go_up(&mut self) -> (moved: bool)
        ensures
            went_up(*old(self), *final(self), moved),
    {
        match crate::path::parent_of(self.current_path.as_str()) {
            Some(p) => self.navigate_to(p),
            None => false,
        }
    }
}

/// Going back right after going somewhere returns to where the tab was,
/// with the place just left as the one step forward.
pub proof fn lemma_back_after_navigate(n: Nav, p: Seq<char>)
    ensures
        went_back(went_to(n, p)) == (n.0, n.1, seq![p]),
{
    assert(went_to(n, p).0.drop_last() =~= n.0);
    assert(Seq::<Seq<char>>::empty().push(p) =~= seq![p]);
}

/// Going forward undoes going back.
pub proof fn lemma_forward_undoes_back(n: Nav)
    requires
        n.0.len() > 0,
    ensures
        went_forward(went_back(n)) == n,
{
    assert(n.0.drop_last().push(n.0.last()) =~= n.0);
    assert(n.2.push(n.1).drop_last() =~= n.2);
}

/// Going back undoes going forward.
pub proof fn lemma_back_undoes_forward(n: Nav)
    requires
        n.2.len() > 0,
    ensures
        went_back(went_forward(n)) == n,
{
    assert(n.0.push(n.1).drop_last() =~= n.0);
    assert(n.2.drop_last().push(n.2.last()) =~= n.2);
}

/// Stepping back or forward only moves within the history: the sequence of
/// places is unchanged, and the position moves by one.
pub proof fn lemma_steps_keep_history(n: Nav)
    ensures
        n.0.len() > 0 ==> history(went_back(n)) == history(n) && went_back(n).0.len() + 1
            == n.0.len(),
        n.2.len() > 0 ==> history(went_forward(n)) == history(n) && went_forward(n).0.len()
            == n.0.len() + 1,
{
    if n.0.len() > 0 {
        let b = went_back(n);
        assert(b.2.reverse() =~= seq![n.1] + n.2.reverse());
        assert(n.0 =~= b.0.push(b.1));
        assert(history(b) =~= history(n));
    }
    if n.2.len() > 0 {
        let f = went_forward(n);
        assert(n.2 =~= f.2.push(f.1));
        assert(n.2.reverse() =~= seq![f.1] + f.2.reverse());
        assert(history(f) =~= history(n));
    }
}

/// Going somewhere keeps the history up to the current place, adds the new
/// place after it, and drops whatever lay forward.
pub proof fn lemma_navigate_truncates_history(n: Nav, p: Seq<char>)
    ensures
        history(went_to(n, p)) == n.0.push(n.1).push(p),
        went_to(n, p).0.len() == n.0.len() + 1,
{
    assert(history(went_to(n, p)) =~= n.0.push(n.1).push(p));
}

proof fn lemma_filter_keeps_all(s: Seq<usize>, pred: spec_fn(usize) -> bool)
    requires
        forall|i: int| 0 <= i < s.len() ==> pred(#[trigger] s[i]),
    ensures
        s.filter(pred) == s,
    decreases s.len(),
{
    reveal(Seq::filter);
    if s.len() > 0 {
        lemma_filter_keeps_all(s.drop_last(), pred);
        assert(s.drop_last().push(s.last()) =~= s);
    } else {
        assert(s.filter(pred) =~= s);
    }
}

/// A blank filter (empty, or only white space) shows every entry, in order.
pub proof fn lemma_blank_filter_shows_all(t: Tab)
    requires
        blank(t.filter@),
    ensures
        t.shown_indices() == Seq::new(t.entries@.len(), |i: int| i as usize),
{
    let s = Seq::new(t.entries@.len(), |i: int| i as usize);
    lemma_filter_keeps_all(s, |i: usize| t.shows(i as int));
}

/// The filter ignores case: filters with the same lowercase form (and both
/// blank or both not) show the same entries of the same listing.
pub proof fn lemma_filter_ignores_case(a: Tab, b: Tab)
    requires
        a.entries@ == b.entries@,
        lowercase(a.filter@) == lowercase(b.filter@),
        blank(a.filter@) == blank(b.filter@),
    ensures
        a.shown_indices() == b.shown_indices(),
{
    let pa = |i: usize| a.shows(i as int);
    let pb = |i: usize| b.shows(i as int);
    assert(pa =~= pb);
}


/// Filtering with two tests that agree on every element keeps the same
/// elements.
proof fn lemma_filter_agrees(s: Seq<usize>, p: spec_fn(usize) -> bool, q: spec_fn(usize) -> bool)
    requires
        forall|k: int| 0 <= k < s.len() ==> p(#[trigger] s[k]) == q(s[k]),
    ensures
        s.filter(p) == s.filter(q),
    decreases s.len(),
{
    reveal(Seq::filter);
    if s.len() > 0 {
        let d = s.drop_last();
        assert forall|k: int| 0 <= k < d.len() implies p(#[trigger] d[k]) == q(d[k]) by {
            assert(d[k] == s[k]);
        }
        lemma_filter_agrees(d, p, q);
        assert(p(s.last()) == q(s[s.len() - 1]));
    }
}

/// Entry `i` is listed exactly when the filter is blank or the entry's name
/// in lowercase contains the filter in lowercase.
pub proof fn lemma_filter_matches_names(t: Tab, i: int)
    requires
        0 <= i < t.entries@.len(),
    ensures
        t.shown_indices().contains(i as usize) <==> (blank(t.filter@) || contains(
            lowercase(t.entries@[i].name@),
            lowercase(t.filter@),
        )),
{
    let n = t.entries@.len();
    let s = Seq::new(n, |k: int| k as usize);
    let pred = |u: usize| t.shows(u as int);
    assert(t.shown_indices() == s.filter(pred));
    assert(s[i] == i as usize);
    assert(t.entries@.len() == t.entries.len());
    assert((i as usize) as int == i);
    assert(pred(s[i]) == t.shows(i));
    if t.shows(i) {
        s.lemma_filter_contains(pred, i);
    }
    if s.filter(pred).contains(i as usize) {
        let j = choose|j: int| 0 <= j < s.filter(pred).len() && s.filter(pred)[j] == i as usize;
        s.lemma_filter_pred(pred, j);
    }
}

/// What the filter lets through depends on the entries' names and the
/// filter alone: two tabs whose entries have the same names, in the same
/// order, under the same filter, list the same entries, whatever those
/// entries' paths, kinds, sizes or times.
pub proof fn lemma_filter_reads_only_names(a: Tab, b: Tab)
    requires
        a.filter@ == b.filter@,
        a.entries@.len() == b.entries@.len(),
        forall|k: int| 0 <= k < a.entries@.len() ==> #[trigger] a.entries@[k].name@ == b.entries@[k].name@,
    ensures
        a.shown_indices() == b.shown_indices(),
{
    let n = a.entries@.len();
    let s = Seq::new(n, |k: int| k as usize);
    let pa = |u: usize| a.shows(u as int);
    let pb = |u: usize| b.shows(u as int);
    assert forall|k: int| 0 <= k < s.len() implies pa(#[trigger] s[k]) == pb(s[k]) by {
        assert(a.entries@[k].name@ == b.entries@[k].name@);
    }
    lemma_filter_agrees(s, pa, pb);
    assert(a.shown_indices() == s.filter(pa));
    assert(b.shown_indices() == s.filter(pb));
}

} // verus!
