//! The layout that the next start opens with: which tab, and how each tab's
//! table is sorted and laid out. Never the query, never the cursor, and
//! nothing a cluster answered.

use vstd::prelude::*;
use vstd::string::*;

use crate::text::{maybe, same};

verus! {

/// One column, as the file has it.
#[derive(Debug, PartialEq, Eq)]
pub struct SessionColumn {
    pub key: String,
    pub width: Option<u16>,
    pub visible: Option<bool>,
}

pub struct SessionColumnView {
    pub key: Seq<char>,
    pub width: Option<u16>,
    pub visible: Option<bool>,
}

impl View for SessionColumn {
    type V = SessionColumnView;

    open spec fn view(&self) -> SessionColumnView {
        SessionColumnView { key: self.key@, width: self.width, visible: self.visible }
    }
}

/// What each column is.
pub open spec fn column_views(held: Seq<SessionColumn>) -> Seq<SessionColumnView> {
    held.map_values(|column: SessionColumn| column@)
}

/// One tab, as the file has it: its sort, as a column's key and `asc` or
/// `desc`, and its columns.
#[derive(Debug, PartialEq, Eq)]
pub struct SessionTab {
    pub sort: Option<(String, String)>,
    pub columns: Vec<SessionColumn>,
}

pub struct SessionTabView {
    pub sort: Option<(Seq<char>, Seq<char>)>,
    pub columns: Seq<SessionColumnView>,
}

impl View for SessionTab {
    type V = SessionTabView;

    open spec fn view(&self) -> SessionTabView {
        SessionTabView {
            sort: match self.sort {
                Some(sort) => Some((sort.0@, sort.1@)),
                None => None,
            },
            columns: column_views(self.columns@),
        }
    }
}

impl SessionTabView {
    pub open spec fn empty() -> SessionTabView {
        SessionTabView { sort: None, columns: seq![] }
    }
}

impl Default for SessionTab {
    fn default() -> (tab: Self)
        ensures
            tab@ == SessionTabView::empty(),
    {
        let tab = SessionTab { sort: None, columns: Vec::new() };
        assert(tab@.columns =~= seq![]);
        tab
    }
}

/// The whole file: the tab that was open, and every tab by its label.
#[derive(Debug, PartialEq, Eq)]
pub struct Session {
    pub tab: Option<String>,
    pub tabs: Vec<(String, SessionTab)>,
}

#[verifier::ext_equal]
pub struct SessionView {
    pub tab: Option<Seq<char>>,
    pub tabs: Seq<(Seq<char>, SessionTabView)>,
}

/// What each tab is called and holds.
pub open spec fn tab_entries(held: Seq<(String, SessionTab)>) -> Seq<(Seq<char>, SessionTabView)> {
    held.map_values(|entry: (String, SessionTab)| (entry.0@, entry.1@))
}

impl View for Session {
    type V = SessionView;

    open spec fn view(&self) -> SessionView {
        SessionView { tab: maybe(self.tab), tabs: tab_entries(self.tabs@) }
    }
}

/// Where the first tab of this label stands, or past the last.
pub open spec fn place_of(tabs: Seq<(Seq<char>, SessionTabView)>, label: Seq<char>) -> nat
    decreases tabs.len(),
{
    if tabs.len() == 0 || tabs[0].0 == label {
        0
    } else {
        1 + place_of(tabs.skip(1), label)
    }
}

impl SessionView {
    pub open spec fn empty() -> SessionView {
        SessionView { tab: None, tabs: seq![] }
    }

    /// What the file has of a tab, when it has anything.
    pub open spec fn of_tab(self, label: Seq<char>) -> Option<SessionTabView> {
        let at = place_of(self.tabs, label) as int;
        if at < self.tabs.len() {
            Some(self.tabs[at].1)
        } else {
            None
        }
    }

    /// With this of a tab, in place of what it had.
    pub open spec fn with_tab(self, label: Seq<char>, held: SessionTabView) -> SessionView {
        let at = place_of(self.tabs, label) as int;
        SessionView {
            tabs: if at < self.tabs.len() {
                self.tabs.update(at, (label, held))
            } else {
                self.tabs.push((label, held))
            },
            ..self
        }
    }
}

impl Default for Session {
    fn default() -> (session: Self)
        ensures
            session@ == SessionView::empty(),
    {
        let session = Session { tab: None, tabs: Vec::new() };
        assert(session@.tabs =~= seq![]);
        session
    }
}

impl Session {
    fn find(&self, label: &str) -> (at: usize)
        ensures
            at == place_of(self@.tabs, label@),
            at <= self.tabs@.len(),
    {
        let ghost all = self@.tabs;
        let mut at: usize = 0;
        assert(all.skip(0) =~= all);
        while at < self.tabs.len()
            invariant
                at <= self.tabs@.len(),
                all == self@.tabs,
                place_of(all, label@) == at + place_of(all.skip(at as int), label@),
            decreases self.tabs@.len() - at,
        {
            assert(all.skip(at as int)[0] == (self.tabs@[at as int].0@, self.tabs@[at as int].1@));
            if same(self.tabs[at].0.as_str(), label) {
                return at;
            }
            assert(all.skip(at as int).skip(1) =~= all.skip(at as int + 1));
            at += 1;
        }
        at
    }

    /// What the file has of a tab, when it has anything.
    pub fn get(&self, label: &str) -> (held: Option<&SessionTab>)
        ensures
            held is Some <==> self@.of_tab(label@) is Some,
            held matches Some(held) ==> self@.of_tab(label@) == Some(held@),
    {
        let at = self.find(label);
        if at < self.tabs.len() {
            assert(self@.tabs[at as int] == (self.tabs@[at as int].0@, self.tabs@[at as int].1@));
            Some(&self.tabs[at].1)
        } else {
            None
        }
    }

    /// What the file has of a tab, to be changed. A tab it has nothing of
    /// gets an empty entry.
    pub fn tab(&mut self, label: &str) -> (held: &mut SessionTab)
        ensures
            held@ == (match old(self)@.of_tab(label@) {
                Some(held) => held,
                None => SessionTabView::empty(),
            }),
            final(self)@ == old(self)@.with_tab(label@, final(held)@),
    {
        let ghost before = self@;
        let at = self.find(label);
        proof {
            lemma_place_of(before.tabs, label@);
        }
        if at == self.tabs.len() {
            self.tabs.push((label.to_owned(), SessionTab::default()));
        }
        assert(before.tabs =~= self@.tabs.take(before.tabs.len() as int));
        &mut self.tabs[at].1
    }
}

proof fn lemma_place_of(tabs: Seq<(Seq<char>, SessionTabView)>, label: Seq<char>)
    ensures
        place_of(tabs, label) <= tabs.len(),
        place_of(tabs, label) < tabs.len() ==> tabs[place_of(tabs, label) as int].0 == label,
        forall|k: int| 0 <= k < place_of(tabs, label) ==> (#[trigger] tabs[k]).0 != label,
    decreases tabs.len(),
{
    if tabs.len() > 0 && tabs[0].0 != label {
        lemma_place_of(tabs.skip(1), label);
        let rest = place_of(tabs.skip(1), label);
        assert(rest < tabs.skip(1).len() ==> tabs.skip(1)[rest as int] == tabs[rest as int + 1]);
        assert forall|k: int| 0 <= k < place_of(tabs, label) implies (#[trigger] tabs[k]).0
            != label by {
            if k > 0 {
                assert(tabs.skip(1)[k - 1] == tabs[k]);
            }
        }
    }
}

proof fn lemma_place_is(tabs: Seq<(Seq<char>, SessionTabView)>, label: Seq<char>, place: nat)
    requires
        place <= tabs.len(),
        place < tabs.len() ==> tabs[place as int].0 == label,
        forall|k: int| 0 <= k < place ==> (#[trigger] tabs[k]).0 != label,
    ensures
        place_of(tabs, label) == place,
{
    lemma_place_of(tabs, label);
    let found = place_of(tabs, label);
    if found < place {
        assert(tabs[found as int].0 != label);
    } else if place < found {
        assert(tabs[place as int].0 != label);
    }
}

/// What is kept of a tab is what is found of it, and what is found of the
/// others stays.
pub proof fn law_what_is_kept_of_a_tab_is_found(
    session: SessionView,
    label: Seq<char>,
    held: SessionTabView,
    other: Seq<char>,
)
    ensures
        session.with_tab(label, held).of_tab(label) == Some(held),
        other != label ==> session.with_tab(label, held).of_tab(other) == session.of_tab(other),
{
    let after = session.with_tab(label, held).tabs;
    let at = place_of(session.tabs, label);
    lemma_place_of(session.tabs, label);
    assert forall|k: int| 0 <= k < at implies (#[trigger] after[k]).0 != label by {
        assert(session.tabs[k].0 != label);
    }
    lemma_place_is(after, label, at);
    if other != label {
        lemma_place_of(session.tabs, other);
        let place = place_of(session.tabs, other);
        assert forall|k: int| 0 <= k < place implies (#[trigger] after[k]).0 != other by {
            if k < session.tabs.len() {
                assert(session.tabs[k].0 != other);
            }
        }
        if place < session.tabs.len() {
            lemma_place_is(after, other, place);
        } else {
            lemma_place_is(after, other, after.len());
        }
    }
}

} // verus!
