//! What every tab shares: which pane has the keys, whether the help is open,
//! what was drawn where, and what the status bar has to say.

use vstd::prelude::*;
use vstd::string::*;

use crate::ui::paint::Rect;

use super::screen::Target;

verus! {

/// Which pane has the keys.
#[derive(Clone, Copy, Debug, PartialEq, Eq, Structural)]
pub enum Focus {
    Table,
    Details,
    Search,
}

/// How much a notification matters.
#[derive(Clone, Copy, Debug, PartialEq, Eq, Structural)]
pub enum Level {
    Info,
    Error,
}

/// How the table and the details pane share the body.
#[derive(Clone, Copy, Debug, PartialEq, Eq, Structural)]
pub enum Panes {
    SideBySide,
    Stacked,
    One,
}

/// The narrowest body that has both panes beside each other.
pub const SIDE_BY_SIDE: u16 = 100;

/// The narrowest body that has both panes, one over the other.
pub const STACKED: u16 = 70;

/// What every tab shares.
#[derive(Debug)]
pub struct Shell {
    pub focus: Focus,
    pub help_open: bool,
    /// What was drawn where, in the order it was drawn.
    pub regions: Vec<(Rect, Target)>,
    pub notification: Option<(String, Level)>,
}

#[verifier::ext_equal]
pub struct ShellView {
    pub focus: Focus,
    pub help_open: bool,
    pub regions: Seq<(Rect, Target)>,
    pub notification: Option<(Seq<char>, Level)>,
}

impl View for Shell {
    type V = ShellView;

    open spec fn view(&self) -> ShellView {
        ShellView {
            focus: self.focus,
            help_open: self.help_open,
            regions: self.regions@,
            notification: match self.notification {
                Some(said) => Some((said.0@, said.1)),
                None => None,
            },
        }
    }
}

/// What the last of these areas that holds the cell stands for.
pub open spec fn drawn_at(regions: Seq<(Rect, Target)>, column: int, row: int) -> Option<Target>
    decreases regions.len(),
{
    if regions.len() == 0 {
        None
    } else if regions.last().0.holds_cell(column, row) {
        Some(regions.last().1)
    } else {
        drawn_at(regions.drop_last(), column, row)
    }
}

impl ShellView {
    pub open spec fn fresh() -> ShellView {
        ShellView {
            focus: Focus::Table,
            help_open: false,
            regions: seq![],
            notification: None,
        }
    }

    pub open spec fn with_focus(self, focus: Focus) -> ShellView {
        ShellView { focus, ..self }
    }

    /// With one more area, drawn over the others.
    pub open spec fn with_region(self, area: Rect, target: Target) -> ShellView {
        ShellView { regions: self.regions.push((area, target)), ..self }
    }
}

impl Default for Shell {
    fn default() -> (shell: Self)
        ensures
            shell@ == ShellView::fresh(),
    {
        Shell {
            focus: Focus::Table,
            help_open: false,
            regions: Vec::new(),
            notification: None,
        }
    }
}

impl Shell {
    /// Forgets what the last frame drew.
    pub fn begin_frame(&mut self)
        ensures
            final(self)@ == (ShellView { regions: seq![], ..old(self)@ }),
    {
        self.regions = Vec::new();
    }

    /// Remembers what an area stands for.
    pub fn region(&mut self, area: Rect, target: Target)
        ensures
            final(self)@ == old(self)@.with_region(area, target),
    {
        self.regions.push((area, target));
    }

    /// What was drawn over a cell last.
    pub fn hit(&self, column: u16, row: u16) -> (target: Option<&Target>)
        ensures
            match target {
                Some(target) => drawn_at(self@.regions, column as int, row as int) == Some(
                    *target,
                ),
                None => drawn_at(self@.regions, column as int, row as int) is None,
            },
    {
        let ghost all = self.regions@;
        let mut at: usize = self.regions.len();
        assert(all.take(at as int) =~= all);
        while at > 0
            invariant
                at <= self.regions@.len(),
                all == self.regions@,
                drawn_at(all, column as int, row as int) == drawn_at(
                    all.take(at as int),
                    column as int,
                    row as int,
                ),
            decreases at,
        {
            assert(all.take(at as int).drop_last() =~= all.take(at - 1));
            at -= 1;
            if self.regions[at].0.contains(column, row) {
                return Some(&self.regions[at].1);
            }
        }
        None
    }

    /// `Tab`: from the table to the details pane, and from anything else to
    /// the table.
    pub fn toggle_focus(&mut self)
        ensures
            final(self)@ == old(self)@.with_focus(
                if old(self)@.focus is Table {
                    Focus::Details
                } else {
                    Focus::Table
                },
            ),
    {
        self.focus = match self.focus {
            Focus::Table => Focus::Details,
            _ => Focus::Table,
        };
    }

    /// What the status bar has to say, when anything.
    pub fn notification(&self) -> (said: Option<(&str, Level)>)
        ensures
            match said {
                Some(said) => self@.notification == Some((said.0@, said.1)),
                None => self@.notification is None,
            },
    {
        match &self.notification {
            Some(said) => Some((said.0.as_str(), said.1)),
            None => None,
        }
    }

    /// Says what was done.
    pub fn set_status(&mut self, said: &str)
        ensures
            final(self)@ == (ShellView {
                notification: Some((said@, Level::Info)),
                ..old(self)@
            }),
    {
        self.notification = Some((said.to_owned(), Level::Info));
    }

    /// Says what went wrong.
    pub fn set_error(&mut self, said: &str)
        ensures
            final(self)@ == (ShellView {
                notification: Some((said@, Level::Error)),
                ..old(self)@
            }),
    {
        self.notification = Some((said.to_owned(), Level::Error));
    }

    /// How the panes share a body this wide.
    pub fn panes(width: u16) -> (panes: Panes)
        ensures
            panes == (if width >= SIDE_BY_SIDE {
                Panes::SideBySide
            } else if width >= STACKED {
                Panes::Stacked
            } else {
                Panes::One
            }),
    {
        if width >= SIDE_BY_SIDE {
            Panes::SideBySide
        } else if width >= STACKED {
            Panes::Stacked
        } else {
            Panes::One
        }
    }
}

/// Of two areas that hold the same cell, a click there is for the one that
/// was drawn last.
pub proof fn law_drawn_last_is_on_top(shell: ShellView, area: Rect, target: Target, column: int, row: int)
    ensures
        area.holds_cell(column, row) ==> drawn_at(
            shell.with_region(area, target).regions,
            column,
            row,
        ) == Some(target),
        !area.holds_cell(column, row) ==> drawn_at(
            shell.with_region(area, target).regions,
            column,
            row,
        ) == drawn_at(shell.regions, column, row),
{
    assert(shell.with_region(area, target).regions.drop_last() =~= shell.regions);
}

/// `Tab` goes to the details from the table and back to it from anywhere
/// else, and twice from the table is where it was.
pub proof fn law_the_focus_goes_to_and_fro(shell: &mut Shell)
    requires
        call_ensures(Shell::toggle_focus, (shell,), ()),
    ensures
        old(shell)@.focus is Table <==> final(shell)@.focus is Details,
        !(old(shell)@.focus is Table) ==> final(shell)@.focus is Table,
        final(shell)@.regions == old(shell)@.regions,
        final(shell)@.notification == old(shell)@.notification,
        final(shell)@.help_open == old(shell)@.help_open,
{
}

/// A status is said as it is and an error as an error, and the last is the
/// one that stands.
pub proof fn law_the_last_said_stands(shell: &mut Shell, said: &str)
    ensures
        call_ensures(Shell::set_status, (shell, said), ()) ==> final(shell)@.notification == Some(
            (said@, Level::Info),
        ) && final(shell)@.focus == old(shell)@.focus && final(shell)@.regions
            == old(shell)@.regions,
        call_ensures(Shell::set_error, (shell, said), ()) ==> final(shell)@.notification == Some(
            (said@, Level::Error),
        ) && final(shell)@.focus == old(shell)@.focus,
        call_ensures(Shell::begin_frame, (shell,), ()) ==> final(shell)@.regions.len() == 0
            && final(shell)@.notification == old(shell)@.notification && final(shell)@.focus
            == old(shell)@.focus,
{
}

/// The panes stand side by side on a hundred columns, one over the other on
/// seventy, and one alone on fewer.
pub proof fn law_the_panes_go_by_the_width(width: u16, panes: Panes)
    requires
        call_ensures(Shell::panes, (width,), panes),
    ensures
        panes == Panes::SideBySide <==> width >= 100,
        panes == Panes::Stacked <==> 70 <= width < 100,
        panes == Panes::One <==> width < 70,
{
}

} // verus!
