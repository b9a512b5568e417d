//! What a click can land on, and what a screen may ask the run loop to do.

use vstd::prelude::*;

use crate::columns::ColumnId;
use crate::kube::watcher::Request;

verus! {

/// A button of the details pane's toolbar.
#[derive(Clone, Copy, Debug, PartialEq, Eq, Structural)]
pub enum Button {
    Logs,
    Bash,
    Restart,
    Scale,
    Describe,
    Yaml,
}

impl Button {
    /// Every button, in the order they are drawn.
    pub const ALL: [Button; 6] = [
        Button::Logs,
        Button::Bash,
        Button::Restart,
        Button::Scale,
        Button::Describe,
        Button::Yaml,
    ];

    /// What the button says.
    pub open spec fn says(self) -> Seq<char> {
        match self {
            Button::Logs => "Logs"@,
            Button::Bash => "Bash"@,
            Button::Restart => "Restart"@,
            Button::Scale => "Scale"@,
            Button::Describe => "Describe"@,
            Button::Yaml => "YAML"@,
        }
    }

    pub fn label(self) -> (label: &'static str)
        ensures
            label@ == self.says(),
    {
        match self {
            Button::Logs => "Logs",
            Button::Bash => "Bash",
            Button::Restart => "Restart",
            Button::Scale => "Scale",
            Button::Describe => "Describe",
            Button::Yaml => "YAML",
        }
    }
}

/// Something on screen a click can land on.
///
/// The shell keeps a list of these with their areas, rebuilt every frame,
/// and resolves a click to the **last** area containing the point — drawn
/// last is on top, which is what puts a modal over the table under it.
#[derive(Clone, Copy, Debug, PartialEq, Eq, Structural)]
pub enum Target {
    /// A tab, by its index in `config.toml`'s order.
    Tab(usize),
    /// A row of the table, by its index among the rows currently shown.
    Row(usize),
    /// A column header.
    Header(ColumnId),
    SearchField,
    ClearSearch,
    Details,
    /// The text pane under the details.
    TextPane,
    /// A button of the details pane.
    Button(Button),
    Help,
}

/// What a screen wants the run loop to do next. A screen never talks to the
/// worker or the clipboard itself: it says what it wants and the loop does
/// it, which is what keeps every screen testable without either.
#[derive(Debug, PartialEq, Eq)]
pub enum AppAction {
    Nothing,
    /// Put this on the clipboard and say `label` in the status bar. The label
    /// never contains what was copied.
    Copy { text: String, label: String },
    Send(Request),
    Quit,
}

} // verus!
