//! Which palette a run paints with.

use vstd::prelude::*;
use vstd::string::*;

use crate::text;
use crate::text::maybe;

verus! {

/// The palettes there are to choose from.
#[derive(Clone, Copy, Debug, PartialEq, Eq, Structural)]
pub enum ThemeChoice {
    Terminal,
    TerminalLight,
    Mono,
    /// The terminal's, with the colours that the configuration names.
    Custom,
}

/// The palette of this name; the terminal's where none was named.
pub open spec fn named(name: Option<Seq<char>>) -> Option<ThemeChoice> {
    match name {
        None => Some(ThemeChoice::Terminal),
        Some(name) => if name == "terminal"@ {
            Some(ThemeChoice::Terminal)
        } else if name == "terminal-light"@ {
            Some(ThemeChoice::TerminalLight)
        } else if name == "mono"@ {
            Some(ThemeChoice::Mono)
        } else if name == "custom"@ {
            Some(ThemeChoice::Custom)
        } else {
            None
        },
    }
}

/// The palette a run paints with: no colours where none are wanted, whatever
/// was named, else the palette of that name, and words where there is none.
pub fn theme_of(no_color: bool, name: &Option<String>) -> (choice: Result<ThemeChoice, String>)
    ensures
        match choice {
            Ok(choice) => if no_color {
                choice == ThemeChoice::Mono
            } else {
                named(maybe(*name)) == Some(choice)
            },
            Err(said) => !no_color && named(maybe(*name)) is None && said@
                == "there is no theme called "@ + maybe(*name)->0,
        },
{
    if no_color {
        return Ok(ThemeChoice::Mono);
    }
    match name {
        None => Ok(ThemeChoice::Terminal),
        Some(name) => if text::same(name.as_str(), "terminal") {
            Ok(ThemeChoice::Terminal)
        } else if text::same(name.as_str(), "terminal-light") {
            Ok(ThemeChoice::TerminalLight)
        } else if text::same(name.as_str(), "mono") {
            Ok(ThemeChoice::Mono)
        } else if text::same(name.as_str(), "custom") {
            Ok(ThemeChoice::Custom)
        } else {
            Err("there is no theme called ".to_owned().concat(name.as_str()))
        },
    }
}

/// Each theme goes by its own name, just as it is written, and no other name
/// is one.
pub proof fn law_a_theme_goes_by_its_name(name: Seq<char>)
    ensures
        named(None) == Some(ThemeChoice::Terminal),
        named(Some("terminal"@)) == Some(ThemeChoice::Terminal),
        named(Some("terminal-light"@)) == Some(ThemeChoice::TerminalLight),
        named(Some("mono"@)) == Some(ThemeChoice::Mono),
        named(Some("custom"@)) == Some(ThemeChoice::Custom),
        name != "terminal"@ && name != "terminal-light"@ && name != "mono"@ && name != "custom"@
            ==> named(Some(name)) is None,
{
    reveal_strlit("terminal");
    reveal_strlit("terminal-light");
    reveal_strlit("mono");
    reveal_strlit("custom");
    assert("terminal"@.len() == 8 && "terminal-light"@.len() == 14);
    assert("mono"@.len() == 4 && "custom"@.len() == 6);
}

/// Without colour the theme is the one of a single tone, whatever it is
/// called, and an unknown name is an error that names it.
pub proof fn law_no_colour_is_one_tone(
    name: &Option<String>,
    said: String,
    choice: Result<ThemeChoice, String>,
)
    ensures
        call_ensures(theme_of, (true, name), choice) ==> choice is Ok && choice->Ok_0
            == ThemeChoice::Mono,
        call_ensures(theme_of, (false, name), choice) && named(maybe(*name)) is Some ==> choice
            is Ok && Some(choice->Ok_0) == named(maybe(*name)),
        call_ensures(theme_of, (false, &Some(said)), choice) && named(Some(said@)) is None
            ==> choice is Err && choice->Err_0@ == "there is no theme called "@ + said@,
{
}

} // verus!
