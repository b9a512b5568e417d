//! The command line: the flags that override `config.toml`.

use vstd::prelude::*;
use vstd::string::*;

use crate::config::{Config, ConfigView};
use crate::text::{copy_maybe, maybe};

verus! {

/// The flags, each of them optional.
#[derive(Debug, PartialEq, Eq)]
pub struct Cli {
    /// Seconds between reads of the open tab; 0 leaves `r` as the only read.
    pub refresh: Option<u64>,
    /// The theme to paint with.
    pub theme: Option<String>,
    /// Read this file instead of ~/.config/aks-tui/config.toml.
    pub config: Option<String>,
    /// Keep the cache here instead of in the data directory.
    pub cache: Option<String>,
    /// Neither read nor write the cache.
    pub no_cache: bool,
}

/// The first of these that is there.
pub open spec fn first_of(
    flag: Option<Seq<char>>,
    variable: Option<Seq<char>>,
    file: Option<Seq<char>>,
) -> Option<Seq<char>> {
    if flag is Some {
        flag
    } else if variable is Some {
        variable
    } else {
        file
    }
}

impl Cli {
    /// The configuration this run works from: the file, then every flag that
    /// was given on top of it.
    pub fn merge(&self, config: Config) -> (merged: Config)
        ensures
            merged@ == (ConfigView {
                refresh: match self.refresh {
                    Some(refresh) => Some(refresh),
                    None => config@.refresh,
                },
                ..config@
            }),
    {
        let mut config = config;
        if let Some(refresh) = self.refresh {
            config.refresh = Some(refresh);
        }
        config
    }

    /// Which theme this run paints with, once the file has been read: a flag
    /// beats the variable, which beats the file.
    pub fn resolve_theme(&self, variable: &Option<String>, config: &Config) -> (chosen: Option<
        String,
    >)
        ensures
            maybe(chosen) == first_of(maybe(self.theme), maybe(*variable), config@.theme),
    {
        if self.theme.is_some() {
            copy_maybe(&self.theme)
        } else if variable.is_some() {
            copy_maybe(variable)
        } else {
            copy_maybe(&config.theme)
        }
    }
}

/// A flag beats the variable, which beats the file.
pub proof fn law_a_flag_beats_the_variable_which_beats_the_file(
    flag: Seq<char>,
    variable: Option<Seq<char>>,
    file: Option<Seq<char>>,
    set: Seq<char>,
)
    ensures
        first_of(Some(flag), variable, file) == Some(flag),
        first_of(None, Some(set), file) == Some(set),
        first_of(None, None, file) == file,
{
}

/// How often to read is the flag's where it is given and else the file's, and
/// the rest is the file's.
pub proof fn law_a_flag_beats_the_file(cli: &Cli, config: Config, merged: Config)
    requires
        call_ensures(Cli::merge, (cli, config), merged),
    ensures
        cli.refresh is Some ==> merged@.refresh == cli.refresh,
        cli.refresh is None ==> merged@.refresh == config@.refresh,
        merged@.clusters == config@.clusters,
        merged@.theme == config@.theme,
{
}

/// The theme of a run is the flag's, else the variable's, else the file's.
pub proof fn law_the_theme_is_the_flags_first(
    cli: &Cli,
    variable: &Option<String>,
    config: &Config,
    chosen: Option<String>,
)
    requires
        call_ensures(Cli::resolve_theme, (cli, variable, config), chosen),
    ensures
        cli.theme is Some ==> chosen is Some && chosen->0@ == cli.theme->0@,
        cli.theme is None && variable is Some ==> chosen is Some && chosen->0@ == variable->0@,
        cli.theme is None && variable is None ==> maybe(chosen) == config@.theme,
{
}

} // verus!
