use aks_tui::cli::Cli;
use aks_tui::config::{ClusterConfig, Config};
use aks_tui::ui::theme::{theme_of, ThemeChoice};
use clap::{Arg, ArgAction, Command};

fn parse(text: &str) -> Config {
    let table: toml::Table = toml::from_str(text).unwrap();
    Config {
        refresh: table
            .get("refresh")
            .and_then(toml::Value::as_integer)
            .map(|seconds| u64::try_from(seconds).unwrap()),
        ..Config::default()
    }
}

fn seconds(text: &str) -> Result<u64, std::num::ParseIntError> {
    text.parse()
}

fn parse_from<const N: usize>(arguments: [&str; N]) -> Cli {
    let matches = Command::new("aks-tui")
        .arg(Arg::new("refresh").long("refresh").value_parser(seconds))
        .arg(Arg::new("theme").long("theme"))
        .arg(
            Arg::new("no_cache")
                .long("no-cache")
                .action(ArgAction::SetTrue),
        )
        .try_get_matches_from(arguments)
        .unwrap();
    Cli {
        refresh: matches.get_one::<u64>("refresh").copied(),
        theme: matches.get_one::<String>("theme").cloned(),
        config: None,
        cache: None,
        no_cache: matches.get_flag("no_cache"),
    }
}

#[test]
fn flags_are_all_optional_and_a_flag_beats_the_file() {
    let cli = parse_from(["aks-tui"]);
    assert!(cli.refresh.is_none());
    assert!(!cli.no_cache);

    let file = parse("refresh = 30\n");
    assert_eq!(
        parse_from(["aks-tui"]).merge(file.clone()).refresh,
        Some(30)
    );
    assert_eq!(
        parse_from(["aks-tui", "--refresh", "0", "--no-cache"])
            .merge(file)
            .refresh,
        Some(0)
    );
}

#[test]
fn a_flag_beats_the_variable_which_beats_the_file() {
    let file = Config {
        theme: Some("mono".to_owned()),
        ..Config::default()
    };
    let flagged = parse_from(["aks-tui", "--theme", "terminal"]);
    let bare = parse_from(["aks-tui"]);
    let variable = Some("terminal-light".to_owned());
    assert_eq!(
        flagged.resolve_theme(&variable, &file).as_deref(),
        Some("terminal")
    );
    assert_eq!(
        bare.resolve_theme(&variable, &file).as_deref(),
        Some("terminal-light")
    );
    assert_eq!(bare.resolve_theme(&None, &file).as_deref(), Some("mono"));
    assert_eq!(bare.resolve_theme(&None, &Config::default()), None);
}

#[test]
fn every_namespace_is_a_tab_in_the_files_order() {
    let config = Config {
        clusters: vec![
            ClusterConfig {
                name: "qa".to_owned(),
                context: Some("aks-qa".to_owned()),
                namespaces: vec!["dev".to_owned(), "qa".to_owned(), "uat".to_owned()],
            },
            ClusterConfig {
                name: "prod".to_owned(),
                context: None,
                namespaces: vec!["prod".to_owned()],
            },
            ClusterConfig {
                name: "lab".to_owned(),
                context: None,
                namespaces: Vec::new(),
            },
        ],
        ..Config::default()
    };
    let tabs = config.tabs();
    let labels: Vec<&str> = tabs.iter().map(|tab| tab.label.as_str()).collect();
    assert_eq!(labels[..4], ["qa/dev", "qa/qa", "qa/uat", "prod"]);
    assert_eq!(tabs[0].scope.context, "aks-qa");
    assert_eq!(tabs[3].scope.context, "prod", "left out: the name");
    assert_eq!(tabs[4].scope.namespace, None);
    assert_eq!(tabs[0].scope.describe(), "qa/dev");
    assert_eq!(tabs[0].scope.short_label(), "dev");
    assert!(tabs[0].scope.same(&tabs[0].scope.clone()));
    assert!(!tabs[0].scope.same(&tabs[1].scope));
    assert_eq!(config.clone(), config);
}

#[test]
fn no_colour_wins_and_an_unknown_theme_is_refused() {
    let named = |name: &str| Some(name.to_owned());
    assert_eq!(theme_of(false, &None), Ok(ThemeChoice::Terminal));
    assert_eq!(theme_of(false, &named("terminal")), Ok(ThemeChoice::Terminal));
    assert_eq!(
        theme_of(false, &named("terminal-light")),
        Ok(ThemeChoice::TerminalLight)
    );
    assert_eq!(theme_of(false, &named("mono")), Ok(ThemeChoice::Mono));
    assert_eq!(theme_of(false, &named("custom")), Ok(ThemeChoice::Custom));
    assert_eq!(
        theme_of(false, &named("Mono")),
        Err("there is no theme called Mono".to_owned())
    );
    assert_eq!(theme_of(true, &named("custom")), Ok(ThemeChoice::Mono));
    assert_eq!(theme_of(true, &named("nothing")), Ok(ThemeChoice::Mono));
}
