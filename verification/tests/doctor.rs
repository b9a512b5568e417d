use aks_tui::config::{ClusterConfig, Config};
use aks_tui::doctor::check::{client_said, login_said, Doctor};
use aks_tui::doctor::report::{self, took, version, Call};
use aks_tui::doctor::setup::{
    all_blocks, cluster_block, clusters_listed, is_system_namespace, namespaces_listed, Cluster,
    Need, Setup,
};
use aks_tui::json;

fn cluster(name: &str, namespaces: &[&str]) -> Cluster {
    Cluster {
        name: name.to_owned(),
        resource_group: "rg-qa".to_owned(),
        namespaces: namespaces.iter().map(|name| (*name).to_owned()).collect(),
    }
}

fn parse(text: &str) -> Config {
    let table: toml::Table = toml::from_str(text).unwrap();
    let mut config = Config::default();
    for cluster in table["clusters"].as_array().unwrap() {
        config.clusters.push(ClusterConfig {
            name: cluster["name"].as_str().unwrap().to_owned(),
            context: cluster
                .get("context")
                .and_then(toml::Value::as_str)
                .map(str::to_owned),
            namespaces: cluster["namespaces"]
                .as_array()
                .unwrap()
                .iter()
                .map(|name| name.as_str().unwrap().to_owned())
                .collect(),
        });
    }
    config
}

fn config() -> Config {
    parse("[[clusters]]\nname = \"qa\"\nnamespaces = [\"dev\", \"uat\"]\n")
}

fn no() -> Result<String, String> {
    Err("az is not installed or not on PATH".to_owned())
}

fn run(need: Need) -> Call {
    match need {
        Need::Run(call) => call,
        other => panic!("{other:?}"),
    }
}

#[test]
fn a_cluster_block_is_config_toml_the_file_reads_back() {
    let block = cluster_block(&Cluster {
        name: "aks-qa".into(),
        resource_group: "rg-qa".into(),
        namespaces: vec!["dev".into(), "qa".into(), "uat".into()],
    });
    assert_eq!(
        block,
        "[[clusters]]\nname = \"aks-qa\"\ncontext = \"aks-qa\"\nnamespaces = [\"dev\", \"qa\", \"uat\"]\n"
    );
    let config = parse(&block);
    assert_eq!(config.tabs().len(), 3);
    assert_eq!(config.tabs()[0].label, "aks-qa/dev");
}

#[test]
fn a_name_is_quoted_as_the_debug_form_quotes_it() {
    let block = cluster_block(&cluster("a\"b\n", &[]));
    assert_eq!(
        block,
        "[[clusters]]\nname = \"a\\\"b\\n\"\ncontext = \"a\\\"b\\n\"\nnamespaces = []\n"
    );
    assert_eq!(
        all_blocks(&vec![cluster("a", &[]), cluster("b", &["c"])]),
        format!(
            "{}\n{}",
            cluster_block(&cluster("a", &[])),
            cluster_block(&cluster("b", &["c"]))
        )
    );
}

#[test]
fn the_namespaces_aks_puts_there_are_left_out() {
    assert!(is_system_namespace("kube-system"));
    assert!(is_system_namespace("gatekeeper-system"));
    assert!(is_system_namespace("default"));
    assert!(!is_system_namespace("dev"));
    assert!(!is_system_namespace("prod"));
}

#[test]
fn the_lists_are_read_as_the_tools_write_them() {
    assert_eq!(
        namespaces_listed("namespace/dev\n namespace/kube-system\nnamespace/prod \nother\n"),
        ["dev", "prod"]
    );
    let listed = json::parse(
        r#"[{"name": "a", "resourceGroup": "g"}, {"name": "b"}, {"resourceGroup": "h"}]"#,
    )
    .unwrap();
    let found = clusters_listed(&listed);
    assert_eq!(found.len(), 1);
    assert_eq!(found[0].name, "a");
    assert_eq!(found[0].resource_group, "g");
    assert!(clusters_listed(&json::parse("{}").unwrap()).is_empty());
}

#[test]
fn a_configuration_with_no_clusters_fails_the_doctor_before_any_probe() {
    let mut doctor = Doctor::new(&Config::default());
    let mut said = String::new();
    while let Some(call) = doctor.next_call() {
        assert!(!call.arguments.contains(&"get".to_owned()), "no probe");
        said.push_str(&doctor.answered(&no(), "1 ms"));
    }
    assert!(!doctor.ok);
    assert!(said.contains("kubectl"), "{said}");
    assert!(said.contains("no [[clusters]]"), "{said}");
}

#[test]
fn the_doctor_is_well_when_every_scope_answers() {
    let mut doctor = Doctor::new(&config());
    assert_eq!(
        doctor.next_call().unwrap().arguments,
        ["version", "--client", "-o", "json"]
    );
    let said = doctor.answered(
        &Ok(r#"{"clientVersion": {"gitVersion": "v1.31.0"}}"#.to_owned()),
        "1 ms",
    );
    assert_eq!(said, "kubectl       v1.31.0\n");
    assert_eq!(doctor.next_call().unwrap().program, "kubelogin");
    let said = doctor.answered(&Ok("kubelogin version \nmore\n".to_owned()), "1 ms");
    assert_eq!(said, "kubelogin     kubelogin version\n");
    let said = doctor.answered(
        &Ok(r#"{"user": {"name": "j@x"}, "tenantId": "t"}"#.to_owned()),
        "1 ms",
    );
    assert!(said.starts_with("az login      j@x · tenant t\n"), "{said}");
    assert_eq!(
        doctor.next_call().unwrap().arguments,
        [
            "--context",
            "qa",
            "--request-timeout=10s",
            "get",
            "pods",
            "--limit=1",
            "-o",
            "name",
            "-n",
            "dev"
        ]
    );
    let said = doctor.answered(&Ok(String::new()), "7 ms");
    assert!(said.ends_with("ok (7 ms)\n"), "{said}");
    assert!(doctor.ok);
    let said = doctor.answered(&Err("pods is Forbidden".to_owned()), "7 ms");
    assert!(said.contains("forbidden — pods is Forbidden"), "{said}");
    assert!(!doctor.ok);
    assert_eq!(doctor.next_call(), None);
}

#[test]
fn a_missing_login_is_said_and_fails_nothing_by_itself() {
    let mut doctor = Doctor::new(&config());
    doctor.answered(&Ok("not json".to_owned()), "");
    let said = doctor.answered(&no(), "");
    assert!(said.contains("not on PATH"), "{said}");
    let said = doctor.answered(&no(), "");
    assert!(said.contains("no — az is not installed"), "{said}");
    assert!(doctor.ok);
    let said = doctor.answered(&Err("Unable to connect".to_owned()), "");
    assert!(said.contains("FAIL — Unable to connect"), "{said}");
    assert!(!doctor.ok);
}

#[test]
fn setup_without_az_says_so_rather_than_panicking() {
    let mut setup = Setup::new(false, "config.toml");
    assert_eq!(
        run(setup.need()).arguments,
        ["aks", "list", "-o", "json"]
    );
    setup.answered(&no(), "1 ms");
    assert!(!setup.ok);
    let error = setup.failure.clone().unwrap();
    assert!(error.contains("az"), "{error}");
    assert_eq!(setup.need(), Need::Nothing);
}

fn listed(write: bool) -> Setup {
    let mut setup = Setup::new(write, "config.toml");
    setup.answered(
        &Ok(r#"[{"name": "a", "resourceGroup": "g"}]"#.to_owned()),
        "1 ms",
    );
    setup
}

#[test]
fn setup_prints_the_blocks_and_writes_nothing_unasked() {
    let mut setup = listed(false);
    assert_eq!(
        run(setup.need()).arguments,
        [
            "aks",
            "get-credentials",
            "--resource-group",
            "g",
            "--name",
            "a",
            "--overwrite-existing"
        ]
    );
    assert_eq!(
        setup.answered(&Ok(String::new()), "2 ms"),
        "a             credentials written (2 ms)\n"
    );
    assert_eq!(run(setup.need()).program, "kubelogin");
    let said = setup.answered(&no(), "");
    assert!(said.contains("not converted"), "{said}");
    assert_eq!(run(setup.need()).arguments[1], "a");
    let said = setup.answered(&Ok("namespace/dev\nnamespace/default\n".to_owned()), "");
    assert_eq!(
        said,
        format!(
            "\n# Trim to the namespaces you want tabs for and put in config.toml\n# (or run `aks-tui setup --write` to write it):\n\n{}",
            cluster_block(&cluster("a", &["dev"]))
        )
    );
    assert!(setup.ok && setup.failure.is_none());
    assert_eq!(setup.need(), Need::Nothing);
}

fn placed() -> Setup {
    let mut setup = listed(true);
    setup.answered(&Ok(String::new()), "");
    setup.answered(&Ok(String::new()), "");
    let said = setup.answered(&Err("slow".to_owned()), "");
    assert_eq!(
        said,
        "a             namespaces not read — slow; list them by hand\n\n"
    );
    assert_eq!(setup.need(), Need::Look);
    setup
}

#[test]
fn a_file_that_is_there_is_never_touched() {
    let mut setup = placed();
    let said = setup.looked(true);
    assert!(said.starts_with("config.toml exists; not touched."), "{said}");
    assert!(!setup.ok && setup.failure.is_none());
    assert_eq!(setup.need(), Need::Nothing);
}

#[test]
fn a_file_that_is_not_there_is_written() {
    let mut setup = placed();
    assert_eq!(setup.looked(false), "");
    let text = match setup.need() {
        Need::Write(text) => text,
        other => panic!("{other:?}"),
    };
    assert_eq!(
        text,
        format!(
            "{}\n# refresh = 5\n\n[theme]\n# preset = \"terminal\"\n",
            cluster_block(&cluster("a", &[]))
        )
    );
    let said = setup.wrote(Ok(()));
    assert!(said.starts_with("wrote config.toml — "), "{said}");
    assert!(setup.ok);

    let mut setup = placed();
    setup.looked(false);
    assert_eq!(setup.wrote(Err("full".to_owned())), "");
    assert_eq!(setup.failure.as_deref(), Some("full"));
    assert!(!setup.ok);
}

#[test]
fn every_way_the_list_can_end_is_told_apart() {
    let mut setup = Setup::new(false, "c");
    setup.answered(&Ok("no JSON".to_owned()), "");
    let said = setup.failure.clone().unwrap();
    assert!(
        said.starts_with("az answered with something other than JSON: "),
        "{said}"
    );
    let mut setup = Setup::new(false, "c");
    setup.answered(&Ok("[]".to_owned()), "");
    assert!(setup.failure.clone().unwrap().contains("found no clusters"));
    let mut setup = listed(false);
    setup.answered(&Err("denied".to_owned()), "");
    assert_eq!(
        setup.failure.as_deref(),
        Some("az aks get-credentials for a: denied")
    );
}

#[test]
fn the_report_is_in_two_columns() {
    assert_eq!(report::line("az login", "no"), "az login      no\n");
    assert_eq!(report::line("a-label-of-sixteen", "x"), "a-label-of-sixteenx\n");
    assert_eq!(took(999, "1.0"), "999 ms");
    assert_eq!(took(1000, "1.0"), "1.0 s");
    assert_eq!(version(" v1 \nv2"), "v1");
    assert_eq!(version(""), "");
    let none = json::parse("{}").unwrap();
    assert_eq!(client_said(&none), "ok");
    assert_eq!(login_said(&none), "? · tenant ?");
}
