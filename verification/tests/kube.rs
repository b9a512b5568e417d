use std::sync::{Arc, Mutex};
use std::time::Duration;

use aks_tui::config::Scope;
use aks_tui::json;
use aks_tui::kube::cadence::{Cadence, LONGEST, MAX_CADENCE};
use aks_tui::kube::kubectl::{next_step, verdict, Outcome, Step, CALL_CAP, LOOK_AGAIN};
use aks_tui::kube::reading::pods_listed;
use aks_tui::kube::watcher::{Arrival, Inbox, IDLE_WAIT};
use aks_tui::kube::{
    kubectl_error, Container, Event, KubeSource, Kubectl, Pod, PodKey, Request, Watcher,
    DEFAULT_REFRESH, HIDDEN_REFRESH,
};
use aks_tui::timestamp::Timestamp;
use serde_json::Value;

fn value(text: &str) -> Value {
    serde_json::from_str(text).unwrap()
}

/// One pod as `kubectl get pods -o json` lists it, with the parts a case
/// needs and nothing else.
fn item(name: &str, extra: &str) -> json::Json {
    let mut base = value(
        r#"{
            "metadata": {
                "name": "",
                "namespace": "dev",
                "creationTimestamp": "2026-08-30T10:00:00Z",
                "labels": {"app": "orders-api", "pod-template-hash": "7d9f5b"},
                "ownerReferences": [{"kind": "ReplicaSet", "name": "orders-api-7d9f5b", "controller": true}]
            },
            "spec": {
                "nodeName": "aks-nodepool1-0",
                "containers": [{"name": "api", "image": "myacr.azurecr.io/team/orders-api:1.2.3"}]
            },
            "status": {
                "phase": "Running",
                "podIP": "10.0.0.7",
                "containerStatuses": [{
                    "name": "api", "ready": true, "restartCount": 2,
                    "image": "myacr.azurecr.io/team/orders-api:1.2.3",
                    "state": {"running": {"startedAt": "2026-08-30T10:00:05Z"}},
                    "lastState": {"terminated": {"reason": "OOMKilled", "exitCode": 137}}
                }]
            }
        }"#,
    );
    base["metadata"]["name"] = Value::from(name);
    merge(&mut base, value(extra));
    json::parse(&base.to_string()).unwrap()
}

fn merge(base: &mut Value, extra: Value) {
    match (base, extra) {
        (Value::Object(base), Value::Object(extra)) => {
            for (key, value) in extra {
                match base.get_mut(&key) {
                    Some(held) if held.is_object() && value.is_object() => merge(held, value),
                    _ => {
                        base.insert(key, value);
                    }
                }
            }
        }
        (base, extra) => *base = extra,
    }
}

fn pod(cluster: &str, namespace: &str, name: &str, status: &str) -> Pod {
    Pod {
        key: PodKey {
            cluster: cluster.to_owned(),
            namespace: namespace.to_owned(),
            name: name.to_owned(),
        },
        status: status.to_owned(),
        ready: (1, 1),
        restarts: 0,
        created: Timestamp::parse("2026-08-30T10:00:00Z"),
        node: "aks-nodepool1-0".to_owned(),
        ip: "10.0.0.7".to_owned(),
        owner: Some(("Deployment".to_owned(), "orders-api".to_owned())),
        containers: vec![Container {
            name: "api".to_owned(),
            image: "myacr.azurecr.io/team/orders-api:1.2.3".to_owned(),
            ready: true,
            restarts: 0,
            state: "Running".to_owned(),
            last_termination: None,
        }],
        labels: vec![("app".to_owned(), "orders-api".to_owned())],
    }
}

fn scope(cluster: &str, namespace: Option<&str>) -> Scope {
    Scope {
        cluster: cluster.to_owned(),
        context: format!("aks-{cluster}"),
        namespace: namespace.map(str::to_owned),
    }
}

fn secs(seconds: u64) -> u128 {
    Duration::from_secs(seconds).as_nanos()
}

#[test]
fn a_pod_reads_its_ready_count_restarts_owner_node_and_containers_from_kubectls_json() {
    let pod = Pod::from_json("qa", &item("orders-api-7d9f5b-abc12", "{}")).unwrap();
    assert_eq!(pod.key.cluster, "qa");
    assert_eq!(pod.key.namespace, "dev");
    assert_eq!(pod.key.name, "orders-api-7d9f5b-abc12");
    assert_eq!(pod.status, "Running");
    assert_eq!(pod.ready_label(), "1/1");
    assert_eq!(pod.restarts, 2);
    assert_eq!(pod.node, "aks-nodepool1-0");
    assert_eq!(pod.ip, "10.0.0.7");
    assert_eq!(
        pod.created.map(Timestamp::to_rfc3339).as_deref(),
        Some("2026-08-30T10:00:00Z")
    );
    assert_eq!(
        pod.owner,
        Some(("Deployment".to_owned(), "orders-api".to_owned()))
    );
    assert_eq!(pod.owner_label(), "Deployment/orders-api");
    assert_eq!(pod.owner_name(), "orders-api");
    assert_eq!(pod.containers.len(), 1);
    assert_eq!(pod.containers[0].state, "Running");
    assert_eq!(
        pod.containers[0].last_termination,
        Some(("OOMKilled".to_owned(), 137))
    );
    assert_eq!(pod.label("app"), Some("orders-api"));
    assert_eq!(pod.app(), Some("orders-api"));
    assert!(pod.restartable());
    assert_eq!(pod.glyph(), "\u{25cf}");
    assert!(Pod::from_json("qa", &json::parse(r#"{"metadata": {}}"#).unwrap()).is_none());
    assert_eq!(pod.clone(), pod);
}

#[test]
fn the_status_word_follows_kubectl_for_running_pending_creating_crashloop_error_completed_terminating_and_init(
) {
    let cases = [
        ("{}", "Running", "\u{25cf}"),
        (
            r#"{"status": {"phase": "Pending", "containerStatuses": []}}"#,
            "Pending",
            "\u{25d0}",
        ),
        (
            r#"{"status": {"phase": "Pending", "containerStatuses": [
                {"name": "api", "ready": false, "state": {"waiting": {"reason": "ContainerCreating"}}}
            ]}}"#,
            "ContainerCreating",
            "\u{25d0}",
        ),
        (
            r#"{"status": {"containerStatuses": [
                {"name": "api", "ready": false, "restartCount": 9, "state": {"waiting": {"reason": "CrashLoopBackOff"}}}
            ]}}"#,
            "CrashLoopBackOff",
            "\u{2717}",
        ),
        (
            r#"{"status": {"phase": "Failed", "containerStatuses": [
                {"name": "api", "ready": false, "state": {"terminated": {"reason": "Error", "exitCode": 1}}}
            ]}}"#,
            "Error",
            "\u{2717}",
        ),
        (
            r#"{"status": {"phase": "Failed", "containerStatuses": [
                {"name": "api", "ready": false, "state": {"terminated": {"exitCode": 137}}}
            ]}}"#,
            "ExitCode:137",
            "\u{2717}",
        ),
        (
            r#"{"status": {"phase": "Succeeded", "containerStatuses": [
                {"name": "api", "ready": false, "state": {"terminated": {"reason": "Completed", "exitCode": 0}}}
            ]}}"#,
            "Completed",
            "\u{2713}",
        ),
        // A sidecar that finished beside a server still running reads as
        // running, the way kubectl puts it back.
        (
            r#"{"spec": {"containers": [{"name": "api"}, {"name": "init-db"}]},
                "status": {"containerStatuses": [
                {"name": "api", "ready": true, "state": {"running": {}}},
                {"name": "init-db", "ready": false, "state": {"terminated": {"reason": "Completed", "exitCode": 0}}}
            ]}}"#,
            "Running",
            "\u{25d0}",
        ),
        (
            r#"{"metadata": {"deletionTimestamp": "2026-08-30T11:00:00Z"}}"#,
            "Terminating",
            "\u{25d0}",
        ),
        (
            r#"{"spec": {"initContainers": [{"name": "migrate"}, {"name": "seed"}]},
                "status": {"phase": "Pending", "initContainerStatuses": [
                {"name": "migrate", "state": {"terminated": {"exitCode": 0}}},
                {"name": "seed", "state": {"running": {}}}
            ]}}"#,
            "Init:1/2",
            "\u{25d0}",
        ),
        (
            r#"{"spec": {"initContainers": [{"name": "migrate"}]},
                "status": {"phase": "Pending", "initContainerStatuses": [
                {"name": "migrate", "state": {"waiting": {"reason": "CrashLoopBackOff"}}}
            ]}}"#,
            "Init:CrashLoopBackOff",
            "\u{2717}",
        ),
        (
            r#"{"status": {"phase": "Failed", "reason": "Evicted", "containerStatuses": []}}"#,
            "Evicted",
            "\u{2717}",
        ),
        (
            r#"{"status": {"containerStatuses": [
                {"name": "api", "ready": false, "state": {"waiting": {"reason": "ImagePullBackOff"}}}
            ]}}"#,
            "ImagePullBackOff",
            "\u{2717}",
        ),
    ];
    for (extra, word, glyph) in cases {
        let pod = Pod::from_json("qa", &item("p", extra)).unwrap();
        assert_eq!(pod.status, word);
        assert_eq!(pod.glyph(), glyph, "{word}");
    }
}

#[test]
fn the_first_containers_reason_stands_and_a_delete_is_over_all_of_it() {
    let two = Pod::from_json(
        "qa",
        &item(
            "p",
            r#"{"status": {"containerStatuses": [
                {"name": "a", "state": {"waiting": {"reason": "First"}}},
                {"name": "b", "state": {"waiting": {"reason": "Second"}}}
            ]}}"#,
        ),
    )
    .unwrap();
    assert_eq!(two.status, "First");
    for phase in ["Succeeded", "Failed", "Pending", "Running"] {
        let mut extra = value(
            r#"{"metadata": {"deletionTimestamp": "2026-08-30T11:00:00Z"},
                "status": {"containerStatuses": [
                {"name": "api", "ready": false, "state": {"terminated": {"reason": "Completed", "exitCode": 0}}}
            ]}}"#,
        );
        extra["status"]["phase"] = Value::from(phase);
        let gone = Pod::from_json("qa", &item("p", &extra.to_string())).unwrap();
        assert_eq!(gone.status, "Terminating", "{phase}");
    }
    let init = Pod::from_json(
        "qa",
        &item(
            "p",
            r#"{"spec": {"initContainers": [{"name": "a"}]},
                "status": {"initContainerStatuses": [
                {"name": "a", "state": {"terminated": {"exitCode": -3}}}
            ]}}"#,
        ),
    )
    .unwrap();
    assert_eq!(init.status, "Init:ExitCode:-3");
    assert!(init.is_unhealthy());
    let starting = Pod::from_json(
        "qa",
        &item(
            "p",
            r#"{"spec": {"initContainers": [{"name": "a"}]},
                "status": {"initContainerStatuses": [
                {"name": "a", "state": {"waiting": {"reason": "PodInitializing"}}}
            ]}}"#,
        ),
    )
    .unwrap();
    assert_eq!(starting.status, "Init:0/1");
    let nothing = Pod::from_json(
        "qa",
        &json::parse(r#"{"metadata": {"name": "p", "namespace": "n"}}"#).unwrap(),
    )
    .unwrap();
    assert_eq!(nothing.status, "Unknown");
    assert_eq!(nothing.ready, (0, 0));
    assert_eq!(nothing.glyph(), "\u{2717}");
    assert!(nothing.created.is_none() && nothing.labels.is_empty());
    assert_eq!(nothing.first_container(), None);
    assert_eq!(nothing.owner_name(), "");
}

#[test]
fn a_container_without_a_status_waits_and_labels_are_sorted_by_key() {
    let pod = Pod::from_json(
        "qa",
        &item(
            "p",
            r#"{"metadata": {"labels": {"z": "1", "b": "2", "a": "3", "n": 4}},
                "spec": {"containers": [{"name": "api"}, {"name": "late", "image": "i"}, {"image": "x"}]}}"#,
        ),
    )
    .unwrap();
    assert_eq!(pod.containers.len(), 2, "one without a name is none");
    assert_eq!(pod.containers[1].state, "Waiting");
    assert_eq!(pod.containers[1].image, "i");
    assert!(!pod.containers[1].ready);
    assert_eq!(pod.ready_label(), "1/2");
    let keys: Vec<&str> = pod
        .labels
        .iter()
        .map(|(key, _)| key.as_str())
        .filter(|key| key.len() == 1)
        .collect();
    assert_eq!(keys, ["a", "b", "z"], "and a label that is no text is none");
    assert_eq!(pod.label("b"), Some("2"));
    assert_eq!(pod.label("n"), None);
}

#[test]
fn a_replica_set_owner_reads_as_its_deployment_when_the_template_hash_says_so() {
    let deployment = Pod::from_json("qa", &item("p", "{}")).unwrap();
    assert_eq!(
        deployment.owner,
        Some(("Deployment".to_owned(), "orders-api".to_owned()))
    );
    let stateful = Pod::from_json(
        "qa",
        &item(
            "p",
            r#"{"metadata": {"ownerReferences": [{"kind": "StatefulSet", "name": "redis", "controller": true}]}}"#,
        ),
    )
    .unwrap();
    assert_eq!(
        stateful.owner,
        Some(("StatefulSet".to_owned(), "redis".to_owned()))
    );
    let unhashed = Pod::from_json(
        "qa",
        &item(
            "p",
            r#"{"metadata": {"labels": {"pod-template-hash": ""}, "ownerReferences": [{"kind": "ReplicaSet", "name": "orders-api-7d9f5b", "controller": true}]}}"#,
        ),
    )
    .unwrap();
    assert_eq!(
        unhashed.owner,
        Some(("ReplicaSet".to_owned(), "orders-api-7d9f5b".to_owned()))
    );
    let bare =
        Pod::from_json("qa", &item("p", r#"{"metadata": {"ownerReferences": []}}"#)).unwrap();
    assert_eq!(bare.owner, None);
    assert!(!bare.restartable());
    assert_eq!(bare.owner_label(), "\u{2014}");
}

#[test]
fn the_owner_is_the_controller_before_the_first() {
    let pod = Pod::from_json(
        "qa",
        &item(
            "p",
            r#"{"metadata": {"ownerReferences": [
                {"kind": "Node", "name": "n"}, {"kind": "Job", "name": "j", "controller": true}]}}"#,
        ),
    )
    .unwrap();
    assert_eq!(pod.owner_label(), "Job/j");
    let pod = Pod::from_json(
        "qa",
        &item(
            "p",
            r#"{"metadata": {"ownerReferences": [
                {"kind": "Node", "name": "n"}, {"kind": "Job", "name": "j"}]}}"#,
        ),
    )
    .unwrap();
    assert_eq!(pod.owner_label(), "Node/n");
}

#[test]
fn kubectl_errors_read_as_the_one_line_that_says_what_to_fix() {
    assert_eq!(
        kubectl_error("error: context \"aks-qa\" does not exist\n"),
        "context \"aks-qa\" does not exist"
    );
    assert_eq!(
        kubectl_error(
            "E0830 12:00:00.000000   12345 memcache.go:265] couldn't get current server API group list\nUnable to connect to the server: getting credentials: exec: executable kubelogin not found\n\nIt looks like you are trying to use a client-go credential plugin\nSee https://kubernetes.io/docs/reference/access-authn-authz/authentication/#client-go-credential-plugins\n"
        ),
        "Unable to connect to the server: getting credentials: exec: executable kubelogin not found"
    );
    assert_eq!(
        kubectl_error(
            "ERROR: AADSTS700082: The refresh token has expired. Please run 'az login' to setup account.\nUnable to connect to the server: getting credentials: exec: executable kubelogin failed with exit code 1\n"
        ),
        "ERROR: AADSTS700082: The refresh token has expired. Please run 'az login' to setup account."
    );
    assert_eq!(
        kubectl_error(
            "Error from server (Forbidden): pods is forbidden: User \"j\" cannot list resource \"pods\" in API group \"\" in the namespace \"prod\"\n"
        ),
        "Error from server (Forbidden): pods is forbidden: User \"j\" cannot list resource \"pods\" in API group \"\" in the namespace \"prod\""
    );
    assert_eq!(kubectl_error("\n  \n"), "kubectl failed");
}

#[test]
fn a_complaint_is_one_line() {
    for stderr in ["a\nb\n", "error: x\r\ny", "\n", "az login\nerror: z"] {
        assert!(!kubectl_error(stderr).contains('\n'), "{stderr:?}");
    }
}

#[test]
fn a_line_the_client_logs_is_told_from_one_that_only_looks_like_it() {
    assert_eq!(kubectl_error("W0101 x\nplain\n"), "plain");
    assert_eq!(kubectl_error("E083 short\n"), "E083 short");
    assert_eq!(kubectl_error("X0830 other\n"), "X0830 other");
}

#[test]
fn the_end_of_a_call_says_what_it_means() {
    let told = |outcome| verdict("kubectl", 20, outcome);
    assert_eq!(told(Outcome::Answered("out".into())), Ok("out".to_owned()));
    assert_eq!(
        told(Outcome::Failed("error: context \"x\" does not exist\n".into())),
        Err("context \"x\" does not exist".to_owned())
    );
    assert_eq!(
        told(Outcome::NotFound),
        Err("kubectl is not installed or not on PATH".to_owned())
    );
    assert_eq!(
        told(Outcome::NotRun("denied".into())),
        Err("kubectl could not be run: denied".to_owned())
    );
    assert_eq!(
        told(Outcome::NotWaited("gone".into())),
        Err("kubectl could not be waited for: gone".to_owned())
    );
    assert_eq!(
        told(Outcome::TimedOut),
        Err(
            "kubectl did not answer in 20s — a kubelogin waiting for a device-code login \
             looks like this; run `kubelogin convert-kubeconfig -l azurecli`"
                .to_owned()
        )
    );
    assert_eq!(next_step(true, CALL_CAP, CALL_CAP), Step::Take);
    assert_eq!(next_step(false, CALL_CAP, CALL_CAP), Step::Kill);
    assert_eq!(next_step(false, 0, CALL_CAP), Step::Sleep(LOOK_AGAIN));
}

#[test]
fn a_scope_is_listed_by_its_namespace_or_by_all_of_them() {
    let own = Kubectl::pods_arguments(&scope("qa", Some("dev")));
    assert_eq!(own, ["get", "pods", "-o", "json", "-n", "dev"]);
    let all = Kubectl::pods_arguments(&scope("qa", None));
    assert_eq!(all, ["get", "pods", "-o", "json", "--all-namespaces"]);
    assert_eq!(
        Kubectl::arguments("aks-qa", &own)[..4],
        ["--context", "aks-qa", "--request-timeout=10s", "get"]
    );
}

#[test]
fn an_answer_is_the_pods_it_lists_or_what_is_wrong_with_it() {
    let listed = r#"{"items": [
        {"metadata": {"name": "a", "namespace": "dev"}},
        {"metadata": {}},
        {"metadata": {"name": "b", "namespace": "dev"}}
    ]}"#;
    let pods = Kubectl::pods(&scope("qa", Some("dev")), listed).unwrap();
    let names: Vec<&str> = pods.iter().map(|pod| pod.key.name.as_str()).collect();
    assert_eq!(names, ["a", "b"]);
    assert_eq!(pods[0].key.cluster, "qa");
    assert!(pods_listed("qa", &json::parse("{}").unwrap()).is_empty());
    let said = Kubectl::pods(&scope("qa", None), "no JSON").unwrap_err();
    let error = serde_json::from_str::<Value>("no JSON").unwrap_err();
    assert_eq!(
        said,
        format!("kubectl answered with something other than JSON: {error}")
    );
}

#[test]
fn a_failing_cadence_doubles_up_to_two_minutes_and_a_clean_read_ends_it() {
    let mut cadence = Cadence::new(DEFAULT_REFRESH);
    assert!(cadence.is_due(0), "never polled is due at once");
    let mut waits = Vec::new();
    for _ in 0..7 {
        cadence.polled(0, true);
        waits.push(cadence.until_due(0).unwrap() / secs(1));
    }
    assert_eq!(waits, [10, 20, 40, 80, 120, 120, 120]);
    cadence.polled(0, false);
    assert_eq!(cadence.until_due(0), Some(DEFAULT_REFRESH));
    assert_eq!(cadence.until_due(DEFAULT_REFRESH * 2), Some(0));
    cadence.set_base(HIDDEN_REFRESH);
    assert_eq!(cadence.until_due(0), Some(HIDDEN_REFRESH));
    cadence.ask();
    assert_eq!(cadence.until_due(0), Some(0));

    let mut slow = Cadence::new(MAX_CADENCE * 2);
    slow.polled(0, true);
    assert_eq!(slow.until_due(0), Some(MAX_CADENCE * 2), "never under its base");
    let mut never = Cadence::new(0);
    never.polled(5, true);
    assert_eq!(never.until_due(LONGEST), None);
    assert!(!never.is_due(LONGEST));
}

/// One scope read and what it answers.
type Answer = (Scope, Result<Vec<Pod>, String>);

/// A source over canned answers, counting what it was asked.
#[derive(Clone, Default)]
struct FakeKube {
    /// What each scope answers with; one with no entry answers nothing.
    answers: Arc<Mutex<Vec<Answer>>>,
    reads: Arc<Mutex<Vec<Scope>>>,
}

impl FakeKube {
    fn answer(&self, scope: &Scope, pods: Result<Vec<Pod>, &str>) {
        let mut answers = self.answers.lock().unwrap();
        answers.retain(|(held, _)| held != scope);
        answers.push((scope.clone(), pods.map_err(str::to_owned)));
    }
}

impl KubeSource for FakeKube {
    fn pods(&self, scope: &Scope) -> Result<Vec<Pod>, String> {
        self.reads.lock().unwrap().push(scope.clone());
        let answers = self.answers.lock().unwrap();
        match answers.iter().find(|(held, _)| held == scope) {
            Some((_, Ok(pods))) => Ok(pods.clone()),
            Some((_, Err(message))) => Err(message.clone()),
            None => Ok(Vec::new()),
        }
    }
}

fn scopes() -> Vec<Scope> {
    vec![
        scope("qa", Some("dev")),
        scope("qa", Some("qa")),
        scope("prod", Some("prod")),
    ]
}

fn watcher(fake: &FakeKube, fast: u128) -> Watcher<FakeKube> {
    Watcher::new(Box::new(fake.clone()), scopes(), fast)
}

fn pods_events(events: &[Event]) -> Vec<(usize, Result<usize, String>)> {
    events
        .iter()
        .filter_map(|event| match event {
            Event::Pods { scope, pods } => {
                Some((*scope, pods.as_ref().map(Vec::len).map_err(Clone::clone)))
            }
            _ => None,
        })
        .collect()
}

fn reads_of(fake: &FakeKube, cluster: &str, namespace: &str) -> usize {
    fake.reads
        .lock()
        .unwrap()
        .iter()
        .filter(|held| held.cluster == cluster && held.namespace.as_deref() == Some(namespace))
        .count()
}

#[test]
fn every_scope_is_read_at_once_the_open_one_first_then_on_its_own_cadence() {
    let fake = FakeKube::default();
    fake.answer(
        &scope("qa", Some("qa")),
        Ok(vec![pod("qa", "qa", "a", "Running")]),
    );
    let mut watcher = watcher(&fake, secs(5));
    watcher.handle(Request::Showing(1));
    let start = secs(1000);
    assert_eq!(watcher.until_due(start), Some(0));
    let events = watcher.poll_all(start);
    assert!(matches!(events[0], Event::Reading(1)), "the open tab first");
    assert_eq!(
        pods_events(&events),
        vec![(1, Ok(1)), (0, Ok(0)), (2, Ok(0))]
    );
    // The open tab again after five seconds; the others not for thirty.
    watcher.poll_all(start + secs(4));
    assert_eq!(fake.reads.lock().unwrap().len(), 3);
    assert_eq!(watcher.until_due(start + secs(4)), Some(secs(1)));
    watcher.poll_all(start + secs(5));
    assert_eq!(reads_of(&fake, "qa", "qa"), 2);
    assert_eq!(reads_of(&fake, "qa", "dev"), 1);
    watcher.poll_all(start + HIDDEN_REFRESH);
    assert_eq!(reads_of(&fake, "qa", "dev"), 2);
    assert_eq!(reads_of(&fake, "prod", "prod"), 2);
}

#[test]
fn switching_tabs_reads_the_new_one_at_once_and_slows_the_old_one_down() {
    let fake = FakeKube::default();
    let mut watcher = watcher(&fake, secs(5));
    watcher.handle(Request::Showing(0));
    let start = secs(1000);
    watcher.poll_all(start);
    assert_eq!(fake.reads.lock().unwrap().len(), 3);

    watcher.handle(Request::Showing(2));
    assert_eq!(watcher.until_due(start + secs(1)), Some(0));
    watcher.poll_all(start + secs(1));
    assert_eq!(
        reads_of(&fake, "prod", "prod"),
        2,
        "read the moment it shows"
    );
    assert_eq!(reads_of(&fake, "qa", "dev"), 1);
    // Six seconds on: prod again on the fast cadence, dev still waiting.
    watcher.poll_all(start + secs(7));
    assert_eq!(reads_of(&fake, "prod", "prod"), 3);
    assert_eq!(reads_of(&fake, "qa", "dev"), 1);
    // The same tab again is not a switch.
    watcher.handle(Request::Showing(2));
    assert_ne!(watcher.until_due(start + secs(7)), Some(0));
}

#[test]
fn a_scope_that_fails_backs_off_on_its_own_and_blanks_nothing_else() {
    let fake = FakeKube::default();
    fake.answer(
        &scope("qa", Some("dev")),
        Err("context \"aks-qa\" does not exist"),
    );
    fake.answer(
        &scope("prod", Some("prod")),
        Ok(vec![pod("prod", "prod", "a", "Running")]),
    );
    let mut watcher = watcher(&fake, secs(5));
    watcher.handle(Request::Showing(0));
    let start = secs(1000);
    let events = watcher.poll_all(start);
    assert_eq!(
        pods_events(&events),
        vec![
            (0, Err("context \"aks-qa\" does not exist".to_owned())),
            (1, Ok(0)),
            (2, Ok(1)),
        ]
    );
    // The failing scope waits ten seconds, not five.
    watcher.poll_all(start + secs(5));
    assert_eq!(reads_of(&fake, "qa", "dev"), 1);
    watcher.poll_all(start + secs(10));
    assert_eq!(reads_of(&fake, "qa", "dev"), 2);
    // Twenty more once it has failed twice; a clean read puts it back.
    watcher.poll_all(start + secs(20));
    assert_eq!(reads_of(&fake, "qa", "dev"), 2);
    fake.answer(&scope("qa", Some("dev")), Ok(Vec::new()));
    watcher.poll_all(start + secs(30));
    assert_eq!(reads_of(&fake, "qa", "dev"), 3);
    watcher.poll_all(start + secs(35));
    assert_eq!(reads_of(&fake, "qa", "dev"), 4, "back on the fast cadence");
}

#[test]
fn a_refresh_reads_one_scope_again_at_once_and_a_zero_cadence_reads_only_when_asked() {
    let fake = FakeKube::default();
    let mut watcher = watcher(&fake, 0);
    watcher.handle(Request::Showing(0));
    let start = secs(1000);
    watcher.poll_all(start);
    assert_eq!(fake.reads.lock().unwrap().len(), 3);
    // The open tab is never read again on its own; the hidden ones are.
    assert_eq!(
        watcher.until_due(start),
        Some(HIDDEN_REFRESH),
        "the hidden tabs' cadence is the next thing due"
    );
    watcher.poll_all(start + secs(20));
    assert_eq!(reads_of(&fake, "qa", "dev"), 1);
    watcher.handle(Request::Refresh(0));
    assert_eq!(watcher.until_due(start + secs(20)), Some(0));
    watcher.poll_all(start + secs(20));
    assert_eq!(reads_of(&fake, "qa", "dev"), 2);
    assert_eq!(reads_of(&fake, "qa", "qa"), 1, "only the one asked for");
    watcher.handle(Request::Refresh(9));
    assert_ne!(watcher.until_due(start + secs(20)), Some(0));
    assert!(!watcher.handle(Request::Stop));
}

#[test]
fn one_poll_is_one_read_and_a_burst_ends_at_the_first_stop() {
    let fake = FakeKube::default();
    let mut watcher = watcher(&fake, secs(5));
    assert_eq!(watcher.next_due(0), Some(0));
    assert!(matches!(watcher.starting(0), Some(Event::Reading(0))));
    let told = watcher.poll(0);
    assert_eq!(told.len(), 2);
    assert!(matches!(told[0], Event::Reading(0)));
    assert!(matches!(told[1], Event::Pods { scope: 0, pods: Ok(_) }));
    assert_eq!(fake.reads.lock().unwrap().len(), 1);
    assert_eq!(watcher.next_due(0), Some(1));
    assert!(matches!(
        watcher.read_due(0),
        Some(Event::Pods { scope: 1, pods: Ok(_) })
    ));
    watcher.poll_all(0);
    assert!(watcher.poll(0).is_empty());
    assert!(watcher.starting(0).is_none());
    assert!(watcher.read_due(0).is_none());
    assert!(watcher.handle_all(&vec![Request::Refresh(2), Request::Showing(0)]));
    assert_eq!(watcher.next_due(0), Some(0));
    assert!(!watcher.handle_all(&vec![Request::Stop, Request::Showing(1)]));
    assert_eq!(watcher.next_due(0), Some(0), "nothing after the stop is taken");
    let none = Watcher::new(Box::new(FakeKube::default()), Vec::new(), 0);
    assert_eq!(none.until_due(0), None);
    assert_eq!(none.idle_for(0), IDLE_WAIT);
    let told = watcher.take_read(2, 0, Err("no".into()));
    assert!(matches!(told, Event::Pods { scope: 2, pods: Err(_) }));
}

#[test]
fn a_wait_that_can_be_doubled_stays_one() {
    let fake = FakeKube::default();
    fake.answer(&scope("qa", Some("dev")), Err("no"));
    let mut watcher = watcher(&fake, LONGEST / 2);
    watcher.handle(Request::Showing(0));
    for _ in 0..5 {
        watcher.handle(Request::Refresh(0));
        watcher.poll_all(0);
        assert_eq!(reads_of(&fake, "qa", "dev"), fake.reads.lock().unwrap().len() - 2);
    }
    watcher.handle(Request::Showing(1));
    assert_eq!(watcher.until_due(0), Some(0));
}

#[test]
fn that_the_worker_is_gone_is_said_once() {
    let mut inbox = Inbox::new();
    assert!(inbox.take(Arrival::Nothing).is_none());
    assert!(matches!(
        inbox.take(Arrival::Told(Event::Reading(1))),
        Some(Event::Reading(1))
    ));
    assert!(matches!(inbox.take(Arrival::Gone), Some(Event::Stopped)));
    assert!(inbox.take(Arrival::Gone).is_none(), "Stopped is said once");
}

#[test]
fn a_document_reads_as_serde_json_reads_it() {
    let held = json::parse(r#"{"a": [1, -2, 2.5, true, null, "x"], "a2": {}}"#).unwrap();
    let items = held.at("a").items().unwrap();
    assert_eq!(items[0].unsigned(), Some(1));
    assert_eq!(items[1].signed(), Some(-2));
    assert_eq!(items[1].unsigned(), None);
    assert_eq!(items[2].signed(), None);
    assert!(items[3].is_true() && items[4].is_null());
    assert_eq!(items[5].text(), Some("x"));
    assert!(held.at("a2").entries().unwrap().is_empty());
    assert!(held.at("b").at("c").is_null());
    assert!(json::parse("{ not json").is_err());
}
