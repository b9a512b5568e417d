use aks_tui::cache::{CachedScope, Snapshot, VERSION};
use aks_tui::config::{Scope, Tab};
use aks_tui::kube::{Container, Event, Pod, PodKey};
use aks_tui::store::{Applied, Store};
use aks_tui::timestamp::Timestamp;

fn pod(cluster: &str, namespace: &str, name: &str, status: &str) -> Pod {
    Pod {
        key: PodKey {
            cluster: cluster.to_owned(),
            namespace: namespace.to_owned(),
            name: name.to_owned(),
        },
        status: status.to_owned(),
        ready: (1, 1),
        restarts: 0,
        created: Timestamp::parse("2026-08-30T10:00:00Z"),
        node: "aks-nodepool1-0".to_owned(),
        ip: "10.0.0.7".to_owned(),
        owner: Some(("Deployment".to_owned(), "orders-api".to_owned())),
        containers: vec![Container {
            name: "api".to_owned(),
            image: "myacr.azurecr.io/team/orders-api:1.2.3".to_owned(),
            ready: true,
            restarts: 0,
            state: "Running".to_owned(),
            last_termination: None,
        }],
        labels: vec![("app".to_owned(), "orders-api".to_owned())],
    }
}

/// A pod in trouble, which is what the badge counts and the glyph paints.
fn crashing(cluster: &str, namespace: &str, name: &str) -> Pod {
    let mut pod = pod(cluster, namespace, name, "CrashLoopBackOff");
    pod.ready = (0, 1);
    pod.restarts = 9;
    pod.containers[0].ready = false;
    pod.containers[0].restarts = 9;
    pod.containers[0].state = "CrashLoopBackOff".to_owned();
    pod.containers[0].last_termination = Some(("Error".to_owned(), 1));
    pod
}

fn tab(label: &str, cluster: &str, context: &str, namespace: &str) -> Tab {
    Tab {
        label: label.to_owned(),
        scope: Scope {
            cluster: cluster.to_owned(),
            context: context.to_owned(),
            namespace: Some(namespace.to_owned()),
        },
    }
}

fn tabs() -> Vec<Tab> {
    vec![
        tab("qa/dev", "qa", "aks-qa", "dev"),
        tab("qa/qa", "qa", "aks-qa", "qa"),
        tab("qa/uat", "qa", "aks-qa", "uat"),
        tab("prod", "prod", "prod", "prod"),
    ]
}

#[test]
fn a_read_replaces_one_scopes_rows_and_a_failure_keeps_them_with_a_message() {
    let mut store = Store::new(4);
    assert_eq!(store.apply(Event::Reading(0)), Applied::Status);
    assert!(store.reading());
    assert_eq!(
        store.apply(Event::Pods {
            scope: 0,
            pods: Ok(vec![
                pod("qa", "dev", "a", "Running"),
                crashing("qa", "dev", "b")
            ]),
        }),
        Applied::Pods(0)
    );
    assert!(!store.reading());
    assert_eq!(store.scopes[0].pods.len(), 2);
    assert_eq!(store.scopes[0].unhealthy(), 1);
    assert_eq!(store.scopes[0].reads, 1);
    assert!(store.scopes[0].read_at.is_some());
    assert!(
        store.scopes[1].pods.is_empty(),
        "the other scopes are untouched"
    );

    let read_at = store.scopes[0].read_at;
    assert_eq!(
        store.apply(Event::Pods {
            scope: 0,
            pods: Err("Unable to connect to the server".into()),
        }),
        Applied::Failed(0)
    );
    assert_eq!(
        store.scopes[0].pods.len(),
        2,
        "yesterday's rows beat no rows"
    );
    assert_eq!(
        store.scopes[0].read_at, read_at,
        "and are not said to be newer"
    );
    assert_eq!(
        store.problems(&tabs()),
        vec!["qa/dev: Unable to connect to the server"]
    );

    store.apply(Event::Pods {
        scope: 0,
        pods: Ok(Vec::new()),
    });
    assert!(
        store.scopes[0].error.is_none(),
        "a read that worked clears it"
    );
    assert!(store.scopes[0].pods.is_empty());
    assert_eq!(
        store.apply(Event::Pods {
            scope: 9,
            pods: Ok(Vec::new())
        }),
        Applied::Nothing,
        "a scope that is not there"
    );
}

#[test]
fn the_cache_round_trips_by_scope_not_by_position() {
    let tabs = tabs();
    let mut store = Store::new(tabs.len());
    store.apply(Event::Pods {
        scope: 3,
        pods: Ok(vec![pod("prod", "prod", "a", "Running")]),
    });
    let snapshot = store.snapshot(&tabs);
    assert_eq!(snapshot.scopes.len(), 1, "only what has been read");

    // The same file, read into a config that lists prod first.
    let reordered = vec![
        tab("prod", "prod", "prod", "prod"),
        tab("qa/dev", "qa", "aks-qa", "dev"),
    ];
    let restored = Store::from_cache(&snapshot, &reordered);
    assert_eq!(
        restored.scopes[0].pods.len(),
        1,
        "prod's rows landed on prod's tab"
    );
    assert!(restored.scopes[0].read_at.is_some());
    assert_eq!(restored.scopes[0].reads, 0, "from the cache is not a read");
    assert!(restored.scopes[1].pods.is_empty());
    let stranger = vec![tab("lab", "lab", "lab", "lab")];
    let restored = Store::from_cache(&snapshot, &stranger);
    assert!(restored.scopes[0].pods.is_empty(), "no tab had that scope");
    assert!(restored.scopes[0].read_at.is_none());
}

#[test]
fn a_read_is_stamped_with_the_time_it_came_in() {
    let now = Timestamp::parse("2026-09-12T20:00:00Z").unwrap();
    let mut store = Store::new(1);
    store.apply_at(
        Event::Pods {
            scope: 0,
            pods: Ok(Vec::new()),
        },
        now,
    );
    assert_eq!(store.scope(0).unwrap().read_at, Some(now));
    assert!(store.scope(1).is_none());
    assert_eq!(store.apply_at(Event::Reading(4), now), Applied::Nothing);
    store.apply_at(Event::Reading(0), now);
    assert_eq!(store.apply_at(Event::Stopped, now), Applied::Status);
    let before = Timestamp::now();
    store.apply(Event::Pods {
        scope: 0,
        pods: Ok(Vec::new()),
    });
    let stamped = store.scopes[0].read_at.unwrap();
    assert!(before.seconds() <= stamped.seconds());
    assert!(stamped.seconds() <= Timestamp::now().seconds());
}

#[test]
fn a_snapshot_of_another_version_is_not_taken() {
    let scope = CachedScope {
        scope: tabs()[0].scope.clone(),
        read_at: Timestamp::parse("2026-09-12T20:00:00Z").unwrap(),
        pods: vec![pod("qa", "dev", "orders-api-7d9f5b-abc12", "Running")],
    };
    let held = Snapshot::new(vec![scope.clone()]);
    assert_eq!(held.version, VERSION);
    let read = Snapshot::of_version(VERSION, vec![scope.clone()]).unwrap();
    assert_eq!(read.scopes[0].scope, scope.scope);
    assert_eq!(read.scopes[0].read_at.to_rfc3339(), "2026-09-12T20:00:00Z");
    assert_eq!(read.scopes[0].pods[0].key.name, "orders-api-7d9f5b-abc12");
    assert!(Snapshot::of_version(2, vec![scope]).is_none());
}
