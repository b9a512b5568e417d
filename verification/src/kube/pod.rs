//! One pod, as `kubectl get pods` would print it.

use vstd::prelude::*;
use vstd::string::*;

use crate::text;
use crate::text::{copy_pairs, decimal, pairs, same, starts_with};
use crate::timestamp::Timestamp;

verus! {

/// One pod, by where it lives.
#[derive(Debug, PartialEq, Eq)]
pub struct PodKey {
    /// The cluster's name in `config.toml`, not its context.
    pub cluster: String,
    pub namespace: String,
    pub name: String,
}

pub struct PodKeyView {
    pub cluster: Seq<char>,
    pub namespace: Seq<char>,
    pub name: Seq<char>,
}

impl View for PodKey {
    type V = PodKeyView;

    open spec fn view(&self) -> PodKeyView {
        PodKeyView {
            cluster: self.cluster@,
            namespace: self.namespace@,
            name: self.name@,
        }
    }
}

impl Clone for PodKey {
    fn clone(&self) -> (copy: Self)
        ensures
            copy@ == self@,
    {
        PodKey {
            cluster: self.cluster.clone(),
            namespace: self.namespace.clone(),
            name: self.name.clone(),
        }
    }
}

/// One container of a pod, as its status reports it.
#[derive(Debug, PartialEq, Eq)]
pub struct Container {
    pub name: String,
    pub image: String,
    pub ready: bool,
    pub restarts: u32,
    /// `Running`, or the reason it is waiting or has stopped:
    /// `CrashLoopBackOff`, `Completed`, `ExitCode:137`.
    pub state: String,
    /// Why it last stopped, and with what code, when it has stopped before.
    pub last_termination: Option<(String, i64)>,
}

pub struct ContainerView {
    pub name: Seq<char>,
    pub image: Seq<char>,
    pub ready: bool,
    pub restarts: u32,
    pub state: Seq<char>,
    pub last_termination: Option<(Seq<char>, i64)>,
}

impl View for Container {
    type V = ContainerView;

    open spec fn view(&self) -> ContainerView {
        ContainerView {
            name: self.name@,
            image: self.image@,
            ready: self.ready,
            restarts: self.restarts,
            state: self.state@,
            last_termination: match self.last_termination {
                Some(held) => Some((held.0@, held.1)),
                None => None,
            },
        }
    }
}

impl Clone for Container {
    fn clone(&self) -> (copy: Self)
        ensures
            copy@ == self@,
    {
        Container {
            name: self.name.clone(),
            image: self.image.clone(),
            ready: self.ready,
            restarts: self.restarts,
            state: self.state.clone(),
            last_termination: match &self.last_termination {
                Some(held) => Some((held.0.clone(), held.1)),
                None => None,
            },
        }
    }
}

/// What each container is.
pub open spec fn container_views(held: Seq<Container>) -> Seq<ContainerView> {
    held.map_values(|container: Container| container@)
}

/// One pod, as `kubectl get pods` would print it, with what the details pane
/// wants besides.
#[derive(Debug, PartialEq, Eq)]
pub struct Pod {
    pub key: PodKey,
    /// The STATUS word: `Running`, `CrashLoopBackOff`, `Init:1/2`, …
    pub status: String,
    /// Containers ready, and containers in the spec.
    pub ready: (usize, usize),
    pub restarts: u32,
    pub created: Option<Timestamp>,
    pub node: String,
    pub ip: String,
    /// What made it, as `(kind, name)`: `("Deployment", "orders-api")`.
    pub owner: Option<(String, String)>,
    pub containers: Vec<Container>,
    /// Every label, sorted by key.
    pub labels: Vec<(String, String)>,
}

pub struct PodView {
    pub key: PodKeyView,
    pub status: Seq<char>,
    pub ready: (int, int),
    pub restarts: u32,
    pub created: Option<int>,
    pub node: Seq<char>,
    pub ip: Seq<char>,
    pub owner: Option<(Seq<char>, Seq<char>)>,
    pub containers: Seq<ContainerView>,
    pub labels: Seq<(Seq<char>, Seq<char>)>,
}

impl View for Pod {
    type V = PodView;

    open spec fn view(&self) -> PodView {
        PodView {
            key: self.key@,
            status: self.status@,
            ready: (self.ready.0 as int, self.ready.1 as int),
            restarts: self.restarts,
            created: match self.created {
                Some(stamp) => Some(stamp@),
                None => None,
            },
            node: self.node@,
            ip: self.ip@,
            owner: match self.owner {
                Some(held) => Some((held.0@, held.1@)),
                None => None,
            },
            containers: container_views(self.containers@),
            labels: pairs(self.labels@),
        }
    }
}

/// What each pod is.
pub open spec fn pod_views(held: Seq<Pod>) -> Seq<PodView> {
    held.map_values(|pod: Pod| pod@)
}

fn copy_containers(held: &Vec<Container>) -> (copy: Vec<Container>)
    ensures
        container_views(copy@) == container_views(held@),
{
    let mut copy: Vec<Container> = Vec::new();
    let mut at: usize = 0;
    while at < held.len()
        invariant
            at <= held@.len(),
            container_views(copy@) == container_views(held@).take(at as int),
        decreases held@.len() - at,
    {
        let ghost before = copy@;
        copy.push(held[at].clone());
        assert(container_views(copy@) =~= container_views(before).push(held@[at as int]@));
        assert(container_views(held@).take(at as int + 1) =~= container_views(held@).take(
            at as int,
        ).push(held@[at as int]@));
        at += 1;
    }
    assert(container_views(held@).take(at as int) =~= container_views(held@));
    copy
}

impl Clone for Pod {
    fn clone(&self) -> (copy: Self)
        ensures
            copy@ == self@,
    {
        Pod {
            key: self.key.clone(),
            status: self.status.clone(),
            ready: self.ready,
            restarts: self.restarts,
            created: self.created,
            node: self.node.clone(),
            ip: self.ip.clone(),
            owner: match &self.owner {
                Some(held) => Some((held.0.clone(), held.1.clone())),
                None => None,
            },
            containers: copy_containers(&self.containers),
            labels: copy_pairs(&self.labels),
        }
    }
}

/// Every pod, copied.
pub fn copy_pods(held: &Vec<Pod>) -> (copy: Vec<Pod>)
    ensures
        pod_views(copy@) == pod_views(held@),
{
    let mut copy: Vec<Pod> = Vec::new();
    let mut at: usize = 0;
    while at < held.len()
        invariant
            at <= held@.len(),
            pod_views(copy@) == pod_views(held@).take(at as int),
        decreases held@.len() - at,
    {
        let ghost before = copy@;
        copy.push(held[at].clone());
        assert(pod_views(copy@) =~= pod_views(before).push(held@[at as int]@));
        assert(pod_views(held@).take(at as int + 1) =~= pod_views(held@).take(at as int).push(
            held@[at as int]@,
        ));
        at += 1;
    }
    assert(pod_views(held@).take(at as int) =~= pod_views(held@));
    copy
}

/// What is held under `key`: the first pair's value, where there is one.
pub open spec fn value_of(held: Seq<(Seq<char>, Seq<char>)>, key: Seq<char>) -> Option<Seq<char>>
    decreases held.len(),
{
    if held.len() == 0 {
        None
    } else if held[0].0 == key {
        Some(held[0].1)
    } else {
        value_of(held.skip(1), key)
    }
}

/// Whether a STATUS word, with any `Init:` in front of it removed, is one
/// somebody has to look at.
pub open spec fn is_unhealthy_word(word: Seq<char>) -> bool {
    ||| word == "CrashLoopBackOff"@
    ||| word == "Error"@
    ||| word == "ImagePullBackOff"@
    ||| word == "ErrImagePull"@
    ||| word == "InvalidImageName"@
    ||| word == "CreateContainerConfigError"@
    ||| word == "CreateContainerError"@
    ||| word == "OOMKilled"@
    ||| word == "Evicted"@
    ||| word == "Failed"@
    ||| word == "ContainerStatusUnknown"@
    ||| word == "Unknown"@
    ||| starts_with(word, "ExitCode:"@)
}

impl PodView {
    pub open spec fn ready_label(self) -> Seq<char> {
        decimal(self.ready.0 as nat) + "/"@ + decimal(self.ready.1 as nat)
    }

    pub open spec fn owner_label(self) -> Seq<char> {
        match self.owner {
            Some(held) => held.0 + "/"@ + held.1,
            None => "\u{2014}"@,
        }
    }

    pub open spec fn owner_name(self) -> Seq<char> {
        match self.owner {
            Some(held) => held.1,
            None => seq![],
        }
    }

    pub open spec fn is_unhealthy(self) -> bool {
        is_unhealthy_word(
            if starts_with(self.status, "Init:"@) {
                self.status.skip("Init:"@.len() as int)
            } else {
                self.status
            },
        )
    }

    /// Finished: `Completed` or `Succeeded`.
    pub open spec fn has_finished(self) -> bool {
        self.status == "Completed"@ || self.status == "Succeeded"@
    }

    /// Running, with every container of its spec ready.
    pub open spec fn is_up(self) -> bool {
        self.status == "Running"@ && self.ready.1 > 0 && self.ready.0 == self.ready.1
    }

    /// On its way somewhere.
    pub open spec fn is_moving(self) -> bool {
        ||| self.status == "Running"@
        ||| self.status == "Pending"@
        ||| self.status == "ContainerCreating"@
        ||| self.status == "PodInitializing"@
        ||| self.status == "Terminating"@
        ||| starts_with(self.status, "Init:"@)
    }

    /// `✗` in trouble, `●` running and ready, `✓` finished, `◐` on its way
    /// somewhere, `○` anything else.
    pub open spec fn glyph(self) -> Seq<char> {
        if self.is_unhealthy() {
            "\u{2717}"@
        } else if self.is_up() {
            "\u{25cf}"@
        } else if self.has_finished() {
            "\u{2713}"@
        } else if self.is_moving() {
            "\u{25d0}"@
        } else {
            "\u{25cb}"@
        }
    }

    pub open spec fn app(self) -> Option<Seq<char>> {
        match value_of(self.labels, "app"@) {
            Some(held) => Some(held),
            None => value_of(self.labels, "app.kubernetes.io/name"@),
        }
    }
}

/// Whether a STATUS word, with any `Init:` in front of it removed, is one
/// somebody has to look at.
pub fn unhealthy_word(word: &str) -> (answer: bool)
    ensures
        answer == is_unhealthy_word(word@),
{
    same(word, "CrashLoopBackOff") || same(word, "Error") || same(word, "ImagePullBackOff") || same(
        word,
        "ErrImagePull",
    ) || same(word, "InvalidImageName") || same(word, "CreateContainerConfigError") || same(
        word,
        "CreateContainerError",
    ) || same(word, "OOMKilled") || same(word, "Evicted") || same(word, "Failed") || same(
        word,
        "ContainerStatusUnknown",
    ) || same(word, "Unknown") || text::begins(word, "ExitCode:")
}

impl Pod {
    /// The value of one label.
    pub fn label(&self, key: &str) -> (value: Option<&str>)
        ensures
            value is Some <==> value_of(self@.labels, key@) is Some,
            value matches Some(value) ==> value_of(self@.labels, key@) == Some(value@),
    {
        let ghost held = self@.labels;
        let mut at: usize = 0;
        assert(held.skip(0) =~= held);
        while at < self.labels.len()
            invariant
                at <= self.labels@.len(),
                held == pairs(self.labels@),
                held == self@.labels,
                value_of(held, key@) == value_of(held.skip(at as int), key@),
            decreases self.labels@.len() - at,
        {
            assert(held.skip(at as int)[0] == (
                self.labels@[at as int].0@,
                self.labels@[at as int].1@,
            ));
            if same(self.labels[at].0.as_str(), key) {
                return Some(self.labels[at].1.as_str());
            }
            assert(held.skip(at as int).skip(1) =~= held.skip(at as int + 1));
            at += 1;
        }
        None
    }

    /// `1/2`, the READY column.
    pub fn ready_label(&self) -> (label: String)
        ensures
            label@ == self@.ready_label(),
    {
        text::print(self.ready.0 as u128).concat("/").concat(
            text::print(self.ready.1 as u128).as_str(),
        )
    }

    /// `Deployment/orders-api`, or a dash for a pod nothing put there.
    pub fn owner_label(&self) -> (label: String)
        ensures
            label@ == self@.owner_label(),
    {
        match &self.owner {
            Some(held) => held.0.clone().concat("/").concat(held.1.as_str()),
            None => "\u{2014}".to_owned(),
        }
    }

    /// What `owner:` filters on: `orders-api`.
    pub fn owner_name(&self) -> (name: &str)
        ensures
            name@ == self@.owner_name(),
    {
        match &self.owner {
            Some(held) => held.1.as_str(),
            None => {
                proof {
                    reveal_strlit("");
                }
                assert(""@ =~= seq![]);
                ""
            },
        }
    }

    /// Whether deleting it restarts anything: a pod with a controller is put
    /// back by that controller, a bare pod is simply gone.
    pub fn restartable(&self) -> (answer: bool)
        ensures
            answer == (self@.owner is Some),
    {
        self.owner.is_some()
    }

    /// Whether the STATUS word is one somebody has to look at.
    pub fn is_unhealthy(&self) -> (answer: bool)
        ensures
            answer == self@.is_unhealthy(),
    {
        match text::after(self.status.as_str(), "Init:") {
            Some(word) => unhealthy_word(word.as_str()),
            None => unhealthy_word(self.status.as_str()),
        }
    }

    /// The glyph the conventions give the pod: `●` running and ready, `◐`
    /// on its way somewhere, `✓` finished, `✗` in trouble, `○` anything else.
    pub fn glyph(&self) -> (glyph: &'static str)
        ensures
            glyph@ == self@.glyph(),
    {
        let status = self.status.as_str();
        if self.is_unhealthy() {
            "\u{2717}"
        } else if same(status, "Running") && self.ready.1 > 0 && self.ready.0 == self.ready.1 {
            "\u{25cf}"
        } else if same(status, "Completed") || same(status, "Succeeded") {
            "\u{2713}"
        } else if same(status, "Running") || same(status, "Pending") || same(
            status,
            "ContainerCreating",
        ) || same(status, "PodInitializing") || same(status, "Terminating") || text::begins(
            status,
            "Init:",
        ) {
            "\u{25d0}"
        } else {
            "\u{25cb}"
        }
    }

    /// The name of the container the log follows when nobody has chosen one.
    pub fn first_container(&self) -> (name: Option<&str>)
        ensures
            name is Some <==> self@.containers.len() > 0,
            name matches Some(name) ==> name@ == self@.containers[0].name,
    {
        if self.containers.len() > 0 {
            Some(self.containers[0].name.as_str())
        } else {
            None
        }
    }

    /// The `app` label, or the `app.kubernetes.io/name` one: what `app:`
    /// filters on.
    pub fn app(&self) -> (value: Option<&str>)
        ensures
            value is Some <==> self@.app() is Some,
            value matches Some(value) ==> self@.app() == Some(value@),
    {
        match self.label("app") {
            Some(held) => Some(held),
            None => self.label("app.kubernetes.io/name"),
        }
    }
}

} // verus!
