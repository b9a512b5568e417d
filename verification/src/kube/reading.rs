//! One entry of `kubectl get pods -o json`, read as a pod.

use vstd::prelude::*;
use vstd::string::*;

use crate::json::{entry_views, views, Json, JsonView};
use crate::text;
use crate::text::{decimal, ends_with, pairs, signed_decimal, sorted};
use crate::timestamp::{moment, Timestamp};

use super::pod::{
    container_views, pod_views, Container, ContainerView, Pod, PodKey, PodKeyView, PodView,
};

verus! {

/// A number, or zero where there is none.
pub open spec fn or_zero(number: Option<i64>) -> i64 {
    match number {
        Some(held) => held,
        None => 0,
    }
}

/// What a stopped container says: its reason, or its exit code when it gave
/// none.
pub open spec fn termination(terminated: JsonView) -> Seq<char> {
    match terminated.at("reason"@).non_empty() {
        Some(reason) => reason,
        None => "ExitCode:"@ + signed_decimal(
            or_zero(terminated.at("exitCode"@).signed()) as int,
        ),
    }
}

/// `Running`, or the reason a container is waiting or has stopped.
pub open spec fn state_of(state: JsonView) -> Seq<char> {
    if !(state.at("running"@) is Null) {
        "Running"@
    } else {
        match state.at("waiting"@).at("reason"@).non_empty() {
            Some(reason) => reason,
            None => if !(state.at("terminated"@) is Null) {
                termination(state.at("terminated"@))
            } else {
                "Waiting"@
            },
        }
    }
}

/// Why a container last stopped, and with what code.
pub open spec fn last_stop(terminated: JsonView) -> Option<(Seq<char>, i64)> {
    if terminated is Null {
        None
    } else {
        Some(
            (
                match terminated.at("reason"@).non_empty() {
                    Some(reason) => reason,
                    None => "Terminated"@,
                },
                or_zero(terminated.at("exitCode"@).signed()),
            ),
        )
    }
}

/// The image that runs, or the one that was asked for, or nothing.
pub open spec fn image_of(spec_of: JsonView, status: JsonView) -> Seq<char> {
    match status.at("image"@).non_empty() {
        Some(image) => image,
        None => match spec_of.at("image"@).non_empty() {
            Some(image) => image,
            None => ""@,
        },
    }
}

/// A restart count, or zero where there is none that a `u32` holds.
pub open spec fn restarts_of(count: JsonView) -> u32 {
    match count.unsigned() {
        Some(count) if count <= u32::MAX => count as u32,
        _ => 0,
    }
}

/// One container, joined from its spec and its status. A container that has
/// no status yet has a null one.
pub open spec fn container_of(name: Seq<char>, spec_of: JsonView, status: JsonView) -> ContainerView {
    ContainerView {
        name,
        image: image_of(spec_of, status),
        ready: status.at("ready"@).is_true(),
        restarts: restarts_of(status.at("restartCount"@)),
        state: state_of(status.at("state"@)),
        last_termination: last_stop(status.at("lastState"@).at("terminated"@)),
    }
}

/// The first of these that is called `name`, or null.
pub open spec fn named(statuses: Seq<JsonView>, name: Seq<char>) -> JsonView
    decreases statuses.len(),
{
    if statuses.len() == 0 {
        JsonView::Null
    } else if statuses[0].at("name"@).text() == Some(name) {
        statuses[0]
    } else {
        named(statuses.skip(1), name)
    }
}

/// Every container of a spec that has a name, in order, with its status.
pub open spec fn containers_of(specs: Seq<JsonView>, statuses: Seq<JsonView>) -> Seq<ContainerView>
    decreases specs.len(),
{
    if specs.len() == 0 {
        seq![]
    } else {
        let before = containers_of(specs.drop_last(), statuses);
        match specs.last().at("name"@).text() {
            Some(name) => before.push(container_of(name, specs.last(), named(statuses, name))),
            None => before,
        }
    }
}

/// The reference to the controller, or to the first owner where none of
/// them controls, or null.
pub open spec fn owner_reference(references: Seq<JsonView>, from: int) -> JsonView
    decreases references.len() - from,
{
    if from < 0 || from >= references.len() {
        if references.len() > 0 {
            references[0]
        } else {
            JsonView::Null
        }
    } else if references[from].at("controller"@).is_true() {
        references[from]
    } else {
        owner_reference(references, from + 1)
    }
}

/// What made the pod, as `(kind, name)`. A ReplicaSet named after its
/// pod-template hash is a Deployment's.
pub open spec fn made_by(item: JsonView) -> Option<(Seq<char>, Seq<char>)> {
    let metadata = item.at("metadata"@);
    let owner = owner_reference(metadata.at("ownerReferences"@).items(), 0);
    match (owner.at("kind"@).text(), owner.at("name"@).text()) {
        (Some(kind), Some(name)) => {
            match metadata.at("labels"@).at("pod-template-hash"@).non_empty() {
                Some(hash) if kind == "ReplicaSet"@ && ends_with(name, "-"@ + hash) => Some(
                    ("Deployment"@, name.take(name.len() - ("-"@ + hash).len())),
                ),
                _ => Some((kind, name)),
            }
        },
        _ => None,
    }
}

/// What a stopped container says: its reason, or its exit code when it gave
/// none.
fn termination_word(terminated: &Json) -> (word: String)
    ensures
        word@ == termination(terminated@),
{
    match terminated.at("reason").non_empty() {
        Some(reason) => reason.to_owned(),
        None => {
            let code = match terminated.at("exitCode").signed() {
                Some(code) => code,
                None => 0,
            };
            "ExitCode:".to_owned().concat(text::print_signed(code).as_str())
        },
    }
}

/// `Running`, or the reason a container is waiting or has stopped.
fn state_word(state: &Json) -> (word: String)
    ensures
        word@ == state_of(state@),
{
    if !state.at("running").is_null() {
        "Running".to_owned()
    } else if let Some(reason) = state.at("waiting").at("reason").non_empty() {
        reason.to_owned()
    } else if !state.at("terminated").is_null() {
        termination_word(state.at("terminated"))
    } else {
        "Waiting".to_owned()
    }
}

/// One container, joined from its spec and its status, which is null before
/// it has one.
fn container(name: &str, spec_of: &Json, status: &Json) -> (container: Container)
    ensures
        container@ == container_of(name@, spec_of@, status@),
{
    let terminated = status.at("lastState").at("terminated");
    let last_termination = if terminated.is_null() {
        None
    } else {
        let reason = match terminated.at("reason").non_empty() {
            Some(reason) => reason,
            None => "Terminated",
        };
        let code = match terminated.at("exitCode").signed() {
            Some(code) => code,
            None => 0,
        };
        Some((reason.to_owned(), code))
    };
    let image = match status.at("image").non_empty() {
        Some(image) => image,
        None => match spec_of.at("image").non_empty() {
            Some(image) => image,
            None => "",
        },
    };
    let restarts: u32 = match status.at("restartCount").unsigned() {
        Some(count) => if count <= u32::MAX as u64 {
            count as u32
        } else {
            0
        },
        None => 0,
    };
    Container {
        name: name.to_owned(),
        image: image.to_owned(),
        ready: status.at("ready").is_true(),
        restarts,
        state: state_word(status.at("state")),
        last_termination,
    }
}

/// The first of these that is called `name`, or null.
fn status_of<'a>(statuses: &'a Vec<Json>, name: &str) -> (status: &'a Json)
    ensures
        status@ == named(views(statuses@), name@),
{
    let ghost all = views(statuses@);
    let mut at: usize = 0;
    assert(all.skip(0) =~= all);
    while at < statuses.len()
        invariant
            at <= statuses@.len(),
            all == views(statuses@),
            named(all, name@) == named(all.skip(at as int), name@),
        decreases statuses@.len() - at,
    {
        assert(all.skip(at as int)[0] == statuses@[at as int]@);
        if let Some(held) = statuses[at].at("name").text() {
            if text::same(held, name) {
                return &statuses[at];
            }
        }
        assert(all.skip(at as int).skip(1) =~= all.skip(at as int + 1));
        at += 1;
    }
    &Json::Null
}

/// What made the pod. A ReplicaSet named after a pod-template hash is a
/// Deployment's, and is reported as that Deployment, which is the name that
/// means something.
fn owner_of(item: &Json) -> (owner: Option<(String, String)>)
    ensures
        match owner {
            Some(owner) => made_by(item@) == Some((owner.0@, owner.1@)),
            None => made_by(item@) is None,
        },
{
    let metadata = item.at("metadata");
    let references = match metadata.at("ownerReferences").items() {
        Some(references) => references,
        None => return None,
    };
    if references.len() == 0 {
        return None;
    }
    let ghost all = views(references@);
    let mut chosen: usize = 0;
    let mut at: usize = 0;
    while at < references.len()
        invariant_except_break
            chosen == 0,
        invariant
            at <= references@.len(),
            references@.len() > 0,
            all == views(references@),
            owner_reference(all, 0) == owner_reference(all, at as int),
        ensures
            chosen < references@.len(),
            owner_reference(all, 0) == all[chosen as int],
        decreases references@.len() - at,
    {
        if references[at].at("controller").is_true() {
            chosen = at;
            break;
        }
        at += 1;
    }
    let owner = &references[chosen];
    assert(owner@ == all[chosen as int]);
    let kind = match owner.at("kind").text() {
        Some(kind) => kind,
        None => return None,
    };
    let name = match owner.at("name").text() {
        Some(name) => name,
        None => return None,
    };
    if text::same(kind, "ReplicaSet") {
        if let Some(hash) = metadata.at("labels").at("pod-template-hash").non_empty() {
            if let Some(base) = text::before(name, "-".to_owned().concat(hash).as_str()) {
                return Some(("Deployment".to_owned(), base));
            }
        }
    }
    Some((kind.to_owned(), name.to_owned()))
}

/// An init container that is done: it stopped, with an exit code of zero.
pub open spec fn is_done(status: JsonView) -> bool {
    let terminated = status.at("state"@).at("terminated"@);
    !(terminated is Null) && terminated.at("exitCode"@).signed() == Some(0i64)
}

/// How many of these are done before the first that is not.
pub open spec fn done_before(statuses: Seq<JsonView>) -> nat
    decreases statuses.len(),
{
    if statuses.len() == 0 || !is_done(statuses[0]) {
        0
    } else {
        1 + done_before(statuses.skip(1))
    }
}

/// What an init container that is not done makes of the STATUS word: why it
/// stopped, what it waits for, or how far along the pod is.
pub open spec fn init_word(status: JsonView, done: nat, total: nat) -> Seq<char> {
    let state = status.at("state"@);
    if !(state.at("terminated"@) is Null) {
        "Init:"@ + termination(state.at("terminated"@))
    } else {
        match state.at("waiting"@).at("reason"@).non_empty() {
            Some(reason) if reason != "PodInitializing"@ => "Init:"@ + reason,
            _ => "Init:"@ + decimal(done) + "/"@ + decimal(total),
        }
    }
}

/// What a container is waiting on or has stopped for, when it is either.
pub open spec fn complaint(status: JsonView) -> Option<Seq<char>> {
    let state = status.at("state"@);
    match state.at("waiting"@).at("reason"@).non_empty() {
        Some(reason) => Some(reason),
        None => if !(state.at("terminated"@) is Null) {
            Some(termination(state.at("terminated"@)))
        } else {
            None
        },
    }
}

/// The first container's complaint, where one of them has any.
pub open spec fn first_complaint(statuses: Seq<JsonView>) -> Option<Seq<char>>
    decreases statuses.len(),
{
    if statuses.len() == 0 {
        None
    } else if complaint(statuses[0]) is Some {
        complaint(statuses[0])
    } else {
        first_complaint(statuses.skip(1))
    }
}

/// A container that runs, is ready and complains of nothing.
pub open spec fn is_serving(status: JsonView) -> bool {
    &&& complaint(status) is None
    &&& status.at("ready"@).is_true()
    &&& !(status.at("state"@).at("running"@) is Null)
}

/// The word the containers leave standing. One that finished beside one
/// still running reads as running.
pub open spec fn containers_word(statuses: Seq<JsonView>, otherwise: Seq<char>) -> Seq<char> {
    let word = match first_complaint(statuses) {
        Some(word) => word,
        None => otherwise,
    };
    if word == "Completed"@ && exists|at: int|
        0 <= at < statuses.len() && is_serving(#[trigger] statuses[at]) {
        "Running"@
    } else {
        word
    }
}

/// The phase, which is unknown where the status does not say.
pub open spec fn phase_of(item: JsonView) -> Seq<char> {
    match item.at("status"@).at("phase"@).text() {
        Some(phase) => phase,
        None => "Unknown"@,
    }
}

/// The STATUS word of a pod: its own reason or phase, overridden by the
/// first init container still going, else by whatever the containers are
/// waiting on or stopped for, and `Terminating` over all of it once a delete
/// is in.
pub open spec fn status_of_pod(item: JsonView) -> Seq<char> {
    let status = item.at("status"@);
    let phase = phase_of(item);
    let own = match status.at("reason"@).non_empty() {
        Some(reason) => reason,
        None => phase,
    };
    let starting = status.at("initContainerStatuses"@).items();
    let done = done_before(starting);
    if !(item.at("metadata"@).at("deletionTimestamp"@) is Null) {
        "Terminating"@
    } else if done < starting.len() {
        init_word(
            starting[done as int],
            done,
            item.at("spec"@).at("initContainers"@).items().len(),
        )
    } else {
        containers_word(status.at("containerStatuses"@).items(), own)
    }
}

/// What the first init container still going makes of the STATUS word.
fn starting_word(statuses: &Vec<Json>, total: usize) -> (word: Option<String>)
    ensures
        word is Some <==> done_before(views(statuses@)) < statuses@.len(),
        word matches Some(word) ==> word@ == init_word(
            views(statuses@)[done_before(views(statuses@)) as int],
            done_before(views(statuses@)),
            total as nat,
        ),
{
    let ghost all = views(statuses@);
    let mut at: usize = 0;
    assert(all.skip(0) =~= all);
    while at < statuses.len()
        invariant
            at <= statuses@.len(),
            all == views(statuses@),
            done_before(all) == at + done_before(all.skip(at as int)),
        decreases statuses@.len() - at,
    {
        let state = statuses[at].at("state");
        let terminated = state.at("terminated");
        assert(all.skip(at as int)[0] == statuses@[at as int]@);
        if !terminated.is_null() {
            let over = match terminated.at("exitCode").signed() {
                Some(code) => code == 0,
                None => false,
            };
            if !over {
                return Some("Init:".to_owned().concat(termination_word(terminated).as_str()));
            }
        } else {
            if let Some(reason) = state.at("waiting").at("reason").non_empty() {
                if !text::same(reason, "PodInitializing") {
                    return Some("Init:".to_owned().concat(reason));
                }
            }
            return Some(
                "Init:".to_owned().concat(text::print(at as u128).as_str()).concat("/").concat(
                    text::print(total as u128).as_str(),
                ),
            );
        }
        assert(all.skip(at as int).skip(1) =~= all.skip(at as int + 1));
        at += 1;
    }
    None
}

/// The word the containers leave standing.
fn running_word(statuses: &Vec<Json>, otherwise: &str) -> (word: String)
    ensures
        word@ == containers_word(views(statuses@), otherwise@),
{
    let ghost all = views(statuses@);
    let mut word = otherwise.to_owned();
    let mut has_running = false;
    let mut at: usize = statuses.len();
    assert(all.skip(at as int) =~= seq![]);
    // Back to front, so the first container's reason is the one that stands.
    while at > 0
        invariant
            at <= statuses@.len(),
            all == views(statuses@),
            word@ == (match first_complaint(all.skip(at as int)) {
                Some(word) => word,
                None => otherwise@,
            }),
            has_running == exists|k: int| at <= k < all.len() && is_serving(#[trigger] all[k]),
        decreases at,
    {
        at -= 1;
        assert(all.skip(at as int).skip(1) =~= all.skip(at as int + 1));
        assert(all.skip(at as int)[0] == statuses@[at as int]@);
        assert(all[at as int] == statuses@[at as int]@);
        let state = statuses[at].at("state");
        if let Some(reason) = state.at("waiting").at("reason").non_empty() {
            word = reason.to_owned();
        } else if !state.at("terminated").is_null() {
            word = termination_word(state.at("terminated"));
        } else if statuses[at].at("ready").is_true() && !state.at("running").is_null() {
            has_running = true;
            assert(is_serving(all[at as int]));
        }
    }
    assert(all.skip(0) =~= all);
    if text::same(word.as_str(), "Completed") && has_running {
        word = "Running".to_owned();
    }
    word
}

/// The STATUS word `kubectl get pods` prints, cut to the cases that come up:
/// the pod's own reason or phase, overridden by the first init container
/// still going, else by whatever the containers are waiting on or stopped
/// for, and `Terminating` over all of it once a delete is in.
fn status_word(item: &Json) -> (word: String)
    ensures
        word@ == status_of_pod(item@),
{
    if !item.at("metadata").at("deletionTimestamp").is_null() {
        return "Terminating".to_owned();
    }
    let status = item.at("status");
    let phase = match status.at("phase").text() {
        Some(phase) => phase,
        None => "Unknown",
    };
    let total: usize = match item.at("spec").at("initContainers").items() {
        Some(held) => held.len(),
        None => 0,
    };
    if let Some(statuses) = status.at("initContainerStatuses").items() {
        if let Some(word) = starting_word(statuses, total) {
            return word;
        }
        proof {
            lemma_done_before(views(statuses@));
        }
    }
    let own = match status.at("reason").non_empty() {
        Some(reason) => reason,
        None => phase,
    };
    match status.at("containerStatuses").items() {
        Some(statuses) => running_word(statuses, own),
        None => own.to_owned(),
    }
}

proof fn lemma_done_before(statuses: Seq<JsonView>)
    ensures
        done_before(statuses) <= statuses.len(),
    decreases statuses.len(),
{
    if statuses.len() > 0 && is_done(statuses[0]) {
        lemma_done_before(statuses.skip(1));
    }
}

/// The labels whose value is a text, in the document's order.
pub open spec fn text_entries(entries: Seq<(Seq<char>, JsonView)>) -> Seq<(Seq<char>, Seq<char>)>
    decreases entries.len(),
{
    if entries.len() == 0 {
        seq![]
    } else {
        let before = text_entries(entries.drop_last());
        match entries.last().1.text() {
            Some(value) => before.push((entries.last().0, value)),
            None => before,
        }
    }
}

/// How many of the containers are ready.
pub open spec fn ready_among(containers: Seq<ContainerView>) -> nat
    decreases containers.len(),
{
    if containers.len() == 0 {
        0
    } else {
        ready_among(containers.drop_last()) + if containers.last().ready {
            1nat
        } else {
            0nat
        }
    }
}

/// The restarts of all containers together.
pub open spec fn restarts_among(containers: Seq<ContainerView>) -> nat
    decreases containers.len(),
{
    if containers.len() == 0 {
        0
    } else {
        restarts_among(containers.drop_last()) + containers.last().restarts as nat
    }
}

/// A text, or nothing where there is none.
pub open spec fn or_nothing(held: Option<Seq<char>>) -> Seq<char> {
    match held {
        Some(held) => held,
        None => ""@,
    }
}

/// One `items[]` entry of `kubectl get pods -o json`, as a pod of `cluster`.
/// An entry with no name or namespace is not a pod. The restarts are counted
/// as a `u32` wraps.
pub open spec fn pod_of(cluster: Seq<char>, item: JsonView) -> Option<PodView> {
    let metadata = item.at("metadata"@);
    let containers = containers_of(
        item.at("spec"@).at("containers"@).items(),
        item.at("status"@).at("containerStatuses"@).items(),
    );
    match (metadata.at("name"@).text(), metadata.at("namespace"@).text()) {
        (Some(name), Some(namespace)) => Some(
            PodView {
                key: PodKeyView { cluster, namespace, name },
                status: status_of_pod(item),
                ready: (ready_among(containers) as int, containers.len() as int),
                restarts: (restarts_among(containers) % 0x1_0000_0000) as u32,
                created: match metadata.at("creationTimestamp"@).text() {
                    Some(source) => moment(source),
                    None => None,
                },
                node: or_nothing(item.at("spec"@).at("nodeName"@).text()),
                ip: or_nothing(item.at("status"@).at("podIP"@).text()),
                owner: made_by(item),
                containers,
                labels: sorted(text_entries(metadata.at("labels"@).entries())),
            },
        ),
        _ => None,
    }
}

/// Every entry that is a pod, in order.
pub open spec fn pods_of(cluster: Seq<char>, items: Seq<JsonView>) -> Seq<PodView>
    decreases items.len(),
{
    if items.len() == 0 {
        seq![]
    } else {
        let before = pods_of(cluster, items.drop_last());
        match pod_of(cluster, items.last()) {
            Some(pod) => before.push(pod),
            None => before,
        }
    }
}

/// Every container of the spec that has a name, joined with its status.
fn containers(specs: &Vec<Json>, statuses: &Vec<Json>) -> (found: Vec<Container>)
    ensures
        container_views(found@) == containers_of(views(specs@), views(statuses@)),
{
    let ghost all = views(specs@);
    let mut found: Vec<Container> = Vec::new();
    let mut at: usize = 0;
    assert(container_views(found@) =~= seq![]);
    while at < specs.len()
        invariant
            at <= specs@.len(),
            all == views(specs@),
            container_views(found@) == containers_of(all.take(at as int), views(statuses@)),
        decreases specs@.len() - at,
    {
        let one = &specs[at];
        assert(all.take(at as int + 1).drop_last() =~= all.take(at as int));
        assert(all.take(at as int + 1).last() == one@);
        if let Some(name) = one.at("name").text() {
            let ghost before = found@;
            let held = container(name, one, status_of(statuses, name));
            found.push(held);
            assert(container_views(found@) =~= container_views(before).push(held@));
        }
        at += 1;
    }
    assert(all.take(at as int) =~= all);
    found
}

/// How many of the containers are ready, and how often all of them have
/// restarted.
fn counts(containers: &Vec<Container>) -> (counts: (usize, u32))
    ensures
        counts.0 == ready_among(container_views(containers@)),
        counts.1 == restarts_among(container_views(containers@)) % 0x1_0000_0000,
{
    let ghost all = container_views(containers@);
    let mut ready: usize = 0;
    let mut restarts: u32 = 0;
    let mut at: usize = 0;
    while at < containers.len()
        invariant
            at <= containers@.len(),
            ready <= at,
            all == container_views(containers@),
            ready == ready_among(all.take(at as int)),
            restarts == restarts_among(all.take(at as int)) % 0x1_0000_0000,
        decreases containers@.len() - at,
    {
        assert(all.take(at as int + 1).drop_last() =~= all.take(at as int));
        assert(all.take(at as int + 1).last() == containers@[at as int]@);
        if containers[at].ready {
            ready += 1;
        }
        restarts = restarts.wrapping_add(containers[at].restarts);
        at += 1;
    }
    assert(all.take(at as int) =~= all);
    (ready, restarts)
}

/// The labels whose value is a text.
fn labels_of(entries: &Vec<(String, Json)>) -> (labels: Vec<(String, String)>)
    ensures
        pairs(labels@) == text_entries(entry_views(entries@)),
{
    let ghost all = entry_views(entries@);
    let mut labels: Vec<(String, String)> = Vec::new();
    let mut at: usize = 0;
    assert(pairs(labels@) =~= seq![]);
    while at < entries.len()
        invariant
            at <= entries@.len(),
            all == entry_views(entries@),
            pairs(labels@) == text_entries(all.take(at as int)),
        decreases entries@.len() - at,
    {
        assert(all.take(at as int + 1).drop_last() =~= all.take(at as int));
        assert(all.take(at as int + 1).last() == (entries@[at as int].0@, entries@[at as int].1@));
        if let Some(value) = entries[at].1.text() {
            let ghost before = labels@;
            labels.push((entries[at].0.clone(), value.to_owned()));
            assert(pairs(labels@) =~= pairs(before).push((entries@[at as int].0@, value@)));
        }
        at += 1;
    }
    assert(all.take(at as int) =~= all);
    labels
}

impl Pod {
    /// One `items[]` entry of `kubectl get pods -o json`. `None` for an entry
    /// with no name or namespace, which is not a pod.
    pub fn from_json(cluster: &str, item: &Json) -> (pod: Option<Self>)
        ensures
            pod is Some <==> pod_of(cluster@, item@) is Some,
            pod matches Some(pod) ==> pod_of(cluster@, item@) == Some(pod@),
    {
        let metadata = item.at("metadata");
        let name = match metadata.at("name").text() {
            Some(name) => name,
            None => return None,
        };
        let namespace = match metadata.at("namespace").text() {
            Some(namespace) => namespace,
            None => return None,
        };
        let none: Vec<Json> = Vec::new();
        assert(views(none@) =~= seq![]);
        let statuses = match item.at("status").at("containerStatuses").items() {
            Some(held) => held,
            None => &none,
        };
        let specs = match item.at("spec").at("containers").items() {
            Some(held) => held,
            None => &none,
        };
        let containers = containers(specs, statuses);
        let counts = counts(&containers);
        let labels = match metadata.at("labels").entries() {
            Some(entries) => labels_of(entries),
            None => Vec::new(),
        };
        assert(pairs(labels@) =~= text_entries(item@.at("metadata"@).at("labels"@).entries()));
        let created = match metadata.at("creationTimestamp").text() {
            Some(source) => Timestamp::parse(source),
            None => None,
        };
        let node = match item.at("spec").at("nodeName").text() {
            Some(node) => node,
            None => "",
        };
        let ip = match item.at("status").at("podIP").text() {
            Some(ip) => ip,
            None => "",
        };
        let ready = (counts.0, containers.len());
        Some(
            Pod {
                key: PodKey {
                    cluster: cluster.to_owned(),
                    namespace: namespace.to_owned(),
                    name: name.to_owned(),
                },
                status: status_word(item),
                ready,
                restarts: counts.1,
                created,
                node: node.to_owned(),
                ip: ip.to_owned(),
                owner: owner_of(item),
                containers,
                labels: text::in_sorted_order(labels),
            },
        )
    }
}

/// The pods that an answer of `kubectl get pods -o json` lists.
pub fn pods_listed(cluster: &str, listed: &Json) -> (found: Vec<Pod>)
    ensures
        pod_views(found@) == pods_of(cluster@, listed@.at("items"@).items()),
{
    let mut found: Vec<Pod> = Vec::new();
    assert(pod_views(found@) =~= seq![]);
    let items = match listed.at("items").items() {
        Some(items) => items,
        None => return found,
    };
    let ghost all = views(items@);
    let mut at: usize = 0;
    while at < items.len()
        invariant
            at <= items@.len(),
            all == views(items@),
            pod_views(found@) == pods_of(cluster@, all.take(at as int)),
        decreases items@.len() - at,
    {
        assert(all.take(at as int + 1).drop_last() =~= all.take(at as int));
        assert(all.take(at as int + 1).last() == items@[at as int]@);
        if let Some(pod) = Pod::from_json(cluster, &items[at]) {
            let ghost before = found@;
            found.push(pod);
            assert(pod_views(found@) =~= pod_views(before).push(pod@));
        }
        at += 1;
    }
    assert(all.take(at as int) =~= all);
    found
}

} // verus!
