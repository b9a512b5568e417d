//! What holds of a pod, whatever document it was read from.

use vstd::prelude::*;
use vstd::string::*;

use crate::json::{Json, JsonView};
use crate::store::unhealthy_among;
use crate::text::{
    at_most, decimal, ends_with, law_sorting_keeps_every_pair, law_texts_have_one_order,
    pair_at_most, signed_decimal, starts_with,
};

use super::pod::{value_of, ContainerView, Pod, PodView};
use super::reading::{
    complaint, containers_of, done_before, first_complaint, is_done, is_serving, named,
    owner_reference, pod_of, pods_of, ready_among, restarts_among, text_entries,
};

verus! {

/// What the containers count is counted container by container: two lists of
/// them have restarted as often as the one and the other, and as many are
/// ready; one alone counts for itself, and none for nothing.
pub proof fn law_the_counts_add_up(
    a: Seq<ContainerView>,
    b: Seq<ContainerView>,
    one: ContainerView,
)
    ensures
        restarts_among(a + b) == restarts_among(a) + restarts_among(b),
        restarts_among(seq![one]) == one.restarts,
        restarts_among(Seq::empty()) == 0,
        ready_among(a + b) == ready_among(a) + ready_among(b),
        one.ready ==> ready_among(seq![one]) == 1,
        !one.ready ==> ready_among(seq![one]) == 0,
        ready_among(Seq::empty()) == 0,
    decreases b.len(),
{
    reveal_with_fuel(restarts_among, 2);
    reveal_with_fuel(ready_among, 2);
    let alone = seq![one];
    assert(alone.drop_last() =~= Seq::empty());
    assert(alone.last() == one);
    if b.len() == 0 {
        assert(a + b =~= a);
    } else {
        law_the_counts_add_up(a, b.drop_last(), one);
        assert((a + b).drop_last() =~= a + b.drop_last());
        assert((a + b).last() == b.last());
    }
}

/// A pod counts the containers it has: as many are in it as are listed, as
/// many are ready as say so, and it has restarted as often as all of them
/// together, as far as a `u32` counts.
pub proof fn law_a_pod_counts_its_containers(cluster: Seq<char>, item: JsonView, pod: PodView)
    requires
        pod_of(cluster, item) == Some(pod),
    ensures
        pod.ready.1 == pod.containers.len(),
        pod.ready.0 == ready_among(pod.containers),
        0 <= pod.ready.0 <= pod.ready.1,
        restarts_among(pod.containers) <= u32::MAX ==> pod.restarts == restarts_among(
            pod.containers,
        ),
        forall|at: int|
            0 <= at < pod.containers.len() && restarts_among(pod.containers) <= u32::MAX
                ==> pod.restarts >= (#[trigger] pod.containers[at]).restarts,
{
    lemma_ready_bound(pod.containers);
    assert forall|at: int|
        0 <= at < pod.containers.len() && restarts_among(pod.containers) <= u32::MAX implies pod.restarts
        >= (#[trigger] pod.containers[at]).restarts by {
        lemma_restarts_bound(pod.containers, at);
    }
}

proof fn lemma_ready_bound(containers: Seq<ContainerView>)
    ensures
        ready_among(containers) <= containers.len(),
    decreases containers.len(),
{
    if containers.len() > 0 {
        lemma_ready_bound(containers.drop_last());
    }
}

proof fn lemma_restarts_bound(containers: Seq<ContainerView>, at: int)
    requires
        0 <= at < containers.len(),
    ensures
        containers[at].restarts <= restarts_among(containers),
    decreases containers.len(),
{
    if at < containers.len() - 1 {
        lemma_restarts_bound(containers.drop_last(), at);
    }
}

/// A pod is where its document says it is: what is named there is what the
/// pod has, and what is not named is empty.
pub proof fn law_a_pod_is_what_its_document_says(cluster: Seq<char>, item: JsonView)
    ensures
        pod_of(cluster, item) is Some <==> item.at("metadata"@).at("name"@) is Text && item.at(
            "metadata"@,
        ).at("namespace"@) is Text,
        pod_of(cluster, item) matches Some(pod) ==> {
            &&& pod.key.cluster == cluster
            &&& item.at("metadata"@).at("name"@) == JsonView::Text(pod.key.name)
            &&& item.at("metadata"@).at("namespace"@) == JsonView::Text(pod.key.namespace)
            &&& item.at("spec"@).at("nodeName"@) matches JsonView::Text(node) ==> pod.node == node
            &&& !(item.at("spec"@).at("nodeName"@) is Text) ==> pod.node.len() == 0
            &&& item.at("status"@).at("podIP"@) matches JsonView::Text(ip) ==> pod.ip == ip
            &&& !(item.at("status"@).at("podIP"@) is Text) ==> pod.ip.len() == 0
            &&& !(item.at("metadata"@).at("creationTimestamp"@) is Text) ==> pod.created is None
            &&& item.at("metadata"@).at("creationTimestamp"@) matches JsonView::Text(source)
                ==> pod.created == crate::timestamp::moment(source)
        },
{
    reveal_strlit("");
}

/// A list is read entry by entry: two of them give the pods of the one and
/// then of the other, an entry that is a pod gives that pod, and one that is
/// not gives nothing.
pub proof fn law_a_list_is_read_entry_by_entry(
    cluster: Seq<char>,
    a: Seq<JsonView>,
    b: Seq<JsonView>,
    item: JsonView,
)
    ensures
        pods_of(cluster, a + b) == pods_of(cluster, a) + pods_of(cluster, b),
        pod_of(cluster, item) matches Some(pod) ==> pods_of(cluster, seq![item]) == seq![pod],
        pod_of(cluster, item) is None ==> pods_of(cluster, seq![item]).len() == 0,
    decreases b.len(),
{
    let alone = seq![item];
    assert(alone.drop_last() =~= Seq::empty());
    assert(alone.last() == item);
    assert(pods_of(cluster, alone.drop_last()) =~= seq![]);
    if let Some(pod) = pod_of(cluster, item) {
        assert(pods_of(cluster, alone) =~= seq![pod]);
    }
    if b.len() == 0 {
        assert(a + b =~= a);
        assert(pods_of(cluster, a) + pods_of(cluster, b) =~= pods_of(cluster, a));
    } else {
        law_a_list_is_read_entry_by_entry(cluster, a, b.drop_last(), item);
        assert((a + b).drop_last() =~= a + b.drop_last());
        assert((a + b).last() == b.last());
        assert(pods_of(cluster, a + b) =~= pods_of(cluster, a) + pods_of(cluster, b));
    }
}

/// The containers are those of the spec, in its order, whatever order their
/// statuses come in: two lists of them give those of the one and then of the
/// other, and one that has no name is left out.
pub proof fn law_the_containers_are_those_of_the_spec(
    a: Seq<JsonView>,
    b: Seq<JsonView>,
    one: JsonView,
    statuses: Seq<JsonView>,
)
    ensures
        containers_of(a + b, statuses) == containers_of(a, statuses) + containers_of(b, statuses),
        !(one.at("name"@) is Text) ==> containers_of(seq![one], statuses).len() == 0,
        one.at("name"@) matches JsonView::Text(name) ==> {
            &&& containers_of(seq![one], statuses).len() == 1
            &&& containers_of(seq![one], statuses)[0].name == name
        },
    decreases b.len(),
{
    let alone = seq![one];
    assert(alone.drop_last() =~= Seq::empty());
    assert(alone.last() == one);
    assert(containers_of(alone.drop_last(), statuses) =~= seq![]);
    if b.len() == 0 {
        assert(a + b =~= a);
        assert(containers_of(a, statuses) + containers_of(b, statuses) =~= containers_of(
            a,
            statuses,
        ));
    } else {
        law_the_containers_are_those_of_the_spec(a, b.drop_last(), one, statuses);
        assert((a + b).drop_last() =~= a + b.drop_last());
        assert((a + b).last() == b.last());
        assert(containers_of(a + b, statuses) =~= containers_of(a, statuses) + containers_of(
            b,
            statuses,
        ));
    }
}

proof fn lemma_named(statuses: Seq<JsonView>, name: Seq<char>, at: int)
    requires
        0 <= at < statuses.len(),
        statuses[at].at("name"@) == JsonView::Text(name),
        forall|k: int|
            0 <= k < at ==> (#[trigger] statuses[k]).at("name"@) != JsonView::Text(name),
    ensures
        named(statuses, name) == statuses[at],
    decreases at,
{
    if at > 0 {
        let rest = statuses.skip(1);
        assert(statuses[0].at("name"@) != JsonView::Text(name));
        assert forall|k: int| 0 <= k < at - 1 implies (#[trigger] rest[k]).at("name"@)
            != JsonView::Text(name) by {
            assert(rest[k] == statuses[k + 1]);
        }
        lemma_named(rest, name, at - 1);
    }
}

/// A container has the status that goes by its name, wherever that stands:
/// whether it is ready, how often it restarted, and the image that runs,
/// which is the one asked for where the status names none.
pub proof fn law_a_container_has_its_own_status(
    one: JsonView,
    statuses: Seq<JsonView>,
    name: Seq<char>,
    at: int,
)
    requires
        one.at("name"@) == JsonView::Text(name),
        0 <= at < statuses.len(),
        statuses[at].at("name"@) == JsonView::Text(name),
        forall|k: int|
            0 <= k < at ==> (#[trigger] statuses[k]).at("name"@) != JsonView::Text(name),
    ensures
        containers_of(seq![one], statuses).len() == 1,
        ({
            let held = containers_of(seq![one], statuses)[0];
            let status = statuses[at];
            &&& held.ready <==> status.at("ready"@) == JsonView::Bool(true)
            &&& status.at("restartCount"@) matches JsonView::Number(Some(count), _) ==> (count
                <= u32::MAX ==> held.restarts == count)
            &&& status.at("image"@) matches JsonView::Text(image) ==> (image.len() > 0
                ==> held.image == image)
            &&& one.at("image"@) matches JsonView::Text(image) ==> (image.len() > 0 && status.at(
                "image"@,
            ) is Null ==> held.image == image)
        }),
{
    lemma_named(statuses, name, at);
    law_the_containers_are_those_of_the_spec(seq![], seq![], one, statuses);
    assert(seq![one].drop_last() =~= Seq::<JsonView>::empty());
    assert(seq![one].last() == one);
}

/// A container that is not among the statuses has not started: it is not
/// ready, it never restarted, and it waits.
pub proof fn law_a_container_without_a_status_waits(
    one: JsonView,
    statuses: Seq<JsonView>,
    name: Seq<char>,
)
    requires
        one.at("name"@) == JsonView::Text(name),
        forall|k: int|
            0 <= k < statuses.len() ==> (#[trigger] statuses[k]).at("name"@) != JsonView::Text(
                name,
            ),
    ensures
        containers_of(seq![one], statuses).len() == 1,
        ({
            let held = containers_of(seq![one], statuses)[0];
            &&& !held.ready
            &&& held.restarts == 0
            &&& held.state == "Waiting"@
            &&& held.last_termination is None
        }),
{
    lemma_none_named(statuses, name);
    law_the_containers_are_those_of_the_spec(seq![], seq![], one, statuses);
    assert(seq![one].drop_last() =~= Seq::<JsonView>::empty());
    assert(seq![one].last() == one);
}

proof fn lemma_none_named(statuses: Seq<JsonView>, name: Seq<char>)
    requires
        forall|k: int|
            0 <= k < statuses.len() ==> (#[trigger] statuses[k]).at("name"@) != JsonView::Text(
                name,
            ),
    ensures
        named(statuses, name) is Null,
    decreases statuses.len(),
{
    if statuses.len() > 0 {
        let rest = statuses.skip(1);
        assert(statuses[0].at("name"@) != JsonView::Text(name));
        assert forall|k: int| 0 <= k < rest.len() implies (#[trigger] rest[k]).at("name"@)
            != JsonView::Text(name) by {
            assert(rest[k] == statuses[k + 1]);
        }
        lemma_none_named(rest, name);
    }
}

/// What a container says of itself: that it runs, whatever else its status
/// has; else what it waits for; else why it stopped, or with what code where
/// it gave no reason.
pub proof fn law_a_container_says_what_it_does(
    one: JsonView,
    status: JsonView,
    name: Seq<char>,
    said: Seq<char>,
    code: i64,
)
    requires
        one.at("name"@) == JsonView::Text(name),
        status.at("name"@) == JsonView::Text(name),
        said.len() > 0,
    ensures
        containers_of(seq![one], seq![status]).len() == 1,
        ({
            let held = containers_of(seq![one], seq![status])[0];
            let running = status.at("state"@).at("running"@);
            let waiting = status.at("state"@).at("waiting"@);
            let stopped = status.at("state"@).at("terminated"@);
            &&& !(running is Null) ==> held.state == "Running"@
            &&& running is Null && waiting.at("reason"@) == JsonView::Text(said) ==> held.state
                == said
            &&& running is Null && waiting is Null && stopped.at("reason"@) == JsonView::Text(said)
                ==> held.state == said
            &&& running is Null && waiting is Null && stopped is Object && stopped.at(
                "reason"@,
            ) is Null && stopped.at("exitCode"@) == JsonView::Number(None, Some(code))
                ==> held.state == "ExitCode:"@ + signed_decimal(code as int)
        }),
{
    law_a_container_has_its_own_status(one, seq![status], name, 0);
    lemma_named(seq![status], name, 0);
    assert(seq![one].drop_last() =~= Seq::<JsonView>::empty());
    assert(seq![one].last() == one);
    assert(status.at("state"@).at("terminated"@).at("reason"@) is Text ==> !(status.at(
        "state"@,
    ).at("terminated"@) is Null));
}

/// Why a container last stopped is told where it stopped before, with its
/// code, and nothing is told where it never did.
pub proof fn law_the_last_stop_is_told(
    one: JsonView,
    status: JsonView,
    name: Seq<char>,
    said: Seq<char>,
    code: i64,
)
    requires
        one.at("name"@) == JsonView::Text(name),
        status.at("name"@) == JsonView::Text(name),
        said.len() > 0,
    ensures
        containers_of(seq![one], seq![status]).len() == 1,
        ({
            let held = containers_of(seq![one], seq![status])[0];
            let stopped = status.at("lastState"@).at("terminated"@);
            &&& stopped is Null ==> held.last_termination is None
            &&& stopped.at("reason"@) == JsonView::Text(said) && stopped.at("exitCode"@)
                == JsonView::Number(None, Some(code)) ==> held.last_termination == Some(
                (said, code),
            )
        }),
{
    law_a_container_has_its_own_status(one, seq![status], name, 0);
    lemma_named(seq![status], name, 0);
    assert(seq![one].drop_last() =~= Seq::<JsonView>::empty());
    assert(seq![one].last() == one);
}

/// A pod that is being deleted is terminating, whatever its phase and its
/// containers say.
pub proof fn law_a_delete_is_over_all_of_it(cluster: Seq<char>, item: JsonView, pod: PodView)
    requires
        pod_of(cluster, item) == Some(pod),
        !(item.at("metadata"@).at("deletionTimestamp"@) is Null),
    ensures
        pod.status == "Terminating"@,
{
}

proof fn lemma_done(statuses: Seq<JsonView>, at: int)
    requires
        0 <= at < statuses.len(),
        forall|k: int| 0 <= k < at ==> is_done(#[trigger] statuses[k]),
        !is_done(statuses[at]),
    ensures
        done_before(statuses) == at,
    decreases at,
{
    if at > 0 {
        let rest = statuses.skip(1);
        assert(is_done(statuses[0]));
        assert forall|k: int| 0 <= k < at - 1 implies is_done(#[trigger] rest[k]) by {
            assert(rest[k] == statuses[k + 1]);
        }
        lemma_done(rest, at - 1);
    }
}

/// While an init container is not done the pod says so: why that one
/// stopped, what it waits for, or how many of all of them are done.
pub proof fn law_an_init_container_still_going_is_named(
    cluster: Seq<char>,
    item: JsonView,
    pod: PodView,
    starting: Seq<JsonView>,
    all: Seq<JsonView>,
    at: int,
    said: Seq<char>,
)
    requires
        pod_of(cluster, item) == Some(pod),
        item.at("metadata"@).at("deletionTimestamp"@) is Null,
        item.at("status"@).at("initContainerStatuses"@) == JsonView::Array(starting),
        item.at("spec"@).at("initContainers"@) == JsonView::Array(all),
        0 <= at < starting.len(),
        forall|k: int|
            0 <= k < at ==> (#[trigger] starting[k]).at("state"@).at("terminated"@).at(
                "exitCode"@,
            ) == JsonView::Number(Some(0), Some(0)),
        said.len() > 0,
        said != "PodInitializing"@,
    ensures
        ({
            let state = starting[at].at("state"@);
            let stopped = state.at("terminated"@);
            &&& stopped.at("exitCode"@) == JsonView::Number(Some(1), Some(1)) && stopped.at(
                "reason"@,
            ) == JsonView::Text(said) ==> pod.status == "Init:"@ + said
            &&& stopped is Null && state.at("waiting"@).at("reason"@) == JsonView::Text(said)
                ==> pod.status == "Init:"@ + said
            &&& stopped is Null && state.at("waiting"@) is Null ==> pod.status == "Init:"@
                + decimal(at as nat) + "/"@ + decimal(all.len())
            &&& stopped is Null && state.at("waiting"@).at("reason"@) == JsonView::Text(
                "PodInitializing"@,
            ) ==> pod.status == "Init:"@ + decimal(at as nat) + "/"@ + decimal(all.len())
        }),
{
    assert forall|k: int| 0 <= k < at implies is_done(#[trigger] starting[k]) by {
        assert(starting[k].at("state"@).at("terminated"@).at("exitCode"@) == JsonView::Number(
            Some(0),
            Some(0),
        ));
    }
    if !is_done(starting[at]) {
        lemma_done(starting, at);
    }
    assert(item.at("status"@).at("initContainerStatuses"@).items() == starting);
    assert(item.at("spec"@).at("initContainers"@).items() == all);
}

/// A container that neither waits for a reason nor has stopped.
pub open spec fn is_quiet(status: JsonView) -> bool {
    !(status.at("state"@).at("waiting"@).at("reason"@) is Text) && status.at("state"@).at(
        "terminated"@,
    ) is Null
}

proof fn lemma_first_complaint(statuses: Seq<JsonView>, at: int)
    requires
        0 <= at <= statuses.len(),
        forall|k: int| 0 <= k < at ==> is_quiet(#[trigger] statuses[k]),
        at < statuses.len() ==> complaint(statuses[at]) is Some,
    ensures
        at < statuses.len() ==> first_complaint(statuses) == complaint(statuses[at]),
        at == statuses.len() ==> first_complaint(statuses) is None,
    decreases at,
{
    if at > 0 {
        let rest = statuses.skip(1);
        assert(is_quiet(statuses[0]));
        assert forall|k: int| 0 <= k < at - 1 implies is_quiet(#[trigger] rest[k]) by {
            assert(rest[k] == statuses[k + 1]);
        }
        lemma_first_complaint(rest, at - 1);
    }
}

/// With no init container to wait for, the pod says what the first container
/// that waits or stopped says, in the order of the statuses.
pub proof fn law_the_first_container_in_trouble_is_named(
    cluster: Seq<char>,
    item: JsonView,
    pod: PodView,
    statuses: Seq<JsonView>,
    at: int,
    said: Seq<char>,
)
    requires
        pod_of(cluster, item) == Some(pod),
        item.at("metadata"@).at("deletionTimestamp"@) is Null,
        item.at("status"@).at("initContainerStatuses"@) is Null,
        item.at("status"@).at("containerStatuses"@) == JsonView::Array(statuses),
        0 <= at < statuses.len(),
        forall|k: int| 0 <= k < at ==> is_quiet(#[trigger] statuses[k]),
        said.len() > 0,
        said != "Completed"@,
    ensures
        ({
            let state = statuses[at].at("state"@);
            &&& state.at("waiting"@).at("reason"@) == JsonView::Text(said) ==> pod.status == said
            &&& state.at("waiting"@) is Null && state.at("terminated"@).at("reason"@)
                == JsonView::Text(said) ==> pod.status == said
        }),
{
    let state = statuses[at].at("state"@);
    if state.at("waiting"@).at("reason"@) == JsonView::Text(said) || (state.at("waiting"@) is Null
        && state.at("terminated"@).at("reason"@) == JsonView::Text(said)) {
        assert(complaint(statuses[at]) == Some(said));
        lemma_first_complaint(statuses, at);
    }
    assert(item.at("status"@).at("initContainerStatuses"@).items().len() == 0);
    assert(item.at("status"@).at("containerStatuses"@).items() == statuses);
}

/// A container that finished beside one that runs and is ready leaves the
/// pod running; where none of them runs the pod is completed.
pub proof fn law_a_finished_container_beside_a_running_one_is_running(
    cluster: Seq<char>,
    item: JsonView,
    pod: PodView,
    statuses: Seq<JsonView>,
    at: int,
)
    requires
        pod_of(cluster, item) == Some(pod),
        item.at("metadata"@).at("deletionTimestamp"@) is Null,
        item.at("status"@).at("initContainerStatuses"@) is Null,
        item.at("status"@).at("containerStatuses"@) == JsonView::Array(statuses),
        0 <= at < statuses.len(),
        forall|k: int| 0 <= k < at ==> is_quiet(#[trigger] statuses[k]),
        statuses[at].at("state"@).at("waiting"@) is Null,
        statuses[at].at("state"@).at("terminated"@).at("reason"@) == JsonView::Text("Completed"@),
    ensures
        (exists|k: int|
            0 <= k < statuses.len() && is_quiet(#[trigger] statuses[k]) && statuses[k].at(
                "ready"@,
            ) == JsonView::Bool(true) && !(statuses[k].at("state"@).at("running"@) is Null))
            ==> pod.status == "Running"@,
        (forall|k: int|
            0 <= k < statuses.len() ==> (#[trigger] statuses[k]).at("ready"@) != JsonView::Bool(
                true,
            )) ==> pod.status == "Completed"@,
{
    reveal_strlit("Completed");
    assert(complaint(statuses[at]) == Some("Completed"@));
    lemma_first_complaint(statuses, at);
    assert(item.at("status"@).at("initContainerStatuses"@).items().len() == 0);
    assert(item.at("status"@).at("containerStatuses"@).items() == statuses);
    if exists|k: int|
        0 <= k < statuses.len() && is_quiet(#[trigger] statuses[k]) && statuses[k].at("ready"@)
            == JsonView::Bool(true) && !(statuses[k].at("state"@).at("running"@) is Null) {
        let k = choose|k: int|
            0 <= k < statuses.len() && is_quiet(#[trigger] statuses[k]) && statuses[k].at("ready"@)
                == JsonView::Bool(true) && !(statuses[k].at("state"@).at("running"@) is Null);
        assert(is_serving(statuses[k]));
    }
}

/// A pod of which no container waits or stopped says its own reason, else
/// its phase, and that it is unknown where it has neither.
pub proof fn law_a_quiet_pod_says_its_reason_or_its_phase(
    cluster: Seq<char>,
    item: JsonView,
    pod: PodView,
    statuses: Seq<JsonView>,
    said: Seq<char>,
)
    requires
        pod_of(cluster, item) == Some(pod),
        item.at("metadata"@).at("deletionTimestamp"@) is Null,
        item.at("status"@).at("initContainerStatuses"@) is Null,
        item.at("status"@).at("containerStatuses"@) == JsonView::Array(statuses) || (item.at(
            "status"@,
        ).at("containerStatuses"@) is Null && statuses.len() == 0),
        forall|k: int| 0 <= k < statuses.len() ==> is_quiet(#[trigger] statuses[k]),
        said.len() > 0,
        said != "Completed"@,
    ensures
        item.at("status"@).at("reason"@) == JsonView::Text(said) ==> pod.status == said,
        item.at("status"@).at("reason"@) is Null && item.at("status"@).at("phase"@)
            == JsonView::Text(said) ==> pod.status == said,
        item.at("status"@).at("reason"@) is Null && item.at("status"@).at("phase"@) is Null
            ==> pod.status == "Unknown"@,
{
    reveal_strlit("Completed");
    reveal_strlit("Unknown");
    lemma_first_complaint(statuses, statuses.len() as int);
    assert(item.at("status"@).at("initContainerStatuses"@).items().len() == 0);
    assert(item.at("status"@).at("containerStatuses"@).items() =~= statuses);
}

proof fn lemma_owner_reference(references: Seq<JsonView>, from: int, at: int)
    requires
        0 <= from <= at < references.len(),
        references[at].at("controller"@) == JsonView::Bool(true),
        forall|k: int|
            from <= k < at ==> (#[trigger] references[k]).at("controller"@) != JsonView::Bool(true),
    ensures
        owner_reference(references, from) == references[at],
    decreases at - from,
{
    if from < at {
        assert(references[from].at("controller"@) != JsonView::Bool(true));
        lemma_owner_reference(references, from + 1, at);
    }
}

proof fn lemma_no_controller(references: Seq<JsonView>, from: int)
    requires
        0 <= from <= references.len(),
        references.len() > 0,
        forall|k: int|
            from <= k < references.len() ==> (#[trigger] references[k]).at("controller"@)
                != JsonView::Bool(true),
    ensures
        owner_reference(references, from) == references[0],
    decreases references.len() - from,
{
    if from < references.len() {
        assert(references[from].at("controller"@) != JsonView::Bool(true));
        lemma_no_controller(references, from + 1);
    }
}

/// What made a pod is its controller, wherever that stands among its owners,
/// or the first of them where none controls it. A ReplicaSet named after the
/// pod-template hash is reported as the Deployment that made it, and any
/// other owner by its own kind and name.
pub proof fn law_the_owner_is_the_controller(
    cluster: Seq<char>,
    item: JsonView,
    pod: PodView,
    references: Seq<JsonView>,
    at: int,
    kind: Seq<char>,
    name: Seq<char>,
    hash: Seq<char>,
)
    requires
        pod_of(cluster, item) == Some(pod),
        item.at("metadata"@).at("ownerReferences"@) == JsonView::Array(references),
        0 <= at < references.len(),
        references[at].at("controller"@) == JsonView::Bool(true) || at == 0,
        forall|k: int|
            0 <= k < references.len() && (k < at || references[at].at("controller"@)
                != JsonView::Bool(true)) ==> (#[trigger] references[k]).at("controller"@)
                != JsonView::Bool(true),
        references[at].at("kind"@) == JsonView::Text(kind),
        hash.len() > 0,
    ensures
        references[at].at("name"@) == JsonView::Text(name) && kind != "ReplicaSet"@ ==> pod.owner
            == Some((kind, name)),
        references[at].at("name"@) == JsonView::Text(name) && item.at("metadata"@).at(
            "labels"@,
        ).at("pod-template-hash"@) is Null ==> pod.owner == Some((kind, name)),
        references[at].at("name"@) == JsonView::Text(name + "-"@ + hash) && kind == "ReplicaSet"@
            && item.at("metadata"@).at("labels"@).at("pod-template-hash"@) == JsonView::Text(hash)
            ==> pod.owner == Some(("Deployment"@, name)),
{
    if references[at].at("controller"@) == JsonView::Bool(true) {
        lemma_owner_reference(references, 0, at);
    } else {
        lemma_no_controller(references, 0);
    }
    let whole = name + "-"@ + hash;
    let tail = "-"@ + hash;
    assert(whole.skip(whole.len() - tail.len()) =~= tail);
    assert(ends_with(whole, tail));
    assert(whole.take(whole.len() - tail.len()) =~= name);
    assert(item.at("metadata"@).at("ownerReferences"@).items() == references);
}

/// A pod with no owner has none.
pub proof fn law_a_bare_pod_has_no_owner(cluster: Seq<char>, item: JsonView, pod: PodView)
    requires
        pod_of(cluster, item) == Some(pod),
        item.at("metadata"@).at("ownerReferences"@) is Null,
    ensures
        pod.owner is None,
        pod.owner_label() == "\u{2014}"@,
        pod.owner_name().len() == 0,
{
    assert(item.at("metadata"@).at("ownerReferences"@).items().len() == 0);
    assert(owner_reference(seq![], 0) is Null);
}

proof fn lemma_text_entries(
    entries: Seq<(Seq<char>, JsonView)>,
    key: Seq<char>,
    value: Seq<char>,
)
    ensures
        text_entries(entries).contains((key, value)) <==> entries.contains(
            (key, JsonView::Text(value)),
        ),
    decreases entries.len(),
{
    if entries.len() > 0 {
        let rest = entries.drop_last();
        lemma_text_entries(rest, key, value);
        let wanted = (key, JsonView::Text(value));
        let found = text_entries(entries);
        let before = text_entries(rest);
        assert(entries =~= rest.push(entries.last()));
        if entries.contains(wanted) {
            let at = choose|at: int| 0 <= at < entries.len() && entries[at] == wanted;
            if at < rest.len() {
                assert(rest[at] == wanted);
                let k = choose|k: int| 0 <= k < before.len() && before[k] == (key, value);
                assert(found[k] == (key, value));
            } else {
                assert(found[found.len() - 1] == (key, value));
            }
        }
        if found.contains((key, value)) {
            let at = choose|at: int| 0 <= at < found.len() && found[at] == (key, value);
            if at < before.len() {
                assert(before[at] == (key, value));
                let k = choose|k: int| 0 <= k < rest.len() && rest[k] == wanted;
                assert(entries[k] == wanted);
            } else {
                assert(entries[entries.len() - 1] == wanted);
            }
        }
    }
}

/// The labels of a pod are those of its document whose value is a text, each
/// with its own value and none besides.
pub proof fn law_the_labels_are_those_of_the_document(
    cluster: Seq<char>,
    item: JsonView,
    pod: PodView,
    entries: Seq<(Seq<char>, JsonView)>,
    key: Seq<char>,
    value: Seq<char>,
)
    requires
        pod_of(cluster, item) == Some(pod),
        item.at("metadata"@).at("labels"@) == JsonView::Object(entries),
    ensures
        pod.labels.contains((key, value)) <==> entries.contains((key, JsonView::Text(value))),
{
    broadcast use vstd::seq_lib::group_to_multiset_ensures;

    let found = text_entries(entries);
    lemma_text_entries(entries, key, value);
    law_sorting_keeps_every_pair(found);
    assert(item.at("metadata"@).at("labels"@).entries() == entries);
    assert(pod.labels.to_multiset().count((key, value)) == found.to_multiset().count((key, value)));
}

/// A label is found under its key: the first of that key where there are
/// several, and nothing where there is none.
pub proof fn law_a_label_is_found_under_its_key(
    labels: Seq<(Seq<char>, Seq<char>)>,
    key: Seq<char>,
    at: int,
)
    requires
        0 <= at <= labels.len(),
        forall|k: int| 0 <= k < at ==> (#[trigger] labels[k]).0 != key,
        at < labels.len() ==> labels[at].0 == key,
    ensures
        at < labels.len() ==> value_of(labels, key) == Some(labels[at].1),
        at == labels.len() ==> value_of(labels, key) is None,
    decreases at,
{
    if at > 0 {
        let rest = labels.skip(1);
        assert(labels[0].0 != key);
        assert forall|k: int| 0 <= k < at - 1 implies (#[trigger] rest[k]).0 != key by {
            assert(rest[k] == labels[k + 1]);
        }
        law_a_label_is_found_under_its_key(rest, key, at - 1);
    }
}

/// What an application is called is its `app` label, and where it has none
/// its `app.kubernetes.io/name` label.
pub proof fn law_an_application_goes_by_either_label(pod: PodView, at: int)
    requires
        0 <= at < pod.labels.len(),
    ensures
        pod.labels[at].0 == "app"@ && (forall|k: int|
            0 <= k < at ==> (#[trigger] pod.labels[k]).0 != "app"@) ==> pod.app() == Some(
            pod.labels[at].1,
        ),
        pod.labels[at].0 == "app.kubernetes.io/name"@ && (forall|k: int|
            0 <= k < pod.labels.len() ==> (#[trigger] pod.labels[k]).0 != "app"@) && (forall|k: int|
            0 <= k < at ==> (#[trigger] pod.labels[k]).0 != "app.kubernetes.io/name"@)
            ==> pod.app() == Some(pod.labels[at].1),
{
    if pod.labels[at].0 == "app"@ && forall|k: int|
        0 <= k < at ==> (#[trigger] pod.labels[k]).0 != "app"@ {
        law_a_label_is_found_under_its_key(pod.labels, "app"@, at);
    }
    if pod.labels[at].0 == "app.kubernetes.io/name"@ && (forall|k: int|
        0 <= k < pod.labels.len() ==> (#[trigger] pod.labels[k]).0 != "app"@) && forall|k: int|
        0 <= k < at ==> (#[trigger] pod.labels[k]).0 != "app.kubernetes.io/name"@ {
        law_a_label_is_found_under_its_key(pod.labels, "app"@, pod.labels.len() as int);
        law_a_label_is_found_under_its_key(pod.labels, "app.kubernetes.io/name"@, at);
    }
}

proof fn lemma_status_words()
    ensures
        "Init:"@.len() == 5 && "Init:"@[0] == 'I' && "Init:"@[1] == 'n' && "Init:"@[2] == 'i',
        "ExitCode:"@.len() == 9 && "ExitCode:"@[0] == 'E' && "ExitCode:"@[1] == 'x',
        "CrashLoopBackOff"@.len() == 16 && "CrashLoopBackOff"@[0] == 'C',
        "Error"@.len() == 5 && "Error"@[0] == 'E' && "Error"@[1] == 'r',
        "ImagePullBackOff"@.len() == 16 && "ImagePullBackOff"@[0] == 'I' && "ImagePullBackOff"@[1]
            == 'm',
        "ErrImagePull"@.len() == 12 && "ErrImagePull"@[0] == 'E',
        "InvalidImageName"@.len() == 16 && "InvalidImageName"@[0] == 'I' && "InvalidImageName"@[2]
            == 'v',
        "CreateContainerConfigError"@.len() == 26 && "CreateContainerConfigError"@[0] == 'C',
        "CreateContainerError"@.len() == 20 && "CreateContainerError"@[0] == 'C',
        "OOMKilled"@.len() == 9 && "OOMKilled"@[0] == 'O',
        "Evicted"@.len() == 7 && "Evicted"@[0] == 'E',
        "Failed"@.len() == 6 && "Failed"@[0] == 'F',
        "ContainerStatusUnknown"@.len() == 22 && "ContainerStatusUnknown"@[0] == 'C',
        "Unknown"@.len() == 7 && "Unknown"@[0] == 'U',
        "Running"@.len() == 7 && "Running"@[0] == 'R',
        "Completed"@.len() == 9 && "Completed"@[0] == 'C',
        "Succeeded"@.len() == 9 && "Succeeded"@[0] == 'S',
        "Pending"@.len() == 7 && "Pending"@[0] == 'P',
        "ContainerCreating"@.len() == 17 && "ContainerCreating"@[0] == 'C',
        "PodInitializing"@.len() == 15 && "PodInitializing"@[0] == 'P',
        "Terminating"@.len() == 11 && "Terminating"@[0] == 'T',
{
    reveal_strlit("Init:");
    reveal_strlit("ExitCode:");
    reveal_strlit("CrashLoopBackOff");
    reveal_strlit("Error");
    reveal_strlit("ImagePullBackOff");
    reveal_strlit("ErrImagePull");
    reveal_strlit("InvalidImageName");
    reveal_strlit("CreateContainerConfigError");
    reveal_strlit("CreateContainerError");
    reveal_strlit("OOMKilled");
    reveal_strlit("Evicted");
    reveal_strlit("Failed");
    reveal_strlit("ContainerStatusUnknown");
    reveal_strlit("Unknown");
    reveal_strlit("Running");
    reveal_strlit("Completed");
    reveal_strlit("Succeeded");
    reveal_strlit("Pending");
    reveal_strlit("ContainerCreating");
    reveal_strlit("PodInitializing");
    reveal_strlit("Terminating");
}

proof fn lemma_starts(held: Seq<char>, prefix: Seq<char>, at: int)
    requires
        starts_with(held, prefix),
        0 <= at < prefix.len(),
    ensures
        held[at] == prefix[at],
{
    assert(held.take(prefix.len() as int)[at] == held[at]);
}

/// Each word of trouble, bare or of an init container, is seen: the pod has
/// the cross, and the badge of its tab counts one more.
pub proof fn law_a_word_of_trouble_is_seen(pods: Seq<PodView>, pod: PodView, word: Seq<char>)
    requires
        pod.status == word || pod.status == "Init:"@ + word,
        word == "CrashLoopBackOff"@
            || word == "Error"@
            || word == "ImagePullBackOff"@
            || word == "ErrImagePull"@
            || word == "InvalidImageName"@
            || word == "CreateContainerConfigError"@
            || word == "CreateContainerError"@
            || word == "OOMKilled"@
            || word == "Evicted"@
            || word == "Failed"@
            || word == "ContainerStatusUnknown"@
            || word == "Unknown"@
            || starts_with(word, "ExitCode:"@),
    ensures
        pod.is_unhealthy(),
        pod.glyph() == "\u{2717}"@,
        unhealthy_among(pods.push(pod)) == unhealthy_among(pods) + 1,
{
    lemma_status_words();
    if starts_with(word, "ExitCode:"@) {
        lemma_starts(word, "ExitCode:"@, 0);
    }
    if starts_with(word, "Init:"@) {
        lemma_starts(word, "Init:"@, 0);
        lemma_starts(word, "Init:"@, 1);
        lemma_starts(word, "Init:"@, 2);
    }
    assert(("Init:"@ + word).take(5) =~= "Init:"@);
    assert(("Init:"@ + word).skip(5) =~= word);
    assert(pods.push(pod).drop_last() =~= pods);
}

/// Every other word is no trouble: no cross, and the badge counts no more.
pub proof fn law_any_other_word_is_no_trouble(pods: Seq<PodView>, pod: PodView)
    requires
        forall|word: Seq<char>|
            (pod.status == word || pod.status == #[trigger] ("Init:"@ + word)) ==> {
                &&& word != "CrashLoopBackOff"@
                &&& word != "Error"@
                &&& word != "ImagePullBackOff"@
                &&& word != "ErrImagePull"@
                &&& word != "InvalidImageName"@
                &&& word != "CreateContainerConfigError"@
                &&& word != "CreateContainerError"@
                &&& word != "OOMKilled"@
                &&& word != "Evicted"@
                &&& word != "Failed"@
                &&& word != "ContainerStatusUnknown"@
                &&& word != "Unknown"@
                &&& !starts_with(word, "ExitCode:"@)
            },
    ensures
        !pod.is_unhealthy(),
        pod.glyph() != "\u{2717}"@,
        unhealthy_among(pods.push(pod)) == unhealthy_among(pods),
{
    lemma_status_words();
    reveal_strlit("\u{2717}");
    reveal_strlit("\u{25cf}");
    reveal_strlit("\u{2713}");
    reveal_strlit("\u{25d0}");
    reveal_strlit("\u{25cb}");
    assert("\u{2717}"@[0] == '\u{2717}');
    assert("\u{25cf}"@[0] == '\u{25cf}');
    assert("\u{2713}"@[0] == '\u{2713}');
    assert("\u{25d0}"@[0] == '\u{25d0}');
    assert("\u{25cb}"@[0] == '\u{25cb}');
    let bare = "Init:"@ + pod.status;
    if starts_with(pod.status, "Init:"@) {
        let word = pod.status.skip(5);
        assert("Init:"@ + word =~= pod.status);
    }
    assert(pods.push(pod).drop_last() =~= pods);
}

/// The glyph says how a pod is: running and ready, running but not ready
/// yet, finished, or on its way.
pub proof fn law_the_glyph_says_how_a_pod_is(pod: PodView, done: nat, total: nat)
    ensures
        pod.status == "Running"@ && 0 < pod.ready.1 && pod.ready.0 == pod.ready.1 ==> pod.glyph()
            == "\u{25cf}"@,
        pod.status == "Running"@ && pod.ready.0 != pod.ready.1 ==> pod.glyph() == "\u{25d0}"@,
        pod.status == "Completed"@ || pod.status == "Succeeded"@ ==> pod.glyph() == "\u{2713}"@,
        pod.status == "Pending"@ || pod.status == "ContainerCreating"@ || pod.status
            == "PodInitializing"@ || pod.status == "Terminating"@ ==> pod.glyph() == "\u{25d0}"@,
        pod.status == "Init:"@ + decimal(done) + "/"@ + decimal(total) ==> pod.glyph()
            == "\u{25d0}"@,
{
    lemma_status_words();
    if starts_with(pod.status, "ExitCode:"@) {
        lemma_starts(pod.status, "ExitCode:"@, 0);
    }
    if starts_with(pod.status, "Init:"@) {
        lemma_starts(pod.status, "Init:"@, 0);
    }
    let word = decimal(done) + "/"@ + decimal(total);
    crate::text::law_a_number_is_written_in_digits(done);
    assert("Init:"@ + decimal(done) + "/"@ + decimal(total) =~= "Init:"@ + word);
    assert(("Init:"@ + word).take(5) =~= "Init:"@);
    assert(("Init:"@ + word).skip(5) =~= word);
    assert(word[0] == decimal(done)[0]);
    if starts_with(word, "ExitCode:"@) {
        lemma_starts(word, "ExitCode:"@, 0);
    }
}

/// The badge of a tab counts its pods one by one.
pub proof fn law_the_badge_adds_up(a: Seq<PodView>, b: Seq<PodView>)
    ensures
        unhealthy_among(a + b) == unhealthy_among(a) + unhealthy_among(b),
        unhealthy_among(a) <= a.len(),
    decreases b.len(), a.len(),
{
    if a.len() > 0 {
        law_the_badge_adds_up(a.drop_last(), seq![]);
    }
    if b.len() == 0 {
        assert(a + b =~= a);
    } else {
        law_the_badge_adds_up(a, b.drop_last());
        assert((a + b).drop_last() =~= a + b.drop_last());
        assert((a + b).last() == b.last());
    }
}

/// What a pod's cells say of it: how many of how many are ready, and what
/// made it, by kind and name.
pub proof fn law_a_pod_says_its_count_and_its_owner(
    pod: PodView,
    kind: Seq<char>,
    name: Seq<char>,
)
    ensures
        pod.ready_label() == decimal(pod.ready.0 as nat) + "/"@ + decimal(pod.ready.1 as nat),
        pod.owner == Some((kind, name)) ==> pod.owner_label() == kind + "/"@ + name
            && pod.owner_name() == name,
{
}

/// The containers of a pod are those its spec lists, each with its status.
pub proof fn law_a_pod_has_the_containers_of_its_spec(
    cluster: Seq<char>,
    item: JsonView,
    pod: PodView,
    specs: Seq<JsonView>,
    statuses: Seq<JsonView>,
)
    requires
        pod_of(cluster, item) == Some(pod),
        item.at("spec"@).at("containers"@) == JsonView::Array(specs),
    ensures
        item.at("status"@).at("containerStatuses"@) == JsonView::Array(statuses) ==> pod.containers
            == containers_of(specs, statuses),
        item.at("status"@).at("containerStatuses"@) is Null ==> pod.containers == containers_of(
            specs,
            Seq::empty(),
        ),
{
}

/// An init container that stopped with any code but nought is named by its
/// reason, or by the code where it gives none.
pub proof fn law_an_init_container_that_failed_is_named(
    cluster: Seq<char>,
    item: JsonView,
    pod: PodView,
    starting: Seq<JsonView>,
    at: int,
    said: Seq<char>,
    unsigned: Option<u64>,
    code: i64,
)
    requires
        pod_of(cluster, item) == Some(pod),
        item.at("metadata"@).at("deletionTimestamp"@) is Null,
        item.at("status"@).at("initContainerStatuses"@) == JsonView::Array(starting),
        0 <= at < starting.len(),
        forall|k: int| 0 <= k < at ==> has_ended_well(#[trigger] starting[k]),
        starting[at].at("state"@).at("terminated"@).at("exitCode"@) == JsonView::Number(
            unsigned,
            Some(code),
        ),
        code != 0,
        said.len() > 0,
    ensures
        starting[at].at("state"@).at("terminated"@).at("reason"@) == JsonView::Text(said)
            ==> pod.status == "Init:"@ + said,
        starting[at].at("state"@).at("terminated"@).at("reason"@) is Null ==> pod.status
            == "Init:"@ + ("ExitCode:"@ + signed_decimal(code as int)),
{
    assert forall|k: int| 0 <= k < at implies is_done(#[trigger] starting[k]) by {
        assert(has_ended_well(starting[k]));
    }
    lemma_done(starting, at);
    assert(item.at("status"@).at("initContainerStatuses"@).items() == starting);
}

/// An init container that stopped with nought.
pub open spec fn has_ended_well(status: JsonView) -> bool {
    status.at("state"@).at("terminated"@).at("exitCode"@) matches JsonView::Number(_, code)
        && code == Some(0i64)
}

proof fn lemma_all_done(statuses: Seq<JsonView>)
    requires
        forall|k: int| 0 <= k < statuses.len() ==> is_done(#[trigger] statuses[k]),
    ensures
        done_before(statuses) == statuses.len(),
    decreases statuses.len(),
{
    if statuses.len() > 0 {
        let rest = statuses.skip(1);
        assert(is_done(statuses[0]));
        assert forall|k: int| 0 <= k < rest.len() implies is_done(#[trigger] rest[k]) by {
            assert(rest[k] == statuses[k + 1]);
        }
        lemma_all_done(rest);
    }
}

/// Once every init container has ended well the pod says what its containers
/// say: the first one's reason or code, and else the pod's own.
pub proof fn law_past_the_init_containers_the_containers_speak(
    cluster: Seq<char>,
    item: JsonView,
    pod: PodView,
    starting: Seq<JsonView>,
    statuses: Seq<JsonView>,
    at: int,
    said: Seq<char>,
    code: i64,
)
    requires
        pod_of(cluster, item) == Some(pod),
        item.at("metadata"@).at("deletionTimestamp"@) is Null,
        item.at("status"@).at("initContainerStatuses"@) == JsonView::Array(starting),
        forall|k: int| 0 <= k < starting.len() ==> has_ended_well(#[trigger] starting[k]),
        item.at("status"@).at("containerStatuses"@) == JsonView::Array(statuses),
        0 <= at <= statuses.len(),
        forall|k: int| 0 <= k < at ==> is_quiet(#[trigger] statuses[k]),
        said.len() > 0,
        said != "Completed"@,
    ensures
        at < statuses.len() && statuses[at].at("state"@).at("waiting"@).at("reason"@)
            == JsonView::Text(said) ==> pod.status == said,
        at < statuses.len() && statuses[at].at("state"@).at("waiting"@) is Null && statuses[at].at(
            "state"@,
        ).at("terminated"@) is Object && statuses[at].at("state"@).at("terminated"@).at(
            "reason"@,
        ) is Null && statuses[at].at("state"@).at("terminated"@).at("exitCode"@)
            == JsonView::Number(None, Some(code)) ==> pod.status == "ExitCode:"@ + signed_decimal(
            code as int,
        ),
        at == statuses.len() && item.at("status"@).at("reason"@) is Null && item.at("status"@).at(
            "phase"@,
        ) == JsonView::Text(said) ==> pod.status == said,
{
    assert forall|k: int| 0 <= k < starting.len() implies is_done(#[trigger] starting[k]) by {
        assert(has_ended_well(starting[k]));
    }
    lemma_all_done(starting);
    assert(item.at("status"@).at("initContainerStatuses"@).items() == starting);
    assert(item.at("status"@).at("containerStatuses"@).items() == statuses);
    reveal_strlit("Completed");
    reveal_strlit("ExitCode:");
    assert("ExitCode:"@[0] == 'E' && "Completed"@[0] == 'C');
    let coded = "ExitCode:"@ + signed_decimal(code as int);
    assert(coded[0] == 'E');
    if at == statuses.len() || complaint(statuses[at]) is Some {
        lemma_first_complaint(statuses, at);
    }
}

/// What stopped last without a reason is terminated, with its code, or with
/// nought where it has none.
pub proof fn law_a_stop_without_a_reason_is_terminated(
    one: JsonView,
    status: JsonView,
    name: Seq<char>,
    code: i64,
)
    requires
        one.at("name"@) == JsonView::Text(name),
        status.at("name"@) == JsonView::Text(name),
        status.at("lastState"@).at("terminated"@) is Object,
        status.at("lastState"@).at("terminated"@).at("reason"@) is Null,
    ensures
        containers_of(seq![one], seq![status]).len() == 1,
        status.at("lastState"@).at("terminated"@).at("exitCode"@) == JsonView::Number(
            None,
            Some(code),
        ) ==> containers_of(seq![one], seq![status])[0].last_termination == Some(
            ("Terminated"@, code),
        ),
        status.at("lastState"@).at("terminated"@).at("exitCode"@) is Null ==> containers_of(
            seq![one],
            seq![status],
        )[0].last_termination == Some(("Terminated"@, 0i64)),
{
    law_a_container_has_its_own_status(one, seq![status], name, 0);
    lemma_named(seq![status], name, 0);
    assert(seq![one].drop_last() =~= Seq::<JsonView>::empty());
    assert(seq![one].last() == one);
}

/// A pod on its way through its init containers is on its way, and a word
/// that none of this knows is neither trouble nor anything else.
pub proof fn law_any_other_word_has_the_empty_glyph(pod: PodView)
    requires
        !pod.is_unhealthy(),
    ensures
        starts_with(pod.status, "Init:"@) ==> pod.glyph() == "\u{25d0}"@,
        !starts_with(pod.status, "Init:"@) && pod.status != "Running"@ && pod.status != "Pending"@
            && pod.status != "ContainerCreating"@ && pod.status != "PodInitializing"@ && pod.status
            != "Terminating"@ && pod.status != "Completed"@ && pod.status != "Succeeded"@
            ==> pod.glyph() == "\u{25cb}"@,
{
    reveal_strlit("Init:");
    reveal_strlit("Running");
    reveal_strlit("Completed");
    reveal_strlit("Succeeded");
    if starts_with(pod.status, "Init:"@) {
        assert(pod.status[0] == "Init:"@[0]);
        assert("Running"@[0] == 'R' && "Completed"@[0] == 'C' && "Succeeded"@[0] == 'S');
    }
}

/// The labels stand in the order of their keys.
pub proof fn law_the_labels_stand_in_order(
    cluster: Seq<char>,
    item: JsonView,
    pod: PodView,
    first: int,
    second: int,
)
    requires
        pod_of(cluster, item) == Some(pod),
        0 <= first < second < pod.labels.len(),
    ensures
        at_most(pod.labels[first].0, pod.labels[second].0),
{
    law_sorting_keeps_every_pair(text_entries(item.at("metadata"@).at("labels"@).entries()));
    law_texts_have_one_order(pod.labels[first].0, pod.labels[second].0);
    assert(pair_at_most(pod.labels[first], pod.labels[second]));
}

/// A pod can be restarted where something made it, and its first container is
/// the first it lists.
pub proof fn law_what_made_a_pod_can_make_it_again(
    pod: &Pod,
    answer: bool,
    name: Option<&str>,
)
    ensures
        call_ensures(Pod::restartable, (pod,), answer) ==> (answer <==> pod@.owner is Some),
        call_ensures(Pod::first_container, (pod,), name) && pod@.containers.len() > 0 ==> name
            is Some && name->0@ == pod@.containers[0].name,
        call_ensures(Pod::first_container, (pod,), name) && pod@.containers.len() == 0 ==> name
            is None,
{
}

/// What is read of a document counts every restart of every container, and
/// says its own name, address and node.
pub proof fn law_a_pod_read_says_what_its_document_says(
    cluster: &str,
    item: &Json,
    pod: Pod,
    ip: Seq<char>,
    node: Seq<char>,
)
    requires
        call_ensures(Pod::from_json, (cluster, item), Some(pod)),
    ensures
        pod@.key.cluster == cluster@,
        item@.at("metadata"@).at("name"@) == JsonView::Text(pod@.key.name),
        item@.at("status"@).at("podIP"@) == JsonView::Text(ip) ==> pod@.ip == ip,
        item@.at("spec"@).at("nodeName"@) == JsonView::Text(node) ==> pod@.node == node,
        restarts_among(pod@.containers) <= u32::MAX ==> pod@.restarts == restarts_among(
            pod@.containers,
        ),
        pod@.ready.0 == ready_among(pod@.containers),
        pod@.ready.1 == pod@.containers.len(),
{
    law_a_pod_counts_its_containers(cluster@, item@, pod@);
    law_a_pod_is_what_its_document_says(cluster@, item@);
}

/// A pod says what application it is of, by either label, and what is wrong
/// with it.
pub proof fn law_a_pod_says_its_application_and_its_trouble(
    pod: &Pod,
    at: int,
    value: Option<&str>,
    answer: bool,
    glyph: &str,
)
    requires
        0 <= at < pod@.labels.len(),
        call_ensures(Pod::app, (pod,), value),
        call_ensures(Pod::is_unhealthy, (pod,), answer),
        call_ensures(Pod::glyph, (pod,), glyph),
    ensures
        pod@.labels[at].0 == "app"@ && (forall|k: int|
            0 <= k < at ==> (#[trigger] pod@.labels[k]).0 != "app"@) ==> value is Some && value->0@
            == pod@.labels[at].1,
        pod@.labels[at].0 == "app.kubernetes.io/name"@ && (forall|k: int|
            0 <= k < pod@.labels.len() ==> (#[trigger] pod@.labels[k]).0 != "app"@) && (forall|
            k: int,
        |
            0 <= k < at ==> (#[trigger] pod@.labels[k]).0 != "app.kubernetes.io/name"@) ==> value
            is Some && value->0@ == pod@.labels[at].1,
        pod@.status == "OOMKilled"@ || pod@.status == "CrashLoopBackOff"@ || pod@.status
            == "Error"@ || pod@.status == "ImagePullBackOff"@ || pod@.status == "Evicted"@ ==> answer
            && glyph@ == "\u{2717}"@,
        answer <==> pod@.is_unhealthy(),
{
    law_an_application_goes_by_either_label(pod@, at);
    if pod@.status == "OOMKilled"@ || pod@.status == "CrashLoopBackOff"@ || pod@.status == "Error"@
        || pod@.status == "ImagePullBackOff"@ || pod@.status == "Evicted"@ {
        law_a_word_of_trouble_is_seen(seq![], pod@, pod@.status);
    }
}

/// The pods of an answer are of the cluster that was asked.
pub proof fn law_the_pods_are_of_the_cluster_that_was_asked(
    cluster: Seq<char>,
    items: Seq<JsonView>,
    at: int,
)
    requires
        0 <= at < pods_of(cluster, items).len(),
    ensures
        pods_of(cluster, items)[at].key.cluster == cluster,
    decreases items.len(),
{
    if items.len() > 0 {
        let before = pods_of(cluster, items.drop_last());
        if at < before.len() {
            law_the_pods_are_of_the_cluster_that_was_asked(cluster, items.drop_last(), at);
        }
    }
}

/// A running pod without a container is not up.
pub proof fn law_a_pod_without_containers_is_not_up(pod: PodView)
    requires
        pod.status == "Running"@,
    ensures
        pod.ready.1 == 0 ==> pod.glyph() == "\u{25d0}"@,
        pod.glyph() == "\u{25cf}"@ <==> pod.ready.0 == pod.ready.1 && pod.ready.1 > 0,
{
    lemma_status_words();
    reveal_strlit("\u{25cf}");
    reveal_strlit("\u{25d0}");
    reveal_strlit("\u{2717}");
    assert("\u{25cf}"@[0] != "\u{25d0}"@[0] && "\u{25cf}"@[0] != "\u{2717}"@[0]);
    law_the_glyph_says_how_a_pod_is(pod, 0, 0);
}

} // verus!
