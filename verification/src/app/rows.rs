//! Which rows of a tab's list are shown, and in what order.

use vstd::prelude::*;
use vstd::string::*;

use crate::columns::ColumnId;
use crate::filter::{contains, Query, QueryView};
use crate::kube::laws::{
    law_a_label_is_found_under_its_key, law_an_application_goes_by_either_label,
};
use crate::kube::pod::{pod_views, Pod, PodView};
use crate::text;
use crate::text::{at_most, has, lower, texts};

verus! {

/// A text contains another one, in whatever case.
pub open spec fn mentions(held: Seq<char>, wanted: Seq<char>) -> bool {
    has(lower(held), lower(wanted))
}

/// The image of a pod's first container.
pub open spec fn image_of(pod: PodView) -> Seq<char> {
    if pod.containers.len() > 0 {
        pod.containers[0].image
    } else {
        ""@
    }
}

/// One of the texts a pod is known by contains the word.
pub open spec fn is_known_by(pod: PodView, word: Seq<char>) -> bool {
    ||| mentions(pod.key.name, word)
    ||| mentions(pod.key.namespace, word)
    ||| mentions(pod.status, word)
    ||| mentions(pod.node, word)
    ||| mentions(pod.owner_name(), word)
    ||| mentions(image_of(pod), word)
}

/// What a field of the pods list is of a pod. A field the list does not have
/// is nothing.
pub open spec fn field_of(pod: PodView, key: Seq<char>) -> Seq<char> {
    if key == "name"@ {
        pod.key.name
    } else if key == "ns"@ {
        pod.key.namespace
    } else if key == "status"@ {
        pod.status
    } else if key == "owner"@ {
        pod.owner_name()
    } else if key == "app"@ {
        match pod.app() {
            Some(held) => held,
            None => ""@,
        }
    } else if key == "node"@ {
        pod.node
    } else {
        ""@
    }
}

/// A pod that every word and every field of a query asks for.
pub open spec fn is_asked_for(pod: PodView, query: QueryView) -> bool {
    &&& forall|k: int| 0 <= k < query.words.len() ==> is_known_by(pod, #[trigger] query.words[k])
    &&& forall|k: int|
        0 <= k < query.fields.len() ==> mentions(
            field_of(pod, (#[trigger] query.fields[k]).0),
            query.fields[k].1,
        )
}

/// The older of two comes later, and what has no age comes last.
pub open spec fn no_older(a: Option<int>, b: Option<int>) -> bool {
    match (a, b) {
        (Some(a), Some(b)) => a >= b,
        (None, Some(_)) => false,
        (_, None) => true,
    }
}

/// `a` comes no later than `b` under this column.
pub open spec fn no_later(a: PodView, b: PodView, column: ColumnId) -> bool {
    match column {
        ColumnId::Name => at_most(a.key.name, b.key.name),
        ColumnId::Namespace => at_most(a.key.namespace, b.key.namespace),
        ColumnId::Ready => a.ready.0 < b.ready.0 || (a.ready.0 == b.ready.0 && a.ready.1
            <= b.ready.1),
        ColumnId::Status => at_most(a.status, b.status),
        ColumnId::Restarts => a.restarts <= b.restarts,
        ColumnId::Age => no_older(a.created, b.created),
        ColumnId::Node => at_most(a.node, b.node),
        ColumnId::Ip => at_most(a.ip, b.ip),
        ColumnId::Owner => at_most(a.owner_name(), b.owner_name()),
        ColumnId::Image => at_most(image_of(a), image_of(b)),
    }
}

/// A sort: a column, and which way.
pub struct SortView {
    pub column: ColumnId,
    pub descending: bool,
}

impl SortView {
    /// `a` may stand before `b`.
    pub open spec fn allows(self, a: PodView, b: PodView) -> bool {
        if self.descending {
            no_later(b, a, self.column)
        } else {
            no_later(a, b, self.column)
        }
    }
}

/// These rows with one more, put before the first of those that may not
/// stand before it.
pub open spec fn with_row(
    rows: Seq<usize>,
    row: usize,
    pods: Seq<PodView>,
    sort: SortView,
) -> Seq<usize>
    decreases rows.len(),
{
    if rows.len() == 0 || sort.allows(pods[rows.last() as int], pods[row as int]) {
        rows.push(row)
    } else {
        with_row(rows.drop_last(), row, pods, sort).push(rows.last())
    }
}

/// Those of the first so many pods that the query asks for, sorted. Pods the
/// sort holds equal stay in the list's order.
pub open spec fn rows_among(
    pods: Seq<PodView>,
    query: QueryView,
    sort: SortView,
    count: nat,
) -> Seq<usize>
    decreases count,
{
    if count == 0 {
        seq![]
    } else {
        let before = rows_among(pods, query, sort, (count - 1) as nat);
        if is_asked_for(pods[count - 1], query) {
            with_row(before, (count - 1) as usize, pods, sort)
        } else {
            before
        }
    }
}

/// The image of a pod's first container.
pub fn first_image(pod: &Pod) -> (image: &str)
    ensures
        image@ == image_of(pod@),
{
    if pod.containers.len() > 0 {
        assert(pod@.containers[0] == pod.containers@[0]@);
        pod.containers[0].image.as_str()
    } else {
        ""
    }
}

fn knows(pod: &Pod, word: &str) -> (answer: bool)
    ensures
        answer == is_known_by(pod@, word@),
{
    contains(pod.key.name.as_str(), word) || contains(pod.key.namespace.as_str(), word) || contains(
        pod.status.as_str(),
        word,
    ) || contains(pod.node.as_str(), word) || contains(pod.owner_name(), word) || contains(
        first_image(pod),
        word,
    )
}

fn field<'a>(pod: &'a Pod, key: &str) -> (held: &'a str)
    ensures
        held@ == field_of(pod@, key@),
{
    if text::same(key, "name") {
        pod.key.name.as_str()
    } else if text::same(key, "ns") {
        pod.key.namespace.as_str()
    } else if text::same(key, "status") {
        pod.status.as_str()
    } else if text::same(key, "owner") {
        pod.owner_name()
    } else if text::same(key, "app") {
        match pod.app() {
            Some(held) => held,
            None => "",
        }
    } else if text::same(key, "node") {
        pod.node.as_str()
    } else {
        ""
    }
}

/// Whether a query asks for a pod.
pub fn asks_for(query: &Query, pod: &Pod) -> (answer: bool)
    ensures
        answer == is_asked_for(pod@, query@),
{
    let mut at: usize = 0;
    while at < query.words.len()
        invariant
            at <= query.words@.len(),
            forall|k: int| 0 <= k < at ==> is_known_by(pod@, #[trigger] query@.words[k]),
        decreases query.words@.len() - at,
    {
        assert(query@.words[at as int] == query.words@[at as int]@);
        if !knows(pod, query.words[at].as_str()) {
            return false;
        }
        at += 1;
    }
    let mut at: usize = 0;
    while at < query.fields.len()
        invariant
            at <= query.fields@.len(),
            forall|k: int|
                0 <= k < at ==> mentions(
                    field_of(pod@, (#[trigger] query@.fields[k]).0),
                    query@.fields[k].1,
                ),
        decreases query.fields@.len() - at,
    {
        assert(query@.fields[at as int] == (
            query.fields@[at as int].0@,
            query.fields@[at as int].1@,
        ));
        if !contains(
            field(pod, query.fields[at].0.as_str()),
            query.fields[at].1.as_str(),
        ) {
            return false;
        }
        at += 1;
    }
    true
}

fn comes_no_later(a: &Pod, b: &Pod, column: ColumnId) -> (answer: bool)
    ensures
        answer == no_later(a@, b@, column),
{
    match column {
        ColumnId::Name => text::in_order(a.key.name.as_str(), b.key.name.as_str()),
        ColumnId::Namespace => text::in_order(a.key.namespace.as_str(), b.key.namespace.as_str()),
        ColumnId::Ready => a.ready.0 < b.ready.0 || (a.ready.0 == b.ready.0 && a.ready.1
            <= b.ready.1),
        ColumnId::Status => text::in_order(a.status.as_str(), b.status.as_str()),
        ColumnId::Restarts => a.restarts <= b.restarts,
        ColumnId::Age => match (a.created, b.created) {
            (Some(a), Some(b)) => a.seconds() >= b.seconds(),
            (None, Some(_)) => false,
            (_, None) => true,
        },
        ColumnId::Node => text::in_order(a.node.as_str(), b.node.as_str()),
        ColumnId::Ip => text::in_order(a.ip.as_str(), b.ip.as_str()),
        ColumnId::Owner => text::in_order(a.owner_name(), b.owner_name()),
        ColumnId::Image => text::in_order(first_image(a), first_image(b)),
    }
}

/// Whether one pod may stand before another.
fn may_precede(a: &Pod, b: &Pod, column: ColumnId, descending: bool) -> (answer: bool)
    ensures
        answer == (SortView { column, descending }).allows(a@, b@),
{
    if descending {
        comes_no_later(b, a, column)
    } else {
        comes_no_later(a, b, column)
    }
}

/// Puts one more row where it sorts.
fn put_row(
    rows: &mut Vec<usize>,
    row: usize,
    pods: &Vec<Pod>,
    column: ColumnId,
    descending: bool,
)
    requires
        row < pods@.len(),
        forall|k: int| 0 <= k < old(rows)@.len() ==> (#[trigger] old(rows)@[k]) < pods@.len(),
    ensures
        final(rows)@ == with_row(
            old(rows)@,
            row,
            pod_views(pods@),
            SortView { column, descending },
        ),
        forall|k: int| 0 <= k < final(rows)@.len() ==> (#[trigger] final(rows)@[k]) < pods@.len(),
{
    let ghost all = rows@;
    let ghost held = pod_views(pods@);
    let ghost sort = SortView { column, descending };
    let mut at: usize = rows.len();
    assert(all.take(at as int) =~= all);
    assert(with_row(all, row, held, sort) =~= with_row(all, row, held, sort) + all.skip(at as int));
    while at > 0 && !may_precede(&pods[rows[at - 1]], &pods[row], column, descending)
        invariant
            at <= rows@.len(),
            all == rows@,
            held == pod_views(pods@),
            sort == (SortView { column, descending }),
            row < pods@.len(),
            forall|k: int| 0 <= k < all.len() ==> (#[trigger] all[k]) < pods@.len(),
            with_row(all, row, held, sort) == with_row(all.take(at as int), row, held, sort)
                + all.skip(at as int),
        decreases at,
    {
        let ghost before = all.take(at as int);
        assert(before.last() == all[at - 1]);
        assert(before.drop_last() =~= all.take(at - 1));
        assert(with_row(before, row, held, sort) == with_row(
            before.drop_last(),
            row,
            held,
            sort,
        ).push(before.last()));
        assert(with_row(before.drop_last(), row, held, sort).push(before.last()) + all.skip(
            at as int,
        ) =~= with_row(before.drop_last(), row, held, sort) + all.skip(at - 1));
        at -= 1;
    }
    assert(at > 0 ==> all.take(at as int).last() == all[at - 1]);
    rows.insert(at, row);
    assert(rows@ =~= all.take(at as int).push(row) + all.skip(at as int));
}

/// The rows of a list that are shown, in the order they are shown.
pub fn rows_of(
    pods: &Vec<Pod>,
    query: &Query,
    column: ColumnId,
    descending: bool,
) -> (rows: Vec<usize>)
    ensures
        rows@ == rows_among(
            pod_views(pods@),
            query@,
            SortView { column, descending },
            pods@.len(),
        ),
        forall|k: int| 0 <= k < rows@.len() ==> (#[trigger] rows@[k]) < pods@.len(),
{
    let ghost held = pod_views(pods@);
    let mut rows: Vec<usize> = Vec::new();
    let mut at: usize = 0;
    while at < pods.len()
        invariant
            at <= pods@.len(),
            held == pod_views(pods@),
            rows@ == rows_among(held, query@, SortView { column, descending }, at as nat),
            forall|k: int| 0 <= k < rows@.len() ==> (#[trigger] rows@[k]) < pods@.len(),
        decreases pods@.len() - at,
    {
        assert(held[at as int] == pods@[at as int]@);
        if asks_for(query, &pods[at]) {
            put_row(&mut rows, at, pods, column, descending);
        }
        at += 1;
    }
    rows
}

proof fn lemma_text_order(a: Seq<char>, b: Seq<char>, c: Seq<char>)
    ensures
        at_most(a, b) || at_most(b, a),
        at_most(a, b) && at_most(b, c) ==> at_most(a, c),
{
    text::law_texts_have_one_order(a, b);
    if at_most(a, b) && at_most(b, c) {
        text::law_order_carries_over(a, b, c);
    }
}

proof fn lemma_no_later(a: PodView, b: PodView, c: PodView, column: ColumnId)
    ensures
        no_later(a, b, column) || no_later(b, a, column),
        no_later(a, b, column) && no_later(b, c, column) ==> no_later(a, c, column),
{
    lemma_text_order(a.key.name, b.key.name, c.key.name);
    lemma_text_order(a.key.namespace, b.key.namespace, c.key.namespace);
    lemma_text_order(a.status, b.status, c.status);
    lemma_text_order(a.node, b.node, c.node);
    lemma_text_order(a.ip, b.ip, c.ip);
    lemma_text_order(a.owner_name(), b.owner_name(), c.owner_name());
    lemma_text_order(image_of(a), image_of(b), image_of(c));
}

proof fn lemma_allows(a: PodView, b: PodView, c: PodView, sort: SortView)
    ensures
        sort.allows(a, b) || sort.allows(b, a),
        sort.allows(a, b) && sort.allows(b, c) ==> sort.allows(a, c),
{
    lemma_no_later(a, b, c, sort.column);
    lemma_no_later(c, b, a, sort.column);
}

/// Every row may stand before those that follow it.
pub open spec fn is_sorted(rows: Seq<usize>, pods: Seq<PodView>, sort: SortView) -> bool {
    forall|i: int, j: int|
        0 <= i < j < rows.len() ==> sort.allows(
            pods[(#[trigger] rows[i]) as int],
            pods[(#[trigger] rows[j]) as int],
        )
}

proof fn lemma_with_row(rows: Seq<usize>, row: usize, pods: Seq<PodView>, sort: SortView)
    ensures
        with_row(rows, row, pods, sort).to_multiset() == rows.to_multiset().insert(row),
        is_sorted(rows, pods, sort) ==> is_sorted(with_row(rows, row, pods, sort), pods, sort),
    decreases rows.len(),
{
    broadcast use vstd::seq_lib::group_to_multiset_ensures;

    if rows.len() == 0 || sort.allows(pods[rows.last() as int], pods[row as int]) {
        if is_sorted(rows, pods, sort) {
            let with = rows.push(row);
            assert forall|i: int, j: int| 0 <= i < j < with.len() implies sort.allows(
                pods[(#[trigger] with[i]) as int],
                pods[(#[trigger] with[j]) as int],
            ) by {
                if j == rows.len() && i < rows.len() - 1 {
                    assert(rows[rows.len() - 1] == rows.last());
                    lemma_allows(
                        pods[rows[i] as int],
                        pods[rows.last() as int],
                        pods[row as int],
                        sort,
                    );
                }
            }
        }
    } else {
        let before = rows.drop_last();
        let last = rows.last();
        lemma_with_row(before, row, pods, sort);
        assert(rows =~= before.push(last));
        assert(with_row(rows, row, pods, sort).to_multiset() =~= rows.to_multiset().insert(row));
        if is_sorted(rows, pods, sort) {
            let inner = with_row(before, row, pods, sort);
            let with = inner.push(last);
            assert(is_sorted(before, pods, sort)) by {
                assert forall|i: int, j: int| 0 <= i < j < before.len() implies sort.allows(
                    pods[(#[trigger] before[i]) as int],
                    pods[(#[trigger] before[j]) as int],
                ) by {
                    assert(before[i] == rows[i] && before[j] == rows[j]);
                }
            }
            assert forall|i: int, j: int| 0 <= i < j < with.len() implies sort.allows(
                pods[(#[trigger] with[i]) as int],
                pods[(#[trigger] with[j]) as int],
            ) by {
                if j == inner.len() {
                    lemma_allows(
                        pods[last as int],
                        pods[row as int],
                        pods[row as int],
                        sort,
                    );
                    assert(inner.contains(inner[i]));
                    assert(inner.to_multiset().count(inner[i]) > 0);
                    if inner[i] != row {
                        assert(before.to_multiset().count(inner[i]) > 0);
                        assert(before.contains(inner[i]));
                        let k = choose|k: int| 0 <= k < before.len() && before[k] == inner[i];
                        assert(rows[k] == inner[i]);
                        assert(rows[rows.len() - 1] == last);
                    }
                }
            }
        }
    }
}

proof fn lemma_rows(pods: Seq<PodView>, query: QueryView, sort: SortView, count: nat)
    requires
        count <= usize::MAX,
    ensures
        is_sorted(rows_among(pods, query, sort, count), pods, sort),
        forall|row: usize|
            #![trigger rows_among(pods, query, sort, count).to_multiset().count(row)]
            rows_among(pods, query, sort, count).to_multiset().count(row) == (if row < count
                && is_asked_for(pods[row as int], query) {
                1nat
            } else {
                0nat
            }),
    decreases count,
{
    broadcast use vstd::seq_lib::group_to_multiset_ensures;

    if count > 0 {
        let before = rows_among(pods, query, sort, (count - 1) as nat);
        lemma_rows(pods, query, sort, (count - 1) as nat);
        if is_asked_for(pods[count - 1], query) {
            lemma_with_row(before, (count - 1) as usize, pods, sort);
        }
        assert forall|row: usize|
            #![trigger rows_among(pods, query, sort, count).to_multiset().count(row)]
            rows_among(pods, query, sort, count).to_multiset().count(row) == (if row < count
                && is_asked_for(pods[row as int], query) {
                1nat
            } else {
                0nat
            }) by {
            assert(before.to_multiset().count(row) == (if row < count - 1 && is_asked_for(
                pods[row as int],
                query,
            ) {
                1nat
            } else {
                0nat
            }));
        }
    }
}

proof fn lemma_one_row_more(rows: Seq<usize>, row: usize, pods: Seq<PodView>, sort: SortView)
    ensures
        with_row(rows, row, pods, sort).len() == rows.len() + 1,
    decreases rows.len(),
{
    if rows.len() > 0 {
        lemma_one_row_more(rows.drop_last(), row, pods, sort);
    }
}

/// There are no more rows than pods.
pub proof fn lemma_no_more_rows_than_pods(
    pods: Seq<PodView>,
    query: QueryView,
    sort: SortView,
    count: nat,
)
    ensures
        rows_among(pods, query, sort, count).len() <= count,
    decreases count,
{
    if count > 0 {
        let before = rows_among(pods, query, sort, (count - 1) as nat);
        lemma_no_more_rows_than_pods(pods, query, sort, (count - 1) as nat);
        lemma_one_row_more(before, (count - 1) as usize, pods, sort);
    }
}

/// The rows shown are the pods that the query asks for, each of them once
/// and no others, and each may stand before those that follow it.
pub proof fn law_the_rows_are_those_asked_for_in_order(
    pods: Seq<PodView>,
    query: QueryView,
    sort: SortView,
    row: usize,
)
    requires
        pods.len() <= usize::MAX,
    ensures
        is_sorted(rows_among(pods, query, sort, pods.len()), pods, sort),
        rows_among(pods, query, sort, pods.len()).contains(row) <==> row < pods.len()
            && is_asked_for(pods[row as int], query),
        rows_among(pods, query, sort, pods.len()).no_duplicates(),
{
    broadcast use vstd::seq_lib::group_to_multiset_ensures;

    let rows = rows_among(pods, query, sort, pods.len());
    lemma_rows(pods, query, sort, pods.len());
    assert(rows.to_multiset().count(row) > 0 <==> rows.contains(row));
    assert forall|one: usize| rows.to_multiset().count(one) <= 1 by {}
    rows.lemma_multiset_has_no_duplicates_conv();
}

/// Without a query every pod is shown.
pub proof fn law_an_empty_query_asks_for_everything(pod: PodView)
    ensures
        is_asked_for(pod, QueryView::empty()),
{
}

/// A query of one word.
pub open spec fn one_word(word: Seq<char>) -> QueryView {
    QueryView { words: seq![word], fields: seq![] }
}

/// A query of one field.
pub open spec fn one_field(key: Seq<char>, wanted: Seq<char>) -> QueryView {
    QueryView { words: seq![], fields: seq![(key, wanted)] }
}

/// A text mentions every part of itself, in whatever case it is asked for,
/// and nothing that is no part of it.
pub proof fn law_a_text_mentions_its_parts(
    front: Seq<char>,
    part: Seq<char>,
    back: Seq<char>,
    wanted: Seq<char>,
    held: Seq<char>,
)
    ensures
        lower(part) == lower(wanted) ==> mentions(front + part + back, wanted),
        mentions(held, wanted) ==> exists|at: int|
            0 <= at <= held.len() - wanted.len() && lower(
                #[trigger] held.subrange(at, at + wanted.len()),
            ) == lower(wanted),
{
    let whole = front + part + back;
    assert(lower(whole) =~= lower(front) + lower(part) + lower(back));
    text::law_a_part_is_found_where_it_stands(lower(front), lower(part), lower(back), lower(held));
    if mentions(held, wanted) {
        let at = choose|at: int| text::occurs_at(lower(held), lower(wanted), at);
        assert(lower(held.subrange(at, at + wanted.len())) =~= lower(held).subrange(
            at,
            at + wanted.len(),
        ));
    }
}

/// A word asks for the pods that mention it in their name, their namespace,
/// their status, their node, their owner's name or their first image, and
/// for no others.
pub proof fn law_a_word_looks_at_what_a_pod_is_known_by(pod: PodView, word: Seq<char>)
    ensures
        is_asked_for(pod, one_word(word)) <==> mentions(pod.key.name, word) || mentions(
            pod.key.namespace,
            word,
        ) || mentions(pod.status, word) || mentions(pod.node, word) || mentions(
            pod.owner_name(),
            word,
        ) || (pod.containers.len() > 0 && mentions(pod.containers[0].image, word)) || (
        pod.containers.len() == 0 && word.len() == 0),
{
    reveal_strlit("");
    let query = one_word(word);
    assert(query.words[0] == word);
    if pod.containers.len() == 0 {
        assert(lower(""@).len() == 0);
        if word.len() == 0 {
            assert(text::occurs_at(lower(""@), lower(word), 0)) by {
                assert(lower(""@).subrange(0, 0) =~= lower(word));
            }
        } else if mentions(""@, word) {
            let at = choose|at: int| text::occurs_at(lower(""@), lower(word), at);
        }
    }
}

proof fn lemma_field_keys()
    ensures
        "name"@.len() == 4 && "name"@[1] == 'a',
        "ns"@.len() == 2,
        "status"@.len() == 6,
        "owner"@.len() == 5,
        "app"@.len() == 3,
        "node"@.len() == 4 && "node"@[1] == 'o',
        ""@.len() == 0,
{
    reveal_strlit("name");
    reveal_strlit("ns");
    reveal_strlit("status");
    reveal_strlit("owner");
    reveal_strlit("app");
    reveal_strlit("node");
    reveal_strlit("");
}

/// A field asks for the pods that mention what is wanted in just that: the
/// name, the namespace, the status, the name of the owner, or the node.
pub proof fn law_a_field_looks_at_what_it_names(
    pod: PodView,
    wanted: Seq<char>,
    kind: Seq<char>,
    owner: Seq<char>,
)
    ensures
        is_asked_for(pod, one_field("name"@, wanted)) <==> mentions(pod.key.name, wanted),
        is_asked_for(pod, one_field("ns"@, wanted)) <==> mentions(pod.key.namespace, wanted),
        is_asked_for(pod, one_field("status"@, wanted)) <==> mentions(pod.status, wanted),
        is_asked_for(pod, one_field("node"@, wanted)) <==> mentions(pod.node, wanted),
        pod.owner == Some((kind, owner)) ==> (is_asked_for(pod, one_field("owner"@, wanted))
            <==> mentions(owner, wanted)),
{
    lemma_field_keys();
    assert(one_field("name"@, wanted).fields[0] == ("name"@, wanted));
    assert(one_field("ns"@, wanted).fields[0] == ("ns"@, wanted));
    assert(one_field("status"@, wanted).fields[0] == ("status"@, wanted));
    assert(one_field("node"@, wanted).fields[0] == ("node"@, wanted));
    assert(one_field("owner"@, wanted).fields[0] == ("owner"@, wanted));
}

/// `app:` asks for a pod by its `app` label, and where it has none by its
/// `app.kubernetes.io/name` label: the value of either is found there, and
/// so is every part of it.
pub proof fn law_an_application_is_asked_for_by_either_label(
    pod: PodView,
    at: int,
    wanted: Seq<char>,
)
    requires
        0 <= at < pod.labels.len(),
        pod.labels[at].0 == "app"@ || pod.labels[at].0 == "app.kubernetes.io/name"@,
        forall|k: int|
            0 <= k < at ==> (#[trigger] pod.labels[k]).0 != "app"@ && (pod.labels[at].0 == "app"@
                || pod.labels[k].0 != "app.kubernetes.io/name"@),
        pod.labels[at].0 == "app"@ || forall|k: int|
            0 <= k < pod.labels.len() ==> (#[trigger] pod.labels[k]).0 != "app"@,
    ensures
        is_asked_for(pod, one_field("app"@, pod.labels[at].1)),
        is_asked_for(pod, one_field("app"@, wanted)) <==> mentions(pod.labels[at].1, wanted),
{
    lemma_field_keys();
    reveal_strlit("app.kubernetes.io/name");
    let value = pod.labels[at].1;
    law_an_application_goes_by_either_label(pod, at);
    assert(pod.app() == Some(value));
    assert(one_field("app"@, wanted).fields[0] == ("app"@, wanted));
    assert(one_field("app"@, value).fields[0] == ("app"@, value));
    law_a_text_mentions_its_parts(seq![], value, seq![], value, value);
    assert(seq![] + value + seq![] =~= value);
}

/// A pod that goes by no application is asked for by no value of `app:`.
pub proof fn law_an_unlabelled_pod_is_no_application(pod: PodView, wanted: Seq<char>)
    requires
        wanted.len() > 0,
        forall|k: int|
            0 <= k < pod.labels.len() ==> (#[trigger] pod.labels[k]).0 != "app"@
                && pod.labels[k].0 != "app.kubernetes.io/name"@,
    ensures
        !is_asked_for(pod, one_field("app"@, wanted)),
{
    lemma_field_keys();
    law_a_label_is_found_under_its_key(pod.labels, "app"@, pod.labels.len() as int);
    law_a_label_is_found_under_its_key(
        pod.labels,
        "app.kubernetes.io/name"@,
        pod.labels.len() as int,
    );
    assert(one_field("app"@, wanted).fields[0] == ("app"@, wanted));
    if mentions(""@, wanted) {
        let at = choose|at: int| text::occurs_at(lower(""@), lower(wanted), at);
    }
}

/// Every word and every field of a query must match: two queries together
/// ask for what both of them ask for.
pub proof fn law_two_queries_ask_for_what_both_ask_for(pod: PodView, a: QueryView, b: QueryView)
    ensures
        is_asked_for(
            pod,
            QueryView { words: a.words + b.words, fields: a.fields + b.fields },
        ) <==> is_asked_for(pod, a) && is_asked_for(pod, b),
{
    let both = QueryView { words: a.words + b.words, fields: a.fields + b.fields };
    if is_asked_for(pod, both) {
        assert forall|k: int| 0 <= k < a.words.len() implies is_known_by(
            pod,
            #[trigger] a.words[k],
        ) by {
            assert(both.words[k] == a.words[k]);
        }
        assert forall|k: int| 0 <= k < b.words.len() implies is_known_by(
            pod,
            #[trigger] b.words[k],
        ) by {
            assert(both.words[a.words.len() + k] == b.words[k]);
        }
        assert forall|k: int| 0 <= k < a.fields.len() implies mentions(
            field_of(pod, (#[trigger] a.fields[k]).0),
            a.fields[k].1,
        ) by {
            assert(both.fields[k] == a.fields[k]);
        }
        assert forall|k: int| 0 <= k < b.fields.len() implies mentions(
            field_of(pod, (#[trigger] b.fields[k]).0),
            b.fields[k].1,
        ) by {
            assert(both.fields[a.fields.len() + k] == b.fields[k]);
        }
    }
    if is_asked_for(pod, a) && is_asked_for(pod, b) {
        assert forall|k: int| 0 <= k < both.words.len() implies is_known_by(
            pod,
            #[trigger] both.words[k],
        ) by {
            if k < a.words.len() {
                assert(both.words[k] == a.words[k]);
            } else {
                assert(both.words[k] == b.words[k - a.words.len()]);
            }
        }
        assert forall|k: int| 0 <= k < both.fields.len() implies mentions(
            field_of(pod, (#[trigger] both.fields[k]).0),
            both.fields[k].1,
        ) by {
            if k < a.fields.len() {
                assert(both.fields[k] == a.fields[k]);
            } else {
                assert(both.fields[k] == b.fields[k - a.fields.len()]);
            }
        }
    }
}

/// Each column sorts by what it shows: texts in the order of texts, counts
/// from the fewest, ages from the youngest with those of unknown age last.
pub proof fn law_each_column_sorts_by_what_it_shows(a: PodView, b: PodView)
    ensures
        ({
            let up = |column: ColumnId| (SortView { column, descending: false }).allows(a, b);
            &&& up(ColumnId::Name) <==> at_most(a.key.name, b.key.name)
            &&& up(ColumnId::Namespace) <==> at_most(a.key.namespace, b.key.namespace)
            &&& up(ColumnId::Status) <==> at_most(a.status, b.status)
            &&& up(ColumnId::Node) <==> at_most(a.node, b.node)
            &&& up(ColumnId::Ip) <==> at_most(a.ip, b.ip)
            &&& up(ColumnId::Owner) <==> at_most(a.owner_name(), b.owner_name())
            &&& up(ColumnId::Restarts) <==> a.restarts <= b.restarts
            &&& a.ready.0 != b.ready.0 ==> (up(ColumnId::Ready) <==> a.ready.0 < b.ready.0)
            &&& a.ready.0 == b.ready.0 ==> (up(ColumnId::Ready) <==> a.ready.1 <= b.ready.1)
            &&& a.created is Some && b.created is Some ==> (up(ColumnId::Age) <==> a.created->0
                >= b.created->0)
            &&& b.created is None ==> up(ColumnId::Age)
            &&& a.created is None && b.created is Some ==> !up(ColumnId::Age)
            &&& a.containers.len() > 0 && b.containers.len() > 0 ==> (up(ColumnId::Image)
                <==> at_most(a.containers[0].image, b.containers[0].image))
        }),
{
}

/// The other way round each column sorts the other way round.
pub proof fn law_descending_is_the_other_way_round(a: PodView, b: PodView, column: ColumnId)
    ensures
        (SortView { column, descending: true }).allows(a, b) <==> (SortView {
            column,
            descending: false,
        }).allows(b, a),
{
}

proof fn lemma_row_behind(rows: Seq<usize>, row: usize, pods: Seq<PodView>, sort: SortView)
    requires
        is_sorted(rows, pods, sort),
        forall|k: int| 0 <= k < rows.len() ==> (#[trigger] rows[k]) < row,
        in_list_order(rows, pods, sort),
    ensures
        in_list_order(with_row(rows, row, pods, sort), pods, sort),
        forall|k: int|
            0 <= k < with_row(rows, row, pods, sort).len() ==> (#[trigger] with_row(
                rows,
                row,
                pods,
                sort,
            )[k]) <= row,
    decreases rows.len(),
{
    let with = with_row(rows, row, pods, sort);
    if rows.len() == 0 || sort.allows(pods[rows.last() as int], pods[row as int]) {
        assert(with == rows.push(row));
    } else {
        let before = rows.drop_last();
        assert forall|i: int, j: int| 0 <= i < j < before.len() implies sort.allows(
            pods[(#[trigger] before[i]) as int],
            pods[(#[trigger] before[j]) as int],
        ) by {
            assert(before[i] == rows[i] && before[j] == rows[j]);
        }
        assert forall|i: int, j: int|
            0 <= i < j < before.len() && sort.allows(
                pods[(#[trigger] before[j]) as int],
                pods[(#[trigger] before[i]) as int],
            ) implies before[i] < before[j] by {
            assert(before[i] == rows[i] && before[j] == rows[j]);
        }
        lemma_row_behind(before, row, pods, sort);
        lemma_with_row(before, row, pods, sort);
        let inner = with_row(before, row, pods, sort);
        assert(with == inner.push(rows.last()));
        assert forall|i: int, j: int|
            0 <= i < j < with.len() && sort.allows(
                pods[(#[trigger] with[j]) as int],
                pods[(#[trigger] with[i]) as int],
            ) implies with[i] < with[j] by {
            if j == inner.len() {
                broadcast use vstd::seq_lib::group_to_multiset_ensures;

                assert(inner.contains(inner[i]));
                assert(inner.to_multiset().count(inner[i]) > 0);
                if inner[i] != row {
                    assert(before.to_multiset().count(inner[i]) > 0);
                    assert(before.contains(inner[i]));
                    let k = choose|k: int| 0 <= k < before.len() && before[k] == inner[i];
                    assert(rows[k] == inner[i]);
                    assert(rows[rows.len() - 1] == rows.last());
                }
            } else {
                assert(with[i] == inner[i] && with[j] == inner[j]);
            }
        }
        assert forall|k: int| 0 <= k < with.len() implies (#[trigger] with[k]) <= row by {
            if k < inner.len() {
                assert(with[k] == inner[k]);
            } else {
                assert(rows[rows.len() - 1] < row);
            }
        }
    }
}

/// Of two rows that may stand either way round the one listed first stands
/// first.
pub open spec fn in_list_order(rows: Seq<usize>, pods: Seq<PodView>, sort: SortView) -> bool {
    forall|i: int, j: int|
        0 <= i < j < rows.len() && sort.allows(
            pods[(#[trigger] rows[j]) as int],
            pods[(#[trigger] rows[i]) as int],
        ) ==> rows[i] < rows[j]
}

proof fn lemma_list_order(pods: Seq<PodView>, query: QueryView, sort: SortView, count: nat)
    requires
        count <= usize::MAX,
    ensures
        in_list_order(rows_among(pods, query, sort, count), pods, sort),
        forall|k: int|
            0 <= k < rows_among(pods, query, sort, count).len() ==> (#[trigger] rows_among(
                pods,
                query,
                sort,
                count,
            )[k]) < count,
    decreases count,
{
    if count > 0 {
        let before = (count - 1) as nat;
        lemma_list_order(pods, query, sort, before);
        lemma_rows(pods, query, sort, before);
        if is_asked_for(pods[count - 1], query) {
            lemma_row_behind(
                rows_among(pods, query, sort, before),
                (count - 1) as usize,
                pods,
                sort,
            );
        }
    }
}

/// Pods that the sort holds equal are shown in the order they were listed.
pub proof fn law_equal_rows_stay_in_the_lists_order(
    pods: Seq<PodView>,
    query: QueryView,
    sort: SortView,
)
    requires
        pods.len() <= usize::MAX,
    ensures
        in_list_order(rows_among(pods, query, sort, pods.len()), pods, sort),
{
    lemma_list_order(pods, query, sort, pods.len());
}

/// The rows of a list are those of its pods that the query asks for, in the
/// column's order, whichever way it goes.
pub proof fn law_the_rows_of_a_list(
    pods: &Vec<Pod>,
    query: &Query,
    column: ColumnId,
    descending: bool,
    rows: Vec<usize>,
    row: usize,
)
    requires
        call_ensures(rows_of, (pods, query, column, descending), rows),
        pods@.len() <= usize::MAX,
    ensures
        rows@.contains(row) <==> row < pods@.len() && is_asked_for(pods@[row as int]@, query@),
        is_sorted(rows@, pod_views(pods@), SortView { column, descending }),
        rows@.no_duplicates(),
{
    law_the_rows_are_those_asked_for_in_order(
        pod_views(pods@),
        query@,
        SortView { column, descending },
        row,
    );
}

} // verus!
