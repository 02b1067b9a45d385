//! The dependency graph over a set of image definitions, and the order in
//! which the images are built.
//!
//! The nodes are the definitions. A definition depends on another one where
//! one of its stages starts from the image that the other defines. Images are
//! built dependencies first; among those that are ready at the same time, the
//! one whose tag comes first as text goes first.

use vstd::prelude::*;
use crate::dockerfile::DockerfileView;
use crate::order::{lemma_precedes_total, lemma_precedes_transitive, precedes};
use crate::tag::{lemma_text_injective, ReferenceView, TagView};

verus! {

/// One image definition: its tag and its description.
pub struct Definition {
    pub tag: TagView,
    pub document: DockerfileView,
}

/// Some stage of the description starts from the image named by `tag`.
pub open spec fn starts_from(document: DockerfileView, tag: TagView) -> bool {
    exists|s: int|
        0 <= s < document.stages.len() && (#[trigger] document.stages[s]).from
            == ReferenceView::Managed(tag)
}

/// Some definition of the set has the tag.
pub open spec fn defines(docs: Seq<Definition>, tag: TagView) -> bool {
    exists|j: int| 0 <= j < docs.len() && (#[trigger] docs[j]).tag == tag
}

/// Definition `i` depends on definition `j`: there is an edge from `i` to `j`.
pub open spec fn depends_on(docs: Seq<Definition>, i: int, j: int) -> bool {
    &&& 0 <= i < docs.len()
    &&& 0 <= j < docs.len()
    &&& starts_from(docs[i].document, docs[j].tag)
}

/// No tag is defined twice.
pub open spec fn distinct_tags(docs: Seq<Definition>) -> bool {
    forall|i: int, j: int|
        0 <= i < j < docs.len() ==> (#[trigger] docs[i]).tag != (#[trigger] docs[j]).tag
}

/// Every managed image that a stage starts from has its definition in the set.
pub open spec fn complete(docs: Seq<Definition>) -> bool {
    forall|i: int, tag: TagView|
        0 <= i < docs.len() && #[trigger] starts_from(docs[i].document, tag) ==> defines(docs, tag)
}

/// A set of definitions that a build can be planned for.
pub open spec fn valid_set(docs: Seq<Definition>) -> bool {
    &&& docs.len() > 0
    &&& distinct_tags(docs)
    &&& complete(docs)
    &&& rooted(docs)
    &&& forall|i: int|
        0 <= i < docs.len() ==> (#[trigger] docs[i]).tag.valid() && docs[i].document.valid()
}

/// Definition `i` can be built once those in `done` are: it is not among them,
/// and everything that it depends on is.
pub open spec fn ready(docs: Seq<Definition>, done: Seq<int>, i: int) -> bool {
    &&& 0 <= i < docs.len()
    &&& !done.contains(i)
    &&& forall|j: int| #[trigger] depends_on(docs, i, j) ==> done.contains(j)
}

/// Definition `i` is ready, and no other ready one has a tag that comes before
/// its own.
pub open spec fn least_ready(docs: Seq<Definition>, done: Seq<int>, i: int) -> bool {
    &&& ready(docs, done, i)
    &&& forall|j: int| #[trigger]
        ready(docs, done, j) ==> !precedes(docs[j].tag.text(), docs[i].tag.text())
}

/// The definition that is built next, if any is ready.
pub open spec fn next(docs: Seq<Definition>, done: Seq<int>) -> Option<int> {
    if exists|i: int| least_ready(docs, done, i) {
        Some(choose|i: int| least_ready(docs, done, i))
    } else {
        None
    }
}

/// The definitions in `done` followed by all that can still be built after
/// them, each time taking the one that `next` names.
pub open spec fn emit(docs: Seq<Definition>, done: Seq<int>) -> Seq<int>
    decreases docs.len() - done.len(),
{
    if done.len() < docs.len() {
        match next(docs, done) {
            Some(i) => emit(docs, done.push(i)),
            None => done,
        }
    } else {
        done
    }
}

/// The definitions that are not in `done`, among the first `upto`, in the order
/// of the set.
pub open spec fn left_over(docs: Seq<Definition>, done: Seq<int>, upto: int) -> Seq<int>
    decreases upto,
{
    if upto <= 0 {
        Seq::empty()
    } else if done.contains(upto - 1) {
        left_over(docs, done, upto - 1)
    } else {
        left_over(docs, done, upto - 1).push(upto - 1)
    }
}

/// The tags of the definitions at the given positions.
pub open spec fn tags_at(docs: Seq<Definition>, positions: Seq<int>) -> Seq<TagView> {
    positions.map_values(|i: int| docs[i].tag)
}

/// The plan for a set of definitions: the tags in build order, or, where a
/// cycle keeps some definitions from ever becoming ready, the tags of those
/// that could not be placed.
pub open spec fn planned(docs: Seq<Definition>) -> Result<Seq<TagView>, Seq<TagView>> {
    let done = emit(docs, Seq::empty());
    if done.len() == docs.len() {
        Ok(tags_at(docs, done))
    } else {
        Err(tags_at(docs, left_over(docs, done, docs.len() as int)))
    }
}

/// Every position holds a definition that was ready when its turn came: one
/// that had not been placed before and whose dependencies all had been.
pub open spec fn well_ordered(docs: Seq<Definition>, order: Seq<int>) -> bool {
    forall|a: int| 0 <= a < order.len() ==> ready(docs, order.take(a), #[trigger] order[a])
}

/// The image named by `tag` needs the image named by `base`: both are defined
/// in the set, and a stage of the first starts from the second.
pub open spec fn needs(docs: Seq<Definition>, tag: TagView, base: TagView) -> bool {
    exists|i: int, j: int|
        #[trigger] depends_on(docs, i, j) && docs[i].tag == tag && docs[j].tag == base
}

/// Every definition but the first is there because an earlier one depends on
/// it: the first is the root that all others were found from.
pub open spec fn rooted(docs: Seq<Definition>) -> bool {
    forall|j: int| 0 < j < docs.len() ==> #[trigger] found_from_earlier(docs, j)
}

/// Some definition before `j` depends on definition `j`.
pub open spec fn found_from_earlier(docs: Seq<Definition>, j: int) -> bool {
    exists|i: int| 0 <= i < j && #[trigger] depends_on(docs, i, j)
}

/// A build order for the set: every tag of the set exactly once and no other
/// tag, and every image behind all the images that it needs.
pub open spec fn is_build_order(docs: Seq<Definition>, plan: Seq<TagView>) -> bool {
    &&& plan.len() == docs.len()
    &&& plan.no_duplicates()
    &&& forall|a: int| 0 <= a < plan.len() ==> defines(docs, #[trigger] plan[a])
    &&& forall|i: int| 0 <= i < docs.len() ==> plan.contains((#[trigger] docs[i]).tag)
    &&& forall|a: int, b: int|
        0 <= a < plan.len() && 0 <= b < plan.len() && #[trigger] needs(docs, plan[a], plan[b])
            ==> b < a
}

/// The definitions at `cycle` depend on each other in a circle: each on the
/// one behind it, and the last on the first.
pub open spec fn is_cycle(docs: Seq<Definition>, cycle: Seq<int>) -> bool {
    &&& cycle.len() > 0
    &&& forall|k: int| 0 <= k < cycle.len() - 1 ==> depends_on(docs, #[trigger] cycle[k], cycle[k + 1])
    &&& depends_on(docs, cycle.last(), cycle[0])
}

/// In a well-ordered sequence all positions name definitions of the set, none
/// is named twice, and dependencies stand before what depends on them.
pub proof fn lemma_well_ordered(docs: Seq<Definition>, order: Seq<int>)
    requires
        well_ordered(docs, order),
    ensures
        forall|a: int| 0 <= a < order.len() ==> 0 <= #[trigger] order[a] < docs.len(),
        order.no_duplicates(),
        forall|a: int, j: int|
            0 <= a < order.len() && #[trigger] depends_on(docs, order[a], j) ==> exists|b: int|
                0 <= b < a && order[b] == j,
{
    assert forall|a: int, b: int| 0 <= a < b < order.len() implies order[a] != order[b] by {
        assert(ready(docs, order.take(b), order[b]));
        assert(order.take(b)[a] == order[a]);
    }
    assert forall|a: int, j: int|
        0 <= a < order.len() && #[trigger] depends_on(docs, order[a], j) implies exists|b: int|
        0 <= b < a && order[b] == j by {
        assert(ready(docs, order.take(a), order[a]));
        assert(order.take(a).contains(j));
        let b = choose|b: int| 0 <= b < order.take(a).len() && order.take(a)[b] == j;
        assert(order[b] == j);
    }
}

/// A well-ordered sequence stays well-ordered when a ready definition is put
/// behind it.
pub proof fn lemma_well_ordered_push(docs: Seq<Definition>, done: Seq<int>, i: int)
    requires
        well_ordered(docs, done),
        ready(docs, done, i),
    ensures
        well_ordered(docs, done.push(i)),
{
    let order = done.push(i);
    assert forall|a: int| 0 <= a < order.len() implies ready(
        docs,
        order.take(a),
        #[trigger] order[a],
    ) by {
        if a < done.len() {
            assert(order.take(a) =~= done.take(a));
            assert(ready(docs, done.take(a), done[a]));
        } else {
            assert(order.take(a) =~= done);
        }
    }
}

/// A well-ordered sequence names at most as many definitions as there are, and
/// when it names fewer, some definition is not in it.
pub proof fn lemma_well_ordered_len(docs: Seq<Definition>, order: Seq<int>)
    requires
        well_ordered(docs, order),
    ensures
        order.len() <= docs.len(),
        order.len() < docs.len() ==> exists|i: int| 0 <= i < docs.len() && !order.contains(i),
        order.len() == docs.len() ==> forall|i: int| 0 <= i < docs.len() ==> order.contains(i),
{
    lemma_well_ordered(docs, order);
    let all = vstd::set_lib::set_int_range(0, docs.len() as int);
    vstd::set_lib::lemma_int_range(0, docs.len() as int);
    order.unique_seq_to_set();
    assert(order.to_set().subset_of(all)) by {
        assert forall|x: int| order.to_set().contains(x) implies all.contains(x) by {
            let a = choose|a: int| 0 <= a < order.len() && order[a] == x;
            assert(0 <= order[a] < docs.len());
        }
    }
    vstd::set_lib::lemma_len_subset(order.to_set(), all);
    if order.len() < docs.len() {
        if forall|i: int| 0 <= i < docs.len() ==> order.contains(i) {
            assert(all.subset_of(order.to_set()));
            vstd::set_lib::lemma_len_subset(all, order.to_set());
            assert(false);
        }
    }
    if order.len() == docs.len() {
        vstd::set_lib::lemma_subset_equality(order.to_set(), all);
        assert forall|i: int| 0 <= i < docs.len() implies order.contains(i) by {
            assert(all.contains(i));
            assert(order.to_set().contains(i));
        }
    }
}

/// Among two definitions that are both least among the ready ones there is no
/// choice: they are the same.
pub proof fn lemma_least_ready_unique(docs: Seq<Definition>, done: Seq<int>, i: int, j: int)
    requires
        valid_set(docs),
        least_ready(docs, done, i),
        least_ready(docs, done, j),
    ensures
        i == j,
{
    assert(ready(docs, done, i) && ready(docs, done, j));
    lemma_precedes_total(docs[i].tag.text(), docs[j].tag.text());
    lemma_text_injective(docs[i].tag, docs[j].tag);
}

/// What `next` names is least among the ready definitions, and it names one
/// whenever there is one.
pub proof fn lemma_next(docs: Seq<Definition>, done: Seq<int>, i: int)
    requires
        valid_set(docs),
        least_ready(docs, done, i),
    ensures
        next(docs, done) == Some(i),
{
    let chosen = choose|c: int| least_ready(docs, done, c);
    lemma_least_ready_unique(docs, done, i, chosen);
}

/// The tag of definition `a` comes before that of definition `b`.
pub open spec fn earlier(docs: Seq<Definition>, a: int, b: int) -> bool {
    precedes(docs[a].tag.text(), docs[b].tag.text())
}

/// Definition `m` is ready, and none of the first `upto` definitions that is
/// ready has a tag that comes before its own.
pub open spec fn least_among(docs: Seq<Definition>, done: Seq<int>, upto: int, m: int) -> bool {
    &&& 0 <= m < upto
    &&& ready(docs, done, m)
    &&& forall|j: int| 0 <= j < upto && #[trigger] ready(docs, done, j) ==> !earlier(docs, j, m)
}

/// The ready definition with the least tag among the first `upto` stays the
/// least when the next definition is not ready or does not come before it, and
/// gives way to the next definition otherwise.
pub proof fn lemma_least_among_next(docs: Seq<Definition>, done: Seq<int>, upto: int, m: int)
    requires
        0 <= upto < docs.len(),
        least_among(docs, done, upto, m),
    ensures
        ready(docs, done, upto) && earlier(docs, upto, m) ==> least_among(
            docs,
            done,
            upto + 1,
            upto,
        ),
        !(ready(docs, done, upto) && earlier(docs, upto, m)) ==> least_among(
            docs,
            done,
            upto + 1,
            m,
        ),
{
    let a = docs[upto].tag.text();
    let b = docs[m].tag.text();
    crate::order::lemma_precedes_asymmetric(a, a);
    if ready(docs, done, upto) && earlier(docs, upto, m) {
        assert forall|j: int| 0 <= j < upto + 1 && #[trigger] ready(docs, done, j) implies !earlier(
            docs,
            j,
            upto,
        ) by {
            if j < upto && earlier(docs, j, upto) {
                lemma_precedes_transitive(docs[j].tag.text(), a, b);
                assert(earlier(docs, j, m));
            }
        }
    }
}

/// The first ready definition is the least among those up to itself.
pub proof fn lemma_least_among_first(docs: Seq<Definition>, done: Seq<int>, first: int)
    requires
        0 <= first < docs.len(),
        ready(docs, done, first),
        forall|j: int| 0 <= j < first ==> !ready(docs, done, j),
    ensures
        least_among(docs, done, first + 1, first),
{
    crate::order::lemma_precedes_asymmetric(docs[first].tag.text(), docs[first].tag.text());
}

/// Where one of the first `upto` definitions is ready, one of them is least
/// among the ready ones.
proof fn lemma_least_exists(docs: Seq<Definition>, done: Seq<int>, upto: int, i: int) -> (m: int)
    requires
        0 <= i < upto <= docs.len(),
        ready(docs, done, i),
    ensures
        least_among(docs, done, upto, m),
    decreases upto,
{
    let last = upto - 1;
    if exists|k: int| 0 <= k < last && ready(docs, done, k) {
        let k = choose|k: int| 0 <= k < last && ready(docs, done, k);
        let m = lemma_least_exists(docs, done, last, k);
        lemma_least_among_next(docs, done, last, m);
        if ready(docs, done, last) && earlier(docs, last, m) {
            last
        } else {
            m
        }
    } else {
        assert(i == last);
        lemma_least_among_first(docs, done, last);
        last
    }
}

/// Where `next` names nothing, no definition is ready.
pub proof fn lemma_next_none(docs: Seq<Definition>, done: Seq<int>)
    requires
        next(docs, done) is None,
    ensures
        forall|i: int| !ready(docs, done, i),
{
    if exists|i: int| ready(docs, done, i) {
        let i = choose|i: int| ready(docs, done, i);
        let m = lemma_least_exists(docs, done, docs.len() as int, i);
        assert(least_ready(docs, done, m)) by {
            assert forall|j: int| #[trigger] ready(docs, done, j) implies !precedes(
                docs[j].tag.text(),
                docs[m].tag.text(),
            ) by {
                assert(!earlier(docs, j, m));
            }
        }
    }
}

/// Building on from a well-ordered start gives a well-ordered sequence that
/// begins with the start, and that ends only when every definition is placed
/// or none is ready.
pub proof fn lemma_emit(docs: Seq<Definition>, done: Seq<int>)
    requires
        well_ordered(docs, done),
    ensures
        well_ordered(docs, emit(docs, done)),
        done.len() <= emit(docs, done).len() <= docs.len(),
        emit(docs, done).take(done.len() as int) == done,
        emit(docs, done).len() < docs.len() ==> forall|i: int| !ready(docs, emit(docs, done), i),
    decreases docs.len() - done.len(),
{
    lemma_well_ordered_len(docs, done);
    if done.len() < docs.len() {
        match next(docs, done) {
            Some(i) => {
                assert(least_ready(docs, done, i));
                lemma_well_ordered_push(docs, done, i);
                lemma_emit(docs, done.push(i));
                let all = emit(docs, done.push(i));
                assert(all.take(done.len() as int) =~= all.take(done.len() as int + 1).take(
                    done.len() as int,
                ));
                assert(done.push(i).take(done.len() as int) =~= done);
            },
            None => {
                lemma_next_none(docs, done);
                assert(done.take(done.len() as int) =~= done);
            },
        }
    } else {
        assert(done.take(done.len() as int) =~= done);
    }
}

/// The least number at or below `a` that has the property.
proof fn lemma_least_witness(p: spec_fn(int) -> bool, a: int) -> (m: int)
    requires
        0 <= a,
        p(a),
    ensures
        0 <= m <= a,
        p(m),
        forall|b: int| 0 <= b < m ==> !#[trigger] p(b),
    decreases a,
{
    if exists|b: int| 0 <= b < a && #[trigger] p(b) {
        let b = choose|b: int| 0 <= b < a && #[trigger] p(b);
        lemma_least_witness(p, b)
    } else {
        a
    }
}

/// In a plan without repetitions a tag stands at one position only.
proof fn lemma_place(plan: Seq<TagView>, a: int)
    requires
        plan.no_duplicates(),
        0 <= a < plan.len(),
    ensures
        plan.index_of(plan[a]) == a,
{
    assert(plan.contains(plan[a]));
    let b = plan.index_of(plan[a]);
    assert(0 <= b < plan.len() && plan[b] == plan[a]);
}

/// The sequence that `planned` gives on success is a build order: it holds
/// every tag of the set exactly once, and every image stands behind all the
/// images that it needs.
pub proof fn lemma_plan_is_build_order(docs: Seq<Definition>)
    requires
        valid_set(docs),
        planned(docs) is Ok,
    ensures
        is_build_order(docs, planned(docs)->Ok_0),
{
    let done = emit(docs, Seq::empty());
    let plan = tags_at(docs, done);
    assert(well_ordered(docs, Seq::<int>::empty()));
    lemma_emit(docs, Seq::empty());
    lemma_well_ordered(docs, done);
    lemma_well_ordered_len(docs, done);
    assert forall|a: int, b: int| 0 <= a < b < plan.len() implies plan[a] != plan[b] by {
        assert(done[a] != done[b]);
        let x = done[a];
        let y = done[b];
        if x < y {
            assert(docs[x].tag != docs[y].tag);
        } else {
            assert(docs[y].tag != docs[x].tag);
        }
    }
    assert forall|a: int| 0 <= a < plan.len() implies defines(docs, #[trigger] plan[a]) by {
        assert(docs[done[a]].tag == plan[a]);
    }
    assert forall|i: int| 0 <= i < docs.len() implies plan.contains((#[trigger] docs[i]).tag) by {
        assert(done.contains(i));
        let a = choose|a: int| 0 <= a < done.len() && done[a] == i;
        assert(plan[a] == docs[i].tag);
    }
    assert forall|a: int, b: int|
        0 <= a < plan.len() && 0 <= b < plan.len() && #[trigger] needs(
            docs,
            plan[a],
            plan[b],
        ) implies b < a by {
        let (i, j) = choose|i: int, j: int|
            #[trigger] depends_on(docs, i, j) && docs[i].tag == plan[a] && docs[j].tag == plan[b];
        lemma_same_tag(docs, i, done[a]);
        lemma_same_tag(docs, j, done[b]);
        assert(depends_on(docs, done[a], j));
        let c = choose|c: int| 0 <= c < a && done[c] == j;
        assert(done[c] == done[b]);
    }
}

/// The plan depends on the set alone: whatever planning gives for a set at
/// one time, it gives for the same set at any other time.
pub proof fn lemma_plan_is_determined(
    docs: Seq<Definition>,
    first: Result<Seq<TagView>, Seq<TagView>>,
    second: Result<Seq<TagView>, Seq<TagView>>,
)
    requires
        first == planned(docs),
        second == planned(docs),
    ensures
        first == second,
{
}

/// In a valid set a tag belongs to one definition only.
pub proof fn lemma_same_tag(docs: Seq<Definition>, i: int, j: int)
    requires
        distinct_tags(docs),
        0 <= i < docs.len(),
        0 <= j < docs.len(),
        docs[i].tag == docs[j].tag,
    ensures
        i == j,
{
    if i < j {
        assert(docs[i].tag != docs[j].tag);
    } else if j < i {
        assert(docs[j].tag != docs[i].tag);
    }
}

/// A definition of the set that is not in `done` has its tag at position `a`
/// of the plan.
pub open spec fn missing_at(docs: Seq<Definition>, done: Seq<int>, plan: Seq<TagView>, a: int) -> bool {
    &&& 0 <= a < plan.len()
    &&& exists|x: int| 0 <= x < docs.len() && !done.contains(x) && (#[trigger] docs[x]).tag == plan[a]
}

/// Where `planned` fails there is no build order at all: what is left over can
/// never be placed.
pub proof fn lemma_failure_means_no_order(docs: Seq<Definition>, plan: Seq<TagView>)
    requires
        valid_set(docs),
        planned(docs) is Err,
    ensures
        !is_build_order(docs, plan),
{
    let done = emit(docs, Seq::empty());
    assert(well_ordered(docs, Seq::<int>::empty()));
    lemma_emit(docs, Seq::empty());
    lemma_well_ordered_len(docs, done);
    if is_build_order(docs, plan) {
        let x0 = choose|i: int| 0 <= i < docs.len() && !done.contains(i);
        assert(plan.contains(docs[x0].tag));
        let a0 = choose|a: int| 0 <= a < plan.len() && plan[a] == docs[x0].tag;
        let p = |a: int| missing_at(docs, done, plan, a);
        assert(p(a0));
        let m = lemma_least_witness(p, a0);
        assert(missing_at(docs, done, plan, m));
        let x = choose|x: int|
            0 <= x < docs.len() && !done.contains(x) && (#[trigger] docs[x]).tag == plan[m];
        assert(!ready(docs, done, x));
        let j = choose|j: int| #[trigger] depends_on(docs, x, j) && !done.contains(j);
        assert(depends_on(docs, x, j) && !done.contains(j));
        assert(plan.contains(docs[j].tag));
        let b = choose|b: int| 0 <= b < plan.len() && plan[b] == docs[j].tag;
        assert(needs(docs, plan[m], plan[b]));
        assert(b < m);
        assert(missing_at(docs, done, plan, b));
        assert(p(b));
    }
}

/// Along a cycle every image has to stand before the one that comes before it
/// on the cycle.
proof fn lemma_cycle_descends(
    docs: Seq<Definition>,
    cycle: Seq<int>,
    plan: Seq<TagView>,
    k: int,
)
    requires
        is_cycle(docs, cycle),
        is_build_order(docs, plan),
        0 <= k < cycle.len(),
    ensures
        0 <= cycle[k] < docs.len(),
        plan.contains(docs[cycle[k]].tag),
        plan.index_of(docs[cycle[k]].tag) + k <= plan.index_of(docs[cycle[0]].tag),
    decreases k,
{
    if cycle.len() == 1 {
        assert(depends_on(docs, cycle.last(), cycle[0]));
    } else {
        if k == 0 {
            assert(depends_on(docs, cycle[0], cycle[1]));
        } else {
            assert(depends_on(docs, cycle[k - 1], cycle[k]));
        }
    }
    assert(plan.contains(docs[cycle[k]].tag));
    if k > 0 {
        lemma_cycle_descends(docs, cycle, plan, k - 1);
        let a = plan.index_of(docs[cycle[k - 1]].tag);
        let b = plan.index_of(docs[cycle[k]].tag);
        assert(depends_on(docs, cycle[k - 1], cycle[k]));
        assert(needs(docs, plan[a], plan[b]));
    }
}

/// A set whose definitions depend on each other in a circle has no build
/// order.
pub proof fn lemma_cycle_has_no_order(docs: Seq<Definition>, cycle: Seq<int>, plan: Seq<TagView>)
    requires
        is_cycle(docs, cycle),
    ensures
        !is_build_order(docs, plan),
{
    if is_build_order(docs, plan) {
        let last = cycle.len() - 1;
        lemma_cycle_descends(docs, cycle, plan, last);
        lemma_cycle_descends(docs, cycle, plan, 0);
        let a = plan.index_of(docs[cycle[last]].tag);
        let b = plan.index_of(docs[cycle[0]].tag);
        assert(depends_on(docs, cycle[last], cycle[0]));
        assert(needs(docs, plan[a], plan[b]));
    }
}

/// A cyclic reference among the definitions is always detected: planning
/// fails.
pub proof fn lemma_cycle_is_detected(docs: Seq<Definition>, cycle: Seq<int>)
    requires
        valid_set(docs),
        is_cycle(docs, cycle),
    ensures
        planned(docs) is Err,
{
    if planned(docs) is Ok {
        lemma_plan_is_build_order(docs);
        lemma_cycle_has_no_order(docs, cycle, planned(docs)->Ok_0);
    }
}

/// In every build order of a rooted set the root comes last.
pub proof fn lemma_root_is_last(docs: Seq<Definition>, plan: Seq<TagView>)
    requires
        valid_set(docs),
        is_build_order(docs, plan),
    ensures
        plan.last() == docs[0].tag,
{
    assert(plan.contains(docs[0].tag));
    let root = plan.index_of(docs[0].tag);
    let last = plan.len() - 1;
    if root != last {
        assert(defines(docs, plan[last]));
        let j = choose|j: int| 0 <= j < docs.len() && (#[trigger] docs[j]).tag == plan[last];
        lemma_place(plan, last);
        lemma_before_root(docs, plan, j);
    }
}

/// In a build order of a rooted set every definition stands at or before the
/// root.
proof fn lemma_before_root(docs: Seq<Definition>, plan: Seq<TagView>, j: int)
    requires
        valid_set(docs),
        is_build_order(docs, plan),
        0 <= j < docs.len(),
    ensures
        plan.contains(docs[j].tag),
        plan.contains(docs[0].tag),
        plan.index_of(docs[j].tag) <= plan.index_of(docs[0].tag),
    decreases j,
{
    assert(plan.contains(docs[j].tag));
    assert(plan.contains(docs[0].tag));
    if j > 0 {
        assert(found_from_earlier(docs, j));
        let i = choose|i: int| 0 <= i < j && #[trigger] depends_on(docs, i, j);
        lemma_before_root(docs, plan, i);
        let a = plan.index_of(docs[i].tag);
        let b = plan.index_of(docs[j].tag);
        assert(needs(docs, plan[a], plan[b]));
    }
}

/// The image at position `a` of the report needs an image that is reported
/// too.
pub open spec fn held_back(docs: Seq<Definition>, report: Seq<TagView>, a: int) -> bool {
    exists|b: int| 0 <= b < report.len() && #[trigger] needs(docs, report[a], report[b])
}

/// What is left over holds exactly the definitions that are not in `done`.
pub proof fn lemma_left_over(docs: Seq<Definition>, done: Seq<int>, upto: int)
    requires
        0 <= upto,
    ensures
        forall|i: int|
            #[trigger] left_over(docs, done, upto).contains(i) <==> 0 <= i < upto && !done.contains(
                i,
            ),
    decreases upto,
{
    let all = left_over(docs, done, upto);
    if upto > 0 {
        lemma_left_over(docs, done, upto - 1);
        let before = left_over(docs, done, upto - 1);
        assert forall|i: int| #[trigger] all.contains(i) <==> 0 <= i < upto && !done.contains(i) by {
            assert(before.contains(i) <==> 0 <= i < upto - 1 && !done.contains(i));
            if done.contains(upto - 1) {
                assert(all == before);
            } else {
                assert(all == before.push(upto - 1));
                if all.contains(i) {
                    let k = choose|k: int| 0 <= k < all.len() && all[k] == i;
                    if k < before.len() {
                        assert(before[k] == i);
                        assert(before.contains(i));
                    } else {
                        assert(i == upto - 1);
                    }
                }
                if 0 <= i < upto && !done.contains(i) {
                    if i < upto - 1 {
                        assert(before.contains(i));
                        let k = choose|k: int| 0 <= k < before.len() && before[k] == i;
                        assert(all[k] == i);
                    } else {
                        assert(all[before.len() as int] == i);
                    }
                }
            }
        }
    } else {
        assert forall|i: int| #[trigger] all.contains(i) <==> 0 <= i < upto && !done.contains(i) by {
            assert(all.len() == 0);
        }
    }
}

/// The tags reported when planning fails: there is at least one, and each of
/// them needs an image that is reported too.
pub proof fn lemma_failure_report(docs: Seq<Definition>)
    requires
        valid_set(docs),
        planned(docs) is Err,
    ensures
        planned(docs)->Err_0.len() > 0,
        forall|a: int|
            0 <= a < planned(docs)->Err_0.len() ==> #[trigger] held_back(
                docs,
                planned(docs)->Err_0,
                a,
            ),
{
    let done = emit(docs, Seq::empty());
    let rest = left_over(docs, done, docs.len() as int);
    let report = tags_at(docs, rest);
    assert(well_ordered(docs, Seq::<int>::empty()));
    lemma_emit(docs, Seq::empty());
    lemma_well_ordered_len(docs, done);
    lemma_left_over(docs, done, docs.len() as int);
    let x0 = choose|i: int| 0 <= i < docs.len() && !done.contains(i);
    assert(rest.contains(x0));
    assert forall|a: int| 0 <= a < report.len() implies #[trigger] held_back(docs, report, a) by {
        let x = rest[a];
        assert(rest.contains(x));
        assert(0 <= x < docs.len() && !done.contains(x));
        assert(!ready(docs, done, x));
        let j = choose|j: int| #[trigger] depends_on(docs, x, j) && !done.contains(j);
        assert(depends_on(docs, x, j) && !done.contains(j));
        assert(rest.contains(j));
        let b = choose|b: int| 0 <= b < rest.len() && rest[b] == j;
        assert(report[b] == docs[j].tag);
        assert(needs(docs, report[a], report[b]));
    }
}

} // verus!
