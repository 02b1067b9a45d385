//! Discovery of the images that a build needs, and the order to build them in.
//!
//! Discovery starts from the root tag and asks for one description at a time.
//! Fetching a description is left to the caller, who hands it back; the images
//! that its stages start from are then queued, each once. When nothing is left
//! to fetch, the set of definitions is complete and can be put in build order.

pub mod graph;

use vstd::prelude::*;
use crate::docker_image::{source_directory_of, DockerImage, DockerImageView};
use crate::dockerfile::{Dockerfile, DockerfileView};
use crate::order::chars_precede;
use crate::resolver::graph::{defines, depends_on, earlier, emit, held_back, is_build_order,
    least_among, least_ready, left_over, lemma_failure_report, lemma_least_among_first,
    lemma_least_among_next, lemma_next, lemma_plan_is_build_order, lemma_root_is_last,
    lemma_same_tag, lemma_well_ordered_len, lemma_well_ordered_push, next, planned, ready,
    starts_from, tags_at, valid_set, well_ordered, Definition};
use crate::text::chars_of;
use crate::tag::{ReferenceView, Tag, TagView};

verus! {

/// The views of the tags.
pub open spec fn tag_views(tags: Seq<Tag>) -> Seq<TagView> {
    tags.map_values(|tag: Tag| tag@)
}

/// The views of the descriptions.
pub open spec fn document_views(documents: Seq<Dockerfile>) -> Seq<DockerfileView> {
    documents.map_values(|document: Dockerfile| document@)
}

/// The tags known after the given bases have been looked at in order: a
/// managed base that is not known yet goes to the end, anything else changes
/// nothing.
pub open spec fn discovered(tags: Seq<TagView>, bases: Seq<ReferenceView>) -> Seq<TagView>
    decreases bases.len(),
{
    if bases.len() == 0 {
        tags
    } else {
        let before = discovered(tags, bases.drop_last());
        match bases.last() {
            ReferenceView::Managed(tag) => if before.contains(tag) {
                before
            } else {
                before.push(tag)
            },
            ReferenceView::Opaque(_) => before,
        }
    }
}

/// The mathematical value of a [`Discovery`]: the tags found so far, in the
/// order in which they were found, and the descriptions of the first of them.
pub struct DiscoveryView {
    pub tags: Seq<TagView>,
    pub documents: Seq<DockerfileView>,
}

impl DiscoveryView {
    /// The state in which only the root is known and nothing is fetched.
    pub open spec fn started(root: TagView) -> DiscoveryView {
        DiscoveryView { tags: seq![root], documents: Seq::empty() }
    }

    /// The tag whose description is wanted next, if any is.
    pub open spec fn pending(self) -> Option<TagView> {
        if self.documents.len() < self.tags.len() {
            Some(self.tags[self.documents.len() as int])
        } else {
            None
        }
    }

    /// The state after the description of the pending tag has arrived. Where
    /// nothing is pending the state stays as it is.
    pub open spec fn supplied(self, document: DockerfileView) -> DiscoveryView {
        if self.documents.len() < self.tags.len() {
            DiscoveryView {
                tags: discovered(self.tags, document.bases()),
                documents: self.documents.push(document),
            }
        } else {
            self
        }
    }

    /// The definitions found, once every tag has its description.
    pub open spec fn definitions(self) -> Seq<Definition> {
        Seq::new(
            self.tags.len(),
            |i: int| Definition { tag: self.tags[i], document: self.documents[i] },
        )
    }

    /// What holds of every state that discovery goes through.
    pub open spec fn consistent(self) -> bool {
        &&& self.tags.len() > 0
        &&& self.documents.len() <= self.tags.len()
        &&& self.tags.no_duplicates()
        &&& forall|i: int| 0 <= i < self.tags.len() ==> (#[trigger] self.tags[i]).valid()
        &&& forall|i: int| 0 <= i < self.documents.len() ==> (#[trigger] self.documents[i]).valid()
        &&& forall|i: int, tag: TagView|
            0 <= i < self.documents.len() && #[trigger] starts_from(self.documents[i], tag)
                ==> self.tags.contains(tag)
        &&& forall|j: int| 0 < j < self.tags.len() ==> #[trigger] self.reached(j)
    }

    /// Description `i` is the first of the fetched ones with a stage that
    /// starts from the tag at position `j`: the one in which the tag was found.
    pub open spec fn first_from(self, i: int, j: int) -> bool {
        &&& 0 <= i < self.documents.len()
        &&& starts_from(self.documents[i], self.tags[j])
        &&& forall|k: int| 0 <= k < i ==> !starts_from(#[trigger] self.documents[k], self.tags[j])
    }

    /// The position of the description in which the tag at position `j` was
    /// found.
    pub open spec fn found_in(self, j: int) -> int {
        choose|i: int| self.first_from(i, j)
    }

    /// The way from the root to the tag at position `j`: the root, then the
    /// tag that was found in its description, and so on, each tag found in the
    /// description of the one before it.
    pub open spec fn chain(self, j: int) -> Seq<TagView>
        decreases j,
    {
        if j <= 0 {
            seq![self.tags[0]]
        } else {
            let i = self.found_in(j);
            if 0 <= i < j {
                self.chain(i).push(self.tags[j])
            } else {
                seq![self.tags[j]]
            }
        }
    }

    /// The way from the root to the pending tag, and nothing where no tag is
    /// pending.
    pub open spec fn path(self) -> Seq<TagView> {
        if self.documents.len() < self.tags.len() {
            self.chain(self.documents.len() as int)
        } else {
            Seq::empty()
        }
    }

    /// The tag at position `j` was found in one of the descriptions fetched for
    /// the tags before it.
    pub open spec fn reached(self, j: int) -> bool {
        exists|i: int|
            0 <= i < j && i < self.documents.len() && #[trigger] starts_from(
                self.documents[i],
                self.tags[j],
            )
    }
}

/// Discovery grows the known tags at the end only, keeps them free of
/// repetitions, and afterwards knows every managed base that it looked at; and
/// every tag that is new was one of the bases.
pub proof fn lemma_discovered(tags: Seq<TagView>, bases: Seq<ReferenceView>)
    requires
        tags.no_duplicates(),
    ensures
        discovered(tags, bases).no_duplicates(),
        tags.len() <= discovered(tags, bases).len(),
        discovered(tags, bases).take(tags.len() as int) == tags,
        forall|s: int|
            0 <= s < bases.len() ==> (#[trigger] bases[s] matches ReferenceView::Managed(tag)
                ==> discovered(tags, bases).contains(tag)),
        forall|j: int|
            tags.len() <= j < discovered(tags, bases).len() ==> bases.contains(
                ReferenceView::Managed(#[trigger] discovered(tags, bases)[j]),
            ),
    decreases bases.len(),
{
    let all = discovered(tags, bases);
    if bases.len() == 0 {
        assert(tags.take(tags.len() as int) =~= tags);
    } else {
        let front = bases.drop_last();
        let before = discovered(tags, front);
        lemma_discovered(tags, front);
        assert(all.take(tags.len() as int) =~= before.take(tags.len() as int));
        assert forall|s: int| 0 <= s < bases.len() implies (#[trigger] bases[s] matches ReferenceView::Managed(
            tag,
        ) ==> all.contains(tag)) by {
            if let ReferenceView::Managed(tag) = bases[s] {
                if s < front.len() {
                    assert(front[s] == bases[s]);
                    assert(before.contains(tag));
                    let k = choose|k: int| 0 <= k < before.len() && before[k] == tag;
                    assert(all[k] == tag);
                } else {
                    if before.contains(tag) {
                    } else {
                        assert(all[before.len() as int] == tag);
                    }
                }
            }
        }
        assert forall|j: int| tags.len() <= j < all.len() implies bases.contains(
            ReferenceView::Managed(#[trigger] all[j]),
        ) by {
            if j < before.len() {
                assert(before[j] == all[j]);
                let s = choose|s: int|
                    0 <= s < front.len() && front[s] == ReferenceView::Managed(before[j]);
                assert(bases[s] == front[s]);
            } else {
                assert(bases[bases.len() - 1] == ReferenceView::Managed(all[j]));
            }
        }
    }
}

/// Supplying a valid description keeps a consistent state consistent.
pub proof fn lemma_supplied_consistent(state: DiscoveryView, document: DockerfileView)
    requires
        state.consistent(),
        document.valid(),
    ensures
        state.supplied(document).consistent(),
{
    if state.documents.len() < state.tags.len() {
        let after = state.supplied(document);
        let bases = document.bases();
        let fetched = state.documents.len() as int;
        lemma_discovered(state.tags, bases);
        assert forall|i: int| 0 <= i < after.tags.len() implies (#[trigger] after.tags[i]).valid() by {
            if i < state.tags.len() {
                assert(after.tags.take(state.tags.len() as int)[i] == state.tags[i]);
            } else {
                assert(bases.contains(ReferenceView::Managed(after.tags[i])));
                let s = choose|s: int|
                    0 <= s < bases.len() && bases[s] == ReferenceView::Managed(after.tags[i]);
                assert(document.stages[s].from == bases[s]);
            }
        }
        assert forall|i: int, tag: TagView|
            0 <= i < after.documents.len() && #[trigger] starts_from(
                after.documents[i],
                tag,
            ) implies after.tags.contains(tag) by {
            if i < fetched {
                assert(after.documents[i] == state.documents[i]);
                assert(state.tags.contains(tag));
                let k = choose|k: int| 0 <= k < state.tags.len() && state.tags[k] == tag;
                assert(after.tags.take(state.tags.len() as int)[k] == state.tags[k]);
                assert(after.tags[k] == tag);
            } else {
                let s = choose|s: int|
                    0 <= s < document.stages.len() && (#[trigger] document.stages[s]).from
                        == ReferenceView::Managed(tag);
                assert(bases[s] == ReferenceView::Managed(tag));
            }
        }
        assert forall|j: int| 0 < j < after.tags.len() implies #[trigger] after.reached(j) by {
            if j < state.tags.len() {
                assert(state.reached(j));
                let i = choose|i: int|
                    0 <= i < j && i < state.documents.len() && #[trigger] starts_from(
                        state.documents[i],
                        state.tags[j],
                    );
                assert(after.documents[i] == state.documents[i]);
                assert(after.tags.take(state.tags.len() as int)[j] == state.tags[j]);
                assert(starts_from(after.documents[i], after.tags[j]));
            } else {
                assert(bases.contains(ReferenceView::Managed(after.tags[j])));
                let s = choose|s: int|
                    0 <= s < bases.len() && bases[s] == ReferenceView::Managed(after.tags[j]);
                assert(document.stages[s].from == bases[s]);
                assert(starts_from(after.documents[fetched], after.tags[j]));
            }
        }
    }
}

/// A tag was found in one description only.
pub proof fn lemma_first_from_unique(state: DiscoveryView, a: int, b: int, j: int)
    requires
        state.first_from(a, j),
        state.first_from(b, j),
    ensures
        a == b,
        state.found_in(j) == a,
{
    if a < b {
        assert(!starts_from(state.documents[a], state.tags[j]));
    } else if b < a {
        assert(!starts_from(state.documents[b], state.tags[j]));
    }
    let c = state.found_in(j);
    assert(state.first_from(c, j));
    if a < c {
        assert(!starts_from(state.documents[a], state.tags[j]));
    } else if c < a {
        assert(!starts_from(state.documents[c], state.tags[j]));
    }
}

/// Supplying a description changes nothing about where the tags known before
/// were found, and the tags that are new were found in the description
/// supplied.
pub proof fn lemma_supplied_found(state: DiscoveryView, document: DockerfileView, j: int)
    requires
        state.consistent(),
        document.valid(),
        state.pending() is Some,
        0 < j < state.supplied(document).tags.len(),
    ensures
        j < state.tags.len() ==> forall|i: int|
            state.first_from(i, j) ==> #[trigger] state.supplied(document).first_from(i, j),
        j >= state.tags.len() ==> state.supplied(document).first_from(
            state.documents.len() as int,
            j,
        ),
{
    let after = state.supplied(document);
    let bases = document.bases();
    let fetched = state.documents.len() as int;
    let known = state.tags.len() as int;
    lemma_discovered(state.tags, bases);
    if j < known {
        assert(after.tags.take(known)[j] == state.tags[j]);
        assert forall|i: int| state.first_from(i, j) implies #[trigger] after.first_from(i, j) by {
            assert(after.documents[i] == state.documents[i]);
            assert forall|k: int| 0 <= k < i implies !starts_from(
                #[trigger] after.documents[k],
                after.tags[j],
            ) by {
                assert(after.documents[k] == state.documents[k]);
            }
        }
    } else {
        assert(bases.contains(ReferenceView::Managed(after.tags[j])));
        let s = choose|s: int|
            0 <= s < bases.len() && bases[s] == ReferenceView::Managed(after.tags[j]);
        assert(document.stages[s].from == bases[s]);
        assert(starts_from(after.documents[fetched], after.tags[j]));
        assert forall|k: int| 0 <= k < fetched implies !starts_from(
            #[trigger] after.documents[k],
            after.tags[j],
        ) by {
            assert(after.documents[k] == state.documents[k]);
            if starts_from(state.documents[k], after.tags[j]) {
                assert(state.tags.contains(after.tags[j]));
                let m = choose|m: int| 0 <= m < known && state.tags[m] == after.tags[j];
                assert(after.tags.take(known)[m] == state.tags[m]);
                assert(after.tags[m] == after.tags[j]);
            }
        }
    }
}

/// Once every tag has its description, a consistent state holds a valid set
/// of definitions.
pub proof fn lemma_definitions_valid(state: DiscoveryView)
    requires
        state.consistent(),
        state.pending() is None,
    ensures
        valid_set(state.definitions()),
        state.definitions().len() == state.tags.len(),
{
    let docs = state.definitions();
    assert forall|i: int, tag: TagView|
        0 <= i < docs.len() && #[trigger] starts_from(docs[i].document, tag) implies defines(
        docs,
        tag,
    ) by {
        assert(starts_from(state.documents[i], tag));
        assert(state.tags.contains(tag));
        let j = choose|j: int| 0 <= j < state.tags.len() && state.tags[j] == tag;
        assert(docs[j].tag == tag);
    }
    assert forall|j: int| 0 < j < docs.len() implies #[trigger] graph::found_from_earlier(
        docs,
        j,
    ) by {
        assert(state.reached(j));
        let i = choose|i: int|
            0 <= i < j && i < state.documents.len() && #[trigger] starts_from(
                state.documents[i],
                state.tags[j],
            );
        assert(depends_on(docs, i, j));
    }
}

/// The first position of a tag among `tags`.
pub fn position_of(tags: &Vec<Tag>, tag: &Tag) -> (r: Option<usize>)
    ensures
        match r {
            Some(j) => {
                &&& j < tags@.len()
                &&& tags@[j as int]@ == tag@
                &&& forall|k: int| 0 <= k < j ==> tag_views(tags@)[k] != tag@
            },
            None => !tag_views(tags@).contains(tag@),
        },
{
    let mut j: usize = 0;
    while j < tags.len()
        invariant
            j <= tags.len(),
            forall|k: int| 0 <= k < j ==> tag_views(tags@)[k] != tag@,
        decreases tags.len() - j,
    {
        if tags[j].same(tag) {
            return Some(j);
        }
        j += 1;
    }
    None
}

/// The search for the images that a build needs, from the root on.
#[derive(Debug)]
pub struct Discovery {
    tags: Vec<Tag>,
    documents: Vec<Dockerfile>,
    found: Vec<usize>,
}

impl View for Discovery {
    type V = DiscoveryView;

    closed spec fn view(&self) -> DiscoveryView {
        DiscoveryView { tags: tag_views(self.tags@), documents: document_views(self.documents@) }
    }
}

impl Discovery {
    #[verifier::type_invariant]
    spec fn well_formed(&self) -> bool {
        &&& self@.consistent()
        &&& self.found@.len() == self.tags@.len()
        &&& forall|j: int|
            0 < j < self.found@.len() ==> (#[trigger] self.found@[j]) < j && self@.first_from(
                self.found@[j] as int,
                j,
            )
    }

    /// Starts the search at the root.
    pub fn new(root: Tag) -> (discovery: Discovery)
        ensures
            discovery@ == DiscoveryView::started(root@),
    {
        // A tag answers for its own validity when it hands out its text.
        let _ = root.as_str();
        let mut tags: Vec<Tag> = Vec::new();
        tags.push(root);
        let documents: Vec<Dockerfile> = Vec::new();
        let mut found: Vec<usize> = Vec::new();
        found.push(0);
        assert(tag_views(tags@) =~= seq![root@]);
        assert(document_views(documents@) =~= Seq::<DockerfileView>::empty());
        Discovery { tags, documents, found }
    }

    /// The tag whose description has to be supplied next. `None` when the
    /// search is over.
    pub fn pending(&self) -> (tag: Option<&Tag>)
        ensures
            match tag {
                Some(tag) => self@.pending() == Some(tag@),
                None => self@.pending() is None,
            },
            self@.consistent(),
    {
        proof {
            use_type_invariant(self);
        }
        if self.documents.len() < self.tags.len() {
            Some(&self.tags[self.documents.len()])
        } else {
            None
        }
    }

    /// Takes the description of the pending tag and queues the managed images
    /// that its stages start from, each one unless it is known already. Where
    /// nothing is pending, nothing changes.
    pub fn supply(self, document: Dockerfile) -> (next: Discovery)
        ensures
            next@ == self@.supplied(document@),
    {
        proof {
            use_type_invariant(&self);
        }
        if self.documents.len() >= self.tags.len() {
            return self;
        }
        let stages = document.len();
        let ghost state = self@;
        let ghost bases = document@.bases();
        let ghost known = self.found@;
        let Discovery { tags, documents, found } = self;
        let mut tags = tags;
        let mut documents = documents;
        let mut found = found;
        let fetched = documents.len();
        let mut s: usize = 0;
        assert(bases.take(0) =~= Seq::<ReferenceView>::empty());
        while s < stages
            invariant
                s <= stages,
                stages == document@.stages.len(),
                bases == document@.bases(),
                tag_views(tags@) == discovered(state.tags, bases.take(s as int)),
                found@.len() == tags@.len(),
                known.len() == state.tags.len(),
                known.len() <= found@.len(),
                forall|j: int| 0 <= j < known.len() ==> found@[j] == known[j],
                forall|j: int| known.len() <= j < found@.len() ==> found@[j] == fetched,
            decreases stages - s,
        {
            proof {
                assert(bases.take(s + 1).drop_last() =~= bases.take(s as int));
                assert(bases.take(s + 1).last() == bases[s as int]);
            }
            match document.stage(s) {
                Some(stage) => {
                    assert(bases[s as int] == stage@.from);
                    match stage.from.managed() {
                        Some(tag) => {
                            match position_of(&tags, tag) {
                                Some(j) => {
                                    assert(tag_views(tags@)[j as int] == tag@);
                                },
                                None => {
                                    let ghost before = tag_views(tags@);
                                    tags.push(tag.clone());
                                    found.push(fetched);
                                    assert(tag_views(tags@) =~= before.push(tag@));
                                },
                            }
                        },
                        None => {},
                    }
                },
                None => {},
            }
            s += 1;
        }
        assert(bases.take(s as int) =~= bases);
        let ghost before = document_views(documents@);
        documents.push(document);
        proof {
            let after = state.supplied(document@);
            assert(document_views(documents@) =~= before.push(document@));
            lemma_supplied_consistent(state, document@);
            lemma_discovered(state.tags, bases);
            assert forall|j: int| 0 < j < found@.len() implies (#[trigger] found@[j]) < j
                && after.first_from(found@[j] as int, j) by {
                lemma_supplied_found(state, document@, j);
                if j < known.len() {
                    assert(state.first_from(known[j] as int, j));
                }
            }
        }
        Discovery { tags, documents, found }
    }

    /// The way from the root to the tag at position `j`.
    fn chain_to(&self, j: usize) -> (chain: Vec<Tag>)
        requires
            j < self@.tags.len(),
        ensures
            tag_views(chain@) == self@.chain(j as int),
        decreases j,
    {
        proof {
            use_type_invariant(self);
        }
        if j == 0 {
            let mut chain: Vec<Tag> = Vec::new();
            chain.push(self.tags[0].clone());
            assert(tag_views(chain@) =~= seq![self@.tags[0]]);
            chain
        } else {
            let i = self.found[j];
            proof {
                lemma_first_from_unique(self@, i as int, i as int, j as int);
            }
            let mut chain = self.chain_to(i);
            let ghost before = tag_views(chain@);
            chain.push(self.tags[j].clone());
            assert(tag_views(chain@) =~= before.push(self@.tags[j as int]));
            chain
        }
    }

    /// The way by which the search came to the pending tag: the root first,
    /// then, each found in the description of the one before it, the tags
    /// down to the pending one. Empty when nothing is pending.
    pub fn path(&self) -> (path: Vec<Tag>)
        ensures
            tag_views(path@) == self@.path(),
    {
        proof {
            use_type_invariant(self);
        }
        if self.documents.len() < self.tags.len() {
            self.chain_to(self.documents.len())
        } else {
            let path: Vec<Tag> = Vec::new();
            assert(tag_views(path@) =~= Seq::<TagView>::empty());
            path
        }
    }

    /// The set of definitions, once nothing is pending.
    pub(crate) fn into_set(self) -> (set: DocumentSet)
        requires
            self@.pending() is None,
        ensures
            set@ == self@.definitions(),
    {
        proof {
            use_type_invariant(&self);
        }
        let ghost state = self@;
        let Discovery { tags, documents, found: _ } = self;
        proof {
            lemma_definitions_valid(state);
            assert(Seq::new(
                tags@.len(),
                |i: int| Definition { tag: tags@[i]@, document: documents@[i]@ },
            ) =~= state.definitions());
        }
        DocumentSet { tags, documents }
    }

    /// Ends the search. Gives the set of definitions when nothing is pending,
    /// and the search itself back otherwise.
    pub fn finish(self) -> (r: Result<DocumentSet, Discovery>)
        ensures
            match r {
                Ok(set) => self@.pending() is None && set@ == self@.definitions(),
                Err(discovery) => self@.pending() is Some && discovery@ == self@,
            },
    {
        proof {
            use_type_invariant(&self);
        }
        if self.documents.len() < self.tags.len() {
            Err(self)
        } else {
            Ok(self.into_set())
        }
    }
}

/// The definitions of all the images that a build needs.
#[derive(Debug)]
pub struct DocumentSet {
    tags: Vec<Tag>,
    documents: Vec<Dockerfile>,
}

impl View for DocumentSet {
    type V = Seq<Definition>;

    closed spec fn view(&self) -> Seq<Definition> {
        Seq::new(
            self.tags@.len(),
            |i: int| Definition { tag: self.tags@[i]@, document: self.documents@[i]@ },
        )
    }
}

impl DocumentSet {
    #[verifier::type_invariant]
    spec fn well_formed(&self) -> bool {
        &&& self.tags@.len() == self.documents@.len()
        &&& valid_set(self@)
    }

    /// How many definitions there are; never zero.
    pub fn len(&self) -> (n: usize)
        ensures
            n == self@.len(),
            valid_set(self@),
    {
        proof {
            use_type_invariant(self);
        }
        self.tags.len()
    }

    /// The tag and the description at position `index`, in the order in which
    /// they were found. The root stands at position 0.
    pub fn get(&self, index: usize) -> (r: Option<(&Tag, &Dockerfile)>)
        ensures
            match r {
                Some((tag, document)) => index < self@.len() && self@[index as int] == (Definition {
                    tag: tag@,
                    document: document@,
                }),
                None => index >= self@.len(),
            },
    {
        proof {
            use_type_invariant(self);
        }
        if index < self.tags.len() {
            Some((&self.tags[index], &self.documents[index]))
        } else {
            None
        }
    }
}

/// The positions as mathematical integers.
pub open spec fn positions(order: Seq<usize>) -> Seq<int> {
    order.map_values(|i: usize| i as int)
}

/// For every definition the list holds the definitions that it depends on,
/// and nothing else.
pub open spec fn edges_of(docs: Seq<Definition>, edges: Seq<Vec<usize>>) -> bool {
    &&& edges.len() == docs.len()
    &&& forall|i: int, k: int|
        0 <= i < edges.len() && 0 <= k < edges[i]@.len() ==> depends_on(
            docs,
            i,
            #[trigger] edges[i]@[k] as int,
        )
    &&& forall|i: int, j: int| #[trigger]
        depends_on(docs, i, j) ==> positions(edges[i]@).contains(j)
}

/// For every definition the list holds the characters of its tag.
pub open spec fn keys_of(docs: Seq<Definition>, keys: Seq<Vec<char>>) -> bool {
    &&& keys.len() == docs.len()
    &&& forall|i: int| 0 <= i < keys.len() ==> (#[trigger] keys[i])@ == docs[i].tag.text()
}

/// The flags tell for every definition whether it is in `done`.
pub open spec fn flags_of(docs: Seq<Definition>, done: Seq<int>, flags: Seq<bool>) -> bool {
    &&& flags.len() == docs.len()
    &&& forall|i: int| 0 <= i < flags.len() ==> #[trigger] flags[i] == done.contains(i)
}

/// The image that a definition gives when its files lie below `base_dir`.
pub open spec fn image_of(definition: Definition, base_dir: Seq<char>) -> DockerImageView {
    DockerImageView {
        tag: definition.tag,
        dockerfile: definition.document,
        source_directory: source_directory_of(base_dir, definition.tag),
    }
}

/// The images of the set in build order, as far as they can be placed.
pub open spec fn planned_images(docs: Seq<Definition>, base_dir: Seq<char>) -> Seq<
    DockerImageView,
> {
    emit(docs, Seq::empty()).map_values(|i: int| image_of(docs[i], base_dir))
}

/// The views of the images.
pub open spec fn image_views(images: Seq<DockerImage>) -> Seq<DockerImageView> {
    images.map_values(|image: DockerImage| image@)
}

/// The tags of the images.
pub open spec fn image_tags(images: Seq<DockerImage>) -> Seq<TagView> {
    images.map_values(|image: DockerImage| image@.tag)
}

/// The images that could not be placed because they depend on each other in a
/// circle, or on images that do.
#[derive(Debug, PartialEq, Eq)]
pub struct CycleDetected {
    /// The tags of the images that are left without a place, in the order in
    /// which they were found.
    pub remaining: Vec<Tag>,
}

impl DocumentSet {
    /// The characters of every tag.
    fn keys(&self) -> (keys: Vec<Vec<char>>)
        ensures
            keys_of(self@, keys@),
    {
        let mut keys: Vec<Vec<char>> = Vec::new();
        let mut i: usize = 0;
        while i < self.tags.len()
            invariant
                i <= self.tags.len(),
                keys@.len() == i,
                forall|k: int| 0 <= k < i ==> (#[trigger] keys@[k])@ == self.tags@[k]@.text(),
            decreases self.tags.len() - i,
        {
            keys.push(chars_of(self.tags[i].as_str()));
            i += 1;
        }
        keys
    }

    /// The definitions that definition `i` depends on.
    fn edges_from(&self, i: usize) -> (list: Vec<usize>)
        requires
            i < self@.len(),
        ensures
            forall|k: int|
                0 <= k < list@.len() ==> depends_on(self@, i as int, #[trigger] list@[k] as int),
            forall|j: int| #[trigger]
                depends_on(self@, i as int, j) ==> positions(list@).contains(j),
    {
        proof {
            use_type_invariant(self);
        }
        let ghost docs = self@;
        let document = &self.documents[i];
        let stages = document.len();
        let mut list: Vec<usize> = Vec::new();
        let mut s: usize = 0;
        while s < stages
            invariant
                s <= stages,
                i < docs.len(),
                docs == self@,
                valid_set(docs),
                self.tags@.len() == docs.len(),
                document@ == docs[i as int].document,
                stages == document@.stages.len(),
                forall|k: int|
                    0 <= k < list@.len() ==> depends_on(docs, i as int, #[trigger] list@[k] as int),
                forall|t: int, j: int|
                    0 <= t < s && 0 <= j < docs.len() && (#[trigger] document@.stages[t]).from
                        == ReferenceView::Managed((#[trigger] docs[j]).tag) ==> positions(
                        list@,
                    ).contains(j),
            decreases stages - s,
        {
            match document.stage(s) {
                Some(stage) => {
                    match stage.from.managed() {
                        Some(tag) => {
                            match position_of(&self.tags, tag) {
                                Some(j) => {
                                    let ghost before = list@;
                                    assert(docs[j as int].tag == tag@);
                                    assert(starts_from(document@, tag@));
                                    list.push(j);
                                    assert forall|t: int, x: int|
                                        0 <= t < s + 1 && 0 <= x < docs.len() && (
                                        #[trigger] document@.stages[t]).from
                                            == ReferenceView::Managed(
                                            (#[trigger] docs[x]).tag,
                                        ) implies positions(list@).contains(x) by {
                                        if t < s {
                                            assert(positions(before).contains(x));
                                            let k = choose|k: int|
                                                0 <= k < positions(before).len() && positions(
                                                    before,
                                                )[k] == x;
                                            assert(positions(list@)[k] == x);
                                        } else {
                                            lemma_same_tag(docs, x, j as int);
                                            assert(positions(list@)[before.len() as int] == x);
                                        }
                                    }
                                },
                                None => {
                                    assert(starts_from(document@, tag@));
                                    assert(defines(docs, tag@));
                                    let ghost j = choose|j: int|
                                        0 <= j < docs.len() && (#[trigger] docs[j]).tag == tag@;
                                    assert(tag_views(self.tags@)[j] == tag@);
                                    assert(false);
                                },
                            }
                        },
                        None => {},
                    }
                },
                None => {},
            }
            s += 1;
        }
        assert forall|j: int| #[trigger] depends_on(docs, i as int, j) implies positions(
            list@,
        ).contains(j) by {
            let t = choose|t: int|
                0 <= t < document@.stages.len() && (#[trigger] document@.stages[t]).from
                    == ReferenceView::Managed(docs[j].tag);
            assert(document@.stages[t].from == ReferenceView::Managed(docs[j].tag));
        }
        list
    }

    /// For every definition, the definitions that it depends on.
    fn edges(&self) -> (edges: Vec<Vec<usize>>)
        ensures
            edges_of(self@, edges@),
    {
        proof {
            use_type_invariant(self);
        }
        let mut edges: Vec<Vec<usize>> = Vec::new();
        let mut i: usize = 0;
        while i < self.tags.len()
            invariant
                i <= self.tags.len(),
                self.tags@.len() == self@.len(),
                edges@.len() == i,
                forall|x: int, k: int|
                    0 <= x < i && 0 <= k < edges@[x]@.len() ==> depends_on(
                        self@,
                        x,
                        #[trigger] edges@[x]@[k] as int,
                    ),
                forall|x: int, j: int|
                    0 <= x < i && #[trigger] depends_on(self@, x, j) ==> positions(
                        edges@[x]@,
                    ).contains(j),
            decreases self.tags.len() - i,
        {
            let list = self.edges_from(i);
            edges.push(list);
            i += 1;
        }
        edges
    }
}

/// Whether definition `i` is ready.
fn is_ready(
    edges: &Vec<Vec<usize>>,
    flags: &Vec<bool>,
    i: usize,
    Ghost(docs): Ghost<Seq<Definition>>,
    Ghost(done): Ghost<Seq<int>>,
) -> (r: bool)
    requires
        edges_of(docs, edges@),
        flags_of(docs, done, flags@),
        i < docs.len(),
    ensures
        r == ready(docs, done, i as int),
{
    if flags[i] {
        return false;
    }
    let list = &edges[i];
    let mut k: usize = 0;
    while k < list.len()
        invariant
            k <= list.len(),
            i < docs.len(),
            list@ == edges@[i as int]@,
            edges_of(docs, edges@),
            flags_of(docs, done, flags@),
            forall|x: int| 0 <= x < k ==> done.contains(#[trigger] list@[x] as int),
        decreases list.len() - k,
    {
        let j = list[k];
        assert(depends_on(docs, i as int, list@[k as int] as int));
        if !flags[j] {
            return false;
        }
        k += 1;
    }
    assert forall|j: int| #[trigger] depends_on(docs, i as int, j) implies done.contains(j) by {
        assert(positions(list@).contains(j));
        let x = choose|x: int| 0 <= x < positions(list@).len() && positions(list@)[x] == j;
        assert(done.contains(list@[x] as int));
    }
    true
}

/// The ready definition with the least tag, if any is ready.
fn select(
    edges: &Vec<Vec<usize>>,
    keys: &Vec<Vec<char>>,
    flags: &Vec<bool>,
    Ghost(docs): Ghost<Seq<Definition>>,
    Ghost(done): Ghost<Seq<int>>,
) -> (r: Option<usize>)
    requires
        valid_set(docs),
        edges_of(docs, edges@),
        keys_of(docs, keys@),
        flags_of(docs, done, flags@),
    ensures
        match r {
            Some(m) => m < docs.len() && next(docs, done) == Some(m as int) && ready(
                docs,
                done,
                m as int,
            ),
            None => next(docs, done) is None,
        },
{
    let n = keys.len();
    let mut best: Option<usize> = None;
    let mut i: usize = 0;
    while i < n
        invariant
            i <= n,
            n == docs.len(),
            valid_set(docs),
            edges_of(docs, edges@),
            keys_of(docs, keys@),
            flags_of(docs, done, flags@),
            match best {
                Some(m) => least_among(docs, done, i as int, m as int),
                None => forall|j: int| 0 <= j < i ==> !ready(docs, done, j),
            },
        decreases n - i,
    {
        if is_ready(edges, flags, i, Ghost(docs), Ghost(done)) {
            match best {
                Some(m) => {
                    proof {
                        lemma_least_among_next(docs, done, i as int, m as int);
                    }
                    if chars_precede(&keys[i], &keys[m]) {
                        assert(earlier(docs, i as int, m as int));
                        best = Some(i);
                    }
                },
                None => {
                    proof {
                        lemma_least_among_first(docs, done, i as int);
                    }
                    best = Some(i);
                },
            }
        } else {
            proof {
                if let Some(m) = best {
                    lemma_least_among_next(docs, done, i as int, m as int);
                }
            }
        }
        i += 1;
    }
    proof {
        match best {
            Some(m) => {
                assert(least_ready(docs, done, m as int)) by {
                    assert forall|j: int| #[trigger] ready(docs, done, j) implies !crate::order::precedes(
                        docs[j].tag.text(),
                        docs[m as int].tag.text(),
                    ) by {
                        assert(!earlier(docs, j, m as int));
                    }
                }
                lemma_next(docs, done, m as int);
            },
            None => {
                assert forall|j: int| !least_ready(docs, done, j) by {
                    if least_ready(docs, done, j) {
                        assert(ready(docs, done, j));
                    }
                }
            },
        }
    }
    best
}

impl DocumentSet {
    /// The tags of the definitions that are not flagged.
    fn remaining(&self, flags: &Vec<bool>, Ghost(done): Ghost<Seq<int>>) -> (rest: Vec<Tag>)
        requires
            flags_of(self@, done, flags@),
        ensures
            tag_views(rest@) == tags_at(self@, left_over(self@, done, self@.len() as int)),
    {
        proof {
            use_type_invariant(self);
        }
        let ghost docs = self@;
        let mut rest: Vec<Tag> = Vec::new();
        let mut x: usize = 0;
        assert(tag_views(rest@) =~= tags_at(docs, left_over(docs, done, 0)));
        while x < self.tags.len()
            invariant
                x <= self.tags.len(),
                docs == self@,
                self.tags@.len() == docs.len(),
                flags_of(docs, done, flags@),
                tag_views(rest@) == tags_at(docs, left_over(docs, done, x as int)),
            decreases self.tags.len() - x,
        {
            let ghost before = left_over(docs, done, x as int);
            let ghost found = tag_views(rest@);
            assert(flags@[x as int] == done.contains(x as int));
            if !flags[x] {
                rest.push(self.tags[x].clone());
                assert(left_over(docs, done, x + 1) == before.push(x as int));
                assert(tag_views(rest@) =~= found.push(docs[x as int].tag));
                assert(tags_at(docs, before.push(x as int)) =~= tags_at(docs, before).push(
                    docs[x as int].tag,
                ));
            } else {
                assert(left_over(docs, done, x + 1) == before);
            }
            x += 1;
        }
        rest
    }

    /// The tags of the definitions at the given positions.
    fn tags_in(&self, order: &Vec<usize>) -> (tags: Vec<Tag>)
        requires
            forall|a: int| 0 <= a < order@.len() ==> #[trigger] order@[a] < self@.len(),
        ensures
            tag_views(tags@) == tags_at(self@, positions(order@)),
    {
        proof {
            use_type_invariant(self);
        }
        let mut tags: Vec<Tag> = Vec::new();
        let mut a: usize = 0;
        while a < order.len()
            invariant
                a <= order.len(),
                self.tags@.len() == self@.len(),
                forall|a: int| 0 <= a < order@.len() ==> #[trigger] order@[a] < self@.len(),
                tags@.len() == a,
                forall|k: int|
                    0 <= k < a ==> (#[trigger] tags@[k])@ == self@[order@[k] as int].tag,
            decreases order.len() - a,
        {
            tags.push(self.tags[order[a]].clone());
            a += 1;
        }
        assert(tag_views(tags@) =~= tags_at(self@, positions(order@)));
        tags
    }

    /// The positions of the definitions in build order.
    fn order(&self) -> (r: Result<Vec<usize>, CycleDetected>)
        ensures
            match r {
                Ok(order) => {
                    &&& positions(order@) == emit(self@, Seq::empty())
                    &&& order@.len() == self@.len()
                    &&& forall|a: int| 0 <= a < order@.len() ==> #[trigger] order@[a] < self@.len()
                },
                Err(cycle) => {
                    &&& planned(self@) == Err::<Seq<TagView>, Seq<TagView>>(
                        tag_views(cycle.remaining@),
                    )
                    &&& cycle.remaining@.len() > 0
                    &&& forall|a: int|
                        0 <= a < cycle.remaining@.len() ==> #[trigger] held_back(
                            self@,
                            tag_views(cycle.remaining@),
                            a,
                        )
                    &&& forall|plan: Seq<TagView>| !#[trigger] is_build_order(self@, plan)
                },
            },
    {
        proof {
            use_type_invariant(self);
        }
        let ghost docs = self@;
        let n = self.tags.len();
        let keys = self.keys();
        let edges = self.edges();
        let mut flags: Vec<bool> = Vec::new();
        let mut i: usize = 0;
        while i < n
            invariant
                i <= n,
                flags@.len() == i,
                forall|k: int| 0 <= k < i ==> !#[trigger] flags@[k],
            decreases n - i,
        {
            flags.push(false);
            i += 1;
        }
        let mut order: Vec<usize> = Vec::new();
        assert(positions(order@) =~= Seq::<int>::empty());
        while order.len() < n
            invariant
                n == docs.len(),
                docs == self@,
                valid_set(docs),
                edges_of(docs, edges@),
                keys_of(docs, keys@),
                flags_of(docs, positions(order@), flags@),
                well_ordered(docs, positions(order@)),
                order@.len() <= n,
                forall|a: int| 0 <= a < order@.len() ==> #[trigger] order@[a] < n,
                emit(docs, positions(order@)) == emit(docs, Seq::empty()),
            decreases n - order.len(),
        {
            let ghost done = positions(order@);
            match select(&edges, &keys, &flags, Ghost(docs), Ghost(done)) {
                Some(m) => {
                    order.push(m);
                    flags.set(m, true);
                    proof {
                        assert(positions(order@) =~= done.push(m as int));
                        lemma_well_ordered_push(docs, done, m as int);
                        lemma_well_ordered_len(docs, done.push(m as int));
                        assert forall|x: int| 0 <= x < flags@.len() implies #[trigger] flags@[x]
                            == done.push(m as int).contains(x) by {
                            if x == m {
                                assert(done.push(m as int)[done.len() as int] == x);
                            } else if done.contains(x) {
                                let k = choose|k: int| 0 <= k < done.len() && done[k] == x;
                                assert(done.push(m as int)[k] == x);
                            } else if done.push(m as int).contains(x) {
                                let k = choose|k: int|
                                    0 <= k < done.push(m as int).len() && done.push(m as int)[k]
                                        == x;
                                assert(done[k] == x);
                            }
                        }
                    }
                },
                None => {
                    let remaining = self.remaining(&flags, Ghost(done));
                    proof {
                        assert(emit(docs, done) == done);
                        lemma_failure_report(docs);
                        assert forall|plan: Seq<TagView>| !#[trigger] is_build_order(docs, plan) by {
                            crate::resolver::graph::lemma_failure_means_no_order(docs, plan);
                        }
                    }
                    return Err(CycleDetected { remaining });
                },
            }
        }
        proof {
            assert(emit(docs, positions(order@)) == positions(order@));
        }
        Ok(order)
    }

    /// Puts the images in the order in which they have to be built.
    ///
    /// On success the result holds every tag of the set exactly once, every
    /// image stands behind the images that its stages start from, and the root
    /// comes last. Among images that could be built at the same point, the one
    /// whose tag comes first as text is built first, so the order depends on
    /// the set alone. Fails when definitions depend on each other in a circle,
    /// and then reports the images that could not be placed.
    pub fn build_order(&self) -> (r: Result<Vec<Tag>, CycleDetected>)
        ensures
            match r {
                Ok(order) => {
                    &&& planned(self@) == Ok::<Seq<TagView>, Seq<TagView>>(tag_views(order@))
                    &&& is_build_order(self@, tag_views(order@))
                    &&& tag_views(order@).last() == self@[0].tag
                },
                Err(cycle) => {
                    &&& planned(self@) == Err::<Seq<TagView>, Seq<TagView>>(
                        tag_views(cycle.remaining@),
                    )
                    &&& cycle.remaining@.len() > 0
                    &&& forall|a: int|
                        0 <= a < cycle.remaining@.len() ==> #[trigger] held_back(
                            self@,
                            tag_views(cycle.remaining@),
                            a,
                        )
                    &&& forall|plan: Seq<TagView>| !#[trigger] is_build_order(self@, plan)
                },
            },
    {
        proof {
            use_type_invariant(self);
        }
        match self.order() {
            Ok(order) => {
                let tags = self.tags_in(&order);
                proof {
                    lemma_plan_is_build_order(self@);
                    lemma_root_is_last(self@, tag_views(tags@));
                }
                Ok(tags)
            },
            Err(cycle) => Err(cycle),
        }
    }

    /// The build plan: the images in build order, each with its description
    /// and the directory below `base_dir` that its build takes files from.
    ///
    /// The order is that of [`DocumentSet::build_order`], and planning fails
    /// as it does. Nothing is returned for a part of the set.
    pub fn plan(&self, base_dir: &str) -> (r: Result<Vec<DockerImage>, CycleDetected>)
        ensures
            match r {
                Ok(images) => {
                    &&& planned(self@) == Ok::<Seq<TagView>, Seq<TagView>>(image_tags(images@))
                    &&& image_views(images@) == planned_images(self@, base_dir@)
                    &&& is_build_order(self@, image_tags(images@))
                    &&& image_tags(images@).last() == self@[0].tag
                },
                Err(cycle) => {
                    &&& planned(self@) == Err::<Seq<TagView>, Seq<TagView>>(
                        tag_views(cycle.remaining@),
                    )
                    &&& cycle.remaining@.len() > 0
                    &&& forall|a: int|
                        0 <= a < cycle.remaining@.len() ==> #[trigger] held_back(
                            self@,
                            tag_views(cycle.remaining@),
                            a,
                        )
                    &&& forall|plan: Seq<TagView>| !#[trigger] is_build_order(self@, plan)
                },
            },
    {
        proof {
            use_type_invariant(self);
        }
        match self.order() {
            Ok(order) => {
                let ghost docs = self@;
                let mut images: Vec<DockerImage> = Vec::new();
                let mut a: usize = 0;
                while a < order.len()
                    invariant
                        a <= order.len(),
                        docs == self@,
                        self.tags@.len() == docs.len(),
                        self.documents@.len() == docs.len(),
                        forall|k: int| 0 <= k < order@.len() ==> #[trigger] order@[k] < docs.len(),
                        images@.len() == a,
                        forall|k: int|
                            0 <= k < a ==> (#[trigger] images@[k])@ == image_of(
                                docs[order@[k] as int],
                                base_dir@,
                            ),
                    decreases order.len() - a,
                {
                    let i = order[a];
                    images.push(
                        DockerImage::new(base_dir, self.tags[i].clone(), self.documents[i].clone()),
                    );
                    a += 1;
                }
                proof {
                    assert(image_views(images@) =~= planned_images(docs, base_dir@));
                    assert(image_tags(images@) =~= tags_at(docs, positions(order@)));
                    lemma_plan_is_build_order(docs);
                    lemma_root_is_last(docs, image_tags(images@));
                }
                Ok(images)
            },
            Err(cycle) => Err(cycle),
        }
    }
}

} // verus!
