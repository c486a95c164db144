//! The access-scoped document store: project aggregates keyed by a unique
//! 128-bit id, queryable by id and by access-list membership. Ids are
//! assigned here, never trusted from input.
use vstd::prelude::*;
use crate::ids::random_id;
use crate::project::{Project, ProjectModel, spec_matches_identity};

verus! {

/// The error taxonomy of the core: a missing document, a malformed input,
/// a failed asset copy, or a store failure.
#[derive(Clone, Copy, PartialEq, Eq, Structural, Debug)]
pub enum ProjectError {
    NotFound,
    Validation,
    Copy,
    Persistence,
}

/// Whether some stored document carries `id`.
pub open spec fn spec_has_id(docs: Seq<ProjectModel>, id: u128) -> bool {
    exists|i: int| 0 <= i < docs.len() && docs[i].id == id
}

/// `m` with its id replaced by `id` and everything else kept.
pub open spec fn spec_with_id(m: ProjectModel, id: u128) -> ProjectModel {
    ProjectModel { id: id, ..m }
}

/// Whether two modelled projects agree on every field except the id.
pub open spec fn spec_equal_except_id(a: ProjectModel, b: ProjectModel) -> bool {
    &&& a.owner == b.owner
    &&& a.viewers == b.viewers
    &&& a.moderators == b.moderators
    &&& a.title == b.title
    &&& a.description == b.description
    &&& a.created == b.created
    &&& a.modified == b.modified
    &&& a.image == b.image
    &&& a.color == b.color
    &&& a.views == b.views
    &&& a.assets == b.assets
}

/// The membership predicate of a query for `identity`, as a function on
/// modelled documents.
pub open spec fn identity_pred(identity: Seq<char>) -> spec_fn(ProjectModel) -> bool {
    |m: ProjectModel| spec_matches_identity(m, identity)
}

/// The document store: one record per project, holding the full aggregate.
pub struct DocumentStore {
    docs: Vec<Project>,
}

impl DocumentStore {
    /// The stored documents, in insertion order.
    pub closed spec fn docs_model(&self) -> Seq<ProjectModel> {
        self.docs.deep_view()
    }

    /// Well-formedness: ids are unique across all stored documents.
    pub open spec fn wf(&self) -> bool {
        forall|i: int, j: int|
            0 <= i < j < self.docs_model().len() ==> self.docs_model()[i].id
                != self.docs_model()[j].id
    }

    /// An empty store.
    pub fn new() -> (r: Self)
        ensures
            r.wf(),
            r.docs_model() == Seq::<ProjectModel>::empty(),
    {
        let r = DocumentStore { docs: Vec::new() };
        proof {
            assert(r.docs_model() =~= Seq::<ProjectModel>::empty());
        }
        r
    }

    /// How many documents are stored.
    pub fn count(&self) -> (n: usize)
        ensures
            n == self.docs_model().len(),
    {
        self.docs.len()
    }

    /// Whether a document with `id` is stored.
    pub fn contains_id(&self, id: u128) -> (r: bool)
        ensures
            r == spec_has_id(self.docs_model(), id),
    {
        let mut i: usize = 0;
        while i < self.docs.len()
            invariant
                i <= self.docs.len(),
                forall|j: int| 0 <= j < i ==> self.docs_model()[j].id != id,
            decreases self.docs.len() - i,
        {
            if self.docs[i].id == id {
                assert(self.docs_model()[i as int].id == id);
                return true;
            }
            i = i + 1;
        }
        false
    }

    /// Persists `doc` under the caller-supplied fresh id `id`, overwriting
    /// the id carried by `doc`. Succeeds exactly when `id` is not yet in
    /// use; on the uniqueness violation nothing changes and a persistence
    /// error is reported.
    pub fn insert_with_id(&mut self, doc: Project, id: u128) -> (r: Result<u128, ProjectError>)
        requires
            old(self).wf(),
        ensures
            final(self).wf(),
            !spec_has_id(old(self).docs_model(), id) ==> r == Result::<u128, ProjectError>::Ok(id)
                && final(self).docs_model() == old(self).docs_model().push(
                spec_with_id(doc@, id),
            ),
            spec_has_id(old(self).docs_model(), id) ==> r == Result::<u128, ProjectError>::Err(
                ProjectError::Persistence,
            ) && final(self).docs_model() == old(self).docs_model(),
    {
        if self.contains_id(id) {
            return Result::Err(ProjectError::Persistence);
        }
        let mut d = doc;
        d.id = id;
        proof {
            assert(d@ =~= spec_with_id(doc@, id));
        }
        self.docs.push(d);
        proof {
            assert(self.docs_model() =~= old(self).docs_model().push(spec_with_id(doc@, id)));
        }
        Result::Ok(id)
    }

    /// Persists `doc` under a freshly generated id and returns that id.
    /// The id is server-assigned: the one carried by `doc` is ignored, and
    /// a fresh draw that collides with it or with a stored id is rejected
    /// as a persistence error, leaving the store unchanged.
    pub fn insert(&mut self, doc: Project) -> (r: Result<u128, ProjectError>)
        requires
            old(self).wf(),
        ensures
            final(self).wf(),
            match r {
                Result::Ok(id) => id != doc@.id && !spec_has_id(old(self).docs_model(), id)
                    && final(self).docs_model() == old(self).docs_model().push(
                    spec_with_id(doc@, id),
                ),
                Result::Err(e) => e == ProjectError::Persistence && final(self).docs_model()
                    == old(self).docs_model(),
            },
    {
        let id = random_id();
        if id == doc.id {
            return Result::Err(ProjectError::Persistence);
        }
        if self.contains_id(id) {
            return Result::Err(ProjectError::Persistence);
        }
        self.insert_with_id(doc, id)
    }

    /// Fetches the document stored under `id`. Succeeds exactly when such
    /// a document exists; otherwise reports it as missing.
    pub fn get_by_id(&self, id: u128) -> (r: Result<Project, ProjectError>)
        requires
            self.wf(),
        ensures
            match r {
                Result::Ok(p) => p@.id == id && self.docs_model().contains(p@),
                Result::Err(e) => e == ProjectError::NotFound && !spec_has_id(
                    self.docs_model(),
                    id,
                ),
            },
    {
        let mut i: usize = 0;
        while i < self.docs.len()
            invariant
                i <= self.docs.len(),
                forall|j: int| 0 <= j < i ==> self.docs_model()[j].id != id,
            decreases self.docs.len() - i,
        {
            if self.docs[i].id == id {
                let p = self.docs[i].clone();
                assert(self.docs_model()[i as int] == p@);
                return Result::Ok(p);
            }
            i = i + 1;
        }
        Result::Err(ProjectError::NotFound)
    }

    /// Returns every stored document whose access lists admit `identity`:
    /// those where it is the owner, or a viewer, or a moderator, in stored
    /// order, and no others. An empty result is not an error.
    pub fn list_by_identity(&self, identity: &str) -> (r: Vec<Project>)
        ensures
            r.deep_view() == self.docs_model().filter(identity_pred(identity@)),
    {
        let mut r: Vec<Project> = Vec::new();
        let mut i: usize = 0;
        proof {
            reveal_with_fuel(Seq::filter, 1);
            assert(self.docs_model().subrange(0, 0) =~= Seq::<ProjectModel>::empty());
            assert(r.deep_view() =~= self.docs_model().subrange(0, 0).filter(
                identity_pred(identity@),
            ));
        }
        while i < self.docs.len()
            invariant
                i <= self.docs.len(),
                r.deep_view() == self.docs_model().subrange(0, i as int).filter(
                    identity_pred(identity@),
                ),
            decreases self.docs.len() - i,
        {
            let ghost pred = identity_pred(identity@);
            let ghost done = self.docs_model().subrange(0, i as int);
            let ghost m = self.docs_model()[i as int];
            proof {
                assert(self.docs_model().subrange(0, i + 1 as int) =~= done + seq![m]);
                Seq::filter_distributes_over_add(done, seq![m], pred);
                reveal_with_fuel(Seq::filter, 2);
                assert(seq![m].drop_last() =~= Seq::<ProjectModel>::empty());
                if pred(m) {
                    assert(seq![m].filter(pred) =~= seq![m]);
                } else {
                    assert(seq![m].filter(pred) =~= Seq::<ProjectModel>::empty());
                }
            }
            if self.docs[i].matches_identity(identity) {
                r.push(self.docs[i].clone());
                proof {
                    assert(r.deep_view() =~= done.filter(pred).push(m));
                    assert(done.filter(pred).push(m) =~= self.docs_model().subrange(
                        0,
                        i + 1 as int,
                    ).filter(pred));
                }
            } else {
                proof {
                    assert(r.deep_view() =~= self.docs_model().subrange(0, i + 1 as int).filter(
                        pred,
                    ));
                }
            }
            i = i + 1;
        }
        proof {
            assert(self.docs_model().subrange(0, self.docs_model().len() as int)
                =~= self.docs_model());
        }
        r
    }
}

/// A filtered sequence holds exactly the original's elements that satisfy
/// the predicate.
pub proof fn lemma_filter_membership<A>(s: Seq<A>, pred: spec_fn(A) -> bool, m: A)
    ensures
        s.filter(pred).contains(m) <==> s.contains(m) && pred(m),
    decreases s.len(),
{
    reveal_with_fuel(Seq::filter, 1);
    if s.len() == 0 {
    } else {
        let front = s.drop_last();
        lemma_filter_membership(front, pred, m);
        assert(s =~= front.push(s.last()));
        if pred(s.last()) {
            assert(s.filter(pred) == front.filter(pred).push(s.last()));
            if s.filter(pred).contains(m) {
                let w = choose|w: int|
                    0 <= w < s.filter(pred).len() && s.filter(pred)[w] == m;
                if w < s.filter(pred).len() - 1 {
                    assert(front.filter(pred)[w] == m);
                    assert(front.filter(pred).contains(m));
                    let v = choose|v: int| 0 <= v < front.len() && front[v] == m;
                    assert(s[v] == m);
                } else {
                    assert(s[s.len() - 1] == m);
                }
            }
            if s.contains(m) && pred(m) {
                let w = choose|w: int| 0 <= w < s.len() && s[w] == m;
                if w < s.len() - 1 {
                    assert(front[w] == m);
                    assert(front.filter(pred).contains(m));
                    let v = choose|v: int|
                        0 <= v < front.filter(pred).len() && front.filter(pred)[v] == m;
                    assert(s.filter(pred)[v] == m);
                } else {
                    assert(s.filter(pred)[s.filter(pred).len() - 1] == m);
                }
            }
        } else {
            assert(s.filter(pred) == front.filter(pred));
            if s.contains(m) && pred(m) {
                let w = choose|w: int| 0 <= w < s.len() && s[w] == m;
                assert(w < s.len() - 1 || s[w] == s.last());
                if w < s.len() - 1 {
                    assert(front[w] == m);
                }
            }
            if s.filter(pred).contains(m) {
                let v = choose|v: int| 0 <= v < front.len() && front[v] == m;
                assert(s[v] == m);
            }
        }
    }
}

/// The membership query law: a document is in the result of a query for
/// `identity` exactly when it is stored and `identity` is its owner or
/// appears in its viewer or moderator lists.
pub proof fn lemma_list_by_identity_exact(
    docs: Seq<ProjectModel>,
    identity: Seq<char>,
    m: ProjectModel,
)
    ensures
        docs.filter(identity_pred(identity)).contains(m) <==> docs.contains(m)
            && spec_matches_identity(m, identity),
{
    lemma_filter_membership(docs, identity_pred(identity), m);
}

/// A fresh insertion leaves every already-stored document in place: a
/// fetch of any id other than the inserted one finds exactly the documents
/// it found before.
pub proof fn lemma_push_preserves_other_ids(
    pre: Seq<ProjectModel>,
    added: ProjectModel,
    got: ProjectModel,
    id: u128,
)
    requires
        id != added.id,
    ensures
        (pre.push(added).contains(got) && got.id == id) <==> (pre.contains(got) && got.id == id),
{
    if pre.push(added).contains(got) && got.id == id {
        let w = choose|w: int| 0 <= w < pre.push(added).len() && pre.push(added)[w] == got;
        if w < pre.len() {
            assert(pre[w] == got);
        }
    }
    if pre.contains(got) && got.id == id {
        let w = choose|w: int| 0 <= w < pre.len() && pre[w] == got;
        assert(pre.push(added)[w] == got);
    }
}

/// The insertion law: inserting `doc` under a fresh id `id` and then
/// fetching `id` yields exactly `doc` with its id replaced — equal to the
/// input in every field except the server-assigned id.
pub proof fn lemma_insert_then_get(
    pre: Seq<ProjectModel>,
    doc: ProjectModel,
    id: u128,
    got: ProjectModel,
)
    requires
        !spec_has_id(pre, id),
        pre.push(spec_with_id(doc, id)).contains(got),
        got.id == id,
    ensures
        got == spec_with_id(doc, id),
        spec_equal_except_id(got, doc),
{
    let post = pre.push(spec_with_id(doc, id));
    let w = choose|w: int| 0 <= w < post.len() && post[w] == got;
    if w < pre.len() {
        assert(pre[w].id == id);
        assert(false);
    }
}

} // verus!
