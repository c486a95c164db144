//! The duplication workflow: a source project becomes a new document with a
//! fresh id, reset access lists, and an independent physical copy of every
//! base-rooted asset. The object copies themselves are I/O: the caller runs
//! them one by one, reporting each outcome here, and may persist the new
//! document only once every copy has resolved. On any copy failure nothing
//! is ever persisted.
use vstd::prelude::*;
use crate::assets::{CopyJob, JobModel, plan_copies, spec_copy_plan};
use crate::ids::random_id;
use crate::project::{clone_opt_strings, clone_views, Project, ProjectModel};
use crate::store::{spec_has_id, spec_with_id, DocumentStore, ProjectError};

verus! {

/// The duplicate of `template` under the fresh id `new_id`: same document,
/// except that the id is replaced and both access lists are cleared.
pub open spec fn spec_duplicated(template: ProjectModel, new_id: u128) -> ProjectModel {
    ProjectModel {
        id: new_id,
        viewers: Option::None,
        moderators: Option::None,
        ..template
    }
}

/// The asset list of a modelled project, an absent list taken as empty.
pub open spec fn spec_assets_of(m: ProjectModel) -> Seq<Seq<char>> {
    match m.assets {
        Option::Some(a) => a,
        Option::None => Seq::empty(),
    }
}

/// One duplication in progress: the prepared new document, the copies it
/// requires, how many have succeeded, and whether one has failed.
pub struct DuplicationSession {
    prepared: Project,
    jobs: Vec<CopyJob>,
    next_job: usize,
    failed: bool,
}

impl DuplicationSession {
    /// The new document this duplication will persist.
    pub closed spec fn prepared_model(&self) -> ProjectModel {
        self.prepared@
    }

    /// The copies this duplication must perform, in asset order.
    pub closed spec fn jobs_model(&self) -> Seq<JobModel> {
        self.jobs.deep_view()
    }

    /// How many copies have succeeded so far.
    pub closed spec fn next_index(&self) -> int {
        self.next_job as int
    }

    /// Whether some copy has failed; a failed duplication persists nothing.
    pub closed spec fn has_failed(&self) -> bool {
        self.failed
    }

    /// Well-formedness: the jobs are exactly the copy plan of the prepared
    /// document's assets under its fresh id, progress stays within them,
    /// and the prepared document has cleared access lists.
    pub open spec fn wf(&self) -> bool {
        &&& self.jobs_model() == spec_copy_plan(
            spec_assets_of(self.prepared_model()),
            self.prepared_model().id,
        )
        &&& 0 <= self.next_index() <= self.jobs_model().len()
        &&& self.prepared_model().viewers is None
        &&& self.prepared_model().moderators is None
    }

    /// Starts a duplication of `template` under the caller-supplied fresh
    /// id: the prepared document is the template with its id replaced and
    /// its access lists cleared, and the pending copies are the plan for
    /// its assets.
    pub fn begin_with_id(template: &Project, new_id: u128) -> (s: Self)
        ensures
            s.wf(),
            s.prepared_model() == spec_duplicated(template@, new_id),
            s.next_index() == 0,
            !s.has_failed(),
    {
        let prepared = Project {
            id: new_id,
            owner: template.owner.clone(),
            viewers: Option::None,
            moderators: Option::None,
            title: template.title.clone(),
            description: template.description.clone(),
            created: template.created.clone(),
            modified: template.modified.clone(),
            image: template.image.clone(),
            color: template.color.clone(),
            views: clone_views(&template.views),
            assets: clone_opt_strings(&template.assets),
        };
        proof {
            assert(prepared@ =~~= spec_duplicated(template@, new_id));
        }
        let jobs = match &prepared.assets {
            Option::Some(a) => plan_copies(a, new_id),
            Option::None => Vec::new(),
        };
        proof {
            if prepared.assets is None {
                crate::assets::lemma_foreign_assets_no_copy(Seq::<Seq<char>>::empty(), new_id);
            }
            assert(jobs.deep_view() =~= spec_copy_plan(
                spec_assets_of(prepared@),
                prepared@.id,
            ));
        }
        DuplicationSession { prepared, jobs, next_job: 0, failed: false }
    }

    /// Starts a duplication of `template` under a freshly generated id.
    /// The id is never trusted from input: a draw that collides with the
    /// id the template itself carries is rejected as a persistence error,
    /// as an insertion rejects it.
    pub fn begin(template: &Project) -> (r: Result<Self, ProjectError>)
        ensures
            match r {
                Result::Ok(s) => {
                    &&& s.wf()
                    &&& s.prepared_model() == spec_duplicated(template@, s.prepared_model().id)
                    &&& s.prepared_model().id != template@.id
                    &&& s.next_index() == 0
                    &&& !s.has_failed()
                },
                Result::Err(e) => e == ProjectError::Persistence,
            },
    {
        let new_id = random_id();
        if new_id == template.id {
            return Result::Err(ProjectError::Persistence);
        }
        Result::Ok(Self::begin_with_id(template, new_id))
    }

    /// The next copy the caller must perform, or `None` when the
    /// duplication has failed or every copy has resolved.
    pub fn next_job(&self) -> (r: Option<&CopyJob>)
        ensures
            match r {
                Option::Some(j) => !self.has_failed() && self.next_index()
                    < self.jobs_model().len() && j@ == self.jobs_model()[self.next_index()],
                Option::None => self.has_failed() || self.next_index()
                    >= self.jobs_model().len(),
            },
    {
        if self.failed || self.next_job >= self.jobs.len() {
            Option::None
        } else {
            Option::Some(&self.jobs[self.next_job])
        }
    }

    /// Records the outcome of the pending copy: on success the duplication
    /// advances to the next one, on failure it is marked failed for good.
    /// Nothing else about the session changes.
    pub fn record_copy_result(&mut self, ok: bool)
        requires
            old(self).wf(),
            !old(self).has_failed(),
            old(self).next_index() < old(self).jobs_model().len(),
        ensures
            final(self).wf(),
            final(self).prepared_model() == old(self).prepared_model(),
            final(self).jobs_model() == old(self).jobs_model(),
            ok ==> !final(self).has_failed() && final(self).next_index() == old(
                self,
            ).next_index() + 1,
            !ok ==> final(self).has_failed() && final(self).next_index() == old(
                self,
            ).next_index(),
    {
        if ok {
            let n = self.jobs.len();
            assert(self.next_job < n);
            self.next_job = self.next_job + 1;
        } else {
            self.failed = true;
        }
    }

    /// Whether every copy has resolved (succeeded or failed), so that the
    /// caller may hand the session to the store.
    pub fn resolved(&self) -> (r: bool)
        ensures
            r == (self.has_failed() || self.next_index() >= self.jobs_model().len()),
    {
        self.failed || self.next_job >= self.jobs.len()
    }

    /// Ends the duplication for a caller whose document store is external.
    /// A failed duplication yields nothing to persist and reports the copy
    /// failure; otherwise the prepared document is handed out, to be
    /// persisted only now, strictly after every copy has resolved.
    pub fn into_document(self) -> (r: Result<Project, ProjectError>)
        requires
            self.has_failed() || self.next_index() >= self.jobs_model().len(),
        ensures
            self.has_failed() ==> r == Result::<Project, ProjectError>::Err(ProjectError::Copy),
            !self.has_failed() ==> r is Ok && r->Ok_0@ == self.prepared_model(),
    {
        if self.failed {
            Result::Err(ProjectError::Copy)
        } else {
            Result::Ok(self.prepared)
        }
    }

    /// Ends the duplication once every copy has resolved. A failed
    /// duplication persists nothing: the store is left unchanged and the
    /// copy failure is reported. Otherwise the prepared document is
    /// persisted under its fresh id, which is returned; a store that
    /// already holds that id rejects it as a persistence error, again
    /// changing nothing.
    pub fn finish(self, store: &mut DocumentStore) -> (r: Result<u128, ProjectError>)
        requires
            old(store).wf(),
            self.wf(),
            self.has_failed() || self.next_index() == self.jobs_model().len(),
        ensures
            final(store).wf(),
            !self.has_failed() && !spec_has_id(
                old(store).docs_model(),
                self.prepared_model().id,
            ) ==> r is Ok,
            self.has_failed() ==> r == Result::<u128, ProjectError>::Err(ProjectError::Copy)
                && final(store).docs_model() == old(store).docs_model(),
            !self.has_failed() ==> match r {
                Result::Ok(id) => id == self.prepared_model().id && !spec_has_id(
                    old(store).docs_model(),
                    id,
                ) && final(store).docs_model() == old(store).docs_model().push(
                    self.prepared_model(),
                ),
                Result::Err(e) => e == ProjectError::Persistence && final(store).docs_model()
                    == old(store).docs_model(),
            },
    {
        if self.failed {
            return Result::Err(ProjectError::Copy);
        }
        let id = self.prepared.id;
        proof {
            assert(spec_with_id(self.prepared@, id) =~~= self.prepared_model());
        }
        store.insert_with_id(self.prepared, id)
    }
}

} // verus!
