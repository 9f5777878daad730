//! The resource table and its invariants.
//!
//! `ProjectStore` models the `projects` table: a sequence of records in
//! insertion order, with ids that the store assigns from a monotone
//! counter. A record with a given id exists at most once; an id is never
//! chosen by the client and never changed by an update.

use vstd::prelude::*;

use crate::project::{NewProject, NewProjectModel, Project, ProjectModel};

verus! {

/// The ways a store operation can fail, as the handler sees them.
#[derive(Clone, Copy, Debug, PartialEq, Eq, Structural)]
pub enum StoreError {
    /// The requested id has no matching record.
    NotFound,
    /// The store rejected a write.
    ConstraintViolation,
    /// The store could not be reached.
    StoreUnavailable,
}

/// The models of a sequence of records.
pub open spec fn models(v: Seq<Project>) -> Seq<ProjectModel> {
    v.map_values(|p: Project| p@)
}

/// Whether some record in `s` carries `id`.
pub open spec fn contains_id(s: Seq<ProjectModel>, id: int) -> bool {
    exists|i: int| 0 <= i < s.len() && s[i].id == id
}

/// The index of the record carrying `id`; meaningful only under
/// `contains_id` and, uniquely, under `unique_ids`.
pub open spec fn index_of_id(s: Seq<ProjectModel>, id: int) -> int {
    choose|i: int| 0 <= i < s.len() && s[i].id == id
}

/// No two records carry the same id.
pub open spec fn unique_ids(s: Seq<ProjectModel>) -> bool {
    forall|i: int, j: int| 0 <= i < j < s.len() ==> s[i].id != s[j].id
}

/// What a lookup returns: the one record carrying `id`, if any.
pub open spec fn spec_get(s: Seq<ProjectModel>, id: int) -> Option<ProjectModel> {
    if contains_id(s, id) {
        Option::Some(s[index_of_id(s, id)])
    } else {
        Option::None
    }
}

/// The table after a creation: the new record appended, bound to `id`.
pub open spec fn spec_create(s: Seq<ProjectModel>, id: int, np: NewProjectModel) -> Seq<
    ProjectModel,
> {
    s.push(np.with_id(id))
}

/// The table after an update of `id`: the three mutable fields replaced
/// in place, the id and every other record untouched.
pub open spec fn spec_update(s: Seq<ProjectModel>, id: int, np: NewProjectModel) -> Seq<
    ProjectModel,
> {
    s.update(index_of_id(s, id), np.with_id(id))
}

/// The table after a deletion of `id`: that record removed, the order of
/// the others kept.
pub open spec fn spec_delete(s: Seq<ProjectModel>, id: int) -> Seq<ProjectModel> {
    s.remove(index_of_id(s, id))
}

/// With unique ids, any index carrying `id` is the index the lookup uses.
pub proof fn lemma_found_index(s: Seq<ProjectModel>, id: int, i: int)
    requires
        unique_ids(s),
        0 <= i < s.len(),
        s[i].id == id,
    ensures
        contains_id(s, id),
        index_of_id(s, id) == i,
        spec_get(s, id) == Option::Some(s[i]),
{
    assert(contains_id(s, id));
    let k = index_of_id(s, id);
    assert(0 <= k < s.len() && s[k].id == id);
    if k < i {
        assert(s[k].id != s[i].id);
    } else if i < k {
        assert(s[i].id != s[k].id);
    }
}

/// The `projects` table: records in insertion order plus the counter the
/// next id is assigned from.
pub struct ProjectStore {
    projects: Vec<Project>,
    next_id: i64,
}

impl View for ProjectStore {
    type V = Seq<ProjectModel>;

    /// The table as the sequence of its records, in insertion order.
    closed spec fn view(&self) -> Seq<ProjectModel> {
        models(self.projects@)
    }
}

impl ProjectStore {
    /// The id the next creation will assign.
    pub closed spec fn spec_next_id(&self) -> int {
        self.next_id as int
    }

    /// Well-formedness: ids are positive, below the counter, and unique.
    pub open spec fn wf(&self) -> bool {
        &&& 1 <= self.spec_next_id() <= i64::MAX
        &&& unique_ids(self@)
        &&& forall|i: int| 0 <= i < self@.len() ==> 1 <= #[trigger] self@[i].id < self.spec_next_id()
    }

    /// An empty table; the first creation will assign id 1.
    pub fn new() -> (s: Self)
        ensures
            s.wf(),
            s@ =~= Seq::<ProjectModel>::empty(),
            s.spec_next_id() == 1,
    {
        ProjectStore { projects: Vec::new(), next_id: 1 }
    }

    /// Every record, in insertion order.
    pub fn list(&self) -> (r: Vec<Project>)
        ensures
            models(r@) =~= self@,
    {
        let mut out: Vec<Project> = Vec::new();
        let mut i: usize = 0;
        while i < self.projects.len()
            invariant
                i <= self.projects.len(),
                out@.len() == i as int,
                forall|j: int| 0 <= j < i as int ==> models(out@)[j] == self@[j],
            decreases self.projects.len() - i,
        {
            out.push(self.projects[i].clone());
            i = i + 1;
        }
        assert(models(out@) =~= self@);
        out
    }

    /// The one record carrying `id`, or `NotFound`.
    pub fn get(&self, id: i64) -> (r: Result<Project, StoreError>)
        requires
            self.wf(),
        ensures
            match r {
                Result::Ok(p) => spec_get(self@, id as int) == Option::Some(p@),
                Result::Err(e) => e == StoreError::NotFound && spec_get(self@, id as int) is None,
            },
            r is Ok <==> contains_id(self@, id as int),
    {
        let mut i: usize = 0;
        while i < self.projects.len()
            invariant
                self.wf(),
                i <= self.projects.len(),
                forall|j: int| 0 <= j < i as int ==> self@[j].id != id as int,
            decreases self.projects.len() - i,
        {
            if self.projects[i].id == id {
                proof {
                    lemma_found_index(self@, id as int, i as int);
                }
                return Result::Ok(self.projects[i].clone());
            }
            i = i + 1;
        }
        assert(!contains_id(self@, id as int));
        Result::Err(StoreError::NotFound)
    }

    /// Append a record with the next fresh id. Fails only when the id
    /// space is exhausted.
    pub fn create(&mut self, np: NewProject) -> (r: Result<i64, StoreError>)
        requires
            old(self).wf(),
        ensures
            final(self).wf(),
            match r {
                Result::Ok(id) => {
                    &&& old(self).spec_next_id() < i64::MAX
                    &&& id as int == old(self).spec_next_id()
                    &&& !contains_id(old(self)@, id as int)
                    &&& final(self)@ =~= spec_create(old(self)@, id as int, np@)
                    &&& final(self).spec_next_id() == old(self).spec_next_id() + 1
                },
                Result::Err(e) => {
                    &&& e == StoreError::ConstraintViolation
                    &&& old(self).spec_next_id() == i64::MAX
                    &&& final(self)@ == old(self)@
                    &&& final(self).spec_next_id() == old(self).spec_next_id()
                },
            },
    {
        let ghost s0 = self@;
        let ghost npv = np@;
        if self.next_id == i64::MAX {
            return Result::Err(StoreError::ConstraintViolation);
        }
        let id = self.next_id;
        self.next_id = self.next_id + 1;
        let p = Project {
            id: id,
            title: np.title,
            description: np.description,
            github_url: np.github_url,
        };
        self.projects.push(p);
        proof {
            let s1 = self@;
            assert(s1 =~= spec_create(s0, id as int, npv));
            assert(!contains_id(s0, id as int)) by {
                if contains_id(s0, id as int) {
                    let w = index_of_id(s0, id as int);
                    assert(0 <= w < s0.len() && s0[w].id == id as int);
                    assert(s0[w].id < id as int);
                }
            }
            assert forall|k: int| 0 <= k < s1.len() implies 1 <= #[trigger] s1[k].id
                < self.spec_next_id() by {
                if k < s0.len() {
                    assert(s1[k] == s0[k]);
                }
            }
            assert(unique_ids(s1)) by {
                assert forall|a: int, b: int| 0 <= a < b < s1.len() implies s1[a].id
                    != s1[b].id by {
                    if b < s0.len() {
                        assert(s1[a] == s0[a] && s1[b] == s0[b]);
                    } else {
                        assert(s1[a] == s0[a] && s0[a].id < id as int);
                    }
                }
            }
        }
        Result::Ok(id)
    }

    /// Replace the three mutable fields of the record carrying `id`; the
    /// id itself and every other record are untouched. `NotFound` when no
    /// record carries `id`, and then the table is unchanged.
    #[verifier::loop_isolation(false)]
    pub fn update(&mut self, id: i64, np: NewProject) -> (r: Result<(), StoreError>)
        requires
            old(self).wf(),
        ensures
            final(self).wf(),
            final(self).spec_next_id() == old(self).spec_next_id(),
            match r {
                Result::Ok(u) => {
                    &&& contains_id(old(self)@, id as int)
                    &&& final(self)@ =~= spec_update(old(self)@, id as int, np@)
                },
                Result::Err(e) => {
                    &&& e == StoreError::NotFound
                    &&& !contains_id(old(self)@, id as int)
                    &&& final(self)@ == old(self)@
                },
            },
    {
        let ghost s0 = self@;
        let ghost npv = np@;
        let mut i: usize = 0;
        while i < self.projects.len()
            invariant
                *self == *old(self),
                self.wf(),
                i <= self.projects.len(),
                forall|j: int| 0 <= j < i as int ==> self@[j].id != id as int,
            decreases self.projects.len() - i,
        {
            if self.projects[i].id == id {
                proof {
                    lemma_found_index(s0, id as int, i as int);
                }
                let p = Project {
                    id: id,
                    title: np.title,
                    description: np.description,
                    github_url: np.github_url,
                };
                self.projects.remove(i);
                self.projects.insert(i, p);
                proof {
                    let s1 = self@;
                    let t = spec_update(s0, id as int, npv);
                    assert forall|k: int| 0 <= k < s1.len() implies s1[k] == t[k] by {
                        if k < i as int {
                        } else if k == i as int {
                            assert(s1[k] == p@);
                        } else {
                            assert(s1[k] == s0[k]);
                        }
                    }
                    assert(s1 =~= t);
                    assert forall|k: int| 0 <= k < s1.len() implies 1 <= #[trigger] s1[k].id
                        < self.spec_next_id() by {
                        assert(s1[k].id == s0[k].id);
                    }
                    assert(unique_ids(s1)) by {
                        assert forall|a: int, b: int| 0 <= a < b < s1.len() implies s1[a].id
                            != s1[b].id by {
                            assert(s1[a].id == s0[a].id && s1[b].id == s0[b].id);
                        }
                    }
                }
                return Result::Ok(());
            }
            i = i + 1;
        }
        assert(!contains_id(self@, id as int));
        Result::Err(StoreError::NotFound)
    }

    /// Remove the record carrying `id`, keeping the order of the others.
    /// `NotFound` when no record carries `id`, and then the table is
    /// unchanged: a repeated deletion is harmless.
    #[verifier::loop_isolation(false)]
    pub fn delete(&mut self, id: i64) -> (r: Result<(), StoreError>)
        requires
            old(self).wf(),
        ensures
            final(self).wf(),
            final(self).spec_next_id() == old(self).spec_next_id(),
            match r {
                Result::Ok(u) => {
                    &&& contains_id(old(self)@, id as int)
                    &&& final(self)@ =~= spec_delete(old(self)@, id as int)
                },
                Result::Err(e) => {
                    &&& e == StoreError::NotFound
                    &&& !contains_id(old(self)@, id as int)
                    &&& final(self)@ == old(self)@
                },
            },
    {
        let ghost s0 = self@;
        let mut i: usize = 0;
        while i < self.projects.len()
            invariant
                *self == *old(self),
                self.wf(),
                i <= self.projects.len(),
                forall|j: int| 0 <= j < i as int ==> self@[j].id != id as int,
            decreases self.projects.len() - i,
        {
            if self.projects[i].id == id {
                proof {
                    lemma_found_index(s0, id as int, i as int);
                }
                self.projects.remove(i);
                proof {
                    let s1 = self@;
                    let t = spec_delete(s0, id as int);
                    assert forall|k: int| 0 <= k < s1.len() implies s1[k] == t[k] by {
                        if k < i as int {
                        } else {
                            assert(s1[k] == s0[k + 1]);
                        }
                    }
                    assert(s1 =~= t);
                    assert forall|k: int| 0 <= k < s1.len() implies 1 <= #[trigger] s1[k].id
                        < self.spec_next_id() by {
                        if k < i as int {
                            assert(s1[k] == s0[k]);
                        } else {
                            assert(s1[k] == s0[k + 1]);
                        }
                    }
                    assert(unique_ids(s1)) by {
                        assert forall|a: int, b: int| 0 <= a < b < s1.len() implies s1[a].id
                            != s1[b].id by {
                            let a0: int = if a < i as int {
                                a
                            } else {
                                a + 1
                            };
                            let b0: int = if b < i as int {
                                b
                            } else {
                                b + 1
                            };
                            assert(s1[a] == s0[a0] && s1[b] == s0[b0]);
                        }
                    }
                }
                return Result::Ok(());
            }
            i = i + 1;
        }
        assert(!contains_id(self@, id as int));
        Result::Err(StoreError::NotFound)
    }
}

} // verus!
