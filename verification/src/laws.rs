//! The properties that hold of the resource as a whole, each proved
//! over the table model that the store's contracts speak of.

use vstd::prelude::*;

use crate::project::{NewProjectModel, ProjectModel};
use crate::store::{
    contains_id, index_of_id, lemma_found_index, spec_create, spec_delete, spec_get, spec_update,
    unique_ids,
};

verus! {

/// The set of ids the table carries.
pub open spec fn ids_of(s: Seq<ProjectModel>) -> Set<int> {
    Set::new(|id: int| contains_id(s, id))
}

/// A creation under a fresh id keeps the ids unique.
pub proof fn lemma_create_keeps_unique(s: Seq<ProjectModel>, id: int, np: NewProjectModel)
    requires
        unique_ids(s),
        !contains_id(s, id),
    ensures
        unique_ids(spec_create(s, id, np)),
{
    let s1 = spec_create(s, id, np);
    assert forall|a: int, b: int| 0 <= a < b < s1.len() implies s1[a].id != s1[b].id by {
        if b < s.len() {
            assert(s1[a] == s[a] && s1[b] == s[b]);
        } else {
            assert(s1[a] == s[a]);
            if s[a].id == id {
                assert(contains_id(s, id));
            }
        }
    }
}

/// Round-trip: creating a record and then fetching it by the assigned
/// id yields exactly the three field values that were supplied, bound
/// to that id.
pub proof fn lemma_round_trip(s: Seq<ProjectModel>, id: int, np: NewProjectModel)
    requires
        unique_ids(s),
        !contains_id(s, id),
    ensures
        spec_get(spec_create(s, id, np), id) == Option::Some(np.with_id(id)),
{
    let s1 = spec_create(s, id, np);
    lemma_create_keeps_unique(s, id, np);
    assert(s1[s.len() as int] == np.with_id(id));
    lemma_found_index(s1, id, s.len() as int);
}

/// List completeness: a creation adds exactly the new id to the set of
/// stored ids; together with `list`'s contract, which returns the
/// table exactly, the listing after N creations holds exactly the
/// created records.
pub proof fn lemma_create_ids(s: Seq<ProjectModel>, id: int, np: NewProjectModel)
    ensures
        ids_of(spec_create(s, id, np)) =~= ids_of(s).insert(id),
{
    let s1 = spec_create(s, id, np);
    assert forall|x: int| #[trigger] ids_of(s1).contains(x) implies ids_of(s).insert(id).contains(
        x,
    ) by {
        let w = index_of_id(s1, x);
        assert(0 <= w < s1.len() && s1[w].id == x);
        if w < s.len() {
            assert(s[w].id == x);
            assert(contains_id(s, x));
        }
    }
    assert forall|x: int| ids_of(s).insert(id).contains(x) implies #[trigger] ids_of(s1).contains(
        x,
    ) by {
        if x == id {
            assert(s1[s.len() as int].id == id);
        } else {
            let w = index_of_id(s, x);
            assert(0 <= w < s.len() && s[w].id == x);
            assert(s1[w].id == x);
        }
    }
}

/// Not-found: a lookup of an id no record carries yields nothing,
/// never a default or empty record.
pub proof fn lemma_not_found(s: Seq<ProjectModel>, id: int)
    requires
        !contains_id(s, id),
    ensures
        spec_get(s, id) is None,
{
}

/// Null handling: fields omitted at creation are stored and returned
/// as absent, not as empty text.
pub proof fn lemma_null_fields(s: Seq<ProjectModel>, id: int, np: NewProjectModel)
    requires
        unique_ids(s),
        !contains_id(s, id),
        np.description is None,
        np.github_url is None,
    ensures
        spec_get(spec_create(s, id, np), id) == Option::Some(np.with_id(id)),
        np.with_id(id).description is None,
        np.with_id(id).github_url is None,
{
    lemma_round_trip(s, id, np);
}

/// Update semantics: an update replaces the three mutable fields with
/// the new body in full (nothing is carried over from the prior
/// value), keeps the id, and touches no other record.
pub proof fn lemma_update_replaces(s: Seq<ProjectModel>, id: int, np: NewProjectModel)
    requires
        unique_ids(s),
        contains_id(s, id),
    ensures
        spec_get(spec_update(s, id, np), id) == Option::Some(np.with_id(id)),
        forall|o: int| o != id ==> spec_get(spec_update(s, id, np), o) == spec_get(s, o),
        spec_update(s, id, np).len() == s.len(),
{
    let i = index_of_id(s, id);
    assert(0 <= i < s.len() && s[i].id == id);
    let s1 = spec_update(s, id, np);
    assert forall|k: int| 0 <= k < s1.len() implies s1[k].id == s[k].id by {}
    assert(unique_ids(s1)) by {
        assert forall|a: int, b: int| 0 <= a < b < s1.len() implies s1[a].id != s1[b].id by {
            assert(s1[a].id == s[a].id && s1[b].id == s[b].id);
        }
    }
    lemma_found_index(s1, id, i);
    assert forall|o: int| o != id implies spec_get(s1, o) == spec_get(s, o) by {
        if contains_id(s, o) {
            let w = index_of_id(s, o);
            assert(0 <= w < s.len() && s[w].id == o);
            assert(w != i);
            assert(s1[w] == s[w]);
            lemma_found_index(s1, o, w);
            lemma_found_index(s, o, w);
        } else {
            if contains_id(s1, o) {
                let w = index_of_id(s1, o);
                assert(0 <= w < s1.len() && s1[w].id == o);
                assert(s[w].id == o);
                assert(contains_id(s, o));
            }
        }
    }
}

/// Delete finality: after a deletion the id is gone (a lookup yields
/// nothing, a repeated deletion finds nothing to act on) and every
/// other record is untouched.
pub proof fn lemma_delete_finality(s: Seq<ProjectModel>, id: int)
    requires
        unique_ids(s),
        contains_id(s, id),
    ensures
        !contains_id(spec_delete(s, id), id),
        spec_get(spec_delete(s, id), id) is None,
        forall|o: int| o != id ==> spec_get(spec_delete(s, id), o) == spec_get(s, o),
        spec_delete(s, id).len() == s.len() - 1,
{
    let i = index_of_id(s, id);
    assert(0 <= i < s.len() && s[i].id == id);
    let s1 = spec_delete(s, id);
    assert forall|k: int| 0 <= k < s1.len() implies s1[k] == s[if k < i {
        k
    } else {
        k + 1
    }] by {}
    assert(!contains_id(s1, id)) by {
        if contains_id(s1, id) {
            let w = index_of_id(s1, id);
            assert(0 <= w < s1.len() && s1[w].id == id);
            let w0: int = if w < i {
                w
            } else {
                w + 1
            };
            assert(s[w0].id == id && w0 != i);
        }
    }
    assert(unique_ids(s1)) by {
        assert forall|a: int, b: int| 0 <= a < b < s1.len() implies s1[a].id != s1[b].id by {
            let a0: int = if a < i {
                a
            } else {
                a + 1
            };
            let b0: int = if b < i {
                b
            } else {
                b + 1
            };
            assert(s1[a] == s[a0] && s1[b] == s[b0]);
        }
    }
    assert forall|o: int| o != id implies spec_get(s1, o) == spec_get(s, o) by {
        if contains_id(s, o) {
            let w = index_of_id(s, o);
            assert(0 <= w < s.len() && s[w].id == o);
            assert(w != i);
            let w1: int = if w < i {
                w
            } else {
                w - 1
            };
            assert(s1[w1] == s[w]);
            lemma_found_index(s1, o, w1);
            lemma_found_index(s, o, w);
        } else {
            if contains_id(s1, o) {
                let w = index_of_id(s1, o);
                assert(0 <= w < s1.len() && s1[w].id == o);
                let w0: int = if w < i {
                    w
                } else {
                    w + 1
                };
                assert(s[w0].id == o);
                assert(contains_id(s, o));
            }
        }
    }
}

/// Injection safety: the stored text is exactly the client's text,
/// whatever characters it contains, quotes and control characters
/// included, with no constraint on the title at all; storing then
/// fetching returns every field unaltered.
pub proof fn lemma_text_preserved(s: Seq<ProjectModel>, id: int, np: NewProjectModel)
    requires
        unique_ids(s),
        !contains_id(s, id),
    ensures
        spec_get(spec_create(s, id, np), id) == Option::Some(np.with_id(id)),
        np.with_id(id).title == np.title,
        np.with_id(id).description == np.description,
        np.with_id(id).github_url == np.github_url,
{
    lemma_round_trip(s, id, np);
}

} // verus!
