//! The `Project` record and its mathematical model.

use vstd::prelude::*;

verus! {

/// A stored record: the id the store assigned on creation plus the three
/// client-supplied fields. `description` and `github_url` are optional;
/// absence is `None`, never an empty string.
#[derive(Debug)]
pub struct Project {
    pub id: i64,
    pub title: String,
    pub description: Option<String>,
    pub github_url: Option<String>,
}

/// The client-supplied fields of a record, as they arrive in a create or
/// update body. The store, never the client, chooses the id.
#[derive(Debug)]
pub struct NewProject {
    pub title: String,
    pub description: Option<String>,
    pub github_url: Option<String>,
}

/// Mathematical model of a stored record.
pub ghost struct ProjectModel {
    pub id: int,
    pub title: Seq<char>,
    pub description: Option<Seq<char>>,
    pub github_url: Option<Seq<char>>,
}

/// Mathematical model of the client-supplied fields.
pub ghost struct NewProjectModel {
    pub title: Seq<char>,
    pub description: Option<Seq<char>>,
    pub github_url: Option<Seq<char>>,
}

/// The model of an optional text field: `None` stays `None`.
pub open spec fn opt_view(s: Option<String>) -> Option<Seq<char>> {
    match s {
        Option::Some(t) => Option::Some(t@),
        Option::None => Option::None,
    }
}

impl View for Project {
    type V = ProjectModel;

    open spec fn view(&self) -> ProjectModel {
        ProjectModel {
            id: self.id as int,
            title: self.title@,
            description: opt_view(self.description),
            github_url: opt_view(self.github_url),
        }
    }
}

impl View for NewProject {
    type V = NewProjectModel;

    open spec fn view(&self) -> NewProjectModel {
        NewProjectModel {
            title: self.title@,
            description: opt_view(self.description),
            github_url: opt_view(self.github_url),
        }
    }
}

impl NewProjectModel {
    /// The record that results from binding these fields to an id.
    pub open spec fn with_id(self, id: int) -> ProjectModel {
        ProjectModel {
            id: id,
            title: self.title,
            description: self.description,
            github_url: self.github_url,
        }
    }
}

fn clone_opt_string(s: &Option<String>) -> (r: Option<String>)
    ensures
        opt_view(r) == opt_view(*s),
{
    match s {
        Option::Some(t) => Option::Some(t.clone()),
        Option::None => Option::None,
    }
}

impl Clone for Project {
    /// The clone carries the same id and the same three field values.
    fn clone(&self) -> (r: Self)
        ensures
            r@ == self@,
    {
        Project {
            id: self.id,
            title: self.title.clone(),
            description: clone_opt_string(&self.description),
            github_url: clone_opt_string(&self.github_url),
        }
    }
}

impl Clone for NewProject {
    /// The clone carries the same three field values.
    fn clone(&self) -> (r: Self)
        ensures
            r@ == self@,
    {
        NewProject {
            title: self.title.clone(),
            description: clone_opt_string(&self.description),
            github_url: clone_opt_string(&self.github_url),
        }
    }
}

} // verus!
