//! The project document: the persisted aggregate, its mathematical model,
//! and the access-list membership predicate used by the store queries.
use vstd::prelude::*;

verus! {

/// A sub-resource of a project; embedded, with no lifecycle of its own.
pub struct ProjectView {
    pub id: String,
    pub title: String,
    pub permalink: String,
}

/// The central persisted entity. The identifier is the 128-bit value of the
/// generated unique id; it is assigned by the store layer, never trusted
/// from input.
pub struct Project {
    pub id: u128,
    pub owner: String,
    pub viewers: Option<Vec<String>>,
    pub moderators: Option<Vec<String>>,
    pub title: String,
    pub description: String,
    pub created: String,
    pub modified: String,
    pub image: String,
    pub color: String,
    pub views: Vec<ProjectView>,
    pub assets: Option<Vec<String>>,
}

/// Body of a membership query: the identity whose projects are requested.
pub struct GetRequest {
    pub email: String,
}

/// Mathematical model of a `ProjectView`.
#[verifier::ext_equal]
pub struct ViewModel {
    pub id: Seq<char>,
    pub title: Seq<char>,
    pub permalink: Seq<char>,
}

/// Mathematical model of a `Project`.
#[verifier::ext_equal]
pub struct ProjectModel {
    pub id: u128,
    pub owner: Seq<char>,
    pub viewers: Option<Seq<Seq<char>>>,
    pub moderators: Option<Seq<Seq<char>>>,
    pub title: Seq<char>,
    pub description: Seq<char>,
    pub created: Seq<char>,
    pub modified: Seq<char>,
    pub image: Seq<char>,
    pub color: Seq<char>,
    pub views: Seq<ViewModel>,
    pub assets: Option<Seq<Seq<char>>>,
}

impl View for ProjectView {
    type V = ViewModel;

    open spec fn view(&self) -> ViewModel {
        ViewModel { id: self.id@, title: self.title@, permalink: self.permalink@ }
    }
}

impl DeepView for ProjectView {
    type V = ViewModel;

    open spec fn deep_view(&self) -> ViewModel {
        self.view()
    }
}

/// Model of an optional list of strings as an optional sequence of
/// character sequences.
pub open spec fn opt_strings_view(o: Option<Vec<String>>) -> Option<Seq<Seq<char>>> {
    match o {
        Option::Some(v) => Option::Some(v.deep_view()),
        Option::None => Option::None,
    }
}

impl View for Project {
    type V = ProjectModel;

    open spec fn view(&self) -> ProjectModel {
        ProjectModel {
            id: self.id,
            owner: self.owner@,
            viewers: opt_strings_view(self.viewers),
            moderators: opt_strings_view(self.moderators),
            title: self.title@,
            description: self.description@,
            created: self.created@,
            modified: self.modified@,
            image: self.image@,
            color: self.color@,
            views: self.views.deep_view(),
            assets: opt_strings_view(self.assets),
        }
    }
}

impl DeepView for Project {
    type V = ProjectModel;

    open spec fn deep_view(&self) -> ProjectModel {
        self.view()
    }
}

impl Clone for ProjectView {
    fn clone(&self) -> (r: Self)
        ensures
            r@ == self@,
    {
        ProjectView {
            id: self.id.clone(),
            title: self.title.clone(),
            permalink: self.permalink.clone(),
        }
    }
}

/// Clones a list of strings, keeping its model.
pub fn clone_strings(v: &Vec<String>) -> (r: Vec<String>)
    ensures
        r.deep_view() == v.deep_view(),
{
    let mut r: Vec<String> = Vec::new();
    let mut i: usize = 0;
    while i < v.len()
        invariant
            i <= v.len(),
            r@.len() == i,
            forall|j: int| 0 <= j < i ==> r@[j]@ == v@[j]@,
        decreases v.len() - i,
    {
        r.push(v[i].clone());
        i = i + 1;
    }
    proof {
        assert(r.deep_view() =~~= v.deep_view());
    }
    r
}

/// Clones an optional list of strings, keeping its model.
pub fn clone_opt_strings(o: &Option<Vec<String>>) -> (r: Option<Vec<String>>)
    ensures
        opt_strings_view(r) == opt_strings_view(*o),
{
    match o {
        Option::Some(v) => Option::Some(clone_strings(v)),
        Option::None => Option::None,
    }
}

/// Clones the sub-resource list, keeping its model.
pub fn clone_views(v: &Vec<ProjectView>) -> (r: Vec<ProjectView>)
    ensures
        r.deep_view() == v.deep_view(),
{
    let mut r: Vec<ProjectView> = Vec::new();
    let mut i: usize = 0;
    while i < v.len()
        invariant
            i <= v.len(),
            r@.len() == i,
            forall|j: int| 0 <= j < i ==> r@[j]@ == v@[j]@,
        decreases v.len() - i,
    {
        r.push(v[i].clone());
        i = i + 1;
    }
    proof {
        assert(r.deep_view() =~~= v.deep_view());
    }
    r
}

impl Clone for Project {
    fn clone(&self) -> (r: Self)
        ensures
            r@ == self@,
    {
        let r = Project {
            id: self.id,
            owner: self.owner.clone(),
            viewers: clone_opt_strings(&self.viewers),
            moderators: clone_opt_strings(&self.moderators),
            title: self.title.clone(),
            description: self.description.clone(),
            created: self.created.clone(),
            modified: self.modified.clone(),
            image: self.image.clone(),
            color: self.color.clone(),
            views: clone_views(&self.views),
            assets: clone_opt_strings(&self.assets),
        };
        proof {
            assert(r@ =~~= self@);
        }
        r
    }
}

/// Whether `identity` has access to the modelled project: it is the owner,
/// or an element of the viewer list, or an element of the moderator list.
pub open spec fn spec_matches_identity(p: ProjectModel, identity: Seq<char>) -> bool {
    ||| p.owner == identity
    ||| match p.viewers {
        Option::Some(vs) => vs.contains(identity),
        Option::None => false,
    }
    ||| match p.moderators {
        Option::Some(ms) => ms.contains(identity),
        Option::None => false,
    }
}

/// Character-wise string comparison.
pub fn str_eq(a: &str, b: &str) -> (r: bool)
    ensures
        r == (a@ == b@),
{
    let la = a.unicode_len();
    let lb = b.unicode_len();
    if la != lb {
        return false;
    }
    let mut i: usize = 0;
    while i < la
        invariant
            i <= la,
            la == a@.len(),
            la == b@.len(),
            forall|j: int| 0 <= j < i ==> a@[j] == b@[j],
        decreases la - i,
    {
        if a.get_char(i) != b.get_char(i) {
            return false;
        }
        i = i + 1;
    }
    proof {
        assert(a@ =~= b@);
    }
    true
}

/// Whether `x` occurs in the list of strings.
pub fn contains_str(v: &Vec<String>, x: &str) -> (r: bool)
    ensures
        r == v.deep_view().contains(x@),
{
    let mut i: usize = 0;
    while i < v.len()
        invariant
            i <= v.len(),
            forall|j: int| 0 <= j < i ==> v.deep_view()[j] != x@,
        decreases v.len() - i,
    {
        if str_eq(v[i].as_str(), x) {
            assert(v.deep_view()[i as int] == x@);
            return true;
        }
        i = i + 1;
    }
    false
}

impl Project {
    /// Whether `identity` is the owner or appears in the viewer or
    /// moderator lists of this project.
    pub fn matches_identity(&self, identity: &str) -> (r: bool)
        ensures
            r == spec_matches_identity(self@, identity@),
    {
        if str_eq(self.owner.as_str(), identity) {
            return true;
        }
        let in_viewers = match &self.viewers {
            Option::Some(vs) => contains_str(vs, identity),
            Option::None => false,
        };
        if in_viewers {
            return true;
        }
        match &self.moderators {
            Option::Some(ms) => contains_str(ms, identity),
            Option::None => false,
        }
    }
}

} // verus!
