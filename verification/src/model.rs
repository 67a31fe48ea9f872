//! The rows of the registry's tables and the values that operations hand out.

use vstd::prelude::*;
use crate::clock::Timestamp;
use crate::text::{clone_opt, clone_strings, opt_str_text, opt_text};

verus! {

/// A package of the registry.
#[derive(Debug, PartialEq, Eq)]
pub struct Crate {
    pub id: i32,
    pub name: String,
    pub updated_at: Timestamp,
    pub created_at: Timestamp,
    pub downloads: i32,
    pub description: Option<String>,
    pub homepage: Option<String>,
    pub documentation: Option<String>,
    pub readme: Option<String>,
    pub license: Option<String>,
    pub repository: Option<String>,
    pub max_upload_size: Option<i32>,
}

impl Clone for Crate {
    fn clone(&self) -> (r: Self)
        ensures
            r == *self,
    {
        Crate {
            id: self.id,
            name: self.name.clone(),
            updated_at: self.updated_at,
            created_at: self.created_at,
            downloads: self.downloads,
            description: clone_opt(&self.description),
            homepage: clone_opt(&self.homepage),
            documentation: clone_opt(&self.documentation),
            readme: clone_opt(&self.readme),
            license: clone_opt(&self.license),
            repository: clone_opt(&self.repository),
            max_upload_size: self.max_upload_size,
        }
    }
}

/// The metadata that a publish request carries for its crate.
#[derive(Debug, Clone, Copy)]
pub struct NewCrate<'a> {
    pub name: &'a str,
    pub description: Option<&'a str>,
    pub homepage: Option<&'a str>,
    pub documentation: Option<&'a str>,
    pub readme: Option<&'a str>,
    pub repository: Option<&'a str>,
    pub license: Option<&'a str>,
    pub max_upload_size: Option<i32>,
}

/// The texts of the metadata of a publish request.
pub struct Metadata {
    pub name: Seq<char>,
    pub description: Option<Seq<char>>,
    pub homepage: Option<Seq<char>>,
    pub documentation: Option<Seq<char>>,
    pub readme: Option<Seq<char>>,
    pub repository: Option<Seq<char>>,
    pub license: Option<Seq<char>>,
    pub max_upload_size: Option<i32>,
}

impl<'a> View for NewCrate<'a> {
    type V = Metadata;

    open spec fn view(&self) -> Metadata {
        Metadata {
            name: self.name@,
            description: opt_str_text(self.description),
            homepage: opt_str_text(self.homepage),
            documentation: opt_str_text(self.documentation),
            readme: opt_str_text(self.readme),
            repository: opt_str_text(self.repository),
            license: opt_str_text(self.license),
            max_upload_size: self.max_upload_size,
        }
    }
}

/// Whether an owner is a single account or a team.
#[derive(Debug, Clone, Copy, PartialEq, Eq, Structural)]
pub enum OwnerKind {
    User,
    Team,
}

impl OwnerKind {
    /// The number under which the kind is stored.
    pub open spec fn code_of(self) -> int {
        match self {
            OwnerKind::User => 0,
            OwnerKind::Team => 1,
        }
    }

    pub fn code(self) -> (r: i32)
        ensures
            r == self.code_of(),
    {
        match self {
            OwnerKind::User => 0,
            OwnerKind::Team => 1,
        }
    }
}

/// A grant of a crate to an owner. A grant is never removed: it is marked
/// `deleted` and may be brought back.
#[derive(Debug, Clone, Copy, PartialEq, Eq, Structural)]
pub struct CrateOwner {
    pub crate_id: i32,
    pub owner_id: i32,
    pub created_by: i32,
    pub owner_kind: OwnerKind,
    pub deleted: bool,
}

/// An account.
#[derive(Debug, PartialEq, Eq)]
pub struct User {
    pub id: i32,
    pub gh_login: String,
    pub name: Option<String>,
    pub avatar: Option<String>,
}

impl Clone for User {
    fn clone(&self) -> (r: Self)
        ensures
            r == *self,
    {
        User {
            id: self.id,
            gh_login: self.gh_login.clone(),
            name: clone_opt(&self.name),
            avatar: clone_opt(&self.avatar),
        }
    }
}

/// A team, backed by a group that an outside service keeps.
#[derive(Debug, PartialEq, Eq)]
pub struct Team {
    pub id: i32,
    pub github_id: i32,
    pub login: String,
    pub name: Option<String>,
    pub avatar: Option<String>,
}

impl Clone for Team {
    fn clone(&self) -> (r: Self)
        ensures
            r == *self,
    {
        Team {
            id: self.id,
            github_id: self.github_id,
            login: self.login.clone(),
            name: clone_opt(&self.name),
            avatar: clone_opt(&self.avatar),
        }
    }
}

/// An owner of a crate.
#[derive(Debug, PartialEq, Eq)]
pub enum Owner {
    User(User),
    Team(Team),
}

impl Clone for Owner {
    fn clone(&self) -> (r: Self)
        ensures
            r == *self,
    {
        match self {
            Owner::User(u) => Owner::User(u.clone()),
            Owner::Team(t) => Owner::Team(t.clone()),
        }
    }
}

impl Owner {
    pub open spec fn kind_of(self) -> OwnerKind {
        match self {
            Owner::User(_) => OwnerKind::User,
            Owner::Team(_) => OwnerKind::Team,
        }
    }

    pub open spec fn id_of(self) -> i32 {
        match self {
            Owner::User(u) => u.id,
            Owner::Team(t) => t.id,
        }
    }

    pub open spec fn login_of(self) -> Seq<char> {
        match self {
            Owner::User(u) => u.gh_login@,
            Owner::Team(t) => t.login@,
        }
    }

    pub fn kind(&self) -> (r: OwnerKind)
        ensures
            r == self.kind_of(),
    {
        match self {
            Owner::User(_) => OwnerKind::User,
            Owner::Team(_) => OwnerKind::Team,
        }
    }

    pub fn id(&self) -> (r: i32)
        ensures
            r == self.id_of(),
    {
        match self {
            Owner::User(u) => u.id,
            Owner::Team(t) => t.id,
        }
    }

    pub fn login(&self) -> (r: &str)
        ensures
            r@ == self.login_of(),
    {
        match self {
            Owner::User(u) => u.gh_login.as_str(),
            Owner::Team(t) => t.login.as_str(),
        }
    }
}

/// What an identity may do with a crate. The levels are ordered:
/// `Nothing < Publish < Full`.
#[derive(Debug, Clone, Copy, PartialEq, Eq, Structural)]
pub enum Rights {
    Nothing,
    Publish,
    Full,
}

impl Rights {
    pub open spec fn level_of(self) -> int {
        match self {
            Rights::Nothing => 0,
            Rights::Publish => 1,
            Rights::Full => 2,
        }
    }

    pub fn level(self) -> (r: u8)
        ensures
            r == self.level_of(),
    {
        match self {
            Rights::Nothing => 0,
            Rights::Publish => 1,
            Rights::Full => 2,
        }
    }
}

/// One feature of a version and what it switches on.
#[derive(Debug, PartialEq, Eq)]
pub struct Feature {
    pub name: String,
    pub enables: Vec<String>,
}

/// What a feature holds.
pub struct FeatureView {
    pub name: Seq<char>,
    pub enables: Seq<String>,
}

impl View for Feature {
    type V = FeatureView;

    open spec fn view(&self) -> FeatureView {
        FeatureView { name: self.name@, enables: self.enables@ }
    }
}

impl Clone for Feature {
    fn clone(&self) -> (r: Self)
        ensures
            r@ == self@,
    {
        Feature { name: self.name.clone(), enables: clone_strings(&self.enables) }
    }
}

/// What a list of features holds.
pub open spec fn features_view(v: Seq<Feature>) -> Seq<FeatureView> {
    Seq::new(v.len(), |i: int| v[i]@)
}

/// No name occurs twice among the features: the features of a version are a
/// map from names.
pub open spec fn distinct_names(features: Seq<FeatureView>) -> bool {
    forall|i: int, j: int|
        #![trigger features[i], features[j]]
        0 <= i < features.len() && 0 <= j < features.len() && i != j ==> features[i].name
            != features[j].name
}

/// Whether no name occurs twice among the features.
pub fn names_distinct(features: &Vec<Feature>) -> (r: bool)
    ensures
        r == distinct_names(features_view(features@)),
{
    let n = features.len();
    let ghost views = features_view(features@);
    let mut i: usize = 0;
    while i < n
        invariant
            i <= n,
            n == features.len(),
            views == features_view(features@),
            forall|a: int, b: int|
                #![trigger views[a], views[b]]
                0 <= a < i && 0 <= b < i && a != b ==> views[a].name != views[b].name,
        decreases n - i,
    {
        let mut j: usize = 0;
        while j < i
            invariant
                j <= i < n,
                n == features.len(),
                views == features_view(features@),
                forall|b: int| 0 <= b < j ==> (#[trigger] views[b]).name != views[i as int].name,
            decreases i - j,
        {
            if crate::text::same_text(features[j].name.as_str(), features[i].name.as_str()) {
                assert(views[j as int].name == views[i as int].name);
                return false;
            }
            j = j + 1;
        }
        i = i + 1;
    }
    true
}

/// A copy of a list of features.
pub fn clone_features(v: &Vec<Feature>) -> (r: Vec<Feature>)
    ensures
        features_view(r@) == features_view(v@),
{
    let mut out: Vec<Feature> = Vec::new();
    let mut i: usize = 0;
    while i < v.len()
        invariant
            i <= v.len(),
            out.len() == i,
            forall|j: int| 0 <= j < i ==> out[j]@ == v[j]@,
        decreases v.len() - i,
    {
        out.push(v[i].clone());
        i = i + 1;
    }
    assert(features_view(out@) =~= features_view(v@));
    out
}

/// A published version of a crate.
#[derive(Debug, PartialEq, Eq)]
pub struct Version {
    pub id: i32,
    pub crate_id: i32,
    pub num: String,
    pub yanked: bool,
    /// The features, each under its name; no name comes twice.
    pub features: Vec<Feature>,
    pub authors: Vec<String>,
    pub created_at: Timestamp,
    pub downloads: i32,
}

/// What a version row holds.
pub struct VersionView {
    pub id: i32,
    pub crate_id: i32,
    pub num: Seq<char>,
    pub yanked: bool,
    pub features: Seq<FeatureView>,
    pub authors: Seq<String>,
    pub created_at: Timestamp,
    pub downloads: i32,
}

impl View for Version {
    type V = VersionView;

    open spec fn view(&self) -> VersionView {
        VersionView {
            id: self.id,
            crate_id: self.crate_id,
            num: self.num@,
            yanked: self.yanked,
            features: features_view(self.features@),
            authors: self.authors@,
            created_at: self.created_at,
            downloads: self.downloads,
        }
    }
}

impl Clone for Version {
    fn clone(&self) -> (r: Self)
        ensures
            r@ == self@,
    {
        Version {
            id: self.id,
            crate_id: self.crate_id,
            num: self.num.clone(),
            yanked: self.yanked,
            features: clone_features(&self.features),
            authors: clone_strings(&self.authors),
            created_at: self.created_at,
            downloads: self.downloads,
        }
    }
}

/// For what a dependency is needed.
#[derive(Debug, Clone, Copy, PartialEq, Eq, Structural)]
pub enum DependencyKind {
    Normal,
    Build,
    Dev,
}

/// A dependency as a publish request describes it: the target by name.
#[derive(Debug, PartialEq, Eq)]
pub struct NewDependency {
    pub name: String,
    pub version_req: String,
    pub optional: bool,
    pub default_features: bool,
    pub features: Vec<String>,
    pub target: Option<String>,
    pub kind: Option<DependencyKind>,
}

/// An edge from a version to the crate it depends on.
#[derive(Debug, PartialEq, Eq)]
pub struct Dependency {
    pub id: i32,
    pub version_id: i32,
    pub crate_id: i32,
    pub req: String,
    pub optional: bool,
    pub default_features: bool,
    pub features: Vec<String>,
    pub target: Option<String>,
    pub kind: DependencyKind,
}

/// What a dependency row holds.
pub struct DependencyView {
    pub id: i32,
    pub version_id: i32,
    pub crate_id: i32,
    pub req: Seq<char>,
    pub optional: bool,
    pub default_features: bool,
    pub features: Seq<String>,
    pub target: Option<Seq<char>>,
    pub kind: DependencyKind,
}

impl View for Dependency {
    type V = DependencyView;

    open spec fn view(&self) -> DependencyView {
        DependencyView {
            id: self.id,
            version_id: self.version_id,
            crate_id: self.crate_id,
            req: self.req@,
            optional: self.optional,
            default_features: self.default_features,
            features: self.features@,
            target: opt_text(self.target),
            kind: self.kind,
        }
    }
}

impl Clone for Dependency {
    fn clone(&self) -> (r: Self)
        ensures
            r@ == self@,
    {
        Dependency {
            id: self.id,
            version_id: self.version_id,
            crate_id: self.crate_id,
            req: self.req.clone(),
            optional: self.optional,
            default_features: self.default_features,
            features: clone_strings(&self.features),
            target: clone_opt(&self.target),
            kind: self.kind,
        }
    }
}

/// A dependency as the package index lists it: the target by its stored name.
#[derive(Debug, PartialEq, Eq)]
pub struct IndexDependency {
    pub name: String,
    pub req: String,
    pub features: Vec<String>,
    pub optional: bool,
    pub default_features: bool,
    pub target: Option<String>,
    pub kind: DependencyKind,
}

/// The downloads of one version on one calendar day.
#[derive(Debug, Clone, Copy, PartialEq, Eq, Structural)]
pub struct VersionDownload {
    pub version_id: i32,
    pub downloads: i32,
    pub date: Timestamp,
}

/// A user's subscription to a crate.
#[derive(Debug, Clone, Copy, PartialEq, Eq, Structural)]
pub struct Follow {
    pub user_id: i32,
    pub crate_id: i32,
}

/// A keyword and the number of crates that carry it.
#[derive(Debug, PartialEq, Eq)]
pub struct Keyword {
    pub keyword: String,
    pub crates_cnt: i64,
}

impl Clone for Keyword {
    fn clone(&self) -> (r: Self)
        ensures
            r == *self,
    {
        Keyword { keyword: self.keyword.clone(), crates_cnt: self.crates_cnt }
    }
}

/// A keyword on a crate, in small letters.
#[derive(Debug, PartialEq, Eq)]
pub struct CrateKeyword {
    pub crate_id: i32,
    pub keyword: String,
}

impl Clone for CrateKeyword {
    fn clone(&self) -> (r: Self)
        ensures
            r == *self,
    {
        CrateKeyword { crate_id: self.crate_id, keyword: self.keyword.clone() }
    }
}

/// A category that crates can be filed under. Slugs nest with `::`.
#[derive(Debug, PartialEq, Eq)]
pub struct Category {
    pub slug: String,
    pub category: String,
}

impl Clone for Category {
    fn clone(&self) -> (r: Self)
        ensures
            r == *self,
    {
        Category { slug: self.slug.clone(), category: self.category.clone() }
    }
}

/// A crate filed under a category.
#[derive(Debug, PartialEq, Eq)]
pub struct CrateCategory {
    pub crate_id: i32,
    pub slug: String,
}

impl Clone for CrateCategory {
    fn clone(&self) -> (r: Self)
        ensures
            r == *self,
    {
        CrateCategory { crate_id: self.crate_id, slug: self.slug.clone() }
    }
}

/// One attribute of a badge.
#[derive(Debug, PartialEq, Eq)]
pub struct Attribute {
    pub key: String,
    pub value: String,
}

impl Clone for Attribute {
    fn clone(&self) -> (r: Self)
        ensures
            r == *self,
    {
        Attribute { key: self.key.clone(), value: self.value.clone() }
    }
}

/// No key occurs twice among the attributes: the attributes of a badge are a
/// map from keys.
pub open spec fn distinct_keys(attributes: Seq<Attribute>) -> bool {
    forall|i: int, j: int|
        #![trigger attributes[i], attributes[j]]
        0 <= i < attributes.len() && 0 <= j < attributes.len() && i != j ==> attributes[i].key@
            != attributes[j].key@
}

/// Whether no key occurs twice among the attributes.
pub fn keys_distinct(attributes: &Vec<Attribute>) -> (r: bool)
    ensures
        r == distinct_keys(attributes@),
{
    let n = attributes.len();
    let mut i: usize = 0;
    while i < n
        invariant
            i <= n,
            n == attributes.len(),
            forall|a: int, b: int|
                #![trigger attributes@[a], attributes@[b]]
                0 <= a < i && 0 <= b < i && a != b ==> attributes@[a].key@ != attributes@[b].key@,
        decreases n - i,
    {
        let mut j: usize = 0;
        while j < i
            invariant
                j <= i < n,
                n == attributes.len(),
                forall|b: int|
                    0 <= b < j ==> (#[trigger] attributes@[b]).key@ != attributes@[i as int].key@,
            decreases i - j,
        {
            if crate::text::same_text(attributes[j].key.as_str(), attributes[i].key.as_str()) {
                return false;
            }
            j = j + 1;
        }
        i = i + 1;
    }
    true
}

/// A copy of a list of attributes.
pub fn clone_attributes(v: &Vec<Attribute>) -> (r: Vec<Attribute>)
    ensures
        r@ == v@,
{
    let mut out: Vec<Attribute> = Vec::new();
    let mut i: usize = 0;
    while i < v.len()
        invariant
            i <= v.len(),
            out@ == v@.subrange(0, i as int),
        decreases v.len() - i,
    {
        out.push(v[i].clone());
        i = i + 1;
        assert(out@ == v@.subrange(0, i as int));
    }
    assert(v@.subrange(0, v.len() as int) == v@);
    out
}

/// A badge shown with a crate.
#[derive(Debug, PartialEq, Eq)]
pub struct Badge {
    pub crate_id: i32,
    pub badge_type: String,
    /// The attributes, each under its key; no key comes twice.
    pub attributes: Vec<Attribute>,
}

/// What a badge holds.
pub struct BadgeView {
    pub crate_id: i32,
    pub badge_type: Seq<char>,
    pub attributes: Seq<Attribute>,
}

impl View for Badge {
    type V = BadgeView;

    open spec fn view(&self) -> BadgeView {
        BadgeView {
            crate_id: self.crate_id,
            badge_type: self.badge_type@,
            attributes: self.attributes@,
        }
    }
}

impl Clone for Badge {
    fn clone(&self) -> (r: Self)
        ensures
            r@ == self@,
    {
        Badge {
            crate_id: self.crate_id,
            badge_type: self.badge_type.clone(),
            attributes: clone_attributes(&self.attributes),
        }
    }
}

} // verus!
