//! The shapes in which crates are handed to clients.

use vstd::prelude::*;
use crate::clock::encode_time;
use crate::foreign::rfc3339_utc;
use crate::model::{clone_attributes, Attribute, Badge, Category, Crate, Keyword};

verus! {

/// Where the resources of a crate are found.
#[derive(Debug, PartialEq, Eq)]
pub struct CrateLinks {
    pub version_downloads: String,
    pub versions: Option<String>,
    pub owners: Option<String>,
    pub reverse_dependencies: String,
}

/// A badge as clients see it.
#[derive(Debug, PartialEq, Eq)]
pub struct EncodableBadge {
    pub badge_type: String,
    pub attributes: Vec<Attribute>,
}

/// A crate as clients see it.
#[derive(Debug, PartialEq, Eq)]
pub struct EncodableCrate {
    pub id: String,
    pub name: String,
    pub updated_at: String,
    pub versions: Option<Vec<i32>>,
    pub keywords: Option<Vec<String>>,
    pub categories: Option<Vec<String>>,
    pub badges: Option<Vec<EncodableBadge>>,
    pub created_at: String,
    pub downloads: i32,
    pub max_version: String,
    pub description: Option<String>,
    pub homepage: Option<String>,
    pub documentation: Option<String>,
    pub license: Option<String>,
    pub repository: Option<String>,
    pub links: CrateLinks,
}

/// The path of a resource of the crate `name`.
pub open spec fn link_text(name: Seq<char>, resource: Seq<char>) -> Seq<char> {
    "/api/v1/crates/"@ + name + "/"@ + resource
}

/// The path of a resource of the crate `name`.
pub fn link(name: &str, resource: &str) -> (r: String)
    ensures
        r@ == link_text(name@, resource@),
{
    let mut s = "/api/v1/crates/".to_owned();
    s.append(name);
    s.append("/");
    s.append(resource);
    s
}

/// The links of the crate `name`. The versions are linked where they are not
/// listed.
pub open spec fn links_of(links: CrateLinks, name: Seq<char>, versions_listed: bool) -> bool {
    &&& links.version_downloads@ == link_text(name, "downloads"@)
    &&& if versions_listed {
        links.versions is None
    } else {
        links.versions matches Some(l) && l@ == link_text(name, "versions"@)
    }
    &&& links.owners matches Some(l) && l@ == link_text(name, "owners"@)
    &&& links.reverse_dependencies@ == link_text(name, "reverse_dependencies"@)
}

/// The keywords as clients see them: by their texts.
pub open spec fn keyword_texts(out: Option<Vec<String>>, keywords: Option<Seq<Keyword>>) -> bool {
    match keywords {
        None => out is None,
        Some(kws) => out matches Some(v) && v@.len() == kws.len() && forall|i: int|
            0 <= i < kws.len() ==> #[trigger] v@[i] == kws[i].keyword,
    }
}

/// The categories as clients see them: by their slugs.
pub open spec fn category_slugs(
    out: Option<Vec<String>>,
    categories: Option<Seq<Category>>,
) -> bool {
    match categories {
        None => out is None,
        Some(cats) => out matches Some(v) && v@.len() == cats.len() && forall|i: int|
            0 <= i < cats.len() ==> #[trigger] v@[i] == cats[i].slug,
    }
}

/// The badges as clients see them: without the crate they belong to.
pub open spec fn badges_shown(
    out: Option<Vec<EncodableBadge>>,
    badges: Option<Seq<Badge>>,
) -> bool {
    match badges {
        None => out is None,
        Some(bs) => out matches Some(v) && v@.len() == bs.len() && forall|i: int|
            0 <= i < bs.len() ==> (#[trigger] v@[i]).badge_type@ == bs[i].badge_type@ && v@[i].attributes@
                == bs[i].attributes@,
    }
}

/// What a list handed along holds, if one is.
pub open spec fn opt_seq<T>(o: Option<&Vec<T>>) -> Option<Seq<T>> {
    match o {
        Some(v) => Some(v@),
        None => None,
    }
}

/// What a list handed along holds, if one is.
pub open spec fn opt_vec_seq<T>(o: Option<Vec<T>>) -> Option<Seq<T>> {
    match o {
        Some(v) => Some(v@),
        None => None,
    }
}

/// `e` shows the crate `c` with the greatest version `max_version` and what
/// else was handed along.
pub open spec fn shows(
    e: EncodableCrate,
    c: Crate,
    max_version: Seq<char>,
    versions: Option<Seq<i32>>,
    keywords: Option<Seq<Keyword>>,
    categories: Option<Seq<Category>>,
    badges: Option<Seq<Badge>>,
) -> bool {
    &&& e.id == c.name
    &&& e.name == c.name
    &&& e.updated_at@ == rfc3339_utc(c.updated_at.secs(), c.updated_at.nanos())
    &&& e.created_at@ == rfc3339_utc(c.created_at.secs(), c.created_at.nanos())
    &&& e.downloads == c.downloads
    &&& opt_vec_seq(e.versions) == versions
    &&& keyword_texts(e.keywords, keywords)
    &&& category_slugs(e.categories, categories)
    &&& badges_shown(e.badges, badges)
    &&& e.max_version@ == max_version
    &&& e.description == c.description
    &&& e.homepage == c.homepage
    &&& e.documentation == c.documentation
    &&& e.license == c.license
    &&& e.repository == c.repository
    &&& links_of(e.links, c.name@, versions is Some)
}

impl Badge {
    /// The badge as clients see it.
    pub fn encodable(&self) -> (r: EncodableBadge)
        ensures
            r.badge_type@ == self.badge_type@,
            r.attributes@ == self.attributes@,
    {
        EncodableBadge {
            badge_type: self.badge_type.clone(),
            attributes: clone_attributes(&self.attributes),
        }
    }
}

fn keyword_list(keywords: Option<&Vec<Keyword>>) -> (r: Option<Vec<String>>)
    ensures
        keyword_texts(r, opt_seq(keywords)),
{
    match keywords {
        None => None,
        Some(kws) => {
            let mut out: Vec<String> = Vec::new();
            let mut i: usize = 0;
            while i < kws.len()
                invariant
                    i <= kws.len(),
                    out.len() == i,
                    forall|j: int| 0 <= j < i ==> #[trigger] out@[j] == kws@[j].keyword,
                decreases kws.len() - i,
            {
                out.push(kws[i].keyword.clone());
                i = i + 1;
            }
            Some(out)
        },
    }
}

fn category_list(categories: Option<&Vec<Category>>) -> (r: Option<Vec<String>>)
    ensures
        category_slugs(r, opt_seq(categories)),
{
    match categories {
        None => None,
        Some(cats) => {
            let mut out: Vec<String> = Vec::new();
            let mut i: usize = 0;
            while i < cats.len()
                invariant
                    i <= cats.len(),
                    out.len() == i,
                    forall|j: int| 0 <= j < i ==> #[trigger] out@[j] == cats@[j].slug,
                decreases cats.len() - i,
            {
                out.push(cats[i].slug.clone());
                i = i + 1;
            }
            Some(out)
        },
    }
}

fn badge_list(badges: &Option<Vec<Badge>>) -> (r: Option<Vec<EncodableBadge>>)
    ensures
        badges_shown(r, opt_vec_seq(*badges)),
{
    match badges {
        None => None,
        Some(bs) => {
            let mut out: Vec<EncodableBadge> = Vec::new();
            let mut i: usize = 0;
            while i < bs.len()
                invariant
                    i <= bs.len(),
                    out.len() == i,
                    forall|j: int|
                        0 <= j < i ==> (#[trigger] out@[j]).badge_type@ == bs@[j].badge_type@
                            && out@[j].attributes@ == bs@[j].attributes@,
                decreases bs.len() - i,
            {
                out.push(bs[i].encodable());
                i = i + 1;
            }
            Some(out)
        },
    }
}

fn links(name: &str, versions_listed: bool) -> (r: CrateLinks)
    ensures
        links_of(r, name@, versions_listed),
{
    CrateLinks {
        version_downloads: link(name, "downloads"),
        versions: if versions_listed {
            None
        } else {
            Some(link(name, "versions"))
        },
        owners: Some(link(name, "owners")),
        reverse_dependencies: link(name, "reverse_dependencies"),
    }
}

impl Crate {
    /// The crate as clients see it, with its greatest version and its badges.
    pub fn minimal_encodable(self, max_version: String, badges: Option<Vec<Badge>>) -> (r:
        EncodableCrate)
        ensures
            shows(r, self, max_version@, None, None, None, opt_vec_seq(badges)),
    {
        self.encodable(max_version, None, None, None, badges)
    }

    /// The crate as clients see it, with its greatest version and, where they
    /// are handed along, the identifiers of its versions, its keywords, its
    /// categories and its badges.
    pub fn encodable(
        self,
        max_version: String,
        versions: Option<Vec<i32>>,
        keywords: Option<&Vec<Keyword>>,
        categories: Option<&Vec<Category>>,
        badges: Option<Vec<Badge>>,
    ) -> (r: EncodableCrate)
        ensures
            shows(
                r,
                self,
                max_version@,
                opt_vec_seq(versions),
                opt_seq(keywords),
                opt_seq(categories),
                opt_vec_seq(badges),
            ),
    {
        let links = links(self.name.as_str(), versions.is_some());
        let shown_badges = badge_list(&badges);
        EncodableCrate {
            id: self.name.clone(),
            name: self.name,
            updated_at: encode_time(self.updated_at),
            created_at: encode_time(self.created_at),
            downloads: self.downloads,
            versions,
            keywords: keyword_list(keywords),
            categories: category_list(categories),
            badges: shown_badges,
            max_version,
            description: self.description,
            homepage: self.homepage,
            documentation: self.documentation,
            license: self.license,
            repository: self.repository,
            links,
        }
    }
}

} // verus!
