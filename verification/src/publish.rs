//! The publish workflow: what a request must bring, what is checked before
//! anything is written, what is written, and how the upload of the artifact
//! and the entry in the package index are settled.

use vstd::prelude::*;
use crate::clock::Timestamp;
use crate::encode::{shows, EncodableCrate};
use crate::errors::{Error, ErrorKind};
use crate::foreign::{hex_of, hex_text};
use crate::model::{
    Crate, Feature, IndexDependency, Metadata, NewCrate, NewDependency, Rights, User, Version,
    distinct_names, features_view, names_distinct,
};
use crate::names::{canon_eq, same_slot};
use crate::owners::{owners_of, rights, rights_of};
use crate::registry::{
    first_in_slot, holds_slot, is_version_number, name_reserved, slot_taken, Registry,
};
use crate::store::as_text;
use crate::store::upserted;
use crate::tags::{
    badge_read, badges_set, categories_set, keywords_set, pick, slug_known, BadgeInput,
};
use crate::ranking::positions_where;
use crate::registry::{has_crate, holds_id};
use crate::validate::stored_metadata;
use crate::versions::{index_form, is_max_version, new_edge, new_version, version_added};
use crate::text::{decimal, decimal_text, opt_text, same_text};
use crate::validate::metadata_verdict;
use crate::versions::{has_version, is_number};

verus! {

/// The number that four bytes spell, least significant byte first.
pub open spec fn le_u32(b0: u8, b1: u8, b2: u8, b3: u8) -> int {
    b0 as int + 256 * (b1 as int) + 65536 * (b2 as int) + 16777216 * (b3 as int)
}

/// A part of a request body: a length in four bytes, least significant first,
/// then as many bytes as the length says.
pub open spec fn framed(body: Seq<u8>, at: int) -> bool {
    &&& 0 <= at
    &&& at + 4 <= body.len()
    &&& at + 4 + le_u32(body[at], body[at + 1], body[at + 2], body[at + 3]) <= body.len()
}

/// The length that the part at `at` announces.
pub open spec fn announced(body: Seq<u8>, at: int) -> int {
    le_u32(body[at], body[at + 1], body[at + 2], body[at + 3])
}

/// Finds the part of `body` that starts at `at` and may hold `max` bytes at
/// most: where its bytes start and where they end.
pub fn frame(body: &Vec<u8>, at: usize, max: u64) -> (r: Result<(usize, usize), Error>)
    ensures
        if at + 4 > body@.len() {
            r matches Err(e) && e@ == (ErrorKind::InvalidRequest, Seq::<char>::empty())
        } else if announced(body@, at as int) > max {
            r matches Err(e) && e@ == (ErrorKind::TooLarge, decimal_text(max as nat))
        } else if !framed(body@, at as int) {
            r matches Err(e) && e@ == (ErrorKind::InvalidRequest, Seq::<char>::empty())
        } else {
            r == Ok::<(usize, usize), Error>(
                ((at + 4) as usize, (at + 4 + announced(body@, at as int)) as usize),
            )
        },
{
    let n = body.len();
    if n < 4 || at > n - 4 {
        return Err(Error::bare(ErrorKind::InvalidRequest));
    }
    let amt: u64 = (body[at] as u64) + 256 * (body[at + 1] as u64) + 65536 * (body[at + 2] as u64)
        + 16777216 * (body[at + 3] as u64);
    if amt > max {
        let limit = decimal(max);
        return Err(Error { kind: ErrorKind::TooLarge, detail: limit });
    }
    let rest: u64 = (n - at - 4) as u64;
    if amt > rest {
        return Err(Error::bare(ErrorKind::InvalidRequest));
    }
    Ok((at + 4, at + 4 + (amt as usize)))
}

/// What a publish request says of the crate and the version it brings.
#[derive(Debug)]
pub struct UploadRequest {
    pub name: String,
    pub vers: String,
    pub deps: Vec<NewDependency>,
    /// The features, each under its name. A request that names a feature
    /// twice is refused.
    pub features: Vec<Feature>,
    pub authors: Vec<String>,
    pub description: Option<String>,
    pub homepage: Option<String>,
    pub documentation: Option<String>,
    pub readme: Option<String>,
    pub keywords: Option<Vec<String>>,
    pub categories: Option<Vec<String>>,
    pub license: Option<String>,
    pub license_file: Option<String>,
    pub repository: Option<String>,
    /// The badges, each under its type. A type that comes again is passed
    /// over.
    pub badges: Option<Vec<BadgeInput>>,
}

/// Whether a field is absent or empty.
pub open spec fn is_blank(o: Option<String>) -> bool {
    o is None || o->0@.len() == 0
}

/// Whether no author is named: there is none, or all are empty.
pub open spec fn no_author(authors: Seq<String>) -> bool {
    forall|i: int| 0 <= i < authors.len() ==> (#[trigger] authors[i])@.len() == 0
}

/// The names of the missing fields, in the order description, license,
/// authors, with `, ` between them.
pub open spec fn missing_text(description: bool, license: bool, authors: bool) -> Seq<char> {
    if description {
        if license {
            if authors {
                "description, license, authors"@
            } else {
                "description, license"@
            }
        } else {
            if authors {
                "description, authors"@
            } else {
                "description"@
            }
        }
    } else {
        if license {
            if authors {
                "license, authors"@
            } else {
                "license"@
            }
        } else {
            "authors"@
        }
    }
}

/// What a request lacks, if it lacks anything: a description, a license or
/// else a license file, an author. All that is missing is reported at once.
pub open spec fn missing_verdict(req: UploadRequest) -> Option<(ErrorKind, Seq<char>)> {
    let d = is_blank(req.description);
    let l = is_blank(req.license) && is_blank(req.license_file);
    let a = no_author(req.authors@);
    if d || l || a {
        Some((ErrorKind::MissingFields, missing_text(d, l, a)))
    } else {
        None
    }
}

fn blank(o: &Option<String>) -> (r: bool)
    ensures
        r == is_blank(*o),
{
    match o {
        None => true,
        Some(s) => s.as_str().unicode_len() == 0,
    }
}

fn authorless(authors: &Vec<String>) -> (r: bool)
    ensures
        r == no_author(authors@),
{
    let mut i: usize = 0;
    while i < authors.len()
        invariant
            i <= authors.len(),
            forall|j: int| 0 <= j < i ==> (#[trigger] authors@[j])@.len() == 0,
        decreases authors.len() - i,
    {
        if authors[i].as_str().unicode_len() != 0 {
            return false;
        }
        i = i + 1;
    }
    true
}

/// Checks that the request brings a description, a license or a license
/// file, and an author.
pub fn check_metadata(req: &UploadRequest) -> (r: Result<(), Error>)
    ensures
        match missing_verdict(*req) {
            Some(v) => r matches Err(e) && e@ == v,
            None => r is Ok,
        },
{
    let d = blank(&req.description);
    let l = blank(&req.license) && blank(&req.license_file);
    let a = authorless(&req.authors);
    if !(d || l || a) {
        return Ok(());
    }
    let text = if d {
        if l {
            if a {
                "description, license, authors"
            } else {
                "description, license"
            }
        } else {
            if a {
                "description, authors"
            } else {
                "description"
            }
        }
    } else {
        if l {
            if a {
                "license, authors"
            } else {
                "license"
            }
        } else {
            "authors"
        }
    };
    Err(Error::with(ErrorKind::MissingFields, text))
}

/// The metadata of the crate that a request brings.
pub open spec fn metadata_of(req: UploadRequest) -> Metadata {
    Metadata {
        name: req.name@,
        description: opt_text(req.description),
        homepage: opt_text(req.homepage),
        documentation: opt_text(req.documentation),
        readme: opt_text(req.readme),
        repository: opt_text(req.repository),
        license: opt_text(req.license),
        max_upload_size: None,
    }
}

/// A size limit as it is stored, read as a number of bytes.
pub open spec fn as_limit(m: i32) -> u64 {
    if m >= 0 {
        m as u64
    } else {
        (m + 0x1_0000_0000_0000_0000) as u64
    }
}

/// How many bytes an upload for the crate may have: what the crate itself
/// allows, else what the registry allows.
pub open spec fn upload_limit(pre: Registry, name: Seq<char>, default_max: u64) -> u64 {
    if slot_taken(pre.crates@, name) {
        match pre.crates@[first_in_slot(pre.crates@, name)].max_upload_size {
            Some(m) => as_limit(m),
            None => default_max,
        }
    } else {
        default_max
    }
}

/// The identifier of the crate that a request is for: that of the crate that
/// holds the slot, or the next one.
pub open spec fn target_id(pre: Registry, name: Seq<char>) -> i32 {
    if slot_taken(pre.crates@, name) {
        pre.crates@[first_in_slot(pre.crates@, name)].id
    } else {
        pre.next_crate_id
    }
}

/// Whether the crate that `dep` names is on record or is the crate `name`
/// itself.
pub open spec fn resolves(pre: Registry, name: Seq<char>, dep: NewDependency) -> bool {
    slot_taken(pre.crates@, dep.name@) || same_slot(dep.name@, name)
}

/// The position of the first of `deps` that does not resolve, or the number
/// of `deps` if all do.
pub open spec fn first_unresolved(pre: Registry, name: Seq<char>, deps: Seq<NewDependency>) -> int
    decreases deps.len(),
{
    if deps.len() == 0 || !resolves(pre, name, deps[0]) {
        0
    } else {
        1 + first_unresolved(pre, name, deps.drop_first())
    }
}

/// Why the crate of a request cannot be written, if it cannot: the metadata
/// is out of order, the name is reserved, the crate belongs to others or was
/// first published under another spelling, or the table is full.
pub open spec fn crate_verdict(
    pre: Registry,
    req: UploadRequest,
    user: User,
    member_of: Seq<i32>,
) -> Option<(ErrorKind, Seq<char>)> {
    if metadata_verdict(metadata_of(req)) is Some {
        metadata_verdict(metadata_of(req))
    } else if name_reserved(pre.reserved_names@, req.name@) {
        Some((ErrorKind::ReservedName, Seq::empty()))
    } else if slot_taken(pre.crates@, req.name@) {
        let c = pre.crates@[first_in_slot(pre.crates@, req.name@)];
        if rights_of(owners_of(pre, c.id), user.id, member_of) == Rights::Nothing {
            Some((ErrorKind::NameClaimed, Seq::empty()))
        } else if c.name@ != req.name@ {
            Some((ErrorKind::PreviouslyNamed, c.name@))
        } else {
            None
        }
    } else if pre.next_crate_id == i32::MAX {
        Some((ErrorKind::Exhausted, Seq::empty()))
    } else {
        None
    }
}

/// Why the version of a request cannot be written, if it cannot: the upload
/// is too long, the number is no version number or is taken, a dependency
/// names no crate, or a table is full.
pub open spec fn version_part_verdict(
    pre: Registry,
    req: UploadRequest,
    content_length: Option<u64>,
    default_max: u64,
) -> Option<(ErrorKind, Seq<char>)> {
    let limit = upload_limit(pre, req.name@, default_max);
    let k = first_unresolved(pre, req.name@, req.deps@);
    if content_length is None {
        Some((ErrorKind::MissingContentLength, Seq::empty()))
    } else if content_length->0 > limit {
        Some((ErrorKind::TooLarge, decimal_text(limit as nat)))
    } else if !is_version_number(req.vers@) {
        Some((ErrorKind::VersionInvalid, req.vers@))
    } else if !distinct_names(features_view(req.features@)) {
        Some((ErrorKind::FeatureTwice, Seq::empty()))
    } else if has_version(pre.versions@, target_id(pre, req.name@), req.vers@) {
        Some((ErrorKind::VersionExists, req.vers@))
    } else if pre.next_version_id == i32::MAX {
        Some((ErrorKind::Exhausted, Seq::empty()))
    } else if k < req.deps@.len() {
        Some((ErrorKind::DependencyNotFound, req.deps@[k].name@))
    } else if pre.next_dependency_id + req.deps@.len() > i32::MAX {
        Some((ErrorKind::Exhausted, Seq::empty()))
    } else {
        None
    }
}

/// Why a request is refused, if it is. The checks are made in this order, and
/// the first that fails is reported: the required fields, the crate, the
/// version.
pub open spec fn publish_verdict(
    pre: Registry,
    req: UploadRequest,
    user: User,
    member_of: Seq<i32>,
    content_length: Option<u64>,
    default_max: u64,
) -> Option<(ErrorKind, Seq<char>)> {
    if missing_verdict(req) is Some {
        missing_verdict(req)
    } else if crate_verdict(pre, req, user, member_of) is Some {
        crate_verdict(pre, req, user, member_of)
    } else {
        version_part_verdict(pre, req, content_length, default_max)
    }
}

/// The metadata of a request as a crate to be written.
pub fn new_crate_of(req: &UploadRequest) -> (r: NewCrate<'_>)
    ensures
        r@ == metadata_of(*req),
{
    NewCrate {
        name: req.name.as_str(),
        description: as_text(&req.description),
        homepage: as_text(&req.homepage),
        documentation: as_text(&req.documentation),
        readme: as_text(&req.readme),
        repository: as_text(&req.repository),
        license: as_text(&req.license),
        max_upload_size: None,
    }
}

/// Checks what can be held against the crate of a request.
pub fn check_crate(conn: &Registry, req: &UploadRequest, user: &User, member_of: &Vec<i32>) -> (r:
    Result<(), Error>)
    requires
        conn.wf(),
    ensures
        match crate_verdict(*conn, *req, *user, member_of@) {
            Some(v) => r matches Err(e) && e@ == v,
            None => r is Ok,
        },
{
    let mut new = new_crate_of(req);
    new.validate(as_text(&req.license_file))?;
    if conn.is_reserved(req.name.as_str()) {
        return Err(Error::bare(ErrorKind::ReservedName));
    }
    match Crate::by_name(conn, req.name.as_str()) {
        Some(c) => {
            let owners = c.owners(conn);
            match rights(&owners, user, member_of) {
                Rights::Nothing => {
                    return Err(Error::bare(ErrorKind::NameClaimed));
                },
                _ => {},
            }
            if !same_text(c.name.as_str(), req.name.as_str()) {
                return Err(Error::with(ErrorKind::PreviouslyNamed, c.name.as_str()));
            }
            Ok(())
        },
        None => {
            if conn.next_crate_id == i32::MAX {
                return Err(Error::bare(ErrorKind::Exhausted));
            }
            Ok(())
        },
    }
}

/// The position of the first of `deps` that does not resolve.
pub fn unresolved(conn: &Registry, name: &str, deps: &Vec<NewDependency>) -> (r: usize)
    ensures
        r == first_unresolved(*conn, name@, deps@),
        r <= deps@.len(),
        forall|j: int| 0 <= j < r ==> resolves(*conn, name@, #[trigger] deps@[j]),
{
    let mut i: usize = 0;
    assert(deps@.skip(0) == deps@);
    while i < deps.len()
        invariant
            i <= deps.len(),
            first_unresolved(*conn, name@, deps@) == i + first_unresolved(
                *conn,
                name@,
                deps@.skip(i as int),
            ),
            forall|j: int| 0 <= j < i ==> resolves(*conn, name@, #[trigger] deps@[j]),
        decreases deps.len() - i,
    {
        assert(deps@.skip(i as int).drop_first() == deps@.skip(i + 1));
        assert(deps@.skip(i as int)[0] == deps@[i as int]);
        let found = conn.slot_position(deps[i].name.as_str()).is_some() || canon_eq(
            deps[i].name.as_str(),
            name,
        );
        if !found {
            return i;
        }
        i = i + 1;
    }
    i
}

/// Checks what can be held against the version of a request, and gives the
/// number of bytes that the upload may have.
pub fn check_version(
    conn: &Registry,
    req: &UploadRequest,
    content_length: Option<u64>,
    default_max: u64,
) -> (r: Result<u64, Error>)
    requires
        conn.wf(),
    ensures
        match version_part_verdict(*conn, *req, content_length, default_max) {
            Some(v) => r matches Err(e) && e@ == v,
            None => r == Ok::<u64, Error>(upload_limit(*conn, req.name@, default_max)),
        },
{
    let found = Crate::by_name(conn, req.name.as_str());
    let limit: u64 = match found {
        Some(c) => match c.max_upload_size {
            Some(m) => #[verifier::truncate]
            (m as u64),
            None => default_max,
        },
        None => default_max,
    };
    let id: i32 = match found {
        Some(c) => c.id,
        None => conn.next_crate_id,
    };
    proof {
        match found {
            Some(c) => match c.max_upload_size {
                Some(m) => {
                    assert(#[verifier::truncate] (m as u64) == as_limit(m)) by (bit_vector);
                },
                None => {},
            },
            None => {},
        }
    }
    let length = match content_length {
        Some(l) => l,
        None => {
            return Err(Error::bare(ErrorKind::MissingContentLength));
        },
    };
    if length > limit {
        let text = decimal(limit);
        return Err(Error { kind: ErrorKind::TooLarge, detail: text });
    }
    if !is_number(req.vers.as_str()) {
        return Err(Error::with(ErrorKind::VersionInvalid, req.vers.as_str()));
    }
    if !names_distinct(&req.features) {
        return Err(Error::bare(ErrorKind::FeatureTwice));
    }
    if conn.version_position(id, req.vers.as_str()).is_some() {
        return Err(Error::with(ErrorKind::VersionExists, req.vers.as_str()));
    }
    if conn.next_version_id == i32::MAX {
        return Err(Error::bare(ErrorKind::Exhausted));
    }
    let k = unresolved(conn, req.name.as_str(), &req.deps);
    if k < req.deps.len() {
        return Err(Error::with(ErrorKind::DependencyNotFound, req.deps[k].name.as_str()));
    }
    if req.deps.len() > 0x7fff_ffff || req.deps.len() as i64 > 0x7fff_ffffi64
        - conn.next_dependency_id as i64 {
        return Err(Error::bare(ErrorKind::Exhausted));
    }
    Ok(limit)
}

/// `post` is `pre` with one edge from `version_id` for each of `deps`, in
/// order; `listed` is what the package index lists for them.
pub open spec fn edges_linked(
    pre: Registry,
    post: Registry,
    version_id: i32,
    deps: Seq<NewDependency>,
    listed: Seq<IndexDependency>,
) -> bool {
    let n = pre.dependencies@.len() as int;
    &&& listed.len() == deps.len()
    &&& post.dependencies@.len() == n + deps.len()
    &&& post.dependencies@.subrange(0, n) == pre.dependencies@
    &&& forall|k: int|
        0 <= k < deps.len() ==> {
            let target = pre.crates@[first_in_slot(pre.crates@, deps[k].name@)];
            &&& slot_taken(pre.crates@, deps[k].name@)
            &&& (#[trigger] post.dependencies@[n + k])@ == new_edge(
                (pre.next_dependency_id + k) as i32,
                version_id,
                target.id,
                deps[k],
            )
            &&& index_form(listed[k], target, deps[k])
        }
    &&& post.next_dependency_id == pre.next_dependency_id + deps.len()
    &&& post == (Registry {
        dependencies: post.dependencies,
        next_dependency_id: post.next_dependency_id,
        ..pre
    })
}

impl Registry {
    /// Links the version `version_id` to the crates that `deps` name, which
    /// are all on record.
    pub fn link_dependencies(&mut self, version_id: i32, deps: &Vec<NewDependency>) -> (listed: Vec<
        IndexDependency,
    >)
        requires
            old(self).wf(),
            forall|k: int|
                0 <= k < deps@.len() ==> slot_taken(old(self).crates@, (#[trigger] deps@[k]).name@),
            old(self).next_dependency_id + deps@.len() <= i32::MAX,
        ensures
            final(self).wf(),
            edges_linked(*old(self), *final(self), version_id, deps@, listed@),
    {
        let mut listed: Vec<IndexDependency> = Vec::new();
        let ghost n = self.dependencies@.len() as int;
        let mut k: usize = 0;
        assert(self.dependencies@.subrange(0, n) == self.dependencies@);
        while k < deps.len()
            invariant
                k <= deps.len(),
                self.wf(),
                n == old(self).dependencies@.len(),
                forall|j: int|
                    0 <= j < deps@.len() ==> slot_taken(
                        old(self).crates@,
                        (#[trigger] deps@[j]).name@,
                    ),
                old(self).next_dependency_id + deps@.len() <= i32::MAX,
                listed.len() == k,
                self.dependencies@.len() == n + k,
                self.dependencies@.subrange(0, n) == old(self).dependencies@,
                self.next_dependency_id == old(self).next_dependency_id + k,
                *self == (Registry {
                    dependencies: self.dependencies,
                    next_dependency_id: self.next_dependency_id,
                    ..*old(self)
                }),
                forall|j: int|
                    0 <= j < k ==> {
                        let target = old(self).crates@[first_in_slot(
                            old(self).crates@,
                            deps@[j].name@,
                        )];
                        &&& (#[trigger] self.dependencies@[n + j])@ == new_edge(
                            (old(self).next_dependency_id + j) as i32,
                            version_id,
                            target.id,
                            deps@[j],
                        )
                        &&& index_form(listed@[j], target, deps@[j])
                    },
            decreases deps.len() - k,
        {
            let ghost before = *self;
            match self.add_dependency(version_id, &deps[k]) {
                Ok(d) => {
                    listed.push(d);
                },
                Err(_) => {
                    assert(false);
                },
            }
            proof {
                assert(self.dependencies@.subrange(0, n) == before.dependencies@.subrange(0, n)) by {
                    assert(self.dependencies@.subrange(0, before.dependencies@.len() as int).subrange(
                        0,
                        n,
                    ) == self.dependencies@.subrange(0, n));
                }
                assert forall|j: int| 0 <= j < k + 1 implies {
                    let target = old(self).crates@[first_in_slot(
                        old(self).crates@,
                        deps@[j].name@,
                    )];
                    &&& (#[trigger] self.dependencies@[n + j])@ == new_edge(
                        (old(self).next_dependency_id + j) as i32,
                        version_id,
                        target.id,
                        deps@[j],
                    )
                    &&& index_form(listed@[j], target, deps@[j])
                } by {
                    if j < k {
                        assert(self.dependencies@[n + j] == self.dependencies@.subrange(
                            0,
                            before.dependencies@.len() as int,
                        )[n + j]);
                    } else {
                        assert(self.dependencies@[n + j] == self.dependencies@.last());
                    }
                }
            }
            k = k + 1;
        }
        listed
    }
}

/// Why a version with its dependencies cannot be added, if it cannot: what is
/// held against the version, or a dependency that names no crate, or a full
/// table.
pub open spec fn linked_verdict(
    pre: Registry,
    crate_id: i32,
    num: Seq<char>,
    features: Seq<Feature>,
    deps: Seq<NewDependency>,
) -> Option<(ErrorKind, Seq<char>)> {
    let k = first_missing(pre, deps);
    if crate::versions::version_verdict(pre, crate_id, num, features) is Some {
        crate::versions::version_verdict(pre, crate_id, num, features)
    } else if k < deps.len() {
        Some((ErrorKind::DependencyNotFound, deps[k].name@))
    } else if pre.next_dependency_id + deps.len() > i32::MAX {
        Some((ErrorKind::Exhausted, Seq::empty()))
    } else {
        None
    }
}

/// The position of the first of `deps` that names no crate on record, or the
/// number of `deps` if all name one.
pub open spec fn first_missing(pre: Registry, deps: Seq<NewDependency>) -> int
    decreases deps.len(),
{
    if deps.len() == 0 || !slot_taken(pre.crates@, deps[0].name@) {
        0
    } else {
        1 + first_missing(pre, deps.drop_first())
    }
}

/// Before the position that `first_missing` gives, all of `deps` name a crate
/// on record.
proof fn lemma_first_missing(pre: Registry, deps: Seq<NewDependency>)
    ensures
        0 <= first_missing(pre, deps) <= deps.len(),
        forall|j: int|
            0 <= j < first_missing(pre, deps) ==> slot_taken(pre.crates@, (#[trigger] deps[j]).name@),
    decreases deps.len(),
{
    if deps.len() == 0 || !slot_taken(pre.crates@, deps[0].name@) {
    } else {
        lemma_first_missing(pre, deps.drop_first());
        assert forall|j: int| 0 <= j < first_missing(pre, deps) implies slot_taken(
            pre.crates@,
            (#[trigger] deps[j]).name@,
        ) by {
            if j > 0 {
                assert(deps.drop_first()[j - 1] == deps[j]);
            }
        }
    }
}

impl Registry {
    /// The position of the first of `deps` that names no crate on record.
    pub fn missing_dependency(&self, deps: &Vec<NewDependency>) -> (r: usize)
        ensures
            r == first_missing(*self, deps@),
            r <= deps@.len(),
    {
        let mut i: usize = 0;
        assert(deps@.skip(0) == deps@);
        while i < deps.len()
            invariant
                i <= deps.len(),
                first_missing(*self, deps@) == i + first_missing(*self, deps@.skip(i as int)),
            decreases deps.len() - i,
        {
            assert(deps@.skip(i as int).drop_first() == deps@.skip(i + 1));
            assert(deps@.skip(i as int)[0] == deps@[i as int]);
            if self.slot_position(deps[i].name.as_str()).is_none() {
                return i;
            }
            i = i + 1;
        }
        i
    }
}

/// `post` is `pre` with the version `v` added and then linked to the crates
/// that `deps` name; `listed` is what the package index lists for the edges.
pub open spec fn version_linked(
    pre: Registry,
    post: Registry,
    v: crate::model::VersionView,
    deps: Seq<NewDependency>,
    listed: Seq<IndexDependency>,
) -> bool {
    exists|mid: Registry| #[trigger]
        version_added(pre, mid, v) && edges_linked(mid, post, v.id, deps, listed)
}

impl Crate {
    /// Adds the version `ver` to the crate and links it to the crates that
    /// `deps` name. All is written or nothing: where the crate has the
    /// version, or one of `deps` names no crate, neither the version nor any
    /// edge is written.
    pub fn add_version_with_dependencies(
        &self,
        conn: &mut Registry,
        ver: &str,
        features: &Vec<Feature>,
        authors: &Vec<String>,
        deps: &Vec<NewDependency>,
        now: Timestamp,
    ) -> (r: Result<(Version, Vec<IndexDependency>), Error>)
        requires
            old(conn).wf(),
        ensures
            final(conn).wf(),
            match linked_verdict(*old(conn), self.id, ver@, features@, deps@) {
                Some(v) => r matches Err(e) && e@ == v && *final(conn) == *old(conn),
                None => r matches Ok(p) && p.0@ == new_version(
                    old(conn).next_version_id,
                    self.id,
                    ver@,
                    features@,
                    authors@,
                    now,
                ) && version_linked(*old(conn), *final(conn), p.0@, deps@, p.1@),
            },
    {
        if !is_number(ver) {
            return Err(Error::with(ErrorKind::VersionInvalid, ver));
        }
        if !names_distinct(features) {
            return Err(Error::bare(ErrorKind::FeatureTwice));
        }
        if conn.id_position(self.id).is_none() {
            return Err(Error::bare(ErrorKind::NotFound));
        }
        if conn.version_position(self.id, ver).is_some() {
            return Err(Error::with(ErrorKind::VersionExists, ver));
        }
        if conn.next_version_id == i32::MAX {
            return Err(Error::bare(ErrorKind::Exhausted));
        }
        let k = conn.missing_dependency(deps);
        if k < deps.len() {
            return Err(Error::with(ErrorKind::DependencyNotFound, deps[k].name.as_str()));
        }
        if deps.len() > 0x7fff_ffff || deps.len() as i64 > 0x7fff_ffffi64
            - conn.next_dependency_id as i64 {
            return Err(Error::bare(ErrorKind::Exhausted));
        }
        proof {
            lemma_first_missing(*conn, deps@);
        }
        let version = match self.add_version(conn, ver, features, authors, now) {
            Ok(v) => v,
            Err(e) => {
                assert(false);
                return Err(e);
            },
        };
        let ghost mid = *conn;
        let listed = conn.link_dependencies(version.id, deps);
        proof {
            assert(version_added(*old(conn), mid, version@) && edges_linked(
                mid,
                *conn,
                version@.id,
                deps@,
                listed@,
            ));
        }
        Ok((version, listed))
    }
}

/// What a publish request was told to mind: the categories and the badges
/// that were passed over.
#[derive(Debug, PartialEq, Eq)]
pub struct Warnings {
    pub invalid_categories: Vec<String>,
    pub invalid_badges: Vec<String>,
}

/// What a publish request that passed the checks has written, and what is
/// needed to carry it through.
#[derive(Debug)]
pub struct Publication {
    /// The crate as it is now on record.
    pub krate: Crate,
    /// The version that was added.
    pub version: Version,
    /// The dependencies of the version as the package index lists them.
    pub deps: Vec<IndexDependency>,
    /// How many bytes the artifact may have.
    pub max_upload: u64,
    pub warnings: Warnings,
    /// The crate as the client is to see it.
    pub response: EncodableCrate,
}

/// What a list holds, or nothing where there is no list.
pub open spec fn or_empty<T>(o: Option<Vec<T>>) -> Seq<T> {
    match o {
        Some(v) => v@,
        None => Seq::empty(),
    }
}

/// `t` holds the states that the writes of a publish request lead through:
/// the crate, the version, the edges, the keywords, the categories and the
/// badges, in this order.
pub open spec fn publish_trail(
    t: Seq<Registry>,
    pre: Registry,
    post: Registry,
    req: UploadRequest,
    user: User,
    now: Timestamp,
    p: Publication,
) -> bool {
    let id = p.krate.id;
    &&& t.len() == 7
    &&& t[0] == pre
    &&& t[6] == post
    &&& upserted(
        t[0],
        t[1],
        stored_metadata(metadata_of(req), opt_text(req.license_file)),
        user.id,
        now,
        Ok(p.krate),
    )
    &&& p.version@ == new_version(
        t[1].next_version_id,
        id,
        req.vers@,
        req.features@,
        req.authors@,
        now,
    )
    &&& version_added(t[1], t[2], p.version@)
    &&& edges_linked(t[2], t[3], p.version.id, req.deps@, p.deps@)
    &&& keywords_set(t[3].crates_keywords@, t[4].crates_keywords@, id, or_empty(req.keywords))
    &&& t[4] == (Registry { crates_keywords: t[4].crates_keywords, ..t[3] })
    &&& categories_set(
        t[4].categories@,
        t[4].crates_categories@,
        t[5].crates_categories@,
        id,
        or_empty(req.categories),
    )
    &&& t[5] == (Registry { crates_categories: t[5].crates_categories, ..t[4] })
    &&& badges_set(t[5].badges@, t[6].badges@, id, or_empty(req.badges))
    &&& t[6] == (Registry { badges: t[6].badges, ..t[5] })
}

/// The categories and the badges of a request that were passed over: the
/// slugs that are not on record and the badges that were not taken, each in
/// the order of the request.
pub open spec fn warnings_of(w: Warnings, pre: Registry, req: UploadRequest) -> bool {
    let slugs = or_empty(req.categories);
    let inputs = or_empty(req.badges);
    let unread = positions_where(inputs.len() as int, badge_read(inputs, false));
    &&& w.invalid_categories@ == pick(
        slugs,
        positions_where(slugs.len() as int, slug_known(pre.categories@, slugs, false)),
    )
    &&& w.invalid_badges@.len() == unread.len()
    &&& forall|k: int|
        0 <= k < unread.len() ==> #[trigger] w.invalid_badges@[k] == inputs[unread[k] as int].badge_type
}

/// What a publish request that passed the checks has done.
pub open spec fn published(
    pre: Registry,
    post: Registry,
    req: UploadRequest,
    user: User,
    default_max: u64,
    now: Timestamp,
    p: Publication,
) -> bool {
    &&& exists|t: Seq<Registry>| #[trigger] publish_trail(t, pre, post, req, user, now, p)
    &&& p.max_upload == upload_limit(pre, req.name@, default_max)
    &&& warnings_of(p.warnings, pre, req)
    &&& is_max_version(post.versions@, p.krate.id, false, p.response.max_version@)
    &&& shows(p.response, p.krate, p.response.max_version@, None, None, None, None)
}

/// A crate that is on record stays on record, under its slot, when a crate is
/// created or updated; and the crate that was written is on record then.
proof fn lemma_upsert_keeps_slots(
    pre: Registry,
    post: Registry,
    new: Metadata,
    user_id: i32,
    now: Timestamp,
    c: Crate,
    name: Seq<char>,
)
    requires
        pre.wf(),
        upserted(pre, post, new, user_id, now, Ok(c)),
        slot_taken(pre.crates@, name) || same_slot(name, new.name),
    ensures
        slot_taken(post.crates@, name),
        has_crate(post.crates@, c.id),
{
    reveal(same_slot);
    if slot_taken(pre.crates@, new.name) {
        let h = choose|h: int| holds_slot(pre.crates@, new.name, h);
        crate::registry::lemma_slot_holder_unique(
            pre.crates@,
            pre.reserved_names@,
            pre.next_crate_id,
            new.name,
            h,
        );
        let i = first_in_slot(pre.crates@, new.name);
        assert(holds_id(post.crates@, c.id, i));
        if slot_taken(pre.crates@, name) {
            let w = choose|w: int| holds_slot(pre.crates@, name, w);
            assert(post.crates@[w].name@ == pre.crates@[w].name@);
            assert(holds_slot(post.crates@, name, w));
        } else {
            assert(holds_slot(pre.crates@, new.name, i));
            assert(holds_slot(post.crates@, name, i));
        }
    } else {
        let n = pre.crates@.len() as int;
        assert(holds_id(post.crates@, c.id, n));
        if slot_taken(pre.crates@, name) {
            let w = choose|w: int| holds_slot(pre.crates@, name, w);
            assert(post.crates@[w] == pre.crates@[w]);
            assert(holds_slot(post.crates@, name, w));
        } else {
            assert(holds_slot(post.crates@, name, n));
        }
    }
}

/// Before the position that `first_unresolved` gives, all of `deps` resolve.
proof fn lemma_first_unresolved(pre: Registry, name: Seq<char>, deps: Seq<NewDependency>)
    ensures
        0 <= first_unresolved(pre, name, deps) <= deps.len(),
        forall|j: int|
            0 <= j < first_unresolved(pre, name, deps) ==> resolves(pre, name, #[trigger] deps[j]),
    decreases deps.len(),
{
    if deps.len() == 0 || !resolves(pre, name, deps[0]) {
    } else {
        lemma_first_unresolved(pre, name, deps.drop_first());
        assert forall|j: int| 0 <= j < first_unresolved(pre, name, deps) implies resolves(
            pre,
            name,
            #[trigger] deps[j],
        ) by {
            if j > 0 {
                assert(deps.drop_first()[j - 1] == deps[j]);
            }
        }
    }
}

/// Takes a publish request in: checks it, and writes the crate, the version,
/// its edges, and the keywords, categories and badges of the crate. Nothing
/// is written unless all checks pass.
///
/// `member_of` lists the teams that `user` is a member of; `content_length`
/// is the length that the request announces for its body; `default_max` is
/// the number of bytes that an upload may have where the crate sets no limit
/// of its own.
pub fn new(
    conn: &mut Registry,
    req: &UploadRequest,
    user: &User,
    member_of: &Vec<i32>,
    content_length: Option<u64>,
    default_max: u64,
    now: Timestamp,
) -> (r: Result<Publication, Error>)
    requires
        old(conn).wf(),
    ensures
        final(conn).wf(),
        match publish_verdict(*old(conn), *req, *user, member_of@, content_length, default_max) {
            Some(v) => r matches Err(e) && e@ == v && *final(conn) == *old(conn),
            None => r matches Ok(p) && published(
                *old(conn),
                *final(conn),
                *req,
                *user,
                default_max,
                now,
                p,
            ),
        },
{
    check_metadata(req)?;
    check_crate(conn, req, user, member_of)?;
    let max_upload = check_version(conn, req, content_length, default_max)?;
    let ghost t0 = *conn;
    let written = new_crate_of(req).create_or_update(
        conn,
        as_text(&req.license_file),
        user.id,
        now,
    );
    let krate = match written {
        Ok(c) => c,
        Err(e) => {
            assert(false);
            return Err(e);
        },
    };
    let ghost t1 = *conn;
    let ghost meta = stored_metadata(metadata_of(*req), opt_text(req.license_file));
    proof {
        assert(same_slot(req.name@, meta.name)) by {
            reveal(same_slot);
        }
        lemma_upsert_keeps_slots(t0, t1, meta, user.id, now, krate, req.name@);
        lemma_first_unresolved(t0, req.name@, req.deps@);
        assert(krate.id == target_id(t0, req.name@));
        assert forall|k: int| 0 <= k < req.deps@.len() implies slot_taken(
            t1.crates@,
            (#[trigger] req.deps@[k]).name@,
        ) by {
            lemma_upsert_keeps_slots(t0, t1, meta, user.id, now, krate, req.deps@[k].name@);
        }
    }
    let version = match krate.add_version(conn, req.vers.as_str(), &req.features, &req.authors, now) {
        Ok(v) => v,
        Err(e) => {
            assert(false);
            return Err(e);
        },
    };
    let ghost t2 = *conn;
    let deps = conn.link_dependencies(version.id, &req.deps);
    let ghost t3 = *conn;
    let none: Vec<String> = Vec::new();
    match &req.keywords {
        Some(k) => conn.update_keywords(krate.id, k),
        None => conn.update_keywords(krate.id, &none),
    }
    let ghost t4 = *conn;
    let invalid_categories = match &req.categories {
        Some(c) => conn.update_categories(krate.id, c),
        None => conn.update_categories(krate.id, &none),
    };
    let ghost t5 = *conn;
    let no_badges: Vec<BadgeInput> = Vec::new();
    let invalid_badges = match &req.badges {
        Some(b) => conn.update_badges(krate.id, b),
        None => conn.update_badges(krate.id, &no_badges),
    };
    let max_version = conn.max_version_of(krate.id, false);
    let response = krate.clone().minimal_encodable(max_version, None);
    let p = Publication {
        krate,
        version,
        deps,
        max_upload,
        warnings: Warnings { invalid_categories, invalid_badges },
        response,
    };
    proof {
        let t = seq![t0, t1, t2, t3, t4, t5, *conn];
        assert(publish_trail(t, *old(conn), *conn, *req, *user, now, p));
    }
    Ok(p)
}

/// One entry of the package index: a version of a crate with the checksum of
/// its artifact.
#[derive(Debug)]
pub struct IndexEntry {
    pub name: String,
    pub vers: String,
    pub cksum: String,
    pub features: Vec<Feature>,
    pub deps: Vec<IndexDependency>,
    pub yanked: Option<bool>,
}

/// What the upload of the artifact came to.
#[derive(Debug)]
pub enum UploadOutcome {
    /// The artifact is stored. `path` is where it can be deleted.
    Stored { cksum: Vec<u8>, path: Option<String> },
    /// The store refused, with its reason.
    Refused(String),
}

/// The handle on an artifact that was uploaded: unless it is disarmed, the
/// artifact at `path` is to be deleted.
#[derive(Debug)]
pub struct Bomb {
    pub path: Option<String>,
}

/// `entry` is the entry of the package index for the version that `req`
/// brings, with the dependencies as `p` lists them and the checksum `cksum`
/// in small hexadecimal digits. A new entry is never yanked.
pub open spec fn entry_of(
    entry: IndexEntry,
    p: Publication,
    req: UploadRequest,
    cksum: Seq<u8>,
) -> bool {
    &&& entry.name == req.name
    &&& entry.vers == req.vers
    &&& entry.cksum@ == hex_text(cksum)
    &&& crate::model::features_view(entry.features@) == crate::model::features_view(req.features@)
    &&& entry.deps@.len() == p.deps@.len()
    &&& forall|k: int| 0 <= k < p.deps@.len() ==> same_listing(#[trigger] entry.deps@[k], p.deps@[k])
    &&& entry.yanked == Some(false)
}

/// The entry of the package index for a publication whose artifact has the
/// checksum `cksum`.
pub fn index_entry(p: &Publication, req: &UploadRequest, cksum: &Vec<u8>) -> (r: IndexEntry)
    ensures
        entry_of(r, *p, *req, cksum@),
{
    let mut deps: Vec<IndexDependency> = Vec::new();
    let mut k: usize = 0;
    while k < p.deps.len()
        invariant
            k <= p.deps.len(),
            deps.len() == k,
            forall|j: int| 0 <= j < k ==> same_listing(#[trigger] deps@[j], p.deps@[j]),
        decreases p.deps.len() - k,
    {
        let d = &p.deps[k];
        deps.push(
            IndexDependency {
                name: d.name.clone(),
                req: d.req.clone(),
                features: crate::text::clone_strings(&d.features),
                optional: d.optional,
                default_features: d.default_features,
                target: crate::text::clone_opt(&d.target),
                kind: d.kind,
            },
        );
        k = k + 1;
    }
    IndexEntry {
        name: req.name.clone(),
        vers: req.vers.clone(),
        cksum: hex_of(cksum),
        features: crate::model::clone_features(&req.features),
        deps,
        yanked: Some(false),
    }
}

/// Whether two listings of a dependency say the same.
pub open spec fn same_listing(a: IndexDependency, b: IndexDependency) -> bool {
    &&& a.name == b.name
    &&& a.req == b.req
    &&& a.features@ == b.features@
    &&& a.optional == b.optional
    &&& a.default_features == b.default_features
    &&& a.target == b.target
    &&& a.kind == b.kind
}

/// What is done once the upload of the artifact has ended: on success the
/// entry for the package index is made and the handle on the artifact is
/// armed; on failure the reason is reported and there is nothing to delete.
pub fn after_upload(p: &Publication, req: &UploadRequest, outcome: UploadOutcome) -> (r: Result<
    (IndexEntry, Bomb),
    Error,
>)
    ensures
        match outcome {
            UploadOutcome::Stored { cksum, path } => r matches Ok(x) && x.1.path == path && entry_of(
                x.0,
                *p,
                *req,
                cksum@,
            ),
            UploadOutcome::Refused(reason) => r matches Err(e) && e@ == (ErrorKind::Upload, reason@),
        },
{
    match outcome {
        UploadOutcome::Stored { cksum, path } => {
            let entry = index_entry(p, req, &cksum);
            Ok((entry, Bomb { path }))
        },
        UploadOutcome::Refused(reason) => Err(Error { kind: ErrorKind::Upload, detail: reason }),
    }
}

/// The answer to a publish request that went through.
#[derive(Debug)]
pub struct PublishResponse {
    pub krate: EncodableCrate,
    pub warnings: Warnings,
}

/// How a publish request ends.
#[derive(Debug)]
pub struct Settlement {
    /// The artifact to be deleted from the store, if one is.
    pub delete: Option<String>,
    /// What the client is told.
    pub answer: Result<PublishResponse, Error>,
}

/// Settles a publish request once the package index has answered.
///
/// Where the index took the entry, the handle on the artifact is disarmed and
/// the client gets the crate and the warnings. Where the index refused, the
/// artifact is deleted, no warning is passed on, and the client gets what the
/// index said.
pub fn after_registration(
    p: Publication,
    bomb: Bomb,
    registered: Result<(), String>,
) -> (r: Settlement)
    ensures
        match registered {
            Ok(_) => {
                &&& r.delete is None
                &&& r.answer matches Ok(a)
                &&& a.krate == p.response
                &&& a.warnings == p.warnings
            },
            Err(reason) => {
                &&& r.delete == bomb.path
                &&& r.answer matches Err(e)
                &&& e@ == (ErrorKind::IndexRegistration, reason@)
            },
        },
{
    match registered {
        Ok(_) => Settlement {
            delete: None,
            answer: Ok(PublishResponse { krate: p.response, warnings: p.warnings }),
        },
        Err(reason) => Settlement {
            delete: bomb.path,
            answer: Err(Error { kind: ErrorKind::IndexRegistration, detail: reason }),
        },
    }
}

} // verus!
