//! The crate table: lookup by name, and the write that creates a crate or
//! updates the one that holds its slot.

use vstd::prelude::*;
use crate::clock::Timestamp;
use crate::errors::{Error, ErrorKind};
use crate::model::{Crate, CrateOwner, Metadata, NewCrate, OwnerKind};
use crate::names::{canon_crate_name, is_valid_feature_name, is_valid_name, same_slot};
use crate::registry::{
    first_in_slot, has_crate, holds_id, holds_slot, lemma_crates_push, lemma_crates_update,
    lemma_grants_push, lemma_slot_holder_unique, name_reserved, same_grant, slot_taken, Registry,
};
use crate::text::{opt_text, own_opt};
use crate::validate::{metadata_verdict, stored_metadata};

verus! {

/// Whether the metadata fields of a row are those of `new`.
pub open spec fn carries(row: Crate, new: Metadata) -> bool {
    &&& opt_text(row.description) == new.description
    &&& opt_text(row.homepage) == new.homepage
    &&& opt_text(row.documentation) == new.documentation
    &&& opt_text(row.readme) == new.readme
    &&& opt_text(row.repository) == new.repository
    &&& opt_text(row.license) == new.license
}

/// The first grant of a crate: to the user who created it, by that user.
pub open spec fn first_grant(crate_id: i32, user_id: i32) -> CrateOwner {
    CrateOwner {
        crate_id,
        owner_id: user_id,
        created_by: user_id,
        owner_kind: OwnerKind::User,
        deleted: false,
    }
}

/// `post` is `pre` with a new crate `c` for `new` and its first grant.
pub open spec fn inserted(
    pre: Registry,
    post: Registry,
    new: Metadata,
    user_id: i32,
    now: Timestamp,
    c: Crate,
) -> bool {
    &&& post.crates@ == pre.crates@.push(c)
    &&& post.crate_owners@ == pre.crate_owners@.push(first_grant(c.id, user_id))
    &&& post.next_crate_id == pre.next_crate_id + 1
    &&& post == (Registry {
        crates: post.crates,
        crate_owners: post.crate_owners,
        next_crate_id: post.next_crate_id,
        ..pre
    })
    &&& c.id == pre.next_crate_id
    &&& c.name@ == new.name
    &&& c.created_at == now
    &&& c.updated_at == now
    &&& c.downloads == 0
    &&& c.max_upload_size == new.max_upload_size
    &&& carries(c, new)
}

/// `post` is `pre` with the metadata of `new` written over row `i`, which is
/// then `c`. The name, the identifier, the counters and the size limit of the
/// row stay; no grant is touched.
pub open spec fn updated(
    pre: Registry,
    post: Registry,
    new: Metadata,
    now: Timestamp,
    i: int,
    c: Crate,
) -> bool {
    &&& 0 <= i < pre.crates@.len()
    &&& post.crates@ == pre.crates@.update(i, c)
    &&& post == (Registry { crates: post.crates, ..pre })
    &&& c.id == pre.crates@[i].id
    &&& c.name == pre.crates@[i].name
    &&& c.created_at == pre.crates@[i].created_at
    &&& c.downloads == pre.crates@[i].downloads
    &&& c.max_upload_size == pre.crates@[i].max_upload_size
    &&& c.updated_at == now
    &&& carries(c, new)
}

/// What a write of checked metadata does: it is refused for a reserved name;
/// it updates the crate that holds the slot, if there is one; else it creates
/// a crate and grants it to `user_id`.
pub open spec fn upserted(
    pre: Registry,
    post: Registry,
    new: Metadata,
    user_id: i32,
    now: Timestamp,
    r: Result<Crate, Error>,
) -> bool {
    if name_reserved(pre.reserved_names@, new.name) {
        r matches Err(e) && e@ == (ErrorKind::ReservedName, Seq::<char>::empty()) && post == pre
    } else if slot_taken(pre.crates@, new.name) {
        r matches Ok(c) && updated(pre, post, new, now, first_in_slot(pre.crates@, new.name), c)
    } else if pre.next_crate_id == i32::MAX {
        r matches Err(e) && e@ == (ErrorKind::Exhausted, Seq::<char>::empty()) && post == pre
    } else {
        r matches Ok(c) && inserted(pre, post, new, user_id, now, c)
    }
}

impl Registry {
    /// The position of the crate that holds the slot of `name`.
    pub fn slot_position(&self, name: &str) -> (r: Option<usize>)
        ensures
            match r {
                Some(i) => slot_taken(self.crates@, name@) && i == first_in_slot(
                    self.crates@,
                    name@,
                ) && holds_slot(self.crates@, name@, i as int),
                None => !slot_taken(self.crates@, name@),
            },
    {
        let wanted = canon_crate_name(name);
        let mut i: usize = 0;
        proof {
            reveal(same_slot);
        }
        while i < self.crates.len()
            invariant
                i <= self.crates.len(),
                wanted@ == crate::names::canonicalize(name@),
                forall|j: int| 0 <= j < i ==> !holds_slot(self.crates@, name@, j),
            decreases self.crates.len() - i,
        {
            let have = canon_crate_name(self.crates[i].name.as_str());
            proof {
                reveal(same_slot);
            }
            if have == wanted {
                proof {
                    reveal(first_in_slot);
                }
                assert(holds_slot(self.crates@, name@, i as int));
                return Some(i);
            }
            i = i + 1;
        }
        None
    }

    /// The position of the crate with the identifier `id`.
    pub fn id_position(&self, id: i32) -> (r: Option<usize>)
        ensures
            match r {
                Some(i) => holds_id(self.crates@, id, i as int),
                None => !has_crate(self.crates@, id),
            },
    {
        let mut i: usize = 0;
        while i < self.crates.len()
            invariant
                i <= self.crates.len(),
                forall|j: int| 0 <= j < i ==> !holds_id(self.crates@, id, j),
            decreases self.crates.len() - i,
        {
            if self.crates[i].id == id {
                return Some(i);
            }
            i = i + 1;
        }
        None
    }

    /// Whether `name` falls into the slot of a reserved name.
    pub fn is_reserved(&self, name: &str) -> (r: bool)
        ensures
            r == name_reserved(self.reserved_names@, name@),
    {
        let wanted = canon_crate_name(name);
        let mut k: usize = 0;
        while k < self.reserved_names.len()
            invariant
                k <= self.reserved_names.len(),
                wanted@ == crate::names::canonicalize(name@),
                forall|j: int|
                    0 <= j < k ==> !same_slot((#[trigger] self.reserved_names@[j])@, name@),
            decreases self.reserved_names.len() - k,
        {
            let have = canon_crate_name(self.reserved_names[k].as_str());
            proof {
                reveal(same_slot);
            }
            if have == wanted {
                return true;
            }
            k = k + 1;
        }
        false
    }

    /// Writes the metadata of `new` over the crate that holds its slot, if
    /// there is one.
    pub fn update_by_name(&mut self, new: &NewCrate, now: Timestamp) -> (r: Option<Crate>)
        requires
            old(self).wf(),
        ensures
            final(self).wf(),
            match r {
                Some(c) => slot_taken(old(self).crates@, new.name@) && holds_slot(
                    old(self).crates@,
                    new.name@,
                    first_in_slot(old(self).crates@, new.name@),
                ) && updated(
                    *old(self),
                    *final(self),
                    new@,
                    now,
                    first_in_slot(old(self).crates@, new.name@),
                    c,
                ),
                None => !slot_taken(old(self).crates@, new.name@) && *final(self) == *old(self),
            },
    {
        match self.slot_position(new.name) {
            None => None,
            Some(i) => {
                let row = rewritten(&self.crates[i], new, now);
                let c = row.clone();
                proof {
                    lemma_crates_update(
                        self.crates@,
                        self.reserved_names@,
                        self.next_crate_id,
                        i as int,
                        row,
                    );
                }
                self.crates.set(i, row);
                Some(c)
            },
        }
    }
}

/// The row `have` with the metadata of `new` written over it.
fn rewritten(have: &Crate, new: &NewCrate, now: Timestamp) -> (row: Crate)
    ensures
        row.id == have.id,
        row.name == have.name,
        row.created_at == have.created_at,
        row.downloads == have.downloads,
        row.max_upload_size == have.max_upload_size,
        row.updated_at == now,
        carries(row, new@),
{
    Crate {
        id: have.id,
        name: have.name.clone(),
        updated_at: now,
        created_at: have.created_at,
        downloads: have.downloads,
        description: own_opt(new.description),
        homepage: own_opt(new.homepage),
        documentation: own_opt(new.documentation),
        readme: own_opt(new.readme),
        license: own_opt(new.license),
        repository: own_opt(new.repository),
        max_upload_size: have.max_upload_size,
    }
}

/// A new row for `new`.
fn fresh_row(id: i32, new: &NewCrate, now: Timestamp) -> (row: Crate)
    ensures
        row.id == id,
        row.name@ == new.name@,
        row.created_at == now,
        row.updated_at == now,
        row.downloads == 0,
        row.max_upload_size == new.max_upload_size,
        carries(row, new@),
{
    Crate {
        id,
        name: new.name.to_owned(),
        updated_at: now,
        created_at: now,
        downloads: 0,
        description: own_opt(new.description),
        homepage: own_opt(new.homepage),
        documentation: own_opt(new.documentation),
        readme: own_opt(new.readme),
        license: own_opt(new.license),
        repository: own_opt(new.repository),
        max_upload_size: new.max_upload_size,
    }
}

impl<'a> NewCrate<'a> {
    /// Creates the crate, or updates the crate that holds the slot of its name.
    ///
    /// The metadata is checked first, then the name against the reserved
    /// names. The insert is tried before the update, so that of two first
    /// publishers only the one whose insert went in gets the first grant.
    pub fn create_or_update(
        self,
        conn: &mut Registry,
        license_file: Option<&str>,
        uploader: i32,
        now: Timestamp,
    ) -> (r: Result<Crate, Error>)
        requires
            old(conn).wf(),
        ensures
            final(conn).wf(),
            match metadata_verdict(self@) {
                Some(v) => r matches Err(e) && e@ == v && *final(conn) == *old(conn),
                None => upserted(
                    *old(conn),
                    *final(conn),
                    stored_metadata(self@, crate::text::opt_str_text(license_file)),
                    uploader,
                    now,
                    r,
                ),
            },
    {
        let mut new = self;
        new.validate(license_file)?;
        new.ensure_name_not_reserved(conn)?;
        match new.save_new_crate(conn, uploader, now) {
            Err(e) => Err(e),
            Ok(Some(c)) => Ok(c),
            Ok(None) => {
                match conn.update_by_name(&new, now) {
                    Some(c) => Ok(c),
                    None => Err(Error::bare(ErrorKind::NotFound)),
                }
            },
        }
    }

    /// Refuses a name that falls into the slot of a reserved name.
    pub fn ensure_name_not_reserved(&self, conn: &Registry) -> (r: Result<(), Error>)
        ensures
            if name_reserved(conn.reserved_names@, self.name@) {
                r matches Err(e) && e@ == (ErrorKind::ReservedName, Seq::<char>::empty())
            } else {
                r is Ok
            },
    {
        if conn.is_reserved(self.name) {
            Err(Error::bare(ErrorKind::ReservedName))
        } else {
            Ok(())
        }
    }

    /// Inserts the crate unless its slot is taken, in which case nothing is
    /// written and `None` is returned. A crate that goes in gets its first
    /// grant, to `user_id`, in the same step.
    pub fn save_new_crate(&self, conn: &mut Registry, user_id: i32, now: Timestamp) -> (r: Result<
        Option<Crate>,
        Error,
    >)
        requires
            old(conn).wf(),
            !name_reserved(old(conn).reserved_names@, self.name@),
        ensures
            final(conn).wf(),
            if slot_taken(old(conn).crates@, self.name@) {
                r matches Ok(None) && *final(conn) == *old(conn)
            } else if old(conn).next_crate_id == i32::MAX {
                r matches Err(e) && e@ == (ErrorKind::Exhausted, Seq::<char>::empty()) && *final(conn)
                    == *old(conn)
            } else {
                r matches Ok(Some(c)) && inserted(*old(conn), *final(conn), self@, user_id, now, c)
            },
    {
        if conn.slot_position(self.name).is_some() {
            return Ok(None);
        }
        if conn.next_crate_id == i32::MAX {
            return Err(Error::bare(ErrorKind::Exhausted));
        }
        let id: i32 = conn.next_crate_id;
        let row = fresh_row(id, self, now);
        let c = row.clone();
        let owner = CrateOwner {
            crate_id: id,
            owner_id: user_id,
            created_by: user_id,
            owner_kind: OwnerKind::User,
            deleted: false,
        };
        proof {
            assert(!slot_taken(conn.crates@, row.name@));
            lemma_crates_push(conn.crates@, conn.reserved_names@, conn.next_crate_id, row);
            reveal(crate::registry::crates_wf);
            reveal(crate::registry::grants_wf);
            assert forall|i: int| 0 <= i < conn.crate_owners@.len() implies !same_grant(
                #[trigger] conn.crate_owners@[i],
                owner,
            ) by {}
            lemma_grants_push(conn.crate_owners@, conn.next_crate_id, (id + 1) as i32, owner);
            crate::registry::lemma_versions_more_crates(
                conn.versions@,
                conn.next_version_id,
                conn.next_crate_id,
                (id + 1) as i32,
            );
        }
        conn.crates.push(row);
        conn.crate_owners.push(owner);
        conn.next_crate_id = id + 1;
        Ok(Some(c))
    }
}

impl Crate {
    /// The crate that holds the slot of `name`, if there is one.
    pub fn by_name<'a>(conn: &'a Registry, name: &str) -> (r: Option<&'a Crate>)
        ensures
            match r {
                Some(c) => slot_taken(conn.crates@, name@) && *c == conn.crates@[first_in_slot(
                    conn.crates@,
                    name@,
                )],
                None => !slot_taken(conn.crates@, name@),
            },
    {
        match conn.slot_position(name) {
            Some(i) => Some(&conn.crates[i]),
            None => None,
        }
    }

    /// The crate that holds the slot of `name`. Names are compared by their
    /// canonical forms, never letter by letter.
    pub fn find_by_name(conn: &Registry, name: &str) -> (r: Result<Crate, Error>)
        ensures
            match r {
                Ok(c) => slot_taken(conn.crates@, name@) && c == conn.crates@[first_in_slot(
                    conn.crates@,
                    name@,
                )],
                Err(e) => !slot_taken(conn.crates@, name@) && e@ == (
                    ErrorKind::NotFound,
                    Seq::<char>::empty(),
                ),
            },
    {
        match Crate::by_name(conn, name) {
            Some(c) => Ok(c.clone()),
            None => Err(Error::bare(ErrorKind::NotFound)),
        }
    }

    /// Updates the crate that holds the slot of `name`, or creates it where
    /// the slot is free, as `create_or_update` does, from loose fields.
    pub fn find_or_insert(
        conn: &mut Registry,
        name: &str,
        user_id: i32,
        description: &Option<String>,
        homepage: &Option<String>,
        documentation: &Option<String>,
        readme: &Option<String>,
        repository: &Option<String>,
        license: &Option<String>,
        license_file: &Option<String>,
        max_upload_size: Option<i32>,
        now: Timestamp,
    ) -> (r: Result<Crate, Error>)
        requires
            old(conn).wf(),
        ensures
            final(conn).wf(),
            ({
                let new = Metadata {
                    name: name@,
                    description: opt_text(*description),
                    homepage: opt_text(*homepage),
                    documentation: opt_text(*documentation),
                    readme: opt_text(*readme),
                    repository: opt_text(*repository),
                    license: opt_text(*license),
                    max_upload_size,
                };
                match metadata_verdict(new) {
                    Some(v) => r matches Err(e) && e@ == v && *final(conn) == *old(conn),
                    None => upserted(
                        *old(conn),
                        *final(conn),
                        stored_metadata(new, opt_text(*license_file)),
                        user_id,
                        now,
                        r,
                    ),
                }
            }),
    {
        let mut new = NewCrate {
            name,
            description: as_text(description),
            homepage: as_text(homepage),
            documentation: as_text(documentation),
            readme: as_text(readme),
            repository: as_text(repository),
            license: as_text(license),
            max_upload_size,
        };
        new.validate(as_text(license_file))?;
        match conn.update_by_name(&new, now) {
            Some(c) => {
                proof {
                    let i = first_in_slot(old(conn).crates@, name@);
                    assert(holds_slot(old(conn).crates@, name@, i));
                    lemma_slot_holder_unique(
                        old(conn).crates@,
                        old(conn).reserved_names@,
                        old(conn).next_crate_id,
                        name@,
                        i,
                    );
                }
                return Ok(c);
            },
            None => {},
        }
        new.ensure_name_not_reserved(conn)?;
        match new.save_new_crate(conn, user_id, now) {
            Err(e) => Err(e),
            Ok(Some(c)) => Ok(c),
            Ok(None) => Err(Error::bare(ErrorKind::NotFound)),
        }
    }

    /// Whether `name` may be the name of a crate.
    pub fn valid_name(name: &str) -> (r: bool)
        ensures
            r == is_valid_name(name@),
    {
        crate::names::check_name(name)
    }

    /// Whether `name` may be the name of a feature.
    pub fn valid_feature_name(name: &str) -> (r: bool)
        ensures
            r == is_valid_feature_name(name@),
    {
        crate::names::check_feature_name(name)
    }
}

/// The text of an optional string, borrowed.
pub fn as_text(o: &Option<String>) -> (r: Option<&str>)
    ensures
        crate::text::opt_str_text(r) == opt_text(*o),
{
    match o {
        Some(s) => Some(s.as_str()),
        None => None,
    }
}

} // verus!
