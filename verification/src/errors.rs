//! The ways in which an operation of the registry can fail.

use vstd::prelude::*;

verus! {

/// One of the three link fields of a crate.
#[derive(Debug, Clone, Copy, PartialEq, Eq, Structural)]
pub enum UrlField {
    Homepage,
    Documentation,
    Repository,
}

/// Why an operation failed.
#[derive(Debug, Clone, Copy, PartialEq, Eq, Structural)]
pub enum ErrorKind {
    /// A link field does not parse as a URL. The detail is the field's text.
    UrlInvalid(UrlField),
    /// A link field has a scheme other than `http` and `https`. The detail is
    /// the scheme.
    UrlScheme(UrlField),
    /// A link field holds a URL that cannot be a base. The detail is the
    /// field's text.
    UrlNotHierarchical(UrlField),
    /// A part of the license field is no license expression. The detail is
    /// what the validator said.
    License,
    /// The name is on the reserved list.
    ReservedName,
    /// No such crate, version or user.
    NotFound,
    /// The acting user has no right to publish to the crate.
    NameClaimed,
    /// The crate was first published under another spelling. The detail is the
    /// stored name.
    PreviouslyNamed,
    /// The request does not say how long its body is.
    MissingContentLength,
    /// The upload is longer than the crate may be. The detail is the limit.
    TooLarge,
    /// The version number does not parse. The detail is the number.
    VersionInvalid,
    /// A feature is named twice.
    FeatureTwice,
    /// The crate already has this version. The detail is the number.
    VersionExists,
    /// A dependency names no crate of the registry. The detail is the name.
    DependencyNotFound,
    /// Required metadata is missing or empty. The detail lists the fields.
    MissingFields,
    /// Only a member of a team may add it as an owner. The detail is the
    /// team's login.
    NotTeamMember,
    /// No owner has this login. The detail is the login.
    OwnerNotFound,
    /// The acting user has rights through a team only.
    TeamMembersCannotModify,
    /// The acting user is no owner.
    OnlyOwnersModify,
    /// The login is already an owner. The detail is the login.
    AlreadyOwner,
    /// The acting user tried to remove itself.
    CannotRemoveSelf,
    /// No such crate, or no such version of it.
    CrateOrVersionNotFound,
    /// The artifact store has no file for the version.
    FilesNotFound,
    /// The team service refused. The detail is what it said.
    Team,
    /// The artifact store refused the upload. The detail is what it said.
    Upload,
    /// The package index refused the entry. The detail is what it said.
    IndexRegistration,
    /// The request needs a user and names none.
    Unauthorized,
    /// The request asks for more items on a page than a page may have. The
    /// detail is the number that a page may have.
    TooManyItems,
    /// The request asks for page zero; pages are counted from one.
    PageZero,
    /// The request is not in order. The detail says why.
    InvalidRequest,
    /// A table has run out of identifiers, or a counter has reached its limit.
    Exhausted,
}

/// What a failure is to the one who made the request.
#[derive(Debug, Clone, Copy, PartialEq, Eq, Structural)]
pub enum ErrorClass {
    /// The request is out of order. It is never tried again, and nothing was
    /// written.
    Validation,
    /// What the request is about is not on record.
    NotFound,
    /// The acting user may not do what the request asks.
    Authorization,
    /// A service behind the registry failed, or the registry is full.
    Server,
}

impl ErrorKind {
    /// The class of the failure.
    pub open spec fn class_of(self) -> ErrorClass {
        match self {
            ErrorKind::NotFound
            | ErrorKind::OwnerNotFound
            | ErrorKind::CrateOrVersionNotFound
            | ErrorKind::FilesNotFound
            | ErrorKind::DependencyNotFound => ErrorClass::NotFound,
            ErrorKind::NameClaimed
            | ErrorKind::NotTeamMember
            | ErrorKind::TeamMembersCannotModify
            | ErrorKind::OnlyOwnersModify
            | ErrorKind::Unauthorized => ErrorClass::Authorization,
            ErrorKind::Team
            | ErrorKind::Upload
            | ErrorKind::IndexRegistration
            | ErrorKind::Exhausted => ErrorClass::Server,
            _ => ErrorClass::Validation,
        }
    }

    /// The class of the failure.
    pub fn class(self) -> (r: ErrorClass)
        ensures
            r == self.class_of(),
    {
        match self {
            ErrorKind::NotFound
            | ErrorKind::OwnerNotFound
            | ErrorKind::CrateOrVersionNotFound
            | ErrorKind::FilesNotFound
            | ErrorKind::DependencyNotFound => ErrorClass::NotFound,
            ErrorKind::NameClaimed
            | ErrorKind::NotTeamMember
            | ErrorKind::TeamMembersCannotModify
            | ErrorKind::OnlyOwnersModify
            | ErrorKind::Unauthorized => ErrorClass::Authorization,
            ErrorKind::Team
            | ErrorKind::Upload
            | ErrorKind::IndexRegistration
            | ErrorKind::Exhausted => ErrorClass::Server,
            _ => ErrorClass::Validation,
        }
    }
}

/// A failure: its kind, and the text that the kind's description names.
#[derive(Debug, PartialEq, Eq)]
pub struct Error {
    pub kind: ErrorKind,
    pub detail: String,
}

impl View for Error {
    type V = (ErrorKind, Seq<char>);

    open spec fn view(&self) -> (ErrorKind, Seq<char>) {
        (self.kind, self.detail@)
    }
}

impl Error {
    /// A failure without detail.
    pub fn bare(kind: ErrorKind) -> (r: Error)
        ensures
            r@ == (kind, Seq::<char>::empty()),
    {
        Error { kind, detail: String::new() }
    }

    /// A failure with its detail.
    pub fn with(kind: ErrorKind, detail: &str) -> (r: Error)
        ensures
            r@ == (kind, detail@),
    {
        Error { kind, detail: detail.to_owned() }
    }
}

/// The name of a link field.
pub open spec fn field_text(field: UrlField) -> Seq<char> {
    match field {
        UrlField::Homepage => "homepage"@,
        UrlField::Documentation => "documentation"@,
        UrlField::Repository => "repository"@,
    }
}

/// What a message says before the detail.
pub open spec fn lead_text(kind: ErrorKind) -> Seq<char> {
    match kind {
        ErrorKind::UrlInvalid(f) => "`"@ + field_text(f) + "` is not a valid url: `"@,
        ErrorKind::UrlScheme(f) => "`"@ + field_text(f) + "` has an invalid url scheme: `"@,
        ErrorKind::UrlNotHierarchical(f) => "`"@ + field_text(f)
            + "` must have relative scheme data: "@,
        ErrorKind::License => Seq::empty(),
        ErrorKind::ReservedName => "cannot upload a crate with a reserved name"@,
        ErrorKind::NotFound => "Not Found"@,
        ErrorKind::NameClaimed => "crate name has already been claimed by another user"@,
        ErrorKind::PreviouslyNamed => "crate was previously named `"@,
        ErrorKind::MissingContentLength => "missing header: Content-Length"@,
        ErrorKind::TooLarge => "max upload size is: "@,
        ErrorKind::VersionInvalid => "invalid version number: `"@,
        ErrorKind::FeatureTwice => "a feature is named twice"@,
        ErrorKind::VersionExists => "crate version `"@,
        ErrorKind::DependencyNotFound => "no known crate named `"@,
        ErrorKind::MissingFields => "missing or empty metadata fields: "@,
        ErrorKind::NotTeamMember => "only members of "@,
        ErrorKind::OwnerNotFound => "could not find owner with login `"@,
        ErrorKind::TeamMembersCannotModify => "team members don't have permission to modify owners"@,
        ErrorKind::OnlyOwnersModify => "only owners have permission to modify owners"@,
        ErrorKind::AlreadyOwner => "`"@,
        ErrorKind::CannotRemoveSelf => "cannot remove yourself as an owner"@,
        ErrorKind::CrateOrVersionNotFound => "crate or version not found"@,
        ErrorKind::FilesNotFound => "crate files not found"@,
        ErrorKind::Team => Seq::empty(),
        ErrorKind::Upload => Seq::empty(),
        ErrorKind::IndexRegistration => "could not add the crate to the index: "@,
        ErrorKind::Unauthorized => "must be logged in to perform that action"@,
        ErrorKind::TooManyItems => "cannot request more than "@,
        ErrorKind::PageZero => "page indexing starts from 1, page 0 is invalid"@,
        ErrorKind::InvalidRequest => "invalid upload request"@,
        ErrorKind::Exhausted => "the registry cannot hold more"@,
    }
}

/// What a message says behind the detail.
pub open spec fn tail_text(kind: ErrorKind) -> Seq<char> {
    match kind {
        ErrorKind::UrlInvalid(_) => "`"@,
        ErrorKind::UrlScheme(_) => "`"@,
        ErrorKind::License => "; see http://opensource.org/licenses for options, and http://spdx.org/licenses/ for their identifiers"@,
        ErrorKind::PreviouslyNamed => "`"@,
        ErrorKind::VersionInvalid => "`"@,
        ErrorKind::VersionExists => "` is already uploaded"@,
        ErrorKind::DependencyNotFound => "`"@,
        ErrorKind::MissingFields => ". Please see http://doc.crates.io/manifest.html#package-metadata for how to upload metadata"@,
        ErrorKind::NotTeamMember => " can add it as an owner"@,
        ErrorKind::OwnerNotFound => "`"@,
        ErrorKind::AlreadyOwner => "` is already an owner"@,
        ErrorKind::TooManyItems => " items"@,
        _ => Seq::empty(),
    }
}

/// The message of a failure: what its kind says, around its detail.
pub open spec fn message_text(e: (ErrorKind, Seq<char>)) -> Seq<char> {
    lead_text(e.0) + e.1 + tail_text(e.0)
}

fn field_name(field: UrlField) -> (r: &'static str)
    ensures
        r@ == field_text(field),
{
    match field {
        UrlField::Homepage => "homepage",
        UrlField::Documentation => "documentation",
        UrlField::Repository => "repository",
    }
}

fn around_field(field: UrlField, rest: &str) -> (r: String)
    ensures
        r@ == "`"@ + field_text(field) + rest@,
{
    let mut s = "`".to_owned();
    s.append(field_name(field));
    s.append(rest);
    s
}

fn lead(kind: ErrorKind) -> (r: String)
    ensures
        r@ == lead_text(kind),
{
    match kind {
        ErrorKind::UrlInvalid(f) => around_field(f, "` is not a valid url: `"),
        ErrorKind::UrlScheme(f) => around_field(f, "` has an invalid url scheme: `"),
        ErrorKind::UrlNotHierarchical(f) => around_field(f, "` must have relative scheme data: "),
        ErrorKind::License => String::new(),
        ErrorKind::ReservedName => "cannot upload a crate with a reserved name".to_owned(),
        ErrorKind::NotFound => "Not Found".to_owned(),
        ErrorKind::NameClaimed => "crate name has already been claimed by another user".to_owned(),
        ErrorKind::PreviouslyNamed => "crate was previously named `".to_owned(),
        ErrorKind::MissingContentLength => "missing header: Content-Length".to_owned(),
        ErrorKind::TooLarge => "max upload size is: ".to_owned(),
        ErrorKind::VersionInvalid => "invalid version number: `".to_owned(),
        ErrorKind::FeatureTwice => "a feature is named twice".to_owned(),
        ErrorKind::VersionExists => "crate version `".to_owned(),
        ErrorKind::DependencyNotFound => "no known crate named `".to_owned(),
        ErrorKind::MissingFields => "missing or empty metadata fields: ".to_owned(),
        ErrorKind::NotTeamMember => "only members of ".to_owned(),
        ErrorKind::OwnerNotFound => "could not find owner with login `".to_owned(),
        ErrorKind::TeamMembersCannotModify => "team members don't have permission to modify owners".to_owned(),
        ErrorKind::OnlyOwnersModify => "only owners have permission to modify owners".to_owned(),
        ErrorKind::AlreadyOwner => "`".to_owned(),
        ErrorKind::CannotRemoveSelf => "cannot remove yourself as an owner".to_owned(),
        ErrorKind::CrateOrVersionNotFound => "crate or version not found".to_owned(),
        ErrorKind::FilesNotFound => "crate files not found".to_owned(),
        ErrorKind::Team => String::new(),
        ErrorKind::Upload => String::new(),
        ErrorKind::IndexRegistration => "could not add the crate to the index: ".to_owned(),
        ErrorKind::Unauthorized => "must be logged in to perform that action".to_owned(),
        ErrorKind::TooManyItems => "cannot request more than ".to_owned(),
        ErrorKind::PageZero => "page indexing starts from 1, page 0 is invalid".to_owned(),
        ErrorKind::InvalidRequest => "invalid upload request".to_owned(),
        ErrorKind::Exhausted => "the registry cannot hold more".to_owned(),
    }
}

fn tail(kind: ErrorKind) -> (r: &'static str)
    ensures
        r@ == tail_text(kind),
{
    proof {
        reveal_strlit("");
    }
    match kind {
        ErrorKind::UrlInvalid(_) => "`",
        ErrorKind::UrlScheme(_) => "`",
        ErrorKind::License => "; see http://opensource.org/licenses for options, and http://spdx.org/licenses/ for their identifiers",
        ErrorKind::PreviouslyNamed => "`",
        ErrorKind::VersionInvalid => "`",
        ErrorKind::VersionExists => "` is already uploaded",
        ErrorKind::DependencyNotFound => "`",
        ErrorKind::MissingFields => ". Please see http://doc.crates.io/manifest.html#package-metadata for how to upload metadata",
        ErrorKind::NotTeamMember => " can add it as an owner",
        ErrorKind::OwnerNotFound => "`",
        ErrorKind::AlreadyOwner => "` is already an owner",
        ErrorKind::TooManyItems => " items",
        _ => {
            let r = "";
            assert(r@ =~= Seq::<char>::empty());
            r
        },
    }
}

impl Error {
    /// The message of the failure, for the one who made the request.
    pub fn message(&self) -> (r: String)
        ensures
            r@ == message_text(self@),
    {
        let mut s = lead(self.kind);
        s.append(self.detail.as_str());
        s.append(tail(self.kind));
        s
    }
}

} // verus!
