//! The checks on the metadata of a publish request: link fields and the
//! license field.

use vstd::prelude::*;
use crate::errors::{Error, ErrorKind, UrlField};
use crate::foreign::{check_license_expr, license_refusal, parse_url, parsed_url, UrlParts};
use crate::model::{Metadata, NewCrate};
use crate::text::{chars_of, opt_str_text, same_text};

verus! {

/// The position of the first `c` in `s`, or the length of `s` if it holds none.
pub open spec fn find_char(s: Seq<char>, c: char) -> int
    decreases s.len(),
{
    if s.len() == 0 || s[0] == c {
        0
    } else {
        1 + find_char(s.drop_first(), c)
    }
}

/// `find_char` gives the first position, and every first position is what
/// `find_char` gives.
pub proof fn lemma_find_char(s: Seq<char>, c: char, k: int)
    requires
        0 <= k <= s.len(),
        forall|i: int| 0 <= i < k ==> s[i] != c,
        k < s.len() ==> s[k] == c,
    ensures
        find_char(s, c) == k,
    decreases s.len(),
{
    if s.len() == 0 || s[0] == c {
    } else {
        assert forall|i: int| 0 <= i < k - 1 implies s.drop_first()[i] != c by {
            assert(s.drop_first()[i] == s[i + 1]);
        }
        lemma_find_char(s.drop_first(), c, k - 1);
    }
}

/// What is wrong with a parsed link: a scheme other than `http` and `https`,
/// or a URL that cannot be a base.
pub open spec fn parts_verdict(
    scheme: Seq<char>,
    cannot_be_a_base: bool,
    url: Seq<char>,
    field: UrlField,
) -> Option<(ErrorKind, Seq<char>)> {
    if scheme != "http"@ && scheme != "https"@ {
        Some((ErrorKind::UrlScheme(field), scheme))
    } else if cannot_be_a_base {
        Some((ErrorKind::UrlNotHierarchical(field), url))
    } else {
        None
    }
}

/// What is wrong with a link field, if anything. An absent field is in order.
pub open spec fn url_verdict(
    url: Option<Seq<char>>,
    field: UrlField,
) -> Option<(ErrorKind, Seq<char>)> {
    match url {
        None => None,
        Some(u) => match parsed_url(u) {
            None => Some((ErrorKind::UrlInvalid(field), u)),
            Some((scheme, cannot)) => parts_verdict(scheme, cannot, u, field),
        },
    }
}

/// Judges a link from what the parser made of it.
pub fn judge_url(parts: &Option<UrlParts>, url: &str, field: UrlField) -> (r: Result<(), Error>)
    ensures
        match parts {
            None => r matches Err(e) && e@ == (ErrorKind::UrlInvalid(field), url@),
            Some(p) => match parts_verdict(p.scheme@, p.cannot_be_a_base, url@, field) {
                None => r is Ok,
                Some(v) => r matches Err(e) && e@ == v,
            },
        },
{
    match parts {
        None => Err(Error::with(ErrorKind::UrlInvalid(field), url)),
        Some(p) => {
            if !same_text(p.scheme.as_str(), "http") && !same_text(p.scheme.as_str(), "https") {
                Err(Error::with(ErrorKind::UrlScheme(field), p.scheme.as_str()))
            } else if p.cannot_be_a_base {
                Err(Error::with(ErrorKind::UrlNotHierarchical(field), url))
            } else {
                Ok(())
            }
        },
    }
}

/// Checks that a link field, if present, is an absolute `http` or `https` URL
/// that can be a base.
pub fn validate_url(url: Option<&str>, field: UrlField) -> (r: Result<(), Error>)
    ensures
        match url_verdict(opt_str_text(url), field) {
            None => r is Ok,
            Some(v) => r matches Err(e) && e@ == v,
        },
{
    match url {
        None => Ok(()),
        Some(u) => {
            let parts = parse_url(u);
            judge_url(&parts, u, field)
        },
    }
}

/// What the validator says of the first part of a license field that it
/// refuses, the parts being what stands between the `/` of the field.
pub open spec fn license_verdict(s: Seq<char>) -> Option<Seq<char>>
    decreases s.len(),
{
    let k = find_char(s, '/');
    match license_refusal(s.subrange(0, k)) {
        Some(e) => Some(e),
        None => if 0 <= k < s.len() {
            license_verdict(s.subrange(k + 1, s.len() as int))
        } else {
            None
        },
    }
}

/// Checks each part of a license field, the parts being what stands between
/// the `/` of the field, and reports the first that is refused.
pub fn validate_license_text(license: &str) -> (r: Result<(), Error>)
    ensures
        match license_verdict(license@) {
            None => r is Ok,
            Some(v) => r matches Err(e) && e@ == (ErrorKind::License, v),
        },
{
    let v = chars_of(license);
    let n = v.len();
    let mut start: usize = 0;
    assert(license@.subrange(0, n as int) == license@);
    loop
        invariant
            v@ == license@,
            n == v.len(),
            start <= n,
            license_verdict(license@) == license_verdict(license@.subrange(start as int, n as int)),
        decreases n - start,
    {
        let mut k: usize = start;
        while k < n && v[k] != '/'
            invariant
                start <= k <= n,
                n == v.len(),
                forall|j: int| start <= j < k ==> v[j] != '/',
            decreases n - k,
        {
            k = k + 1;
        }
        let ghost rest = license@.subrange(start as int, n as int);
        proof {
            assert forall|i: int| 0 <= i < k - start implies rest[i] != '/' by {
                assert(rest[i] == v[start + i]);
            }
            lemma_find_char(rest, '/', k - start);
            assert(rest.subrange(0, k - start) == license@.subrange(start as int, k as int));
            if k < n {
                assert(rest.subrange(k - start + 1, rest.len() as int) == license@.subrange(
                    k + 1,
                    n as int,
                ));
            }
        }
        let part = license.substring_char(start, k);
        match check_license_expr(part) {
            Some(e) => {
                return Err(Error { kind: ErrorKind::License, detail: e });
            },
            None => {},
        }
        if k == n {
            return Ok(());
        }
        start = k + 1;
    }
}

/// The license that is stored: the one given, or `non-standard` where none is
/// given but a license file is.
pub open spec fn stored_license(
    license: Option<Seq<char>>,
    license_file: Option<Seq<char>>,
) -> Option<Seq<char>> {
    match license {
        Some(l) => Some(l),
        None => if license_file is Some {
            Some("non-standard"@)
        } else {
            None
        },
    }
}

/// What is wrong with the metadata, if anything: the first of the link fields
/// that is out of order, in the order homepage, documentation, repository;
/// else the license.
pub open spec fn metadata_verdict(new: Metadata) -> Option<(ErrorKind, Seq<char>)> {
    if url_verdict(new.homepage, UrlField::Homepage) is Some {
        url_verdict(new.homepage, UrlField::Homepage)
    } else if url_verdict(new.documentation, UrlField::Documentation) is Some {
        url_verdict(new.documentation, UrlField::Documentation)
    } else if url_verdict(new.repository, UrlField::Repository) is Some {
        url_verdict(new.repository, UrlField::Repository)
    } else {
        match new.license {
            Some(l) => match license_verdict(l) {
                Some(v) => Some((ErrorKind::License, v)),
                None => None,
            },
            None => None,
        }
    }
}

/// The metadata as it is stored once it has passed the checks.
pub open spec fn stored_metadata(new: Metadata, license_file: Option<Seq<char>>) -> Metadata {
    Metadata { license: stored_license(new.license, license_file), ..new }
}

impl<'a> NewCrate<'a> {
    /// Checks the license field and, where the request names a license file
    /// but no license, sets the license to `non-standard`.
    pub fn validate_license(&mut self, license_file: Option<&str>) -> (r: Result<(), Error>)
        ensures
            match old(self).license {
                Some(l) => *final(self) == *old(self) && match license_verdict(l@) {
                    None => r is Ok,
                    Some(v) => r matches Err(e) && e@ == (ErrorKind::License, v),
                },
                None => r is Ok && opt_str_text(final(self).license) == stored_license(
                    None,
                    opt_str_text(license_file),
                ) && *final(self) == (NewCrate { license: final(self).license, ..*old(self) }),
            },
    {
        match self.license {
            Some(l) => validate_license_text(l),
            None => {
                if license_file.is_some() {
                    self.license = Some("non-standard");
                }
                Ok(())
            },
        }
    }

    /// Checks the link fields and the license field. On success the license
    /// is the one that will be stored; on failure nothing has changed.
    pub fn validate(&mut self, license_file: Option<&str>) -> (r: Result<(), Error>)
        ensures
            match metadata_verdict(old(self)@) {
                Some(v) => r matches Err(e) && e@ == v && *final(self) == *old(self),
                None => r is Ok && final(self)@ == stored_metadata(
                    old(self)@,
                    opt_str_text(license_file),
                ),
            },
    {
        validate_url(self.homepage, UrlField::Homepage)?;
        validate_url(self.documentation, UrlField::Documentation)?;
        validate_url(self.repository, UrlField::Repository)?;
        self.validate_license(license_file)
    }
}

} // verus!
