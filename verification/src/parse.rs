//! Reading a version out of its string form.
//!
//! The grammar of a semantic version is checked by the semver crate; what
//! this module adds, verified, is the split of the pre-release text into
//! the identifiers that the precedence order works on.

use vstd::prelude::*;
use crate::version::Version;
use crate::version::ids_view;

verus! {

/// What `semver::Version::parse` answers on a version string: the three
/// numeric fields and the pre-release text, or nothing on an invalid
/// string. The answer depends on the characters alone.
pub uninterp spec fn semver_parts(s: Seq<char>) -> Option<(u64, u64, u64, Seq<u8>)>;

/// Relies on `semver::Version::parse`: on a valid semantic version it
/// answers the major, minor and patch numbers and the pre-release text, on
/// any other string an error. Build metadata takes no part in precedence
/// and is dropped here.
#[verifier::external_body]
fn parse_semver(s: &str) -> (r: Option<(u64, u64, u64, Vec<u8>)>)
    ensures
        r matches Some(p) ==> semver_parts(s@) == Some((p.0, p.1, p.2, p.3@)),
        r is None ==> semver_parts(s@) is None,
{
    match semver::Version::parse(s) {
        Ok(v) => Some((v.major, v.minor, v.patch, v.pre.as_str().as_bytes().to_vec())),
        Err(_) => None,
    }
}

/// The identifiers of a pre-release text, read from position `i` on, with
/// `start` the position the current identifier began at.
pub open spec fn split_from(s: Seq<u8>, start: int, i: int) -> Seq<Seq<u8>>
    decreases s.len() - i,
{
    if i >= s.len() {
        seq![s.subrange(start, s.len() as int)]
    } else if s[i] == 46 {
        seq![s.subrange(start, i)] + split_from(s, i + 1, i + 1)
    } else {
        split_from(s, start, i + 1)
    }
}

/// The identifiers of a pre-release text: the pieces between the dots, in
/// order; none at all for an empty text (a full release).
pub open spec fn split_ids(s: Seq<u8>) -> Seq<Seq<u8>> {
    if s.len() == 0 {
        Seq::empty()
    } else {
        split_from(s, 0, 0)
    }
}

/// Splits a pre-release text at its dots.
pub fn split_pre(s: &Vec<u8>) -> (r: Vec<Vec<u8>>)
    ensures
        ids_view(r) == split_ids(s@),
{
    let mut r: Vec<Vec<u8>> = Vec::new();
    if s.len() == 0 {
        proof {
            assert(ids_view(r) =~= split_ids(s@));
        }
        return r;
    }
    let mut cur: Vec<u8> = Vec::new();
    let mut start: usize = 0;
    let mut i: usize = 0;
    loop
        invariant
            start <= i <= s@.len(),
            s@.len() > 0,
            cur@ == s@.subrange(start as int, i as int),
            split_ids(s@) == ids_view(r) + split_from(s@, start as int, i as int),
        decreases s@.len() - i,
    {
        let ghost r0 = ids_view(r);
        if i >= s.len() {
            let ghost c0 = cur@;
            r.push(cur);
            proof {
                assert(ids_view(r) =~= r0.push(c0));
                assert(ids_view(r) =~= r0 + split_from(s@, start as int, i as int));
            }
            return r;
        }
        let b = s[i];
        if b == 46 {
            let ghost c0 = cur@;
            r.push(cur);
            cur = Vec::new();
            proof {
                assert(ids_view(r) =~= r0.push(c0));
                assert(ids_view(r) + split_from(s@, i + 1, i + 1) =~= r0 + split_from(
                    s@,
                    start as int,
                    i as int,
                ));
                assert(cur@ =~= s@.subrange(i + 1, i + 1));
            }
            start = i + 1;
        } else {
            cur.push(b);
            proof {
                assert(cur@ =~= s@.subrange(start as int, i + 1));
            }
        }
        i = i + 1;
    }
}

impl Version {
    /// Reads a version from its string form, by semantic-versioning
    /// grammar; build metadata is accepted and dropped, as it takes no
    /// part in precedence.
    pub fn parse(s: &str) -> (r: Option<Version>)
        ensures
            (r is Some) <==> (semver_parts(s@) is Some),
            r matches Some(v) ==> ({
                let p = semver_parts(s@)->Some_0;
                &&& v@.major == p.0
                &&& v@.minor == p.1
                &&& v@.patch == p.2
                &&& v@.pre == split_ids(p.3)
            }),
    {
        match parse_semver(s) {
            Option::None => Option::None,
            Option::Some(t) => {
                let (major, minor, patch, pre_text) = t;
                let ids = split_pre(&pre_text);
                Option::Some(Version { major, minor, patch, pre: ids })
            },
        }
    }
}

} // verus!
