//! Semantic versions and their precedence order.
//!
//! A version is the ordering key of a candidate update. Its pre-release part
//! is kept as the dot-separated identifiers of the version string, each one a
//! byte string. Precedence follows the semantic-versioning rules: numeric
//! fields compare numerically, a pre-release precedes the release it
//! qualifies, identifiers made of digits only compare numerically (valid ones
//! carry no leading zero, so shorter means smaller), other identifiers
//! compare lexically in ASCII order, and a shorter identifier list precedes a
//! longer one that it prefixes. Build metadata takes no part in precedence
//! and is not kept.

use vstd::prelude::*;

verus! {

/// A semantic version: the ordering key of an update.
pub struct Version {
    pub major: u64,
    pub minor: u64,
    pub patch: u64,
    /// Pre-release identifiers, in order; empty means a full release.
    pub pre: Vec<Vec<u8>>,
}

/// The mathematical value of a [`Version`].
#[verifier::ext_equal]
pub struct VersionView {
    pub major: u64,
    pub minor: u64,
    pub patch: u64,
    pub pre: Seq<Seq<u8>>,
}

/// The identifier list a vector of byte strings stands for.
pub open spec fn ids_view(v: Vec<Vec<u8>>) -> Seq<Seq<u8>> {
    Seq::new(v@.len(), |i: int| v@[i]@)
}

impl View for Version {
    type V = VersionView;

    open spec fn view(&self) -> VersionView {
        VersionView {
            major: self.major,
            minor: self.minor,
            patch: self.patch,
            pre: ids_view(self.pre),
        }
    }
}

/// An ASCII decimal digit.
pub open spec fn is_digit(b: u8) -> bool {
    48 <= b <= 57
}

/// An identifier made of digits only (a numeric identifier).
pub open spec fn all_digits(id: Seq<u8>) -> bool {
    forall|i: int| 0 <= i < id.len() ==> is_digit(#[trigger] id[i])
}

/// Lexicographic byte order, read from position `i` on.
pub open spec fn bytes_lt_from(a: Seq<u8>, b: Seq<u8>, i: int) -> bool
    decreases b.len() - i,
{
    if i >= b.len() {
        false
    } else if i >= a.len() {
        true
    } else if a[i] != b[i] {
        a[i] < b[i]
    } else {
        bytes_lt_from(a, b, i + 1)
    }
}

/// Lexicographic byte order in ASCII, as semver compares alphanumeric
/// identifiers.
pub open spec fn bytes_lt(a: Seq<u8>, b: Seq<u8>) -> bool {
    bytes_lt_from(a, b, 0)
}

/// Precedence of single pre-release identifiers: numeric before
/// alphanumeric; numeric against numeric by value (valid identifiers carry
/// no leading zero, so by length, then lexically); alphanumeric against
/// alphanumeric lexically in ASCII order.
pub open spec fn id_lt(a: Seq<u8>, b: Seq<u8>) -> bool {
    if all_digits(a) && all_digits(b) {
        a.len() < b.len() || (a.len() == b.len() && bytes_lt(a, b))
    } else if all_digits(a) {
        true
    } else if all_digits(b) {
        false
    } else {
        bytes_lt(a, b)
    }
}

/// Precedence of identifier lists, read from position `i` on: identifier by
/// identifier, a shorter list preceding a longer one that it prefixes.
pub open spec fn ids_lt_from(a: Seq<Seq<u8>>, b: Seq<Seq<u8>>, i: int) -> bool
    decreases b.len() - i,
{
    if i >= b.len() {
        false
    } else if i >= a.len() {
        true
    } else if id_lt(a[i], b[i]) {
        true
    } else if id_lt(b[i], a[i]) {
        false
    } else {
        ids_lt_from(a, b, i + 1)
    }
}

/// Strict semantic-version precedence.
pub open spec fn version_lt(a: VersionView, b: VersionView) -> bool {
    if a.major != b.major {
        a.major < b.major
    } else if a.minor != b.minor {
        a.minor < b.minor
    } else if a.patch != b.patch {
        a.patch < b.patch
    } else if a.pre.len() == 0 {
        false
    } else if b.pre.len() == 0 {
        true
    } else {
        ids_lt_from(a.pre, b.pre, 0)
    }
}

/// Non-strict semantic-version precedence.
pub open spec fn version_le(a: VersionView, b: VersionView) -> bool {
    !version_lt(b, a)
}

pub proof fn lemma_bytes_lt_irrefl(a: Seq<u8>, i: int)
    ensures
        !bytes_lt_from(a, a, i),
    decreases a.len() - i,
{
    if i < a.len() {
        lemma_bytes_lt_irrefl(a, i + 1);
    }
}

pub proof fn lemma_bytes_lt_connex(a: Seq<u8>, b: Seq<u8>, i: int)
    requires
        0 <= i <= a.len(),
        i <= b.len(),
        !bytes_lt_from(a, b, i),
        !bytes_lt_from(b, a, i),
    ensures
        a.len() == b.len(),
        forall|j: int| i <= j < a.len() ==> a[j] == b[j],
    decreases a.len() - i,
{
    if i < a.len() && i < b.len() {
        lemma_bytes_lt_connex(a, b, i + 1);
    }
}

pub proof fn lemma_bytes_lt_trans(a: Seq<u8>, b: Seq<u8>, c: Seq<u8>, i: int)
    requires
        0 <= i,
        bytes_lt_from(a, b, i),
        bytes_lt_from(b, c, i),
    ensures
        bytes_lt_from(a, c, i),
    decreases c.len() - i,
{
    if i < a.len() && i < b.len() && i < c.len() && a[i] == b[i] && b[i] == c[i] {
        lemma_bytes_lt_trans(a, b, c, i + 1);
    }
}

pub proof fn lemma_id_lt_irrefl(a: Seq<u8>)
    ensures
        !id_lt(a, a),
{
    lemma_bytes_lt_irrefl(a, 0);
}

pub proof fn lemma_id_lt_connex(a: Seq<u8>, b: Seq<u8>)
    requires
        !id_lt(a, b),
        !id_lt(b, a),
    ensures
        a == b,
{
    lemma_bytes_lt_connex(a, b, 0);
    assert(a =~= b);
}

pub proof fn lemma_id_lt_trans(a: Seq<u8>, b: Seq<u8>, c: Seq<u8>)
    requires
        id_lt(a, b),
        id_lt(b, c),
    ensures
        id_lt(a, c),
{
    if all_digits(a) && all_digits(b) && all_digits(c) && a.len() == b.len() && b.len() == c.len() {
        lemma_bytes_lt_trans(a, b, c, 0);
    }
    if !all_digits(a) && !all_digits(b) && !all_digits(c) {
        lemma_bytes_lt_trans(a, b, c, 0);
    }
}

pub proof fn lemma_ids_lt_irrefl(a: Seq<Seq<u8>>, i: int)
    ensures
        !ids_lt_from(a, a, i),
    decreases a.len() - i,
{
    if i < a.len() {
        lemma_id_lt_irrefl(a[i]);
        lemma_ids_lt_irrefl(a, i + 1);
    }
}

pub proof fn lemma_ids_lt_connex(a: Seq<Seq<u8>>, b: Seq<Seq<u8>>, i: int)
    requires
        0 <= i <= a.len(),
        i <= b.len(),
        !ids_lt_from(a, b, i),
        !ids_lt_from(b, a, i),
    ensures
        a.len() == b.len(),
        forall|j: int| i <= j < a.len() ==> a[j] == b[j],
    decreases a.len() - i,
{
    if i < a.len() && i < b.len() {
        lemma_id_lt_connex(a[i], b[i]);
        lemma_ids_lt_connex(a, b, i + 1);
    }
}

pub proof fn lemma_ids_lt_trans(a: Seq<Seq<u8>>, b: Seq<Seq<u8>>, c: Seq<Seq<u8>>, i: int)
    requires
        0 <= i,
        ids_lt_from(a, b, i),
        ids_lt_from(b, c, i),
    ensures
        ids_lt_from(a, c, i),
    decreases c.len() - i,
{
    if i < a.len() && i < b.len() && i < c.len() {
        if !id_lt(a[i], b[i]) && !id_lt(b[i], a[i]) {
            lemma_id_lt_connex(a[i], b[i]);
        }
        if !id_lt(b[i], c[i]) && !id_lt(c[i], b[i]) {
            lemma_id_lt_connex(b[i], c[i]);
        }
        if id_lt(a[i], b[i]) && id_lt(b[i], c[i]) {
            lemma_id_lt_trans(a[i], b[i], c[i]);
        }
        if a[i] == b[i] && b[i] == c[i] {
            lemma_id_lt_irrefl(a[i]);
            lemma_ids_lt_trans(a, b, c, i + 1);
        }
    }
}

/// Precedence is irreflexive: no version precedes itself.
pub proof fn lemma_version_lt_irrefl(a: VersionView)
    ensures
        !version_lt(a, a),
{
    if a.pre.len() > 0 {
        lemma_ids_lt_irrefl(a.pre, 0);
    }
}

/// Precedence is connex: two versions neither of which precedes the other
/// are equal.
pub proof fn lemma_version_lt_connex(a: VersionView, b: VersionView)
    requires
        !version_lt(a, b),
        !version_lt(b, a),
    ensures
        a == b,
{
    if a.pre.len() > 0 && b.pre.len() > 0 {
        lemma_ids_lt_connex(a.pre, b.pre, 0);
    }
    assert(a.pre =~= b.pre);
    assert(a =~= b);
}

/// Precedence is transitive.
pub proof fn lemma_version_lt_trans(a: VersionView, b: VersionView, c: VersionView)
    requires
        version_lt(a, b),
        version_lt(b, c),
    ensures
        version_lt(a, c),
{
    if a.major == c.major && a.minor == c.minor && a.patch == c.patch && a.pre.len() > 0
        && b.pre.len() > 0 && c.pre.len() > 0 {
        lemma_ids_lt_trans(a.pre, b.pre, c.pre, 0);
    }
}

/// `version_le` is transitive.
pub proof fn lemma_version_le_trans(a: VersionView, b: VersionView, c: VersionView)
    requires
        version_le(a, b),
        version_le(b, c),
    ensures
        version_le(a, c),
{
    if version_lt(c, a) {
        if version_lt(a, b) {
            lemma_version_lt_trans(c, a, b);
        } else {
            lemma_version_lt_connex(a, b);
        }
    }
}

/// Precedence is asymmetric: a strictly preceding version also weakly
/// precedes.
pub proof fn lemma_version_lt_asym(a: VersionView, b: VersionView)
    requires
        version_lt(a, b),
    ensures
        version_le(a, b),
{
    if version_lt(b, a) {
        lemma_version_lt_trans(a, b, a);
        lemma_version_lt_irrefl(a);
    }
}

/// A strict step followed by a non-strict one stays strict.
pub proof fn lemma_version_lt_le_trans(a: VersionView, b: VersionView, c: VersionView)
    requires
        version_lt(a, b),
        version_le(b, c),
    ensures
        version_lt(a, c),
{
    if !version_lt(a, c) {
        if version_lt(c, a) {
            lemma_version_lt_trans(c, a, b);
        } else {
            lemma_version_lt_connex(a, c);
        }
    }
}

/// Whether every byte of `id` is an ASCII decimal digit.
pub fn id_is_numeric(id: &Vec<u8>) -> (r: bool)
    ensures
        r == all_digits(id@),
{
    let mut i: usize = 0;
    loop
        invariant
            i <= id.len(),
            forall|j: int| 0 <= j < i ==> is_digit(#[trigger] id@[j]),
        decreases id.len() - i,
    {
        if i >= id.len() {
            return true;
        }
        let b = id[i];
        if b < 48 || b > 57 {
            assert(!is_digit(id@[i as int]));
            return false;
        }
        i = i + 1;
    }
}

/// Whether `a` comes before `b` in lexicographic ASCII byte order.
pub fn bytes_precede(a: &Vec<u8>, b: &Vec<u8>) -> (r: bool)
    ensures
        r == bytes_lt(a@, b@),
{
    let mut i: usize = 0;
    loop
        invariant
            i <= a.len(),
            i <= b.len(),
            bytes_lt(a@, b@) == bytes_lt_from(a@, b@, i as int),
        decreases b.len() - i,
    {
        if i >= b.len() {
            return false;
        }
        if i >= a.len() {
            return true;
        }
        if a[i] < b[i] {
            return true;
        }
        if a[i] > b[i] {
            return false;
        }
        assert(bytes_lt_from(a@, b@, i as int) == bytes_lt_from(a@, b@, i + 1));
        i = i + 1;
    }
}

/// Whether identifier `a` precedes identifier `b`.
pub fn id_precedes(a: &Vec<u8>, b: &Vec<u8>) -> (r: bool)
    ensures
        r == id_lt(a@, b@),
{
    let a_num = id_is_numeric(a);
    let b_num = id_is_numeric(b);
    if a_num && b_num {
        if a.len() != b.len() {
            a.len() < b.len()
        } else {
            bytes_precede(a, b)
        }
    } else if a_num {
        true
    } else if b_num {
        false
    } else {
        bytes_precede(a, b)
    }
}

impl Version {
    /// Whether `self` strictly precedes `other` in semantic-version
    /// precedence.
    pub fn precedes(&self, other: &Version) -> (r: bool)
        ensures
            r == version_lt(self@, other@),
    {
        if self.major != other.major {
            return self.major < other.major;
        }
        if self.minor != other.minor {
            return self.minor < other.minor;
        }
        if self.patch != other.patch {
            return self.patch < other.patch;
        }
        if self.pre.len() == 0 {
            return false;
        }
        if other.pre.len() == 0 {
            return true;
        }
        let mut i: usize = 0;
        loop
            invariant
                i <= self.pre.len(),
                i <= other.pre.len(),
                self@.pre.len() > 0,
                other@.pre.len() > 0,
                version_lt(self@, other@) == ids_lt_from(self@.pre, other@.pre, i as int),
            decreases other.pre.len() - i,
        {
            if i >= other.pre.len() {
                return false;
            }
            if i >= self.pre.len() {
                return true;
            }
            assert(self@.pre[i as int] == self.pre[i as int]@);
            assert(other@.pre[i as int] == other.pre[i as int]@);
            if id_precedes(&self.pre[i], &other.pre[i]) {
                return true;
            }
            if id_precedes(&other.pre[i], &self.pre[i]) {
                return false;
            }
            assert(ids_lt_from(self@.pre, other@.pre, i as int) == ids_lt_from(
                self@.pre,
                other@.pre,
                i + 1,
            ));
            i = i + 1;
        }
    }

    /// Whether `self` and `other` are the same version.
    pub fn same_as(&self, other: &Version) -> (r: bool)
        ensures
            r == (self@ == other@),
    {
        let lt = self.precedes(other);
        let gt = other.precedes(self);
        proof {
            if !version_lt(self@, other@) && !version_lt(other@, self@) {
                lemma_version_lt_connex(self@, other@);
            }
            if self@ == other@ {
                lemma_version_lt_irrefl(self@);
            }
        }
        !lt && !gt
    }
}

/// Copies a byte string.
pub fn clone_bytes(v: &Vec<u8>) -> (r: Vec<u8>)
    ensures
        r@ == v@,
{
    let mut r: Vec<u8> = Vec::new();
    let mut i: usize = 0;
    loop
        invariant
            i <= v.len(),
            r@ == v@.take(i as int),
        decreases v.len() - i,
    {
        if i >= v.len() {
            assert(v@.take(v@.len() as int) =~= v@);
            return r;
        }
        r.push(v[i]);
        assert(r@ =~= v@.take(i + 1));
        i = i + 1;
    }
}

/// Copies an identifier list.
pub fn clone_ids(v: &Vec<Vec<u8>>) -> (r: Vec<Vec<u8>>)
    ensures
        ids_view(r) == ids_view(*v),
{
    let mut r: Vec<Vec<u8>> = Vec::new();
    let mut i: usize = 0;
    loop
        invariant
            i <= v.len(),
            r@.len() == i,
            forall|j: int| 0 <= j < i ==> #[trigger] r@[j]@ == v@[j]@,
        decreases v.len() - i,
    {
        if i >= v.len() {
            assert(ids_view(r) =~= ids_view(*v));
            return r;
        }
        let c = clone_bytes(&v[i]);
        r.push(c);
        i = i + 1;
    }
}

impl Clone for Version {
    /// The copy has the same value.
    fn clone(&self) -> (r: Self)
        ensures
            r@ == self@,
    {
        let r = Version {
            major: self.major,
            minor: self.minor,
            patch: self.patch,
            pre: clone_ids(&self.pre),
        };
        proof {
            assert(r@ =~= self@);
        }
        r
    }
}

} // verus!
