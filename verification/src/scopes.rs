//! Scope sets: fixed-width bitsets of named OAuth capabilities.
//!
//! A scope names a capability an OAuth client may request on behalf of a
//! user. A `Scopes` value is a 64-bit set of such capabilities. Encoding to
//! and from the storage integer round-trips exactly: bits that no named
//! capability uses yet are preserved verbatim, so a value written by a future
//! revision with more named scopes survives a read-modify-write cycle here.

use vstd::prelude::*;

verus! {

/// Capability: read projects.
pub const SCOPE_PROJECT_READ: u64 = 1u64 << 0;

/// Capability: create projects.
pub const SCOPE_PROJECT_CREATE: u64 = 1u64 << 1;

/// Capability: edit projects.
pub const SCOPE_PROJECT_WRITE: u64 = 1u64 << 2;

/// Capability: delete projects.
pub const SCOPE_PROJECT_DELETE: u64 = 1u64 << 3;

/// Capability: read versions.
pub const SCOPE_VERSION_READ: u64 = 1u64 << 4;

/// Capability: create versions.
pub const SCOPE_VERSION_CREATE: u64 = 1u64 << 5;

/// Capability: edit versions.
pub const SCOPE_VERSION_WRITE: u64 = 1u64 << 6;

/// Capability: delete versions.
pub const SCOPE_VERSION_DELETE: u64 = 1u64 << 7;

/// Capability: read the user's public profile.
pub const SCOPE_USER_READ: u64 = 1u64 << 8;

/// Capability: read the user's email address.
pub const SCOPE_USER_READ_EMAIL: u64 = 1u64 << 9;

/// Capability: edit the user's profile.
pub const SCOPE_USER_WRITE: u64 = 1u64 << 10;

/// A set of scopes, one bit per capability.
///
/// Bits above the named capabilities are not interpreted, but they are kept:
/// every operation below states exactly which bits of its result are set.
#[derive(Clone, Copy, PartialEq, Eq, Structural, Debug, Hash)]
pub struct Scopes(pub u64);

impl Scopes {
    /// The empty scope set.
    pub fn none() -> (r: Scopes)
        ensures
            r.0 == 0,
    {
        Scopes(0)
    }

    /// Whether every scope of `other` is also in `self`.
    pub open spec fn spec_contains_all(self, other: Scopes) -> bool {
        self.0 & other.0 == other.0
    }

    /// Whether bit `i` of the set is set.
    pub open spec fn spec_bit(self, i: u64) -> bool {
        self.0 >> i & 1 == 1
    }

    /// Whether every scope of `other` is also in `self`.
    pub fn contains_all(&self, other: &Scopes) -> (r: bool)
        ensures
            r == self.spec_contains_all(*other),
    {
        self.0 & other.0 == other.0
    }

    /// The scopes present in `self` or in `other`.
    pub fn union(&self, other: &Scopes) -> (r: Scopes)
        ensures
            r.0 == self.0 | other.0,
    {
        Scopes(self.0 | other.0)
    }

    /// The scopes present both in `self` and in `other`.
    ///
    /// Used to clamp a requested scope set to a client's ceiling.
    pub fn intersect(&self, other: &Scopes) -> (r: Scopes)
        ensures
            r.0 == self.0 & other.0,
    {
        Scopes(self.0 & other.0)
    }

    /// The scopes present in `self` but not in `other`.
    pub fn difference(&self, other: &Scopes) -> (r: Scopes)
        ensures
            r.0 == self.0 & !other.0,
    {
        Scopes(self.0 & !other.0)
    }

    /// Whether `self` is a subset of `other`.
    pub fn is_subset_of(&self, other: &Scopes) -> (r: bool)
        ensures
            r == other.spec_contains_all(*self),
    {
        other.0 & self.0 == self.0
    }

    /// Encoding of the set for storage: the bit pattern, reinterpreted as a
    /// signed 64-bit column value.
    pub fn to_postgres(&self) -> (r: i64)
        ensures
            r == self.spec_to_postgres(),
    {
        self.0 as i64
    }

    /// The storage encoding of the set.
    pub open spec fn spec_to_postgres(self) -> i64 {
        self.0 as i64
    }

    /// Decoding of a stored column value: the bit pattern, reinterpreted as a
    /// set. All 64 bits are kept, named or not.
    pub fn from_postgres(value: i64) -> (r: Scopes)
        ensures
            r == Scopes::spec_from_postgres(value),
    {
        Scopes(value as u64)
    }

    /// The set decoded from a storage value.
    pub open spec fn spec_from_postgres(value: i64) -> Scopes {
        Scopes(value as u64)
    }
}

/// Encoding then decoding a scope set gives the set back, for every bit
/// pattern: unknown high bits are preserved verbatim.
pub proof fn lemma_scopes_encode_round_trip(s: Scopes)
    ensures
        Scopes::spec_from_postgres(s.spec_to_postgres()) == s,
{
    let x = s.0;
    assert(x as i64 as u64 == x) by (bit_vector);
}

/// Decoding then encoding a storage value gives the value back.
pub proof fn lemma_scopes_decode_round_trip(value: i64)
    ensures
        Scopes::spec_from_postgres(value).spec_to_postgres() == value,
{
    let v = value;
    assert(v as u64 as i64 == v) by (bit_vector);
}

/// A union contains both of its operands.
pub proof fn lemma_union_contains_operands(a: Scopes, b: Scopes)
    ensures
        Scopes(a.0 | b.0).spec_contains_all(a),
        Scopes(a.0 | b.0).spec_contains_all(b),
{
    let x = a.0;
    let y = b.0;
    assert((x | y) & x == x && (x | y) & y == y) by (bit_vector);
}

/// Clamping a request to a ceiling by intersection always yields a subset of
/// the ceiling, whatever was requested.
pub proof fn lemma_intersection_is_subset(requested: Scopes, ceiling: Scopes)
    ensures
        ceiling.spec_contains_all(Scopes(requested.0 & ceiling.0)),
{
    let r = requested.0;
    let c = ceiling.0;
    assert(c & (r & c) == r & c) by (bit_vector);
}

} // verus!
