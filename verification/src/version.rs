//! Class file format versions and the rule that orders them.

use vstd::prelude::*;

verus! {

/// The version of the class file format that a class file declares.
///
/// A version is written `major.minor`, and versions are ordered
/// lexicographically: `1.5 < 2.0 < 2.1`.
///
/// | Java SE | class file versions     |
/// | :-----: | :---------------------: |
/// | 1.0.2   | 45.0 <= v <= 45.3       |
/// | 1.1     | 45.0 <= v <= 45.65535   |
/// | 1.2     | 45.0 <= v <= 46.0       |
/// | 1.3     | 45.0 <= v <= 47.0       |
/// | 1.4     | 45.0 <= v <= 48.0       |
/// | 5.0     | 45.0 <= v <= 49.0       |
/// | 6       | 45.0 <= v <= 50.0       |
/// | 7       | 45.0 <= v <= 51.0       |
/// | 8       | 45.0 <= v <= 52.0       |
/// | 9       | 45.0 <= v <= 53.0       |
/// | 10      | 45.0 <= v <= 54.0       |
/// | 11      | 45.0 <= v <= 55.0       |
#[derive(Debug, Copy, Clone, PartialEq, Eq, Structural)]
pub struct ClassFileVersion {
    /// The major number of this version.
    pub major: u16,
    /// The minor number of this version.
    pub minor: u16,
}

impl ClassFileVersion {
    /// The position of this version in the lexicographic order: versions
    /// compare as their ranks do.
    pub open spec fn rank(self) -> int {
        self.major * 0x1_0000 + self.minor
    }

    /// Whether a decoder for `self` accepts a class file of version `other`:
    /// `other` is not later than `self`.
    pub open spec fn spec_supports(&self, other: Self) -> bool {
        other.major < self.major || (other.major == self.major && other.minor <= self.minor)
    }

    /// The version `major.minor`. Every pair is a version.
    pub fn new(major: u16, minor: u16) -> (v: Self)
        ensures
            v.major == major,
            v.minor == minor,
    {
        ClassFileVersion { minor, major }
    }

    /// The latest version that this decoder accepts, `55.0`.
    pub open spec fn spec_latest() -> Self {
        ClassFileVersion { major: 55, minor: 0 }
    }

    /// The latest version that this decoder accepts, `55.0`.
    #[verifier::when_used_as_spec(spec_latest)]
    pub fn latest() -> (v: Self)
        ensures
            v == Self::spec_latest(),
    {
        Self::new(55, 0)
    }

    /// Whether `other` is supported by `self`, that is whether `other` is
    /// lexicographically at most `self`.
    #[verifier::when_used_as_spec(spec_supports)]
    pub fn supports(&self, other: Self) -> (b: bool)
        ensures
            b == self.spec_supports(other),
    {
        other.major < self.major || (other.major == self.major && other.minor <= self.minor)
    }
}

/// Every version supports itself.
pub proof fn supports_reflexive(v: ClassFileVersion)
    ensures
        v.supports(v),
{
}

/// `supports` is the lexicographic order on `(major, minor)`: a version
/// supports exactly the versions whose rank is at most its own.
pub proof fn supports_is_lexicographic(v: ClassFileVersion, w: ClassFileVersion)
    ensures
        v.supports(w) <==> w.rank() <= v.rank(),
{
}

/// Of two versions, one supports the other.
pub proof fn supports_total(v: ClassFileVersion, w: ClassFileVersion)
    ensures
        v.supports(w) || w.supports(v),
{
}

/// Two versions that support each other are the same version.
pub proof fn supports_antisymmetric(v: ClassFileVersion, w: ClassFileVersion)
    requires
        v.supports(w),
        w.supports(v),
    ensures
        v == w,
{
}

/// What a supported version supports, the supporting version supports too.
pub proof fn supports_transitive(a: ClassFileVersion, b: ClassFileVersion, c: ClassFileVersion)
    requires
        a.supports(b),
        b.supports(c),
    ensures
        a.supports(c),
{
}

} // verus!
