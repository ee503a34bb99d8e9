//! A version of the form `major.minor.patch`, optionally refined by a
//! numeric build number that acts as a tiebreaker in comparisons.

use vstd::prelude::*;

use core::cmp::Ordering;

use crate::digits::append_dec;
use crate::digits::dec_seq;
use crate::digits::dec_val;
use crate::digits::is_number;
use crate::digits::lemma_dec_seq_len;
use crate::digits::parse_dec;
use crate::parse::ParseError;

verus! {

/// A version consisting of major, minor, patch, and an optional build
/// number. All fields are plain and may be read or written directly;
/// comparisons and formatting always see the current field values.
#[derive(Debug)]
pub struct Version {
    /// The major version component.
    pub major: u32,
    /// The minor version component.
    pub minor: u32,
    /// The patch version component.
    pub patch: u32,
    /// The optional build number.
    pub build: Option<u32>,
}

/// How two numbers compare.
pub open spec fn num_cmp(x: int, y: int) -> Ordering {
    if x < y {
        Ordering::Less
    } else if x > y {
        Ordering::Greater
    } else {
        Ordering::Equal
    }
}

/// How two optional build numbers compare: an absent build number is
/// strictly less than any present one, and two present ones compare by
/// their numeric value.
pub open spec fn build_cmp(x: Option<u32>, y: Option<u32>) -> Ordering {
    match (x, y) {
        (Option::None, Option::None) => Ordering::Equal,
        (Option::None, Option::Some(_)) => Ordering::Less,
        (Option::Some(_), Option::None) => Ordering::Greater,
        (Option::Some(m), Option::Some(n)) => num_cmp(m as int, n as int),
    }
}

/// How two versions compare: lexicographically on (major, minor, patch),
/// then on the optional build number.
pub open spec fn version_cmp(a: Version, b: Version) -> Ordering {
    if a.major != b.major {
        num_cmp(a.major as int, b.major as int)
    } else if a.minor != b.minor {
        num_cmp(a.minor as int, b.minor as int)
    } else if a.patch != b.patch {
        num_cmp(a.patch as int, b.patch as int)
    } else {
        build_cmp(a.build, b.build)
    }
}

/// Whether `a` sorts strictly before `b`.
pub open spec fn version_lt(a: Version, b: Version) -> bool {
    version_cmp(a, b) == Ordering::Less
}

/// Whether the fields of `a` and `b` are equal.
pub open spec fn version_eq(a: Version, b: Version) -> bool {
    a.major == b.major && a.minor == b.minor && a.patch == b.patch && a.build == b.build
}

/// The text form of a version: `"major.minor.patch"`, with `"+build"`
/// appended when a build number is present.
pub open spec fn version_text(v: Version) -> Seq<char> {
    dec_seq(v.major as nat) + seq!['.'] + dec_seq(v.minor as nat) + seq!['.'] + dec_seq(
        v.patch as nat,
    ) + match v.build {
        Option::None => Seq::<char>::empty(),
        Option::Some(b) => seq!['+'] + dec_seq(b as nat),
    }
}

impl Version {
    /// Creates a new `Version` without a build number.
    pub fn new(major: u32, minor: u32, patch: u32) -> (r: Version)
        ensures
            r.major == major,
            r.minor == minor,
            r.patch == patch,
            r.build is None,
    {
        Version { major, minor, patch, build: None }
    }

    /// Adds a build number to the existing version value and returns it,
    /// overwriting any build number that was set before.
    pub fn build(self, build: u32) -> (r: Version)
        ensures
            r.major == self.major,
            r.minor == self.minor,
            r.patch == self.patch,
            r.build == Some(build),
    {
        Version { build: Some(build), ..self }
    }

    /// Writes the version as text: `"major.minor.patch"`, with `"+build"`
    /// appended when a build number is present.
    pub fn to_text(&self) -> (r: String)
        ensures
            r@ == version_text(*self),
    {
        proof {
            reveal_strlit(".");
            reveal_strlit("+");
            assert((".")@ =~= seq!['.']);
            assert(("+")@ =~= seq!['+']);
        }
        let mut s = String::new();
        append_dec(&mut s, self.major as u64);
        s.append(".");
        append_dec(&mut s, self.minor as u64);
        s.append(".");
        append_dec(&mut s, self.patch as u64);
        if let Some(b) = self.build {
            s.append("+");
            append_dec(&mut s, b as u64);
        }
        proof {
            assert(s@ =~= version_text(*self));
        }
        s
    }
}

impl PartialEq for Version {
    /// Two versions are equal when all four fields are equal.
    fn eq(&self, other: &Version) -> (r: bool) {
        self.major == other.major && self.minor == other.minor && self.patch == other.patch
            && self.build == other.build
    }
}

impl vstd::std_specs::cmp::PartialEqSpecImpl for Version {
    open spec fn obeys_eq_spec() -> bool {
        true
    }

    open spec fn eq_spec(&self, other: &Version) -> bool {
        version_eq(*self, *other)
    }
}

impl PartialOrd for Version {
    /// Versions compare lexicographically on (major, minor, patch), then
    /// on the build number, an absent build number sorting below any
    /// present one.
    fn partial_cmp(&self, other: &Version) -> (r: Option<Ordering>) {
        if self.major != other.major {
            if self.major < other.major {
                Some(Ordering::Less)
            } else {
                Some(Ordering::Greater)
            }
        } else if self.minor != other.minor {
            if self.minor < other.minor {
                Some(Ordering::Less)
            } else {
                Some(Ordering::Greater)
            }
        } else if self.patch != other.patch {
            if self.patch < other.patch {
                Some(Ordering::Less)
            } else {
                Some(Ordering::Greater)
            }
        } else {
            match (self.build, other.build) {
                (None, None) => Some(Ordering::Equal),
                (None, Some(_)) => Some(Ordering::Less),
                (Some(_), None) => Some(Ordering::Greater),
                (Some(m), Some(n)) => {
                    if m < n {
                        Some(Ordering::Less)
                    } else if m > n {
                        Some(Ordering::Greater)
                    } else {
                        Some(Ordering::Equal)
                    }
                },
            }
        }
    }
}

impl vstd::std_specs::cmp::PartialOrdSpecImpl for Version {
    open spec fn obeys_partial_cmp_spec() -> bool {
        true
    }

    open spec fn partial_cmp_spec(&self, other: &Version) -> Option<Ordering> {
        Some(version_cmp(*self, *other))
    }
}

/// The comparison of versions is a strict total order: no version sorts
/// before itself, two versions each sorting before the other is
/// impossible, sorting before is transitive, and any two versions either
/// compare equal in all fields or one sorts strictly before the other.
pub proof fn lemma_version_order_strict_total(a: Version, b: Version, c: Version)
    ensures
        !version_lt(a, a),
        version_lt(a, b) ==> !version_lt(b, a),
        version_lt(a, b) && version_lt(b, c) ==> version_lt(a, c),
        version_lt(a, b) || version_lt(b, a) || version_eq(a, b),
{
}

/// A version without a build number formats differently from the same
/// numeric triple with any build number, the build number zero included:
/// presence, not value, drives the `+` suffix.
pub proof fn lemma_build_presence_distinguishes(a: Version, b: Version)
    requires
        a.build is None,
        b.build is Some,
    ensures
        version_text(a) != version_text(b),
{
    lemma_dec_seq_len(a.major as nat);
    lemma_dec_seq_len(a.minor as nat);
    lemma_dec_seq_len(a.patch as nat);
    lemma_dec_seq_len(b.major as nat);
    lemma_dec_seq_len(b.minor as nat);
    lemma_dec_seq_len(b.patch as nat);
    lemma_dec_seq_len(b.build->0 as nat);
    let plus = version_text(b).len() - 1 - dec_seq(b.build->0 as nat).len();
    assert(version_text(b)[plus] == '+');
    if version_text(a) == version_text(b) {
        assert(version_text(a)[plus] == '+');
        lemma_text_no_plus(a, plus);
    }
}

/// The text of a version without a build number holds no `+` character.
proof fn lemma_text_no_plus(a: Version, i: int)
    requires
        a.build is None,
        0 <= i < version_text(a).len(),
    ensures
        version_text(a)[i] != '+',
{
    lemma_dec_seq_digits(a.major as nat);
    lemma_dec_seq_digits(a.minor as nat);
    lemma_dec_seq_digits(a.patch as nat);
}

/// A decimal writing holds only digit characters.
proof fn lemma_dec_seq_digits(n: nat)
    ensures
        crate::digits::all_digits(dec_seq(n)),
    decreases n,
{
    if n >= 10 {
        lemma_dec_seq_digits(n / 10);
        assert forall|i: int| 0 <= i < dec_seq(n).len() implies crate::digits::is_digit(
            #[trigger] dec_seq(n)[i],
        ) by {
            if i < dec_seq(n / 10).len() {
                assert(dec_seq(n)[i] == dec_seq(n / 10)[i]);
            }
        }
    }
}

/// Assembles a `Version` from three separately-supplied numeric strings,
/// such as a build system's own declared major, minor, and patch numbers.
/// Fails with `ParseError` exactly when a string is empty, holds a
/// non-digit character, or writes a value that does not fit in 32 bits.
pub fn version_from_pkg(major: &str, minor: &str, patch: &str) -> (r: Result<Version, ParseError>)
    ensures
        r is Ok <==> is_number(major@) && dec_val(major@) <= u32::MAX && is_number(minor@)
            && dec_val(minor@) <= u32::MAX && is_number(patch@) && dec_val(patch@) <= u32::MAX,
        r is Ok ==> r->Ok_0.major == dec_val(major@) && r->Ok_0.minor == dec_val(minor@)
            && r->Ok_0.patch == dec_val(patch@) && r->Ok_0.build is None,
{
    let ma = match parse_dec(major, 0xFFFF_FFFF) {
        Some(x) => x,
        None => {
            return Err(ParseError);
        },
    };
    let mi = match parse_dec(minor, 0xFFFF_FFFF) {
        Some(x) => x,
        None => {
            return Err(ParseError);
        },
    };
    let pa = match parse_dec(patch, 0xFFFF_FFFF) {
        Some(x) => x,
        None => {
            return Err(ParseError);
        },
    };
    Ok(Version::new(ma as u32, mi as u32, pa as u32))
}

} // verus!
