//! A version of the form `major.minor.patch` refined by a maturity
//! qualifier: a finalized release, or a numbered beta or alpha pre-release.

use vstd::prelude::*;

use core::cmp::Ordering;

use crate::digits::append_dec;
use crate::digits::dec_seq;
use crate::digits::dec_val;
use crate::digits::is_number;
use crate::parse::ParseError;
use crate::parse::find_dot;
use crate::parse::lemma_split_dots_dot;
use crate::parse::lemma_split_dots_has_dot;
use crate::parse::lemma_split_dots_nodot;
use crate::parse::split_dots;
use crate::version::num_cmp;

verus! {

/// The maturity qualifier of a [`TaggedVersion`]: exactly one of a
/// finalized release, a numbered beta, or a numbered alpha.
#[derive(Clone, Copy, Debug, PartialEq, Eq, Structural)]
pub enum VersionType {
    /// A finalized release; outranks any pre-release of the same triple.
    Release,
    /// A beta pre-release with its sequence number.
    Beta(u16),
    /// An alpha pre-release with its sequence number.
    Alpha(u16),
}

/// The rank of a qualifier kind: a finalized release outranks any beta,
/// and any beta outranks any alpha, regardless of their numbers.
pub open spec fn type_rank(t: VersionType) -> int {
    match t {
        VersionType::Alpha(_) => 0,
        VersionType::Beta(_) => 1,
        VersionType::Release => 2,
    }
}

/// The sequence number of a qualifier; a release carries none.
pub open spec fn type_num(t: VersionType) -> int {
    match t {
        VersionType::Release => 0,
        VersionType::Beta(n) => n as int,
        VersionType::Alpha(n) => n as int,
    }
}

/// How two qualifiers compare: by kind first, then, between two
/// qualifiers of the same kind, by their sequence numbers.
pub open spec fn type_cmp(x: VersionType, y: VersionType) -> Ordering {
    if type_rank(x) != type_rank(y) {
        num_cmp(type_rank(x), type_rank(y))
    } else {
        num_cmp(type_num(x), type_num(y))
    }
}

/// How two tagged versions compare: lexicographically on (major, minor,
/// patch), then by the qualifier.
pub open spec fn tagged_cmp(a: TaggedVersion, b: TaggedVersion) -> Ordering {
    if a.major != b.major {
        num_cmp(a.major as int, b.major as int)
    } else if a.minor != b.minor {
        num_cmp(a.minor as int, b.minor as int)
    } else if a.patch != b.patch {
        num_cmp(a.patch as int, b.patch as int)
    } else {
        type_cmp(a.version_type, b.version_type)
    }
}

/// Whether `a` sorts strictly before `b`.
pub open spec fn tagged_lt(a: TaggedVersion, b: TaggedVersion) -> bool {
    tagged_cmp(a, b) == Ordering::Less
}

/// Whether the fields of `a` and `b` are equal.
pub open spec fn tagged_eq(a: TaggedVersion, b: TaggedVersion) -> bool {
    a.major == b.major && a.minor == b.minor && a.patch == b.patch && a.version_type
        == b.version_type
}

/// The text form of a qualifier: `"-release"`, `"-beta"`, or `"-alpha"`,
/// with the sequence number appended directly when it is above zero.
pub open spec fn qualifier_text(t: VersionType) -> Seq<char> {
    match t {
        VersionType::Release => seq!['-', 'r', 'e', 'l', 'e', 'a', 's', 'e'],
        VersionType::Beta(n) => if n == 0 {
            seq!['-', 'b', 'e', 't', 'a']
        } else {
            seq!['-', 'b', 'e', 't', 'a'] + dec_seq(n as nat)
        },
        VersionType::Alpha(n) => if n == 0 {
            seq!['-', 'a', 'l', 'p', 'h', 'a']
        } else {
            seq!['-', 'a', 'l', 'p', 'h', 'a'] + dec_seq(n as nat)
        },
    }
}

/// The text form of a tagged version: `"vmajor.minor.patch"` followed by
/// the qualifier text.
pub open spec fn tagged_text(v: TaggedVersion) -> Seq<char> {
    seq!['v'] + dec_seq(v.major as nat) + seq!['.'] + dec_seq(v.minor as nat) + seq!['.'] + dec_seq(
        v.patch as nat,
    ) + qualifier_text(v.version_type)
}

/// Whether `s` is a well-formed package version string: exactly three
/// dot-separated parts, each a non-negative integer that fits in 16 bits.
pub open spec fn pkg_valid(s: Seq<char>) -> bool {
    &&& split_dots(s).len() == 3
    &&& is_number(split_dots(s)[0]) && dec_val(split_dots(s)[0]) <= u16::MAX
    &&& is_number(split_dots(s)[1]) && dec_val(split_dots(s)[1]) <= u16::MAX
    &&& is_number(split_dots(s)[2]) && dec_val(split_dots(s)[2]) <= u16::MAX
}

/// A version consisting of major, minor, patch, and a maturity qualifier.
/// All fields are plain and may be read or written directly; comparisons
/// and formatting always see the current field values.
#[derive(Debug)]
pub struct TaggedVersion {
    /// The major version component.
    pub major: u16,
    /// The minor version component.
    pub minor: u16,
    /// The patch version component.
    pub patch: u16,
    /// The maturity qualifier; `Release` unless a tagging call set another.
    pub version_type: VersionType,
}

impl TaggedVersion {
    /// Creates a new `TaggedVersion` with the `Release` qualifier.
    pub fn new(major: u16, minor: u16, patch: u16) -> (r: TaggedVersion)
        ensures
            r.major == major,
            r.minor == minor,
            r.patch == patch,
            r.version_type == VersionType::Release,
    {
        TaggedVersion { major, minor, patch, version_type: VersionType::Release }
    }

    /// Sets the qualifier to `Release`, discarding any alpha or beta number,
    /// and returns the updated value.
    pub fn release(self) -> (r: TaggedVersion)
        ensures
            r.major == self.major,
            r.minor == self.minor,
            r.patch == self.patch,
            r.version_type == VersionType::Release,
    {
        TaggedVersion { version_type: VersionType::Release, ..self }
    }

    /// Sets the qualifier to `Beta(n)`, replacing the previous qualifier,
    /// and returns the updated value.
    pub fn beta(self, n: u16) -> (r: TaggedVersion)
        ensures
            r.major == self.major,
            r.minor == self.minor,
            r.patch == self.patch,
            r.version_type == VersionType::Beta(n),
    {
        TaggedVersion { version_type: VersionType::Beta(n), ..self }
    }

    /// Sets the qualifier to `Alpha(n)`, replacing the previous qualifier,
    /// and returns the updated value.
    pub fn alpha(self, n: u16) -> (r: TaggedVersion)
        ensures
            r.major == self.major,
            r.minor == self.minor,
            r.patch == self.patch,
            r.version_type == VersionType::Alpha(n),
    {
        TaggedVersion { version_type: VersionType::Alpha(n), ..self }
    }

    /// Writes the version as text: `"vmajor.minor.patch"` followed by
    /// `"-release"`, `"-beta"`, or `"-alpha"`, a beta or alpha sequence
    /// number above zero appended directly with no separator.
    pub fn to_text(&self) -> (r: String)
        ensures
            r@ == tagged_text(*self),
    {
        proof {
            reveal_strlit("v");
            reveal_strlit(".");
            assert(("v")@ =~= seq!['v']);
            assert((".")@ =~= seq!['.']);
        }
        let mut s = String::new();
        s.append("v");
        append_dec(&mut s, self.major as u64);
        s.append(".");
        append_dec(&mut s, self.minor as u64);
        s.append(".");
        append_dec(&mut s, self.patch as u64);
        match self.version_type {
            VersionType::Release => {
                proof {
                    reveal_strlit("-release");
                    assert(("-release")@ =~= seq!['-', 'r', 'e', 'l', 'e', 'a', 's', 'e']);
                }
                s.append("-release");
            },
            VersionType::Beta(n) => {
                proof {
                    reveal_strlit("-beta");
                    assert(("-beta")@ =~= seq!['-', 'b', 'e', 't', 'a']);
                }
                s.append("-beta");
                if n > 0 {
                    append_dec(&mut s, n as u64);
                }
            },
            VersionType::Alpha(n) => {
                proof {
                    reveal_strlit("-alpha");
                    assert(("-alpha")@ =~= seq!['-', 'a', 'l', 'p', 'h', 'a']);
                }
                s.append("-alpha");
                if n > 0 {
                    append_dec(&mut s, n as u64);
                }
            },
        }
        proof {
            assert(s@ =~= tagged_text(*self));
        }
        s
    }

    /// Parses a string of the exact form `"major.minor.patch"`: three
    /// dot-separated non-negative integers, each fitting in 16 bits, with
    /// no qualifier or build suffix. Succeeds with a `Release`-tagged
    /// version, and fails with `ParseError` on any other string.
    pub fn from_pkg(s: &str) -> (r: Result<TaggedVersion, ParseError>)
        ensures
            r is Ok <==> pkg_valid(s@),
            r is Ok ==> r->Ok_0.major == dec_val(split_dots(s@)[0]) && r->Ok_0.minor == dec_val(
                split_dots(s@)[1],
            ) && r->Ok_0.patch == dec_val(split_dots(s@)[2]) && r->Ok_0.version_type
                == VersionType::Release,
    {
        let n = s.unicode_len();
        let i1 = match find_dot(s, 0) {
            Some(i) => i,
            None => {
                proof {
                    lemma_split_dots_nodot(s@);
                }
                return Err(ParseError);
            },
        };
        let ghost p1 = s@.subrange(0, i1 as int);
        let ghost rest1 = s@.subrange(i1 + 1, n as int);
        proof {
            assert(s@ =~= p1 + seq!['.'] + rest1);
            lemma_split_dots_dot(p1, rest1);
        }
        let i2 = match find_dot(s, i1 + 1) {
            Some(i) => i,
            None => {
                proof {
                    lemma_split_dots_nodot(rest1);
                }
                return Err(ParseError);
            },
        };
        let ghost p2 = s@.subrange(i1 + 1, i2 as int);
        let ghost p3 = s@.subrange(i2 + 1, n as int);
        proof {
            assert(rest1 =~= p2 + seq!['.'] + p3);
            lemma_split_dots_dot(p2, p3);
        }
        match find_dot(s, i2 + 1) {
            Some(i3) => {
                proof {
                    assert(p3[i3 - (i2 + 1)] == '.');
                    lemma_split_dots_has_dot(p3, i3 - (i2 + 1));
                }
                return Err(ParseError);
            },
            None => {
                proof {
                    lemma_split_dots_nodot(p3);
                    assert(split_dots(s@) =~= seq![p1, p2, p3]);
                }
            },
        }
        let t1 = s.substring_char(0, i1);
        let t2 = s.substring_char(i1 + 1, i2);
        let t3 = s.substring_char(i2 + 1, n);
        let major = match crate::digits::parse_dec(t1, 65535) {
            Some(x) => x,
            None => {
                return Err(ParseError);
            },
        };
        let minor = match crate::digits::parse_dec(t2, 65535) {
            Some(x) => x,
            None => {
                return Err(ParseError);
            },
        };
        let patch = match crate::digits::parse_dec(t3, 65535) {
            Some(x) => x,
            None => {
                return Err(ParseError);
            },
        };
        Ok(TaggedVersion::new(major as u16, minor as u16, patch as u16))
    }
}

impl PartialEq for TaggedVersion {
    /// Two tagged versions are equal when all four fields are equal.
    fn eq(&self, other: &TaggedVersion) -> (r: bool) {
        self.major == other.major && self.minor == other.minor && self.patch == other.patch
            && self.version_type == other.version_type
    }
}

impl vstd::std_specs::cmp::PartialEqSpecImpl for TaggedVersion {
    open spec fn obeys_eq_spec() -> bool {
        true
    }

    open spec fn eq_spec(&self, other: &TaggedVersion) -> bool {
        tagged_eq(*self, *other)
    }
}

impl PartialOrd for TaggedVersion {
    /// Tagged versions compare lexicographically on (major, minor,
    /// patch); at an equal triple a release outranks any pre-release, a
    /// beta outranks any alpha, and same-kind qualifiers compare by their
    /// sequence numbers.
    fn partial_cmp(&self, other: &TaggedVersion) -> (r: Option<Ordering>) {
        if self.major != other.major {
            if self.major < other.major {
                Some(Ordering::Less)
            } else {
                Some(Ordering::Greater)
            }
        } else if self.minor != other.minor {
            if self.minor < other.minor {
                Some(Ordering::Less)
            } else {
                Some(Ordering::Greater)
            }
        } else if self.patch != other.patch {
            if self.patch < other.patch {
                Some(Ordering::Less)
            } else {
                Some(Ordering::Greater)
            }
        } else {
            match (self.version_type, other.version_type) {
                (VersionType::Release, VersionType::Release) => Some(Ordering::Equal),
                (VersionType::Release, _) => Some(Ordering::Greater),
                (_, VersionType::Release) => Some(Ordering::Less),
                (VersionType::Beta(_), VersionType::Alpha(_)) => Some(Ordering::Greater),
                (VersionType::Alpha(_), VersionType::Beta(_)) => Some(Ordering::Less),
                (VersionType::Beta(m), VersionType::Beta(n)) => {
                    if m < n {
                        Some(Ordering::Less)
                    } else if m > n {
                        Some(Ordering::Greater)
                    } else {
                        Some(Ordering::Equal)
                    }
                },
                (VersionType::Alpha(m), VersionType::Alpha(n)) => {
                    if m < n {
                        Some(Ordering::Less)
                    } else if m > n {
                        Some(Ordering::Greater)
                    } else {
                        Some(Ordering::Equal)
                    }
                },
            }
        }
    }
}

impl vstd::std_specs::cmp::PartialOrdSpecImpl for TaggedVersion {
    open spec fn obeys_partial_cmp_spec() -> bool {
        true
    }

    open spec fn partial_cmp_spec(&self, other: &TaggedVersion) -> Option<Ordering> {
        Some(tagged_cmp(*self, *other))
    }
}

/// The comparison of tagged versions is a strict total order: no version
/// sorts before itself, two versions each sorting before the other is
/// impossible, sorting before is transitive, and any two versions either
/// compare equal in all fields or one sorts strictly before the other.
pub proof fn lemma_tagged_order_strict_total(a: TaggedVersion, b: TaggedVersion, c: TaggedVersion)
    ensures
        !tagged_lt(a, a),
        tagged_lt(a, b) ==> !tagged_lt(b, a),
        tagged_lt(a, b) && tagged_lt(b, c) ==> tagged_lt(a, c),
        tagged_lt(a, b) || tagged_lt(b, a) || tagged_eq(a, b),
{
}

/// At an equal numeric triple, a finalized release sorts strictly above
/// any pre-release, a beta sorts strictly above any alpha whatever their
/// numbers, and two qualifiers of the same kind sort by their numbers.
pub proof fn lemma_qualifier_order(a: TaggedVersion, b: TaggedVersion)
    requires
        a.major == b.major,
        a.minor == b.minor,
        a.patch == b.patch,
    ensures
        a.version_type is Release && !(b.version_type is Release) ==> tagged_lt(b, a),
        a.version_type is Beta && b.version_type is Alpha ==> tagged_lt(b, a),
        a.version_type is Beta && b.version_type is Beta && type_num(b.version_type) < type_num(
            a.version_type,
        ) ==> tagged_lt(b, a),
        a.version_type is Alpha && b.version_type is Alpha && type_num(b.version_type) < type_num(
            a.version_type,
        ) ==> tagged_lt(b, a),
{
}

} // verus!
