//! Splitting a version string into its dot-separated parts, and the error
//! raised when a string is not a well-formed version.

use vstd::prelude::*;

verus! {

/// The error raised when a supplied version string does not split into
/// exactly three parts, or a part is not a non-negative integer that fits
/// the target numeric type.
#[derive(Clone, Copy, Debug, PartialEq, Eq, Structural)]
pub struct ParseError;

/// The dot-separated parts of `s`, in order. A string with no dot is one
/// part; each dot starts a new part, so `"a..b"` has an empty middle part
/// and the result always has one part more than `s` has dots.
pub open spec fn split_dots(s: Seq<char>) -> Seq<Seq<char>>
    decreases s.len(),
{
    if s.len() == 0 {
        seq![Seq::<char>::empty()]
    } else if s[0] == '.' {
        seq![Seq::<char>::empty()] + split_dots(s.drop_first())
    } else {
        let rest = split_dots(s.drop_first());
        seq![seq![s[0]] + rest[0]] + rest.drop_first()
    }
}

/// Splitting yields at least one part.
pub proof fn lemma_split_dots_len(s: Seq<char>)
    ensures
        split_dots(s).len() >= 1,
    decreases s.len(),
{
    if s.len() != 0 {
        lemma_split_dots_len(s.drop_first());
    }
}

/// Prepending dot-free text extends the first part and leaves the rest.
pub proof fn lemma_split_dots_append(a: Seq<char>, b: Seq<char>)
    requires
        forall|j: int| 0 <= j < a.len() ==> a[j] != '.',
    ensures
        split_dots(a + b) == seq![a + split_dots(b)[0]] + split_dots(b).drop_first(),
    decreases a.len(),
{
    lemma_split_dots_len(b);
    if a.len() == 0 {
        assert(a + b =~= b);
        assert(a + split_dots(b)[0] =~= split_dots(b)[0]);
        assert(seq![split_dots(b)[0]] + split_dots(b).drop_first() =~= split_dots(b));
    } else {
        assert((a + b)[0] == a[0]);
        assert((a + b).drop_first() =~= a.drop_first() + b);
        lemma_split_dots_append(a.drop_first(), b);
        let rest = split_dots((a + b).drop_first());
        assert(rest[0] == a.drop_first() + split_dots(b)[0]);
        assert(seq![(a + b)[0]] + rest[0] =~= a + split_dots(b)[0]);
        assert(rest.drop_first() =~= split_dots(b).drop_first());
        assert(split_dots(a + b) =~= seq![a + split_dots(b)[0]] + split_dots(b).drop_first());
    }
}

/// Dot-free text is a single part.
pub proof fn lemma_split_dots_nodot(a: Seq<char>)
    requires
        forall|j: int| 0 <= j < a.len() ==> a[j] != '.',
    ensures
        split_dots(a) == seq![a],
{
    lemma_split_dots_append(a, Seq::<char>::empty());
    assert(a + Seq::<char>::empty() =~= a);
    assert(a + split_dots(Seq::<char>::empty())[0] =~= a);
    assert(seq![a] + split_dots(Seq::<char>::empty()).drop_first() =~= seq![a]);
}

/// A dot after a dot-free prefix closes the first part there.
pub proof fn lemma_split_dots_dot(a: Seq<char>, b: Seq<char>)
    requires
        forall|j: int| 0 <= j < a.len() ==> a[j] != '.',
    ensures
        split_dots(a + seq!['.'] + b) == seq![a] + split_dots(b),
{
    let t = seq!['.'] + b;
    assert(t.drop_first() =~= b);
    assert(split_dots(t) == seq![Seq::<char>::empty()] + split_dots(b));
    lemma_split_dots_append(a, t);
    assert(a + seq!['.'] + b =~= a + t);
    assert(a + (seq![Seq::<char>::empty()] + split_dots(b))[0] =~= a);
    assert((seq![Seq::<char>::empty()] + split_dots(b)).drop_first() =~= split_dots(b));
    assert(seq![a] + split_dots(b) =~= split_dots(a + t));
}

/// Text that holds a dot splits into at least two parts.
pub proof fn lemma_split_dots_has_dot(s: Seq<char>, i: int)
    requires
        0 <= i < s.len(),
        s[i] == '.',
    ensures
        split_dots(s).len() >= 2,
    decreases s.len(),
{
    if s[0] == '.' {
        lemma_split_dots_len(s.drop_first());
    } else {
        lemma_split_dots_has_dot(s.drop_first(), i - 1);
    }
}

/// The position of the first dot at or after `from`, or `None` when no
/// dot follows.
pub fn find_dot(s: &str, from: usize) -> (r: Option<usize>)
    requires
        from <= s@.len(),
    ensures
        match r {
            Some(i) => from <= i < s@.len() && s@[i as int] == '.' && forall|j: int|
                from <= j < i ==> s@[j] != '.',
            None => forall|j: int| from <= j < s@.len() ==> s@[j] != '.',
        },
{
    let n = s.unicode_len();
    let mut i: usize = from;
    while i < n
        invariant
            from <= i <= n,
            n == s@.len(),
            forall|j: int| from <= j < i ==> s@[j] != '.',
        decreases n - i,
    {
        let c = s.get_char(i);
        if c == '.' {
            return Some(i);
        }
        i = i + 1;
    }
    None
}

} // verus!
