//! Types that several backends share.

use vstd::prelude::*;

verus! {

/// The class of an error.
#[derive(Clone, Copy, Debug, PartialEq, Eq, Structural)]
pub enum ErrorKind {
    /// What was asked for is not there.
    NotFound,
    /// Nothing yet: try again.
    WouldBlock,
    /// A hard failure.
    Other,
}

/// An error: its class and its text, which is empty where the class says it all.
#[derive(Debug)]
pub struct IoError {
    pub kind: ErrorKind,
    pub message: String,
}

impl View for IoError {
    type V = (ErrorKind, Seq<char>);

    open spec fn view(&self) -> (ErrorKind, Seq<char>) {
        (self.kind, self.message@)
    }
}

impl IoError {
    /// An error of the given class and text.
    pub fn new(kind: ErrorKind, message: &str) -> (e: IoError)
        ensures
            e@ == (kind, message@),
    {
        IoError { kind, message: message.to_owned() }
    }

    /// Nothing yet: try again.
    pub fn would_block() -> (e: IoError)
        ensures
            e@ == (ErrorKind::WouldBlock, Seq::<char>::empty()),
    {
        IoError { kind: ErrorKind::WouldBlock, message: String::new() }
    }
}

/// The layout of a pixel.
#[derive(Clone, Copy, Debug, PartialEq, Eq, Structural)]
pub enum Pixfmt {
    /// Blue, green, red, alpha, one byte each.
    BGRA,
}

/// A picture that borrows its pixels.
#[derive(Debug)]
pub struct Frame<'a> {
    pub data: &'a [u8],
    pub pixfmt: Pixfmt,
    pub width: usize,
    pub height: usize,
}

/// A scale factor, physical over logical.
#[derive(Clone, Copy, Debug, PartialEq, Eq, Structural)]
pub enum Scale {
    /// The quotient of two sizes.
    Ratio { num: u64, den: u64 },
    /// A factor that a backend reports itself, as the bits of an IEEE 754 double.
    Reported(u64),
}

impl Scale {
    /// No scaling.
    pub open spec fn one() -> Scale {
        Scale::Ratio { num: 1, den: 1 }
    }

    /// No scaling.
    pub fn unscaled() -> (r: Scale)
        ensures
            r == Scale::one(),
    {
        Scale::Ratio { num: 1, den: 1 }
    }
}

/// `i` is the first position of `s` that satisfies `p`.
pub open spec fn is_first<T>(s: Seq<T>, p: spec_fn(T) -> bool, i: int) -> bool {
    &&& 0 <= i < s.len()
    &&& p(s[i])
    &&& forall|j: int| 0 <= j < i ==> !p(#[trigger] s[j])
}

/// The first position of `s` that satisfies `p`, if there is one.
pub open spec fn find_first<T>(s: Seq<T>, p: spec_fn(T) -> bool) -> Option<int> {
    if exists|i: int| is_first(s, p, i) {
        Some(choose|i: int| is_first(s, p, i))
    } else {
        None
    }
}

/// A first position is the only one.
pub proof fn lemma_find_first_some<T>(s: Seq<T>, p: spec_fn(T) -> bool, i: int)
    requires
        is_first(s, p, i),
    ensures
        find_first(s, p) == Some(i),
{
    let k = choose|k: int| is_first(s, p, k);
    assert(is_first(s, p, k));
    if k < i {
        assert(!p(s[k]));
    } else if i < k {
        assert(!p(s[i]));
    }
}

/// Nothing is found exactly where nothing satisfies the predicate.
pub proof fn lemma_find_first_none<T>(s: Seq<T>, p: spec_fn(T) -> bool)
    ensures
        find_first(s, p) is None <==> forall|i: int| 0 <= i < s.len() ==> !p(#[trigger] s[i]),
        find_first(s, p) matches Some(i) ==> is_first(s, p, i),
{
    if exists|i: int| 0 <= i < s.len() && p(#[trigger] s[i]) {
        let i = choose|i: int| 0 <= i < s.len() && p(#[trigger] s[i]);
        lemma_first_below(s, p, i);
    } else if find_first(s, p) is Some {
        let i = choose|i: int| is_first(s, p, i);
        assert(p(s[i]));
    }
}

proof fn lemma_first_below<T>(s: Seq<T>, p: spec_fn(T) -> bool, i: int)
    requires
        0 <= i < s.len(),
        p(s[i]),
    ensures
        exists|k: int| is_first(s, p, k),
    decreases i,
{
    if exists|j: int| 0 <= j < i && p(#[trigger] s[j]) {
        let j = choose|j: int| 0 <= j < i && p(#[trigger] s[j]);
        lemma_first_below(s, p, j);
    } else {
        assert(is_first(s, p, i));
    }
}

/// What a filter keeps satisfies the predicate and was there before.
pub proof fn lemma_filter_members<T>(s: Seq<T>, p: spec_fn(T) -> bool)
    ensures
        forall|i: int|
            0 <= i < s.filter(p).len() ==> p(#[trigger] s.filter(p)[i]) && s.contains(
                s.filter(p)[i],
            ),
    decreases s.len(),
{
    reveal(Seq::filter);
    if s.len() > 0 {
        let t = s.drop_last();
        lemma_filter_members(t, p);
        assert forall|i: int| 0 <= i < s.filter(p).len() implies p(#[trigger] s.filter(p)[i])
            && s.contains(s.filter(p)[i]) by {
            if i < t.filter(p).len() {
                let k = choose|k: int| 0 <= k < t.len() && t[k] == t.filter(p)[i];
                assert(s[k] == s.filter(p)[i]);
            } else {
                assert(s[s.len() - 1] == s.filter(p)[i]);
            }
        }
    }
}

} // verus!
