//! Small generic building blocks: a pair of like values, an optional value
//! under another name, and two functions that work for every type.

use std::cmp::Ordering;
use vstd::pervasive::cloned;
use vstd::prelude::*;
use vstd::std_specs::cmp::PartialOrdSpec;
use vstd::string::{to_string_from_display_ensures, StringExecFns};

verus! {

/// Two values of one type.
pub struct MatchingPair<T> {
    first: T,
    second: T,
}

impl<T> MatchingPair<T> {
    /// The pair of `first` and `second`.
    pub fn new(first: T, second: T) -> (r: Self)
        ensures
            r.first() == first,
            r.second() == second,
    {
        MatchingPair { first: first, second: second }
    }

    /// The first value.
    pub closed spec fn first(self) -> T {
        self.first
    }

    /// The second value.
    pub closed spec fn second(self) -> T {
        self.second
    }

    /// The two values, handed out.
    pub fn into_parts(self) -> (r: (T, T))
        ensures
            r == (self.first(), self.second()),
    {
        (self.first, self.second)
    }
}

impl<T: Clone> Clone for MatchingPair<T> {
    /// The pair of the clones of both values.
    fn clone(&self) -> (r: Self)
        ensures
            cloned(self.first(), r.first()),
            cloned(self.second(), r.second()),
    {
        Self { first: self.first.clone(), second: self.second.clone() }
    }
}

/// The text of a pair whose parts read `first` and `second`: both inside
/// round brackets, a comma and a space between them.
pub open spec fn pair_text(first: Seq<char>, second: Seq<char>) -> Seq<char> {
    seq!['('] + first + seq![',', ' '] + second + seq![')']
}

impl<T: std::fmt::Display> MatchingPair<T> {
    /// The pair as text, each part as its `Display` shows it.
    pub fn render(&self) -> (r: String)
        ensures
            exists|first: String, second: String|
                {
                    &&& to_string_from_display_ensures(&self.first(), first)
                    &&& to_string_from_display_ensures(&self.second(), second)
                    &&& r@ == pair_text(first@, second@)
                },
    {
        let first = self.first.to_string();
        let second = self.second.to_string();
        let mut out = String::from_str("(");
        out.append(first.as_str());
        out.append(", ");
        out.append(second.as_str());
        out.append(")");
        proof {
            reveal_strlit("(");
            reveal_strlit(", ");
            reveal_strlit(")");
            assert("("@ =~= seq!['(']);
            assert(", "@ =~= seq![',', ' ']);
            assert(")"@ =~= seq![')']);
            assert(out@ =~= pair_text(first@, second@));
        }
        out
    }
}

/// A value that may be missing.
pub enum MyOption<T> {
    Sumthin(T),
    Nuthin,
}

/// The text of a present value that reads `inner`.
pub open spec fn sumthin_text(inner: Seq<char>) -> Seq<char> {
    seq!['S', 'u', 'm', 't', 'h', 'i', 'n', '('] + inner + seq![')']
}

/// The text of a missing value.
pub open spec fn nuthin_text() -> Seq<char> {
    seq!['N', 'u', 't', 'h', 'i', 'n', ' ', ':', '(']
}

impl<T: std::fmt::Display> MyOption<T> {
    /// The value as text: `Sumthin(..)` around what its `Display` shows, or
    /// `Nuthin :(`.
    pub fn render(&self) -> (r: String)
        ensures
            match *self {
                MyOption::Sumthin(value) => exists|inner: String|
                    {
                        &&& to_string_from_display_ensures(&value, inner)
                        &&& r@ == sumthin_text(inner@)
                    },
                MyOption::Nuthin => r@ == nuthin_text(),
            },
    {
        match self {
            MyOption::Sumthin(value) => {
                let inner = value.to_string();
                let mut out = String::from_str("Sumthin(");
                out.append(inner.as_str());
                out.append(")");
                proof {
                    reveal_strlit("Sumthin(");
                    reveal_strlit(")");
                    assert("Sumthin("@ =~= seq!['S', 'u', 'm', 't', 'h', 'i', 'n', '(']);
                    assert(")"@ =~= seq![')']);
                    assert(out@ =~= sumthin_text(inner@));
                }
                out
            },
            MyOption::Nuthin => {
                let out = String::from_str("Nuthin :(");
                proof {
                    reveal_strlit("Nuthin :(");
                    assert(out@ =~= nuthin_text());
                }
                out
            },
        }
    }
}

/// Hands its argument back unchanged.
pub fn identity_fn<T>(x: T) -> (r: T)
    ensures
        r == x,
{
    x
}

/// The smaller of two values: `x` where it is less than `y`, otherwise `y`.
pub fn min_of<T: PartialOrd>(x: T, y: T) -> (r: T)
    ensures
        T::obeys_partial_cmp_spec() ==> r == if x.partial_cmp_spec(&y) == Some(Ordering::Less) {
            x
        } else {
            y
        },
{
    if x < y {
        x
    } else {
        y
    }
}

} // verus!
