//! The verse argument: one label, or two labels around a `-`.

use vstd::prelude::*;
use vstd::string::StrSliceExecFns;

use crate::errors::{Error, ErrorView};
use crate::text::{chars_of, first_index_of, last_index_of};

verus! {

/// The two forms of a verse argument.
#[derive(Debug, Clone, Copy, PartialEq, Eq, Structural)]
pub enum VerseKind {
    /// A single label, such as `16`.
    SingleVerse,
    /// Two labels around a `-`, such as `16-17`.
    RangeVerse,
}

/// A token is a range as soon as it holds a `-`; nothing else about it is looked at.
pub open spec fn kind_of(token: Seq<char>) -> VerseKind {
    if token.contains('-') {
        VerseKind::RangeVerse
    } else {
        VerseKind::SingleVerse
    }
}

/// The two labels of a range token: what stands before and after its `-`. `None` where the
/// token holds no `-`, or more than one.
pub open spec fn split_range(token: Seq<char>) -> Option<(Seq<char>, Seq<char>)> {
    match token.index_of_first('-') {
        Some(i) => if token.index_of_last('-') == Some(i) {
            Some((token.subrange(0, i), token.subrange(i + 1, token.len() as int)))
        } else {
            None
        },
        None => None,
    }
}

/// Where a token splits, it is a range, made of its first label, a `-`, and its second label,
/// and neither label holds a `-`.
pub proof fn lemma_split_range_joins(token: Seq<char>)
    ensures
        split_range(token) matches Some((from, to)) ==> kind_of(token) == VerseKind::RangeVerse
            && token == from + seq!['-'] + to && !from.contains('-') && !to.contains('-'),
{
    token.index_of_first_ensures('-');
    token.index_of_last_ensures('-');
    match split_range(token) {
        Some((from, to)) => {
            let i = token.index_of_first('-').unwrap();
            assert(token =~= from + seq!['-'] + to);
            assert forall|j: int| 0 <= j < from.len() implies from[j] != '-' by {
                assert(from[j] == token[j]);
            }
            assert forall|j: int| 0 <= j < to.len() implies to[j] != '-' by {
                assert(to[j] == token[i + 1 + j]);
            }
        },
        None => {},
    }
}

/// Two labels without a `-`, joined by one, make a range token that splits into exactly them.
pub proof fn lemma_split_range_of_parts(from: Seq<char>, to: Seq<char>)
    requires
        !from.contains('-'),
        !to.contains('-'),
    ensures
        kind_of(from + seq!['-'] + to) == VerseKind::RangeVerse,
        split_range(from + seq!['-'] + to) == Some((from, to)),
{
    let token = from + seq!['-'] + to;
    let at = from.len() as int;
    token.index_of_first_ensures('-');
    token.index_of_last_ensures('-');
    assert(token[at] == '-');
    assert forall|j: int| 0 <= j < token.len() && j != at implies token[j] != '-' by {
        if j < at {
            assert(token[j] == from[j]);
        } else {
            assert(token[j] == to[j - at - 1]);
        }
    }
    assert(token.index_of_first('-') == Some(at));
    assert(token.index_of_last('-') == Some(at));
    assert(token.subrange(0, at) =~= from);
    assert(token.subrange(at + 1, token.len() as int) =~= to);
}

/// Tells a single verse from a range.
pub fn verse_kind(verse: &str) -> (kind: VerseKind)
    ensures
        kind == kind_of(verse@),
{
    let chars: Vec<char> = chars_of(verse);
    match first_index_of(chars.as_slice(), '-') {
        Some(_) => VerseKind::RangeVerse,
        None => VerseKind::SingleVerse,
    }
}

/// Splits a range token into its starting and its ending label.
pub fn range_split(verse: &str) -> (parts: Result<(&str, &str), Error>)
    ensures
        match parts {
            Ok((from, to)) => split_range(verse@) == Some((from@, to@)),
            Err(e) => split_range(verse@) is None && e@ == ErrorView::InvalidRangeFormat,
        },
{
    let chars: Vec<char> = chars_of(verse);
    let end: usize = chars.len();
    let first: usize = match first_index_of(chars.as_slice(), '-') {
        Some(i) => i,
        None => return Err(Error::InvalidRangeFormat),
    };
    match last_index_of(chars.as_slice(), '-') {
        Some(last) if last == first => {
            let from: &str = verse.substring_char(0, first);
            let to: &str = verse.substring_char(first + 1, end);
            Ok((from, to))
        },
        _ => Err(Error::InvalidRangeFormat),
    }
}

} // verus!
