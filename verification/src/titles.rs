//! What a chapter title is made of: a prefix through its last `:`, then the verse.

use vstd::prelude::*;
use vstd::string::{StrSliceExecFns, StringExecFns};

use crate::errors::{Error, ErrorView};
use crate::text::{chars_of, last_index_of, parse_decimal, parse_i32};

verus! {

/// The leading part of `title` up to and including its last `:`, if it holds one.
pub open spec fn title_prefix(title: Seq<char>) -> Option<Seq<char>> {
    match title.index_of_last(':') {
        Some(i) => Some(title.subrange(0, i + 1)),
        None => None,
    }
}

/// What follows the last `:` of `title`; the whole title where it holds none.
pub open spec fn title_suffix(title: Seq<char>) -> Seq<char> {
    match title.index_of_last(':') {
        Some(i) => title.subrange(i + 1, title.len() as int),
        None => title,
    }
}

/// The verse number that `title` ends in, if what follows its last `:` writes an `i32`.
pub open spec fn verse_number(title: Seq<char>) -> Option<i32> {
    parse_i32(title_suffix(title))
}

/// A title that holds a `:` is its prefix followed by its suffix, the prefix ends in `:`, and
/// the suffix never holds a `:`.
pub proof fn lemma_title_splits(title: Seq<char>)
    ensures
        match title_prefix(title) {
            Some(prefix) => prefix + title_suffix(title) == title && prefix.len() > 0
                && prefix.last() == ':',
            None => title_suffix(title) == title,
        },
        title_prefix(title) is Some <==> title.contains(':'),
        !title_suffix(title).contains(':'),
{
    title.index_of_last_ensures(':');
    let suffix = title_suffix(title);
    match title.index_of_last(':') {
        Some(i) => {
            assert(title.subrange(0, i + 1) + suffix =~= title);
            assert forall|j: int| 0 <= j < suffix.len() implies suffix[j] != ':' by {
                assert(suffix[j] == title[i + 1 + j]);
            }
        },
        None => {},
    }
}

/// A text that ends in `:`, followed by a text without any `:`, makes a title with exactly
/// this prefix and this suffix.
pub proof fn lemma_title_of_parts(prefix: Seq<char>, suffix: Seq<char>)
    requires
        prefix.len() > 0,
        prefix.last() == ':',
        !suffix.contains(':'),
    ensures
        title_prefix(prefix + suffix) == Some(prefix),
        title_suffix(prefix + suffix) == suffix,
{
    let title = prefix + suffix;
    let at = prefix.len() - 1;
    title.index_of_last_ensures(':');
    assert(title[at] == ':');
    assert forall|j: int| at < j < title.len() implies title[j] != ':' by {
        assert(title[j] == suffix[j - prefix.len()]);
    }
    assert(title.index_of_last(':') == Some(at));
    assert(title.subrange(0, at + 1) =~= prefix);
    assert(title.subrange(at + 1, title.len() as int) =~= suffix);
}

/// Reads the verse number at the end of a title such as `John 3:16`.
pub fn get_verse_from_title(title: &str) -> (verse: Result<i32, Error>)
    ensures
        match verse {
            Ok(n) => verse_number(title@) == Some(n),
            Err(e) => verse_number(title@) is None && e@ == (ErrorView::VerseFromTitle {
                item: title_suffix(title@),
            }),
        },
{
    let chars: Vec<char> = chars_of(title);
    let end: usize = chars.len();
    let start: usize = match last_index_of(chars.as_slice(), ':') {
        Some(i) => i + 1,
        None => 0,
    };
    let suffix: &str = title.substring_char(start, end);
    assert(suffix@ =~= title_suffix(title@));
    match parse_decimal(suffix) {
        Some(n) => Ok(n),
        None => Err(Error::VerseFromTitle { item: String::from_str(suffix) }),
    }
}

} // verus!
