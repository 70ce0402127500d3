//! The chapter catalog of one video file, and the lookup of verses in it.

use vstd::prelude::*;
use vstd::string::StringExecFns;

use crate::errors::{Error, ErrorView};
use crate::pattern::{first_group, PREFIX_PATTERN};
use crate::resolve::{
    ids, last_title, lemma_resolve_first_keeps_failure, lemma_resolve_number_is_single, lookup,
    lookup_id, resolve, resolve_all, resolve_first, resolve_label, resolve_range, titles,
    verses_before, Span,
};
use crate::text::decimal_label;
use crate::titles::{get_verse_from_title, title_prefix, verse_number};
use crate::token::{range_split, verse_kind, VerseKind};

verus! {

/// The tags of a chapter; only the title is read.
#[derive(Debug, PartialEq)]
pub struct Tags {
    /// The chapter's title, such as `John 3:16`.
    pub title: String,
}

/// One chapter of a video file, as the probing tool reports it.
#[derive(Debug, PartialEq)]
pub struct Chapter {
    /// The number that identifies the chapter.
    pub id: i64,
    /// The unit of `start` and `end`, as a fraction of a second.
    pub time_base: String,
    /// Where the chapter starts, in units of `time_base`.
    pub start: i64,
    /// Where the chapter starts, in seconds, as decimal text.
    pub start_time: String,
    /// Where the chapter ends, in units of `time_base`.
    pub end: i64,
    /// Where the chapter ends, in seconds, as decimal text.
    pub end_time: String,
    /// The chapter's tags.
    pub tags: Tags,
}

/// The chapters of one video file, in the order of the file.
#[derive(Debug, PartialEq)]
pub struct Root {
    /// The chapters, first to last.
    pub chapters: Vec<Chapter>,
}

/// The mathematical content of a [`Chapter`].
pub struct ChapterView {
    pub id: int,
    pub time_base: Seq<char>,
    pub start: int,
    pub start_time: Seq<char>,
    pub end: int,
    pub end_time: Seq<char>,
    pub title: Seq<char>,
}

impl View for Tags {
    type V = Seq<char>;

    open spec fn view(&self) -> Seq<char> {
        self.title@
    }
}

impl View for Chapter {
    type V = ChapterView;

    open spec fn view(&self) -> ChapterView {
        ChapterView {
            id: self.id as int,
            time_base: self.time_base@,
            start: self.start as int,
            start_time: self.start_time@,
            end: self.end as int,
            end_time: self.end_time@,
            title: self.tags@,
        }
    }
}

impl View for Root {
    type V = Seq<ChapterView>;

    open spec fn view(&self) -> Seq<ChapterView> {
        self.chapters@.map_values(|c: Chapter| c@)
    }
}

impl Clone for Tags {
    /// Tags with the same title.
    fn clone(&self) -> (tags: Tags)
        ensures
            tags@ == self@,
    {
        Tags { title: self.title.clone() }
    }
}

impl Clone for Chapter {
    /// A chapter with the same content.
    fn clone(&self) -> (chapter: Chapter)
        ensures
            chapter@ == self@,
    {
        Chapter {
            id: self.id,
            time_base: self.time_base.clone(),
            start: self.start,
            start_time: self.start_time.clone(),
            end: self.end,
            end_time: self.end_time.clone(),
            tags: self.tags.clone(),
        }
    }
}

impl Clone for Root {
    /// A catalog of the same chapters in the same order.
    fn clone(&self) -> (root: Root)
        ensures
            root@ == self@,
    {
        let mut chapters: Vec<Chapter> = Vec::new();
        let n: usize = self.chapters.len();
        let mut i: usize = 0;
        while i < n
            invariant
                n == self.chapters.len(),
                i <= n,
                chapters.len() == i,
                forall|j: int| 0 <= j < i ==> chapters@[j]@ == self.chapters@[j]@,
            decreases n - i,
        {
            chapters.push(self.chapters[i].clone());
            i += 1;
        }
        let root = Root { chapters };
        assert(root@ =~= self@);
        root
    }
}

impl Default for Tags {
    /// Tags with an empty title.
    fn default() -> (tags: Tags)
        ensures
            tags@ == Seq::<char>::empty(),
    {
        Tags { title: String::new() }
    }
}

impl Default for Chapter {
    /// A chapter of which every number is zero and every text empty.
    fn default() -> (chapter: Chapter)
        ensures
            chapter@ == (ChapterView {
                id: 0,
                time_base: Seq::empty(),
                start: 0,
                start_time: Seq::empty(),
                end: 0,
                end_time: Seq::empty(),
                title: Seq::empty(),
            }),
    {
        Chapter {
            id: 0,
            time_base: String::new(),
            start: 0,
            start_time: String::new(),
            end: 0,
            end_time: String::new(),
            tags: Tags { title: String::new() },
        }
    }
}

impl Default for Root {
    /// A catalog without chapters.
    fn default() -> (root: Root)
        ensures
            root@ == Seq::<ChapterView>::empty(),
    {
        Root { chapters: Vec::new() }
    }
}

/// A pair of times, as plain values.
pub open spec fn span_of(times: (&str, &str)) -> Span {
    (times.0@, times.1@)
}

/// Pairs of times, as plain values.
pub open spec fn spans_of(times: Seq<(&str, &str)>) -> Seq<Span> {
    times.map_values(|span: (&str, &str)| span_of(span))
}

/// What a lookup of times returned, as plain values.
pub open spec fn span_view(times: Result<(&str, &str), Error>) -> Result<Span, ErrorView> {
    match times {
        Ok(span) => Ok(span_of(span)),
        Err(e) => Err(e@),
    }
}

/// What a lookup of many times returned, as plain values.
pub open spec fn spans_view(times: Result<Vec<(&str, &str)>, Error>) -> Result<
    Seq<Span>,
    ErrorView,
> {
    match times {
        Ok(spans) => Ok(spans_of(spans@)),
        Err(e) => Err(e@),
    }
}

impl Root {
    /// The last chapter of the file. The catalog must hold one.
    pub fn get_last_chapter(&self) -> (last: Result<&Chapter, Error>)
        requires
            self.chapters.len() > 0,
        ensures
            last matches Ok(chapter) && *chapter == self.chapters@.last(),
    {
        Ok(&self.chapters[self.chapters.len() - 1])
    }

    /// Finds the first chapter whose title is exactly `title`.
    pub fn lookup_title(&self, title: &str) -> (found: Result<&Chapter, Error>)
        ensures
            match found {
                Ok(chapter) => lookup(self@, title@) == Some(chapter@),
                Err(e) => lookup(self@, title@) is None && e@ == (ErrorView::VerseNotFound {
                    verse: title@,
                }),
            },
    {
        let wanted: String = String::from_str(title);
        let n: usize = self.chapters.len();
        let mut i: usize = 0;
        while i < n
            invariant
                n == self.chapters.len(),
                i <= n,
                wanted@ == title@,
                forall|j: int| 0 <= j < i ==> titles(self@)[j] != title@,
            decreases n - i,
        {
            if self.chapters[i].tags.title == wanted {
                proof {
                    assert(titles(self@)[i as int] == title@);
                    titles(self@).index_of_first_ensures(title@);
                }
                return Ok(&self.chapters[i]);
            }
            i += 1;
        }
        proof {
            titles(self@).index_of_first_ensures(title@);
        }
        Err(Error::VerseNotFound { verse: wanted })
    }

    /// The id of the first chapter whose title is exactly `verse`.
    pub fn find_verse_id(&self, verse: &str) -> (id: Result<i64, Error>)
        ensures
            match id {
                Ok(id) => lookup(self@, verse@) matches Some(chapter) && chapter.id == id,
                Err(e) => lookup(self@, verse@) is None && e@ == (ErrorView::VerseNotFound {
                    verse: verse@,
                }),
            },
    {
        match self.lookup_title(verse) {
            Ok(chapter) => Ok(chapter.id),
            Err(e) => Err(e),
        }
    }

    /// The start and end time of the first chapter with the id `id`, which must be the id of a
    /// chapter of the catalog.
    pub fn get_times(&self, id: i64) -> (times: Result<(&str, &str), Error>)
        requires
            ids(self@).contains(id as int),
        ensures
            times matches Ok(span) && lookup_id(self@, id as int) matches Some(chapter) && span_of(
                span,
            ) == (chapter.start_time, chapter.end_time),
    {
        let n: usize = self.chapters.len();
        let mut i: usize = 0;
        proof {
            ids(self@).index_of_first_ensures(id as int);
        }
        while i < n
            invariant
                n == self.chapters.len(),
                i <= n,
                ids(self@).index_of_first(id as int) matches Some(k) && i <= k < n && ids(
                    self@,
                )[k] == id && (forall|j: int| 0 <= j < k ==> ids(self@)[j] != id),
            ensures
                i < n,
                ids(self@).index_of_first(id as int) == Some(i as int),
            decreases n - i,
        {
            if self.chapters[i].id == id {
                assert(ids(self@)[i as int] == id);
                break ;
            }
            assert(ids(self@)[i as int] != id);
            i += 1;
        }
        let chapter: &Chapter = &self.chapters[i];
        Ok((chapter.start_time.as_str(), chapter.end_time.as_str()))
    }

    /// The prefix that the titles of the file share: the last chapter's title up to and
    /// including its last `:`.
    pub fn get_prefix(&self) -> (prefix: Result<&str, Error>)
        ensures
            match prefix {
                Ok(text) => title_prefix(last_title(self@)) == Some(text@),
                Err(e) => title_prefix(last_title(self@)) is None && e@
                    == ErrorView::PrefixNotMatch,
            },
    {
        if self.chapters.len() == 0 {
            proof {
                Seq::<char>::empty().index_of_last_ensures(':');
            }
            return Err(Error::PrefixNotMatch);
        }
        let last: &Chapter = match self.get_last_chapter() {
            Ok(chapter) => chapter,
            Err(e) => return Err(e),
        };
        match first_group(PREFIX_PATTERN, last.tags.title.as_str()) {
            Some(text) => Ok(text),
            None => Err(Error::PrefixNotMatch),
        }
    }

    /// The start and end time of a single verse, given by its label.
    pub fn return_single_verse(&self, verse: &str) -> (times: Result<(&str, &str), Error>)
        ensures
            span_view(times) == resolve_label(self@, verse@),
    {
        let prefix: &str = match self.get_prefix() {
            Ok(text) => text,
            Err(e) => return Err(e),
        };
        let mut title: String = String::from_str(prefix);
        title.append(verse);
        match self.lookup_title(title.as_str()) {
            Ok(chapter) => Ok((chapter.start_time.as_str(), chapter.end_time.as_str())),
            Err(e) => Err(e),
        }
    }

    /// The time at which the first verse of a range starts and the time at which its last
    /// verse ends.
    pub fn return_range_verse(&self, verse: &str) -> (times: Result<(&str, &str), Error>)
        ensures
            span_view(times) == resolve_range(self@, verse@),
    {
        let (from, to) = match range_split(verse) {
            Ok(parts) => parts,
            Err(e) => return Err(e),
        };
        let first: (&str, &str) = match self.return_single_verse(from) {
            Ok(times) => times,
            Err(e) => return Err(e),
        };
        let last: (&str, &str) = match self.return_single_verse(to) {
            Ok(times) => times,
            Err(e) => return Err(e),
        };
        Ok((first.0, last.1))
    }

    /// The start and end time that the verse argument `verse` stands for: a single label or a
    /// range `from-to`.
    pub fn verse(&self, verse: &str) -> (times: Result<(&str, &str), Error>)
        ensures
            span_view(times) == resolve(self@, verse@),
    {
        match verse_kind(verse) {
            VerseKind::SingleVerse => self.return_single_verse(verse),
            VerseKind::RangeVerse => self.return_range_verse(verse),
        }
    }

    /// The start and end times of the verses `1`, `2`, ... up to, but not including, the verse
    /// whose number the last chapter's title ends in.
    pub fn get_all_verses(&self) -> (times: Result<Vec<(&str, &str)>, Error>)
        ensures
            spans_view(times) == resolve_all(self@),
    {
        if self.chapters.len() == 0 {
            proof {
                Seq::<char>::empty().index_of_last_ensures(':');
            }
            return Err(Error::VerseFromTitle { item: String::new() });
        }
        let last: &Chapter = match self.get_last_chapter() {
            Ok(chapter) => chapter,
            Err(e) => return Err(e),
        };
        let last_verse: i32 = match get_verse_from_title(last.tags.title.as_str()) {
            Ok(number) => number,
            Err(e) => return Err(e),
        };
        let mut all_verses: Vec<(&str, &str)> = Vec::new();
        let mut i: i32 = 1;
        assert(spans_of(all_verses@) =~= Seq::<Span>::empty());
        while i < last_verse
            invariant
                1 <= i,
                i - 1 <= verses_before(last_verse as int),
                verse_number(last_title(self@)) == Some(last_verse),
                resolve_first(self@, (i - 1) as nat) == Ok::<Seq<Span>, ErrorView>(
                    spans_of(all_verses@),
                ),
            decreases last_verse - i,
        {
            let label: String = decimal_label(i as u32);
            proof {
                lemma_resolve_number_is_single(self@, i as nat);
            }
            match self.verse(label.as_str()) {
                Ok(span) => {
                    assert(spans_of(all_verses@.push(span)) =~= spans_of(all_verses@).push(
                        span_of(span),
                    ));
                    all_verses.push(span);
                },
                Err(e) => {
                    proof {
                        lemma_resolve_first_keeps_failure(
                            self@,
                            i as nat,
                            verses_before(last_verse as int),
                        );
                    }
                    return Err(e);
                },
            }
            i += 1;
        }
        Ok(all_verses)
    }
}

} // verus!
