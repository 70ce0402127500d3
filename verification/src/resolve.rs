//! What a verse argument stands for in a catalog, stated over plain sequences, and the laws
//! that follow from it.

use vstd::prelude::*;

use crate::errors::ErrorView;
use crate::probe::ChapterView;
use crate::text::{decimal_text, lemma_decimal_text_reads_back};
use crate::titles::{lemma_title_splits, title_prefix, title_suffix, verse_number};
use crate::token::{kind_of, lemma_split_range_of_parts, split_range, VerseKind};

verus! {

/// The start and end time of a chapter, as the decimal texts it was loaded with.
pub type Span = (Seq<char>, Seq<char>);

/// The titles of a catalog, chapter by chapter.
pub open spec fn titles(chapters: Seq<ChapterView>) -> Seq<Seq<char>> {
    chapters.map_values(|c: ChapterView| c.title)
}

/// The ids of a catalog, chapter by chapter.
pub open spec fn ids(chapters: Seq<ChapterView>) -> Seq<int> {
    chapters.map_values(|c: ChapterView| c.id)
}

/// The first chapter whose title is exactly `title`.
pub open spec fn lookup(chapters: Seq<ChapterView>, title: Seq<char>) -> Option<ChapterView> {
    match titles(chapters).index_of_first(title) {
        Some(i) => Some(chapters[i]),
        None => None,
    }
}

/// The first chapter whose id is `id`.
pub open spec fn lookup_id(chapters: Seq<ChapterView>, id: int) -> Option<ChapterView> {
    match ids(chapters).index_of_first(id) {
        Some(i) => Some(chapters[i]),
        None => None,
    }
}

/// The title of the last chapter. An empty catalog counts as one whose last title is empty:
/// it has no prefix, and no verse number at its end.
pub open spec fn last_title(chapters: Seq<ChapterView>) -> Seq<char> {
    if chapters.len() > 0 {
        chapters.last().title
    } else {
        Seq::empty()
    }
}

/// The times of the verse with the label `label`: those of the first chapter whose title is
/// the catalog's prefix followed by the label.
pub open spec fn resolve_label(chapters: Seq<ChapterView>, label: Seq<char>) -> Result<
    Span,
    ErrorView,
> {
    match title_prefix(last_title(chapters)) {
        None => Err(ErrorView::PrefixNotMatch),
        Some(prefix) => match lookup(chapters, prefix + label) {
            None => Err(ErrorView::VerseNotFound { verse: prefix + label }),
            Some(chapter) => Ok((chapter.start_time, chapter.end_time)),
        },
    }
}

/// The times of a range of verses: from the start of its first verse to the end of its last.
/// The two verses are resolved on their own, the first one first; nothing asks that the
/// first verse comes before the last in the file.
pub open spec fn resolve_range(chapters: Seq<ChapterView>, token: Seq<char>) -> Result<
    Span,
    ErrorView,
> {
    match split_range(token) {
        None => Err(ErrorView::InvalidRangeFormat),
        Some((from, to)) => match resolve_label(chapters, from) {
            Err(e) => Err(e),
            Ok(first) => match resolve_label(chapters, to) {
                Err(e) => Err(e),
                Ok(last) => Ok((first.0, last.1)),
            },
        },
    }
}

/// The times that a verse argument stands for, be it a single label or a range.
pub open spec fn resolve(chapters: Seq<ChapterView>, token: Seq<char>) -> Result<Span, ErrorView> {
    match kind_of(token) {
        VerseKind::SingleVerse => resolve_label(chapters, token),
        VerseKind::RangeVerse => resolve_range(chapters, token),
    }
}

/// The times of the verse with the number `number`, whose label is its decimal numeral.
pub open spec fn resolve_number(chapters: Seq<ChapterView>, number: nat) -> Result<
    Span,
    ErrorView,
> {
    resolve_label(chapters, decimal_text(number))
}

/// The times of the verses `1` to `count`, in this order, or the failure of the lowest of
/// them that cannot be resolved.
pub open spec fn resolve_first(chapters: Seq<ChapterView>, count: nat) -> Result<
    Seq<Span>,
    ErrorView,
>
    decreases count,
{
    if count == 0 {
        Ok(Seq::empty())
    } else {
        match resolve_first(chapters, (count - 1) as nat) {
            Err(e) => Err(e),
            Ok(spans) => match resolve_number(chapters, count) {
                Err(e) => Err(e),
                Ok(span) => Ok(spans.push(span)),
            },
        }
    }
}

/// How many verses are resolved for a last title that ends in the verse number `last_verse`:
/// all with a lower number, from `1` on. The last verse itself is not counted.
pub open spec fn verses_before(last_verse: int) -> nat {
    if last_verse > 1 {
        (last_verse - 1) as nat
    } else {
        0
    }
}

/// The times of every verse below the number that the last title ends in.
pub open spec fn resolve_all(chapters: Seq<ChapterView>) -> Result<Seq<Span>, ErrorView> {
    match verse_number(last_title(chapters)) {
        None => Err(ErrorView::VerseFromTitle { item: title_suffix(last_title(chapters)) }),
        Some(n) => resolve_first(chapters, verses_before(n as int)),
    }
}

/// Every chapter is found again by its own label: where a title has the prefix of the last
/// title, and what follows the prefix is a single label, this label resolves to the times of
/// that very chapter. An earlier chapter of the same title would be found in its place, so
/// such a chapter has to carry the same times.
pub proof fn lemma_resolve_own_label(chapters: Seq<ChapterView>, i: int)
    requires
        0 <= i < chapters.len(),
        title_prefix(chapters[i].title) is Some,
        title_prefix(chapters[i].title) == title_prefix(last_title(chapters)),
        kind_of(title_suffix(chapters[i].title)) == VerseKind::SingleVerse,
        forall|j: int|
            0 <= j < i && #[trigger] chapters[j].title == chapters[i].title ==> chapters[j].start_time
                == chapters[i].start_time && chapters[j].end_time == chapters[i].end_time,
    ensures
        resolve(chapters, title_suffix(chapters[i].title)) == Ok::<Span, ErrorView>(
            (chapters[i].start_time, chapters[i].end_time),
        ),
{
    let title = chapters[i].title;
    lemma_title_splits(title);
    assert(titles(chapters)[i] == title);
    titles(chapters).index_of_first_ensures(title);
    let k = titles(chapters).index_of_first(title).unwrap();
    assert(titles(chapters)[k] == chapters[k].title);
}

/// A catalog of a single chapter has a prefix as soon as the chapter's title holds a `:`, and
/// resolves the chapter's own label to the chapter's own times.
pub proof fn lemma_single_chapter(chapter: ChapterView)
    requires
        chapter.title.contains(':'),
        kind_of(title_suffix(chapter.title)) == VerseKind::SingleVerse,
    ensures
        title_prefix(last_title(seq![chapter])) is Some,
        title_prefix(last_title(seq![chapter])) == title_prefix(chapter.title),
        resolve(seq![chapter], title_suffix(chapter.title)) == Ok::<Span, ErrorView>(
            (chapter.start_time, chapter.end_time),
        ),
{
    lemma_title_splits(chapter.title);
    lemma_resolve_own_label(seq![chapter], 0);
}

/// A range `from-to` takes its start from the verse `from` and its end from the verse `to`,
/// each resolved on its own, and fails as the first of the two that fails.
pub proof fn lemma_resolve_range_ends(chapters: Seq<ChapterView>, from: Seq<char>, to: Seq<char>)
    requires
        !from.contains('-'),
        !to.contains('-'),
    ensures
        resolve(chapters, from + seq!['-'] + to) == match resolve_label(chapters, from) {
            Err(e) => Err::<Span, ErrorView>(e),
            Ok(first) => match resolve_label(chapters, to) {
                Err(e) => Err(e),
                Ok(last) => Ok((first.0, last.1)),
            },
        },
{
    lemma_split_range_of_parts(from, to);
}

/// Where no two chapters share an id, the id of the chapter found for a title leads back to
/// this very chapter, and so to its times.
pub proof fn lemma_lookup_by_found_id(chapters: Seq<ChapterView>, title: Seq<char>)
    requires
        forall|i: int, j: int|
            0 <= i < j < chapters.len() ==> #[trigger] chapters[i].id != #[trigger] chapters[j].id,
    ensures
        lookup(chapters, title) matches Some(chapter) ==> lookup_id(chapters, chapter.id) == Some(
            chapter,
        ),
{
    titles(chapters).index_of_first_ensures(title);
    if let Some(i) = titles(chapters).index_of_first(title) {
        let id = chapters[i].id;
        assert(ids(chapters)[i] == id);
        ids(chapters).index_of_first_ensures(id);
        let k = ids(chapters).index_of_first(id).unwrap();
        assert(ids(chapters)[k] == chapters[k].id);
    }
}

/// The numeral of a verse number holds no `-`, so as a verse argument it is a single label,
/// never a range.
pub proof fn lemma_resolve_number_is_single(chapters: Seq<ChapterView>, number: nat)
    ensures
        resolve(chapters, decimal_text(number)) == resolve_number(chapters, number),
{
    lemma_decimal_text_reads_back(number);
}

/// Once one of the verses `1` to `count` fails, asking for more verses fails in the same way.
pub proof fn lemma_resolve_first_keeps_failure(chapters: Seq<ChapterView>, count: nat, more: nat)
    requires
        count <= more,
        resolve_first(chapters, count) is Err,
    ensures
        resolve_first(chapters, more) == resolve_first(chapters, count),
    decreases more,
{
    if count < more {
        lemma_resolve_first_keeps_failure(chapters, count, (more - 1) as nat);
    }
}

/// What the verses `1` to `count` resolve to, verse by verse: on success one pair of times
/// for each of them, in ascending order; on failure the failure of the lowest verse that
/// cannot be resolved.
pub proof fn lemma_resolve_first_each(chapters: Seq<ChapterView>, count: nat)
    ensures
        match resolve_first(chapters, count) {
            Ok(spans) => spans.len() == count && forall|k: nat|
                1 <= k <= count ==> #[trigger] resolve_number(chapters, k) == Ok::<
                    Span,
                    ErrorView,
                >(spans[k - 1]),
            Err(e) => exists|k: nat|
                1 <= k <= count && #[trigger] resolve_number(chapters, k) == Err::<
                    Span,
                    ErrorView,
                >(e) && forall|j: nat|
                    1 <= j < k ==> #[trigger] resolve_number(chapters, j) is Ok,
        },
    decreases count,
{
    if count > 0 {
        let before = (count - 1) as nat;
        lemma_resolve_first_each(chapters, before);
        match resolve_first(chapters, before) {
            Err(e) => {
                let k = choose|k: nat|
                    1 <= k <= before && #[trigger] resolve_number(chapters, k) == Err::<
                        Span,
                        ErrorView,
                    >(e) && forall|j: nat|
                        1 <= j < k ==> #[trigger] resolve_number(chapters, j) is Ok;
                assert(1 <= k <= count && resolve_number(chapters, k) == Err::<Span, ErrorView>(e));
            },
            Ok(spans) => match resolve_number(chapters, count) {
                Err(e) => {
                    assert(1 <= count <= count && resolve_number(chapters, count) == Err::<
                        Span,
                        ErrorView,
                    >(e));
                },
                Ok(span) => {
                    let all = spans.push(span);
                    assert forall|k: nat| 1 <= k <= count implies #[trigger] resolve_number(
                        chapters,
                        k,
                    ) == Ok::<Span, ErrorView>(all[k - 1]) by {
                        if k < count {
                            assert(all[k - 1] == spans[k - 1]);
                        }
                    }
                },
            },
        }
    }
}

/// The verse whose number the last title ends in is never among the verses that are
/// resolved: for a last verse `n` there are `n - 1` pairs of times, and none for a last verse
/// below `2`. A catalog fails as a whole where its last title ends in no number, where it has
/// no prefix, or where one of the verses below the last is missing.
pub proof fn lemma_resolve_all_stops_short(chapters: Seq<ChapterView>)
    ensures
        match (verse_number(last_title(chapters)), resolve_all(chapters)) {
            (Some(n), Ok(spans)) => spans.len() == verses_before(n as int),
            (Some(n), Err(e)) => n > 1 && (e is VerseNotFound || e is PrefixNotMatch),
            (None, outcome) => outcome == Err::<Seq<Span>, ErrorView>(
                ErrorView::VerseFromTitle { item: title_suffix(last_title(chapters)) },
            ),
        },
{
    if let Some(n) = verse_number(last_title(chapters)) {
        lemma_resolve_first_each(chapters, verses_before(n as int));
    }
}

} // verus!
