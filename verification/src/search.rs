//! Finding the lines of a text that hold a query.
//!
//! A search that tells case apart keeps the lines in which the query stands
//! as it is written. A search that does not puts the query and each line
//! into lowercase first, each on its own, and keeps the lines whose lowercase
//! form holds the lowercase query; what it returns are the lines as they
//! stand in the text.

use crate::config::Config;
use crate::lines::lemma_line_end;
use crate::lines::lines_of;
use crate::lines::next_line;
use crate::order::embeds_at;
use crate::order::is_subsequence_of;
use crate::order::keeps_at;
use crate::order::lemma_filter_embeds;
use crate::order::lemma_filter_keeps_all;
use crate::order::lemma_filter_positions;
use vstd::prelude::*;

verus! {

/// `part` stands somewhere in `text`, character for character. The empty
/// text stands in every text.
pub open spec fn occurs_in(part: Seq<char>, text: Seq<char>) -> bool {
    exists|at: int|
        0 <= at <= text.len() - part.len() && #[trigger] text.subrange(at, at + part.len()) == part
}

/// The lowercase form of `text`, as `str::to_lowercase` gives it.
pub uninterp spec fn lowercase(text: Seq<char>) -> Seq<char>;

/// What a search compares in place of `text`: the text itself where case
/// counts, its lowercase form where it does not.
pub open spec fn compared(text: Seq<char>, case_sensitive: bool) -> Seq<char> {
    if case_sensitive {
        text
    } else {
        lowercase(text)
    }
}

/// The test that a search for `needle` puts each line to: `needle` stands in
/// what is compared in place of the line.
pub open spec fn holds(needle: Seq<char>, case_sensitive: bool) -> spec_fn(Seq<char>) -> bool {
    |line: Seq<char>| occurs_in(needle, compared(line, case_sensitive))
}

/// The lines of `contents` that match `query`, in their order and each as
/// often as it stands there.
pub open spec fn matching_lines(
    query: Seq<char>,
    contents: Seq<char>,
    case_sensitive: bool,
) -> Seq<Seq<char>> {
    lines_of(contents).filter(holds(compared(query, case_sensitive), case_sensitive))
}

/// Lowercase keeps `query` inside the lines of `contents`: of each line that
/// holds the query as written, the lowercase form holds the lowercase form of
/// the query.
pub open spec fn lowercase_keeps(query: Seq<char>, contents: Seq<char>) -> bool {
    forall|i: int|
        0 <= i < lines_of(contents).len() && occurs_in(query, #[trigger] lines_of(contents)[i])
            ==> occurs_in(lowercase(query), lowercase(lines_of(contents)[i]))
}

/// Whether `part` stands in `text`, by `str::contains` with a string as the
/// pattern. Trusted, not proved: the standard library documents that the call
/// tells whether the pattern matches a part of the text, and a string matches
/// the parts that are equal to it.
#[verifier::external_body]
fn contains(text: &str, part: &str) -> (found: bool)
    ensures
        found == occurs_in(part@, text@),
{
    text.contains(part)
}

/// The lowercase form of `text`, by `str::to_lowercase`. Trusted, not proved:
/// the result depends on the characters of `text` alone, so that it has a
/// name, `lowercase`; and the lowercase form of the empty text is empty, as
/// the standard library documents that a text without letters that have a
/// case is not changed. Nothing else is claimed of which characters it holds.
#[verifier::external_body]
fn to_lowercase(text: &str) -> (lowered: String)
    ensures
        lowered@ == lowercase(text@),
        text@.len() == 0 ==> lowered@.len() == 0,
{
    text.to_lowercase()
}

/// Whether a search for `needle` keeps `line`. Where case does not count, the
/// line is put into lowercase, and `needle` is taken to be in lowercase
/// already.
pub fn line_holds(line: &str, needle: &str, case_sensitive: bool) -> (kept: bool)
    ensures
        kept == holds(needle@, case_sensitive)(line@),
{
    if case_sensitive {
        contains(line, needle)
    } else {
        let lowered = to_lowercase(line);
        contains(lowered.as_str(), needle)
    }
}

/// The lines of `contents` that a search for `needle` keeps, in their order.
/// Where case does not count, each line is put into lowercase, and `needle`
/// is taken to be in lowercase already.
pub fn lines_holding<'a>(needle: &str, contents: &'a str, case_sensitive: bool) -> (found: Vec<
    &'a str,
>)
    ensures
        found.deep_view() == lines_of(contents@).filter(holds(needle@, case_sensitive)),
{
    let ghost test = holds(needle@, case_sensitive);
    let mut found: Vec<&'a str> = Vec::new();
    let mut rest = contents;
    while !rest.is_empty()
        invariant
            test == holds(needle@, case_sensitive),
            found.deep_view() + lines_of(rest@).filter(test) == lines_of(contents@).filter(test),
        decreases rest@.len(),
    {
        let ghost before = found.deep_view();
        let (line, after) = next_line(rest);
        proof {
            lemma_line_end(rest@);
            lines_of(after@).lemma_filter_prepend(line@, test);
        }
        if line_holds(line, needle, case_sensitive) {
            found.push(line);
        }
        assert(found.deep_view() + lines_of(after@).filter(test) =~= before + lines_of(
            rest@,
        ).filter(test));
        rest = after;
    }
    found
}

/// The lines of `contents` in which `query` stands as it is written; every
/// line where `query` is empty.
pub fn search<'a>(query: &str, contents: &'a str) -> (found: Vec<&'a str>)
    ensures
        found.deep_view() == matching_lines(query@, contents@, true),
        query@.len() == 0 ==> found.deep_view() == lines_of(contents@),
{
    proof {
        if query@.len() == 0 {
            lemma_empty_needle_finds_every_line(query@, contents@, true);
        }
    }
    lines_holding(query, contents, true)
}

/// The lines of `contents` whose lowercase form holds the lowercase form of
/// `query`; every line where `query` is empty.
pub fn search_case_insensitive<'a>(query: &str, contents: &'a str) -> (found: Vec<&'a str>)
    ensures
        found.deep_view() == matching_lines(query@, contents@, false),
        query@.len() == 0 ==> found.deep_view() == lines_of(contents@),
{
    let needle = to_lowercase(query);
    proof {
        if query@.len() == 0 {
            lemma_empty_needle_finds_every_line(query@, contents@, false);
        }
    }
    lines_holding(needle.as_str(), contents, false)
}

/// The lines of `contents` that match the query of `config`, case counting
/// or not as `config` says.
pub fn search_with<'a>(config: &Config, contents: &'a str) -> (found: Vec<&'a str>)
    ensures
        found.deep_view() == matching_lines(config.query@, contents@, config.case_sensitive),
        config.query@.len() == 0 ==> found.deep_view() == lines_of(contents@),
{
    if config.case_sensitive {
        search(config.query.as_str(), contents)
    } else {
        search_case_insensitive(config.query.as_str(), contents)
    }
}

/// Whether the search that ignores case is sure to find every line that the
/// search for `query` as written finds in `contents`: whether lowercase keeps
/// the query inside the lines that hold it.
pub fn lowercase_keeps_query(query: &str, contents: &str) -> (kept: bool)
    ensures
        kept == lowercase_keeps(query@, contents@),
        kept ==> is_subsequence_of(
            matching_lines(query@, contents@, true),
            matching_lines(query@, contents@, false),
        ),
{
    let needle = to_lowercase(query);
    let ghost lines = lines_of(contents@);
    let ghost mut seen: int = 0;
    let mut rest = contents;
    while !rest.is_empty()
        invariant
            needle@ == lowercase(query@),
            lines == lines_of(contents@),
            0 <= seen <= lines.len(),
            lines_of(rest@) == lines.subrange(seen, lines.len() as int),
            forall|i: int|
                0 <= i < seen && occurs_in(query@, #[trigger] lines[i]) ==> occurs_in(
                    lowercase(query@),
                    lowercase(lines[i]),
                ),
        decreases rest@.len(),
    {
        let (line, after) = next_line(rest);
        proof {
            lemma_line_end(rest@);
            let left = lines.subrange(seen, lines.len() as int);
            assert(left.len() >= 1);
            assert(lines[seen] == left[0]);
            assert(lines_of(after@) =~= lines.subrange(seen + 1, lines.len() as int)) by {
                assert forall|i: int| 0 <= i < lines_of(after@).len() implies lines_of(after@)[i]
                    == lines[seen + 1 + i] by {
                    assert(left[i + 1] == lines_of(after@)[i]);
                }
            }
        }
        if line_holds(line, query, true) && !line_holds(line, needle.as_str(), false) {
            return false;
        }
        proof {
            seen = seen + 1;
        }
        rest = after;
    }
    proof {
        lemma_ignoring_case_finds_more(query@, contents@);
    }
    true
}

/// What a search finds are the lines of the text that match, all of them and
/// no others, each as it stands in the text and as often as it stands there,
/// in the order of the text.
pub proof fn lemma_found_lines_are_the_matching_lines(
    query: Seq<char>,
    contents: Seq<char>,
    case_sensitive: bool,
)
    ensures
        exists|at: Seq<int>|
            keeps_at(
                matching_lines(query, contents, case_sensitive),
                lines_of(contents),
                holds(compared(query, case_sensitive), case_sensitive),
                at,
            ),
        is_subsequence_of(matching_lines(query, contents, case_sensitive), lines_of(contents)),
{
    let lines = lines_of(contents);
    let test = holds(compared(query, case_sensitive), case_sensitive);
    let at = lemma_filter_positions(lines, test);
}

/// A search finds every line of the text where what it compares in place of
/// the query is empty.
pub proof fn lemma_empty_needle_finds_every_line(
    query: Seq<char>,
    contents: Seq<char>,
    case_sensitive: bool,
)
    requires
        compared(query, case_sensitive).len() == 0,
    ensures
        matching_lines(query, contents, case_sensitive) == lines_of(contents),
{
    let lines = lines_of(contents);
    let needle = compared(query, case_sensitive);
    let test = holds(needle, case_sensitive);
    assert forall|i: int| 0 <= i < lines.len() implies test(#[trigger] lines[i]) by {
        let line = compared(lines[i], case_sensitive);
        assert(line.subrange(0, 0int + needle.len()) =~= needle);
    }
    lemma_filter_keeps_all(lines, test);
}

/// A search for the empty query, case counting, finds every line of the
/// text.
pub proof fn lemma_empty_query_finds_every_line(contents: Seq<char>)
    ensures
        matching_lines(Seq::empty(), contents, true) == lines_of(contents),
{
    lemma_empty_needle_finds_every_line(Seq::empty(), contents, true);
}

/// A search that ignores case finds every line that the search for the query
/// as written finds, and in the same order, provided that lowercase keeps the
/// query inside the lines that hold it: the lowercase form of each such line
/// holds the lowercase form of the query.
pub proof fn lemma_ignoring_case_finds_more(query: Seq<char>, contents: Seq<char>)
    requires
        lowercase_keeps(query, contents),
    ensures
        is_subsequence_of(
            matching_lines(query, contents, true),
            matching_lines(query, contents, false),
        ),
{
    let shown = lemma_filter_embeds(
        lines_of(contents),
        holds(query, true),
        holds(lowercase(query), false),
    );
    assert(embeds_at(
        matching_lines(query, contents, true),
        matching_lines(query, contents, false),
        shown,
    ));
}

/// Two searches with the same query, the same text and the same regard for
/// case find the same lines: whatever two lists meet the promise of a search
/// on these, they are equal line by line.
pub proof fn lemma_same_search_same_lines(
    first: Vec<&str>,
    second: Vec<&str>,
    query: Seq<char>,
    contents: Seq<char>,
    case_sensitive: bool,
)
    requires
        first.deep_view() == matching_lines(query, contents, case_sensitive),
        second.deep_view() == matching_lines(query, contents, case_sensitive),
    ensures
        first@.len() == second@.len(),
        forall|i: int| 0 <= i < first@.len() ==> first@[i]@ == second@[i]@,
{
    assert(first.deep_view().len() == second.deep_view().len());
    assert forall|i: int| 0 <= i < first@.len() implies first@[i]@ == second@[i]@ by {
        assert(first.deep_view()[i] == second.deep_view()[i]);
    }
}

} // verus!
