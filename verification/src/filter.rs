//! Drops boilerplate lines from the text that the text-layer tool extracts.
//!
//! A boilerplate line is pagination noise: a line that begins like a bare page
//! number (digits, with a dash before or after them if there is one), or a
//! line that ends in whitespace. The test is a heuristic and takes some lines
//! of content for noise, such as one that begins with a number.

use vstd::prelude::*;
use crate::error::PipelineError;
use crate::lines::{lines_of, split_lines};
use crate::pattern::{pattern_match, regex_is_match};
use crate::text::views_of;

verus! {

/// The pattern that a boilerplate line matches.
pub const BOILERPLATE_PATTERN: &'static str = "^(\\s*-?\\s*\\d+\\s*-?\\s*)|(\\s+)$";

/// Whether each of `lines` is boilerplate; nothing if the engine refuses the
/// pattern.
pub open spec fn boilerplate_marks(lines: Seq<Seq<char>>) -> Option<Seq<bool>>
    decreases lines.len(),
{
    if lines.len() == 0 {
        Some(Seq::empty())
    } else {
        match (
            boilerplate_marks(lines.drop_last()),
            pattern_match(BOILERPLATE_PATTERN@, lines.last()),
        ) {
            (Some(marks), Some(mark)) => Some(marks.push(mark)),
            _ => None,
        }
    }
}

/// The lines that are not marked, in order, each closed by a line feed. The
/// mark of a line stands at the line's index; a line without a mark is kept.
pub open spec fn kept_lines(lines: Seq<Seq<char>>, marks: Seq<bool>) -> Seq<char>
    decreases lines.len(),
{
    if lines.len() == 0 {
        Seq::empty()
    } else if lines.len() <= marks.len() && marks[lines.len() - 1] {
        kept_lines(lines.drop_last(), marks)
    } else {
        kept_lines(lines.drop_last(), marks) + lines.last().push('\n')
    }
}

/// The text without its boilerplate lines; nothing if the engine refuses the
/// pattern.
pub open spec fn filtered_text(text: Seq<char>) -> Option<Seq<char>> {
    match boilerplate_marks(lines_of(text)) {
        Some(marks) => Some(kept_lines(lines_of(text), marks)),
        None => None,
    }
}

/// Where the engine refuses the pattern for some of the lines, it refuses it
/// for all of them.
pub proof fn lemma_marks_fail_for_more(lines: Seq<Seq<char>>, k: int)
    requires
        0 <= k <= lines.len(),
        boilerplate_marks(lines.take(k)) is None,
    ensures
        boilerplate_marks(lines) is None,
    decreases lines.len() - k,
{
    if k == lines.len() {
        assert(lines.take(k) == lines);
    } else {
        assert(lines.take(k + 1).drop_last() == lines.take(k));
        lemma_marks_fail_for_more(lines, k + 1);
    }
}

/// Whether `line` is boilerplate.
pub fn is_boilerplate_line(line: &str) -> (mark: Result<bool, PipelineError>)
    ensures
        match pattern_match(BOILERPLATE_PATTERN@, line@) {
            Some(found) => mark == Ok::<bool, PipelineError>(found),
            None => mark == Err::<bool, PipelineError>(PipelineError::Pattern),
        },
{
    match regex_is_match(BOILERPLATE_PATTERN, line) {
        Ok(found) => Ok(found),
        Err(_) => Err(PipelineError::Pattern),
    }
}

/// Puts together the lines that are not marked, in order, each closed by a
/// line feed. The mark of a line stands at the line's index; a line without a
/// mark is kept.
pub fn keep_lines(lines: &Vec<String>, marks: &Vec<bool>) -> (kept: String)
    ensures
        kept@ == kept_lines(views_of(lines@), marks@),
{
    let ghost views = views_of(lines@);
    let mut kept = String::new();
    let mut i: usize = 0;
    proof {
        assert(views.take(0) == Seq::<Seq<char>>::empty());
    }
    while i < lines.len()
        invariant
            i <= lines.len(),
            views == views_of(lines@),
            kept@ == kept_lines(views.take(i as int), marks@),
        decreases lines.len() - i,
    {
        proof {
            assert(views.take(i + 1).drop_last() == views.take(i as int));
            assert(views.take(i + 1).last() == lines[i as int]@);
        }
        if !(i < marks.len() && marks[i]) {
            kept.append(lines[i].as_str());
            kept.push('\n');
            proof {
                let line = lines[i as int]@;
                let before = kept_lines(views.take(i as int), marks@);
                assert((before + line).push('\n') == before + line.push('\n'));
            }
        }
        i += 1;
    }
    proof {
        assert(views.take(views.len() as int) == views);
    }
    kept
}

/// Drops the boilerplate lines of `text`. The lines that stay are put out as
/// they are, in order, each closed by a line feed.
///
/// Fails with a pattern error if the engine refuses the pattern.
pub fn filter_text_layer(text: &str) -> (filtered: Result<String, PipelineError>)
    ensures
        match filtered_text(text@) {
            Some(kept) => filtered matches Ok(out) && out@ == kept,
            None => filtered == Err::<String, PipelineError>(PipelineError::Pattern),
        },
{
    let lines = split_lines(text);
    let ghost views = views_of(lines@);
    let mut marks: Vec<bool> = Vec::new();
    let mut i: usize = 0;
    proof {
        assert(views.take(0) == Seq::<Seq<char>>::empty());
    }
    while i < lines.len()
        invariant
            i <= lines.len(),
            marks.len() == i,
            views == views_of(lines@),
            views == lines_of(text@),
            boilerplate_marks(views.take(i as int)) == Some(marks@),
        decreases lines.len() - i,
    {
        proof {
            assert(views.take(i + 1).drop_last() == views.take(i as int));
            assert(views.take(i + 1).last() == lines[i as int]@);
        }
        match is_boilerplate_line(lines[i].as_str()) {
            Ok(mark) => {
                marks.push(mark);
            },
            Err(e) => {
                proof {
                    lemma_marks_fail_for_more(views, i + 1);
                }
                return Err(e);
            },
        }
        i += 1;
    }
    proof {
        assert(views.take(views.len() as int) == views);
    }
    Ok(keep_lines(&lines, &marks))
}

} // verus!
