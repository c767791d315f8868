//! Reassembles recognized text into paragraphs.
//!
//! Recognized text comes broken into lines by the page layout. A blank line is
//! the only sign of a paragraph boundary: the lines between two blank lines
//! are fused, each trimmed and with nothing put between them, and a single
//! line feed stands for each boundary.

use vstd::prelude::*;
use crate::lines::{
    first_line_feed, lemma_first_line_feed, lemma_first_line_feed_is,
    lemma_lines_hold_no_line_feed, lemma_lines_of_single, line_ranges, lines_of,
    without_carriage_return,
};
use crate::text::{
    is_tight, is_whitespace, lemma_trimmed_chars, lemma_trimmed_is_tight, lemma_trimmed_of_tight,
    push_range, to_chars, trim, trim_bounds, trimmed, views_of,
};

verus! {

/// Where the reassembly stands after some lines.
pub struct Fusion {
    /// What has been put out so far.
    pub text: Seq<char>,
    /// A blank line has been seen since the last line that was put out.
    pub pending_break: bool,
}

/// The reassembly before any line.
pub open spec fn fusion_start() -> Fusion {
    Fusion { text: Seq::empty(), pending_break: false }
}

/// Takes one more line into the reassembly.
pub open spec fn fuse_line(before: Fusion, line: Seq<char>) -> Fusion {
    let content = trimmed(line);
    if content.len() == 0 {
        Fusion { text: before.text, pending_break: true }
    } else if before.pending_break {
        Fusion { text: before.text.push('\n') + content, pending_break: false }
    } else {
        Fusion { text: before.text + content, pending_break: false }
    }
}

/// The reassembly of `lines`, taken in order.
pub open spec fn fuse_lines(lines: Seq<Seq<char>>) -> Fusion
    decreases lines.len(),
{
    if lines.len() == 0 {
        fusion_start()
    } else {
        fuse_line(fuse_lines(lines.drop_last()), lines.last())
    }
}

/// The normalized form of `text`.
pub open spec fn normalized(text: Seq<char>) -> Seq<char> {
    fuse_lines(lines_of(text)).text
}

/// The parts, each trimmed, one after the other.
pub open spec fn concat_trimmed(parts: Seq<Seq<char>>) -> Seq<char>
    decreases parts.len(),
{
    if parts.len() == 0 {
        Seq::empty()
    } else {
        concat_trimmed(parts.drop_last()) + trimmed(parts.last())
    }
}

/// The normalized form of page texts that follow one another.
pub open spec fn pages_joined(pages: Seq<Seq<char>>) -> Seq<char> {
    normalized(concat_trimmed(pages))
}

/// `s` without its line feeds.
pub open spec fn without_line_feeds(s: Seq<char>) -> Seq<char>
    decreases s.len(),
{
    if s.len() == 0 {
        s
    } else if s.last() == '\n' {
        without_line_feeds(s.drop_last())
    } else {
        without_line_feeds(s.drop_last()).push(s.last())
    }
}

/// No character of `s` is a line feed.
pub open spec fn holds_no_line_feed(s: Seq<char>) -> bool {
    forall|j: int| 0 <= j < s.len() ==> #[trigger] s[j] != '\n'
}

/// A text of at most one paragraph: no line feed stands past its first
/// character.
pub open spec fn is_single_paragraph(s: Seq<char>) -> bool {
    forall|j: int| 0 < j < s.len() ==> #[trigger] s[j] != '\n'
}

/// No line of `lines` holds a line feed.
pub open spec fn lines_hold_no_line_feed(lines: Seq<Seq<char>>) -> bool {
    forall|i: int| 0 <= i < lines.len() ==> holds_no_line_feed(#[trigger] lines[i])
}

/// The shape of a reassembled text: it does not end in whitespace, it starts
/// with a line feed or with a character that is no whitespace, and what
/// follows a line feed is no whitespace.
pub open spec fn is_reassembled(s: Seq<char>) -> bool {
    &&& s.len() > 0 ==> !is_whitespace(s.last())
    &&& s.len() > 0 ==> s[0] == '\n' || !is_whitespace(s[0])
    &&& forall|j: int|
        0 <= j < s.len() && #[trigger] s[j] == '\n' ==> j + 1 < s.len() && !is_whitespace(s[j + 1])
}

/// Trimming a line adds no line feed to it.
pub proof fn lemma_trimmed_holds_no_line_feed(line: Seq<char>)
    requires
        holds_no_line_feed(line),
    ensures
        holds_no_line_feed(trimmed(line)),
{
    lemma_trimmed_chars(line);
}

/// The lines of a text hold no line feed.
pub proof fn lemma_lines_of_hold_no_line_feed(text: Seq<char>)
    ensures
        lines_hold_no_line_feed(lines_of(text)),
{
    lemma_lines_hold_no_line_feed(text);
    let lines = lines_of(text);
    assert forall|i: int| 0 <= i < lines.len() implies holds_no_line_feed(#[trigger] lines[i]) by {
        assert forall|j: int| 0 <= j < lines[i].len() implies #[trigger] lines[i][j] != '\n' by {
            assert(lines_of(text)[i][j] != '\n');
        }
    }
}

/// Lines without line feeds reassemble to a text of the reassembled shape.
pub proof fn lemma_fused_shape(lines: Seq<Seq<char>>)
    requires
        lines_hold_no_line_feed(lines),
    ensures
        is_reassembled(fuse_lines(lines).text),
    decreases lines.len(),
{
    if lines.len() > 0 {
        let before = fuse_lines(lines.drop_last());
        assert forall|i: int| 0 <= i < lines.drop_last().len() implies holds_no_line_feed(
            #[trigger] lines.drop_last()[i],
        ) by {
            assert(lines.drop_last()[i] == lines[i]);
        }
        lemma_fused_shape(lines.drop_last());
        let content = trimmed(lines.last());
        lemma_trimmed_is_tight(lines.last());
        lemma_trimmed_holds_no_line_feed(lines.last());
        let s = fuse_lines(lines).text;
        let old_len = before.text.len() as int;
        if content.len() == 0 {
        } else if before.pending_break {
            assert(s == before.text.push('\n') + content);
            assert(s.last() == content.last());
            assert forall|j: int| 0 <= j < s.len() && #[trigger] s[j] == '\n' implies j + 1
                < s.len() && !is_whitespace(s[j + 1]) by {
                if j < old_len {
                    assert(before.text[j] == '\n');
                    assert(s[j + 1] == before.text[j + 1]);
                } else if j == old_len {
                    assert(s[j + 1] == content[0]);
                } else {
                    assert(s[j] == content[j - old_len - 1]);
                }
            }
        } else {
            assert(s == before.text + content);
            assert(s.last() == content.last());
            if old_len == 0 {
                assert(s[0] == content[0]);
            }
            assert forall|j: int| 0 <= j < s.len() && #[trigger] s[j] == '\n' implies j + 1
                < s.len() && !is_whitespace(s[j + 1]) by {
                if j < old_len {
                    assert(before.text[j] == '\n');
                    assert(s[j + 1] == before.text[j + 1]);
                } else {
                    assert(s[j] == content[j - old_len]);
                }
            }
        }
    }
}

/// A normalized text has the reassembled shape.
pub proof fn lemma_normalized_shape(text: Seq<char>)
    ensures
        is_reassembled(normalized(text)),
{
    lemma_lines_of_hold_no_line_feed(text);
    lemma_fused_shape(lines_of(text));
}

/// One more line is taken in after the lines before it.
pub proof fn lemma_fuse_lines_push(lines: Seq<Seq<char>>, line: Seq<char>)
    ensures
        fuse_lines(lines.push(line)) == fuse_line(fuse_lines(lines), line),
{
    assert(lines.push(line).drop_last() == lines);
}

/// A text of the reassembled shape with at most one paragraph is its own
/// normalized form.
pub proof fn lemma_single_paragraph_is_fixed(s: Seq<char>)
    requires
        is_reassembled(s),
        is_single_paragraph(s),
    ensures
        normalized(s) == s,
{
    let none = Seq::<Seq<char>>::empty();
    if s.len() == 0 {
    } else if s[0] != '\n' {
        lemma_lines_of_single(s);
        assert(seq![s] == none.push(s));
        lemma_fuse_lines_push(none, s);
        lemma_trimmed_of_tight(s);
        assert(Seq::<char>::empty() + s == s);
    } else {
        let rest = s.skip(1);
        assert(s[0] == '\n');
        assert(rest[0] == s[1]);
        assert(rest.last() == s.last());
        assert forall|j: int| 0 <= j < rest.len() implies #[trigger] rest[j] != '\n' by {
            assert(rest[j] == s[j + 1]);
        }
        lemma_first_line_feed_is(s, 0);
        lemma_lines_of_single(rest);
        let blank = Seq::<char>::empty();
        assert(s.take(0) == blank);
        assert(without_carriage_return(blank) == blank);
        let lines = seq![blank, rest];
        assert(lines_of(s) == lines) by {
            assert(seq![blank] + seq![rest] == lines);
        }
        assert(lines == none.push(blank).push(rest));
        lemma_fuse_lines_push(none, blank);
        lemma_fuse_lines_push(none.push(blank), rest);
        lemma_trimmed_of_tight(blank);
        lemma_trimmed_of_tight(rest);
        assert(blank.push('\n') + rest == s);
    }
}

/// Normalizing a second time changes nothing, for a text of at most one
/// paragraph.
///
/// With two paragraphs or more the second pass finds no blank line between
/// them and fuses them, so the restriction cannot be dropped.
pub proof fn lemma_normalize_idempotent(text: Seq<char>)
    requires
        is_single_paragraph(normalized(text)),
    ensures
        normalized(normalized(text)) == normalized(text),
{
    lemma_normalized_shape(text);
    lemma_single_paragraph_is_fixed(normalized(text));
}

/// Line feeds are taken out of each part alone.
pub proof fn lemma_without_line_feeds_concat(a: Seq<char>, b: Seq<char>)
    ensures
        without_line_feeds(a + b) == without_line_feeds(a) + without_line_feeds(b),
    decreases b.len(),
{
    if b.len() == 0 {
        assert(a + b == a);
    } else {
        assert((a + b).drop_last() == a + b.drop_last());
        lemma_without_line_feeds_concat(a, b.drop_last());
    }
}

/// Nothing is taken out of a text without line feeds.
pub proof fn lemma_without_line_feeds_same(s: Seq<char>)
    requires
        holds_no_line_feed(s),
    ensures
        without_line_feeds(s) == s,
    decreases s.len(),
{
    if s.len() > 0 {
        assert forall|j: int| 0 <= j < s.drop_last().len() implies #[trigger] s.drop_last()[j]
            != '\n' by {
            assert(s.drop_last()[j] == s[j]);
        }
        lemma_without_line_feeds_same(s.drop_last());
        assert(s.drop_last().push(s.last()) == s);
    }
}

/// Reassembly keeps the order: without the line feeds it puts in, the result
/// is the trimmed lines one after the other.
pub proof fn lemma_fuse_keeps_order(lines: Seq<Seq<char>>)
    requires
        lines_hold_no_line_feed(lines),
    ensures
        without_line_feeds(fuse_lines(lines).text) == concat_trimmed(lines),
    decreases lines.len(),
{
    if lines.len() > 0 {
        let before = fuse_lines(lines.drop_last());
        assert forall|i: int| 0 <= i < lines.drop_last().len() implies holds_no_line_feed(
            #[trigger] lines.drop_last()[i],
        ) by {
            assert(lines.drop_last()[i] == lines[i]);
        }
        lemma_fuse_keeps_order(lines.drop_last());
        let content = trimmed(lines.last());
        lemma_trimmed_holds_no_line_feed(lines.last());
        lemma_without_line_feeds_same(content);
        if content.len() == 0 {
            assert(concat_trimmed(lines.drop_last()) + content == concat_trimmed(
                lines.drop_last(),
            ));
        } else if before.pending_break {
            let broken = before.text.push('\n');
            assert(broken.drop_last() == before.text);
            lemma_without_line_feeds_concat(broken, content);
        } else {
            lemma_without_line_feeds_concat(before.text, content);
        }
    }
}

/// Joining is order-preserving: the normalized text without its line feeds is
/// the trimmed lines of the text, one after the other.
pub proof fn lemma_join_keeps_order(text: Seq<char>)
    ensures
        without_line_feeds(normalized(text)) == concat_trimmed(lines_of(text)),
{
    lemma_lines_of_hold_no_line_feed(text);
    lemma_fuse_keeps_order(lines_of(text));
}

/// The reassembly of `lines` that sets out from `state`.
spec fn fuse_from(state: Fusion, lines: Seq<Seq<char>>) -> Fusion
    decreases lines.len(),
{
    if lines.len() == 0 {
        state
    } else {
        fuse_line(fuse_from(state, lines.drop_last()), lines.last())
    }
}

/// What a state of the reassembly holds: its text, and one more for a break
/// that is pending.
spec fn weight(state: Fusion) -> int {
    state.text.len() + if state.pending_break {
        1int
    } else {
        0int
    }
}

/// By how much the reassembly of `text` after `state` falls short of what
/// went into it.
spec fn slack(state: Fusion, text: Seq<char>) -> int {
    weight(state) + text.len() - weight(fuse_from(state, lines_of(text)))
}

proof fn lemma_fuse_from_start(lines: Seq<Seq<char>>)
    ensures
        fuse_lines(lines) == fuse_from(fusion_start(), lines),
    decreases lines.len(),
{
    if lines.len() > 0 {
        lemma_fuse_from_start(lines.drop_last());
    }
}

proof fn lemma_fuse_from_first(state: Fusion, line: Seq<char>, rest: Seq<Seq<char>>)
    ensures
        fuse_from(state, seq![line] + rest) == fuse_from(fuse_line(state, line), rest),
    decreases rest.len(),
{
    let lines = seq![line] + rest;
    let none = Seq::<Seq<char>>::empty();
    if rest.len() == 0 {
        assert(lines.drop_last() == none);
        assert(lines.last() == line);
        assert(fuse_from(state, none) == state);
        assert(fuse_from(state, lines) == fuse_line(state, line));
        assert(rest == none);
    } else {
        assert(lines.drop_last() == seq![line] + rest.drop_last());
        assert(lines.last() == rest.last());
        lemma_fuse_from_first(state, line, rest.drop_last());
    }
}

/// The reassembly never holds more than went into it. It holds less where a
/// break is pending and a line feed follows, and, where no break is pending,
/// wherever the text has more than one paragraph.
proof fn lemma_slack(state: Fusion, text: Seq<char>)
    ensures
        slack(state, text) >= 0,
        state.pending_break && slack(state, text) == 0 ==> holds_no_line_feed(text),
        !state.pending_break && slack(state, text) == 0 ==> is_single_paragraph(text),
    decreases text.len(),
{
    let none = Seq::<Seq<char>>::empty();
    assert(fuse_from(state, none) == state);
    if text.len() == 0 {
        assert(lines_of(text) == none);
    } else {
        lemma_first_line_feed(text);
        let end = first_line_feed(text) as int;
        if end >= text.len() {
            assert(lines_of(text) == none.push(text));
            assert(none.push(text).drop_last() == none);
            assert(fuse_from(state, lines_of(text)) == fuse_line(state, text));
            lemma_trimmed_chars(text);
        } else {
            let line = without_carriage_return(text.take(end));
            let rest = text.skip(end + 1);
            let after = fuse_line(state, line);
            lemma_fuse_from_first(state, line, lines_of(rest));
            lemma_trimmed_chars(line);
            lemma_slack(after, rest);
            let step = weight(state) + end + 1 - weight(after);
            assert(slack(state, text) == slack(after, rest) + step);
            assert(step >= 0);
            if state.pending_break {
                assert(step >= 1);
            } else if slack(state, text) == 0 {
                assert(after.pending_break && end == 0);
                assert forall|j: int| 0 < j < text.len() implies #[trigger] text[j] != '\n' by {
                    assert(text[j] == rest[j - 1]);
                }
            }
        }
    }
}

/// A text that is its own normalized form has at most one paragraph.
pub proof fn lemma_fixed_text_is_single_paragraph(text: Seq<char>)
    requires
        normalized(text) == text,
    ensures
        is_single_paragraph(text),
{
    lemma_fuse_from_start(lines_of(text));
    lemma_slack(fusion_start(), text);
}

/// Normalizing a second time changes nothing exactly where the normalized
/// text has at most one paragraph.
pub proof fn lemma_normalize_twice(text: Seq<char>)
    ensures
        normalized(normalized(text)) == normalized(text) <==> is_single_paragraph(
            normalized(text),
        ),
{
    if is_single_paragraph(normalized(text)) {
        lemma_normalize_idempotent(text);
    }
    if normalized(normalized(text)) == normalized(text) {
        lemma_fixed_text_is_single_paragraph(normalized(text));
    }
}

/// Trimmed parts without line feeds make up a tight text without line feeds.
pub proof fn lemma_concat_trimmed_shape(parts: Seq<Seq<char>>)
    requires
        forall|i: int| 0 <= i < parts.len() ==> holds_no_line_feed(trimmed(#[trigger] parts[i])),
    ensures
        is_tight(concat_trimmed(parts)),
        holds_no_line_feed(concat_trimmed(parts)),
    decreases parts.len(),
{
    if parts.len() > 0 {
        let before = concat_trimmed(parts.drop_last());
        let content = trimmed(parts.last());
        assert forall|i: int| 0 <= i < parts.drop_last().len() implies holds_no_line_feed(
            trimmed(#[trigger] parts.drop_last()[i]),
        ) by {
            assert(parts.drop_last()[i] == parts[i]);
        }
        lemma_concat_trimmed_shape(parts.drop_last());
        lemma_trimmed_is_tight(parts.last());
        let whole = before + content;
        if content.len() == 0 {
            assert(whole == before);
        } else {
            assert(whole.last() == content.last());
            if before.len() == 0 {
                assert(whole == content);
            } else {
                assert(whole[0] == before[0]);
            }
            assert forall|j: int| 0 <= j < whole.len() implies #[trigger] whole[j] != '\n' by {
                if j < before.len() {
                    assert(whole[j] == before[j]);
                } else {
                    assert(whole[j] == content[j - before.len()]);
                }
            }
        }
    }
}

/// Pages of one line each are fused in their order: where no page holds a
/// line feed between its first and its last character that is no whitespace,
/// the joined text is the trimmed pages one after the other.
pub proof fn lemma_single_line_pages_are_fused(pages: Seq<Seq<char>>)
    requires
        forall|i: int| 0 <= i < pages.len() ==> holds_no_line_feed(trimmed(#[trigger] pages[i])),
    ensures
        pages_joined(pages) == concat_trimmed(pages),
{
    lemma_concat_trimmed_shape(pages);
    lemma_single_paragraph_is_fixed(concat_trimmed(pages));
}

/// Normalizes `text`: its lines are trimmed, blank lines are dropped, the
/// lines between blank lines are fused with nothing between them, and one
/// line feed is put where blank lines stood before a line.
pub fn join_pdf2txt_text(text: &str) -> (joined: String)
    ensures
        joined@ == normalized(text@),
{
    let v = to_chars(text);
    let ranges = line_ranges(&v);
    let ghost lines = lines_of(v@);
    let mut joined = String::new();
    let mut pending_break = false;
    let mut i: usize = 0;
    proof {
        assert(lines.take(0) == Seq::<Seq<char>>::empty());
    }
    while i < ranges.len()
        invariant
            i <= ranges.len(),
            lines == lines_of(v@),
            ranges.len() == lines.len(),
            forall|k: int|
                0 <= k < ranges.len() ==> {
                    &&& (#[trigger] ranges[k]).0 <= ranges[k].1 <= v.len()
                    &&& v@.subrange(ranges[k].0 as int, ranges[k].1 as int) == lines[k]
                },
            fuse_lines(lines.take(i as int)) == (Fusion { text: joined@, pending_break }),
        decreases ranges.len() - i,
    {
        let (from, to) = ranges[i];
        let (a, b) = trim_bounds(&v, from, to);
        proof {
            let upto = lines.take(i + 1);
            assert(upto.drop_last() == lines.take(i as int));
            assert(upto.last() == lines[i as int]);
        }
        if a == b {
            pending_break = true;
        } else {
            if pending_break {
                joined.push('\n');
            }
            push_range(&mut joined, &v, a, b);
            pending_break = false;
        }
        i += 1;
    }
    proof {
        assert(lines.take(lines.len() as int) == lines);
    }
    joined
}

/// Joins the texts of the pages of one document: each is trimmed, they are
/// put one after the other with nothing between them, and the whole is
/// normalized.
pub fn join_page_texts(pages: &Vec<String>) -> (joined: String)
    ensures
        joined@ == pages_joined(views_of(pages@)),
{
    let ghost views = views_of(pages@);
    let mut whole = String::new();
    let mut i: usize = 0;
    proof {
        assert(views.take(0) == Seq::<Seq<char>>::empty());
    }
    while i < pages.len()
        invariant
            i <= pages.len(),
            views == views_of(pages@),
            whole@ == concat_trimmed(views.take(i as int)),
        decreases pages.len() - i,
    {
        let page = trim(pages[i].as_str());
        proof {
            let upto = views.take(i + 1);
            assert(upto.drop_last() == views.take(i as int));
            assert(upto.last() == pages[i as int]@);
        }
        whole.append(page.as_str());
        i += 1;
    }
    proof {
        assert(views.take(views.len() as int) == views);
    }
    join_pdf2txt_text(whole.as_str())
}

} // verus!
