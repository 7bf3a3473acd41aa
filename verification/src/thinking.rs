//! Splitting assistant text at `<thinking>` boundaries.
//!
//! Pi wraps a model's reasoning in `<thinking>` tags inside the same text as its
//! reply, and the two are shown differently. Offsets are counted in bytes, so
//! that a segment can be cut out of the text that it was found in.

use std::ops::Range;

use vstd::prelude::*;
use vstd::string::*;
use vstd::utf8::{
    encode_utf8, is_ascii_chars_encode_utf8, is_char_boundary, is_char_boundary_iff_not_is_continuation_byte,
    is_char_boundary_start_end_of_seq, length_of_first_scalar, pop_first_scalar, valid_utf8,
};

use crate::text::{chars_of, has_prefix, matches_at, occurs_at, string_of};
use crate::views::lemma_views_push;

verus! {

/// A region of the source, split at `<thinking>` tag boundaries.
#[derive(Debug, PartialEq)]
pub enum Segment {
    Markdown(Range<usize>),
    Thinking(Range<usize>),
}

/// What a segment holds: from where up to where it reaches.
pub enum SegmentView {
    Markdown(int, int),
    Thinking(int, int),
}

impl View for Segment {
    type V = SegmentView;

    open spec fn view(&self) -> SegmentView {
        match *self {
            Segment::Markdown(range) => SegmentView::Markdown(range.start as int, range.end as int),
            Segment::Thinking(range) => SegmentView::Thinking(range.start as int, range.end as int),
        }
    }
}

/// What a list of segments holds.
pub open spec fn segment_views(v: Seq<Segment>) -> Seq<SegmentView> {
    crate::views::views(v)
}

/// The tag that opens reasoning: `<thinking>`.
pub open spec fn open_tag() -> Seq<u8> {
    seq![60u8, 116, 104, 105, 110, 107, 105, 110, 103, 62]
}

/// The tag that closes reasoning: `</thinking>`.
pub open spec fn close_tag() -> Seq<u8> {
    seq![60u8, 47, 116, 104, 105, 110, 107, 105, 110, 103, 62]
}

fn open_bytes() -> (r: Vec<u8>)
    ensures
        r@ == open_tag(),
{
    let r: Vec<u8> = vec![60u8, 116, 104, 105, 110, 107, 105, 110, 103, 62];
    proof {
        assert(r@ =~= open_tag());
    }
    r
}

fn close_bytes() -> (r: Vec<u8>)
    ensures
        r@ == close_tag(),
{
    let r: Vec<u8> = vec![60u8, 47, 116, 104, 105, 110, 107, 105, 110, 103, 62];
    proof {
        assert(r@ =~= close_tag());
    }
    r
}

/// Whether `tag` stands in `b` at `at`.
pub open spec fn tag_at(b: Seq<u8>, tag: Seq<u8>, at: int) -> bool {
    0 <= at && at + tag.len() <= b.len() && b.subrange(at, at + tag.len()) == tag
}

/// Whether `offset` lies in one of the ranges.
pub open spec fn in_ranges(ranges: Seq<(int, int)>, offset: int) -> bool {
    exists|k: int|
        0 <= k < ranges.len() && (#[trigger] ranges[k]).0 <= offset && offset < ranges[k].1
}

/// Where `tag` first stands outside of the fences, from `from` on.
pub open spec fn next_tag(b: Seq<u8>, fences: Seq<(int, int)>, tag: Seq<u8>, from: int) -> Option<
    int,
>
    decreases b.len() - from,
{
    if from < 0 || from + tag.len() > b.len() || from >= b.len() {
        None
    } else if tag_at(b, tag, from) && !in_ranges(fences, from) {
        Some(from)
    } else {
        next_tag(b, fences, tag, from + 1)
    }
}

/// The line break byte.
pub open spec fn line_break() -> u8 {
    10
}

/// Where the line that holds `from` ends, its line break counted.
pub open spec fn line_end(b: Seq<u8>, from: int) -> int
    decreases b.len() - from,
{
    if from < 0 || from >= b.len() {
        b.len() as int
    } else if b[from] == line_break() {
        from + 1
    } else {
        line_end(b, from + 1)
    }
}

/// How many bytes from `from` up to `end` in a row are spaces or tabs.
pub open spec fn indent_at(b: Seq<u8>, from: int, end: int) -> int
    decreases end - from,
{
    if from < end && (b[from] == 32 || b[from] == 9) {
        1 + indent_at(b, from + 1, end)
    } else {
        0
    }
}

/// How many bytes from `from` up to `end` in a row are `marker`.
pub open spec fn run_at(b: Seq<u8>, from: int, end: int, marker: u8) -> int
    decreases end - from,
{
    if from < end && b[from] == marker {
        1 + run_at(b, from + 1, end, marker)
    } else {
        0
    }
}

/// The fence that a line is: its marker, a backtick or a tilde, and how often it
/// stands there. It stands at least three times, behind no more than three blanks.
pub open spec fn fence_of(b: Seq<u8>, start: int, end: int) -> Option<(u8, int)> {
    let at = start + indent_at(b, start, end);
    if at - start <= 3 && at < end && (b[at] == 96 || b[at] == 126) && run_at(b, at, end, b[at])
        >= 3 {
        Some((b[at], run_at(b, at, end, b[at])))
    } else {
        None
    }
}

/// The ranges of the fenced code blocks from `from` on, where a fence is open
/// since `open`: its marker, its length and where it started. One that is never
/// closed reaches to the end.
pub open spec fn fences_from(b: Seq<u8>, from: int, open: Option<(u8, int, int)>) -> Seq<(int, int)>
    decreases b.len() - from,
    via fences_from_decreases
{
    if from < 0 || from >= b.len() {
        match open {
            Some((_, _, start)) => seq![(start, b.len() as int)],
            None => Seq::empty(),
        }
    } else {
        let end = line_end(b, from);
        match fence_of(b, from, end) {
            Some((marker, len)) => match open {
                Some((open_marker, open_len, start)) => if open_marker == marker && len
                    >= open_len {
                    seq![(start, end)] + fences_from(b, end, None)
                } else {
                    fences_from(b, end, open)
                },
                None => fences_from(b, end, Some((marker, len, from))),
            },
            None => fences_from(b, end, open),
        }
    }
}

#[via_fn]
proof fn fences_from_decreases(b: Seq<u8>, from: int, open: Option<(u8, int, int)>) {
    lemma_line_end(b, from);
}

proof fn lemma_line_end(b: Seq<u8>, from: int)
    ensures
        0 <= from < b.len() ==> from < line_end(b, from) <= b.len(),
        from >= b.len() ==> line_end(b, from) == b.len(),
    decreases b.len() - from,
{
    if 0 <= from < b.len() && b[from] != line_break() {
        lemma_line_end(b, from + 1);
    }
}

/// The ranges of the fenced code blocks of a text, fences included.
pub open spec fn fences(b: Seq<u8>) -> Seq<(int, int)> {
    fences_from(b, 0, None)
}

/// The segments from `start` on, where text that is no reasoning begins.
pub open spec fn segments_from(b: Seq<u8>, start: int) -> Seq<SegmentView>
    decreases b.len() - start,
    via segments_from_decreases
{
    match next_tag(b, fences(b), open_tag(), start) {
        None => if start < b.len() {
            seq![SegmentView::Markdown(start, b.len() as int)]
        } else {
            Seq::empty()
        },
        Some(open) => {
            let before = if start < open {
                seq![SegmentView::Markdown(start, open)]
            } else {
                Seq::empty()
            };
            match next_tag(b, fences(b), close_tag(), open + 10) {
                None => before + seq![SegmentView::Thinking(open + 10, b.len() as int)],
                Some(close) => before + seq![SegmentView::Thinking(open + 10, close)]
                    + segments_from(b, close + 11),
            }
        },
    }
}

#[via_fn]
proof fn segments_from_decreases(b: Seq<u8>, start: int) {
    lemma_next_tag(b, fences(b), open_tag(), start);
    if let Some(open) = next_tag(b, fences(b), open_tag(), start) {
        lemma_next_tag(b, fences(b), close_tag(), open + 10);
    }
}

/// The next tag stands where it is said to stand.
pub proof fn lemma_next_tag(b: Seq<u8>, ranges: Seq<(int, int)>, tag: Seq<u8>, from: int)
    ensures
        next_tag(b, ranges, tag, from) matches Some(at) ==> from <= at && tag_at(b, tag, at)
            && !in_ranges(ranges, at) && 0 <= at < b.len(),
        0 <= from ==> forall|k: int|
            from <= k && (next_tag(b, ranges, tag, from) matches Some(at) ==> k < at) && k < b.len()
                ==> !(#[trigger] tag_at(b, tag, k)) || in_ranges(ranges, k),
    decreases b.len() - from,
{
    if !(from < 0 || from + tag.len() > b.len() || from >= b.len()) {
        if !(tag_at(b, tag, from) && !in_ranges(ranges, from)) {
            lemma_next_tag(b, ranges, tag, from + 1);
        }
    }
}

/// What a list of byte ranges holds.
pub open spec fn range_views(v: Seq<Range<usize>>) -> Seq<(int, int)> {
    Seq::new(v.len(), |i: int| (v[i].start as int, v[i].end as int))
}

/// The byte ranges of the fenced code blocks of `source`, fences included.
pub fn fenced_ranges(source: &str) -> (r: Vec<Range<usize>>)
    ensures
        range_views(r@) == fences(source.spec_bytes()),
{
    let b: &[u8] = source.as_bytes();
    let ghost bytes = b@;
    let mut ranges: Vec<Range<usize>> = Vec::new();
    let mut open: Option<(u8, usize, usize)> = None;
    let mut offset: usize = 0;
    proof {
        assert(range_views(ranges@) =~= Seq::empty());
        assert(Seq::<(int, int)>::empty() + fences(bytes) =~= fences(bytes));
    }
    while offset < b.len()
        invariant
            b@ == bytes,
            offset <= bytes.len(),
            fences(bytes) == range_views(ranges@) + fences_from(bytes, offset as int, open_view(open)),
        decreases bytes.len() - offset,
    {
        let end: usize = find_line_end(b, offset);
        let ghost here = range_views(ranges@);
        let ghost was = open_view(open);
        let fence: Option<(u8, usize)> = read_fence(b, offset, end);
        match fence {
            Some((marker, len)) => {
                match open {
                    Some((open_marker, open_len, start)) => {
                        if open_marker == marker && len >= open_len {
                            ranges.push(start..end);
                            open = None;
                            proof {
                                assert(range_views(ranges@) =~= here.push(
                                    (start as int, end as int),
                                ));
                                assert(here + (seq![(start as int, end as int)] + fences_from(
                                    bytes,
                                    end as int,
                                    None,
                                )) =~= range_views(ranges@) + fences_from(
                                    bytes,
                                    end as int,
                                    None,
                                ));
                            }
                        }
                    },
                    None => {
                        open = Some((marker, len, offset));
                    },
                }
            },
            None => {},
        }
        offset = end;
    }
    let ghost here = range_views(ranges@);
    if let Some((_, _, start)) = open {
        ranges.push(start..b.len());
        proof {
            assert(range_views(ranges@) =~= here + seq![(start as int, bytes.len() as int)]);
        }
    } else {
        proof {
            assert(here + Seq::<(int, int)>::empty() =~= here);
        }
    }
    ranges
}

/// What an open fence holds.
pub open spec fn open_view(open: Option<(u8, usize, usize)>) -> Option<(u8, int, int)> {
    match open {
        Some((marker, len, start)) => Some((marker, len as int, start as int)),
        None => None,
    }
}

fn find_line_end(b: &[u8], from: usize) -> (r: usize)
    requires
        from < b@.len(),
    ensures
        r == line_end(b@, from as int),
        from < r <= b@.len(),
{
    let mut i: usize = from;
    while i < b.len()
        invariant
            from <= i <= b@.len(),
            from < b@.len(),
            line_end(b@, from as int) == line_end(b@, i as int),
        decreases b@.len() - i,
    {
        if b[i] == 10 {
            return i + 1;
        }
        i = i + 1;
    }
    i
}

fn read_fence(b: &[u8], start: usize, end: usize) -> (r: Option<(u8, usize)>)
    requires
        start < end <= b@.len(),
    ensures
        match r {
            Some((marker, len)) => fence_of(b@, start as int, end as int) == Some(
                (marker, len as int),
            ),
            None => fence_of(b@, start as int, end as int) is None,
        },
{
    let mut at: usize = start;
    while at < end && (b[at] == 32 || b[at] == 9)
        invariant
            start <= at <= end <= b@.len(),
            indent_at(b@, start as int, end as int) == (at - start) + indent_at(
                b@,
                at as int,
                end as int,
            ),
        decreases end - at,
    {
        at = at + 1;
    }
    if at - start > 3 || at == end || (b[at] != 96 && b[at] != 126) {
        return None;
    }
    let marker: u8 = b[at];
    let mut i: usize = at;
    while i < end && b[i] == marker
        invariant
            at <= i <= end <= b@.len(),
            run_at(b@, at as int, end as int, marker) == (i - at) + run_at(
                b@,
                i as int,
                end as int,
                marker,
            ),
        decreases end - i,
    {
        i = i + 1;
    }
    if i - at >= 3 {
        Some((marker, i - at))
    } else {
        None
    }
}

fn in_fence(ranges: &Vec<Range<usize>>, offset: usize) -> (r: bool)
    ensures
        r == in_ranges(range_views(ranges@), offset as int),
{
    let mut i: usize = 0;
    while i < ranges.len()
        invariant
            i <= ranges@.len(),
            forall|k: int|
                0 <= k < i ==> !((#[trigger] ranges@[k]).start <= offset && offset
                    < ranges@[k].end),
        decreases ranges@.len() - i,
    {
        if ranges[i].start <= offset && offset < ranges[i].end {
            proof {
                let v = range_views(ranges@);
                assert(v[i as int].0 <= offset && offset < v[i as int].1);
            }
            return true;
        }
        i = i + 1;
    }
    proof {
        assert forall|k: int| 0 <= k < range_views(ranges@).len() implies !((
        #[trigger] range_views(ranges@)[k]).0 <= offset && offset < range_views(ranges@)[k].1) by {
            assert(!(ranges@[k].start <= offset && offset < ranges@[k].end));
        }
    }
    false
}

fn bytes_at(b: &[u8], tag: &Vec<u8>, at: usize) -> (r: bool)
    requires
        at <= b@.len(),
    ensures
        r == tag_at(b@, tag@, at as int),
{
    if tag.len() > b.len() - at {
        return false;
    }
    let end: usize = b.len();
    let mut i: usize = 0;
    while i < tag.len()
        invariant
            at + tag@.len() <= b@.len() == end,
            i <= tag@.len(),
            forall|k: int| 0 <= k < i ==> b@[at + k] == tag@[k],
        decreases tag@.len() - i,
    {
        if b[at + i] != tag[i] {
            proof {
                assert(b@.subrange(at as int, at + tag@.len())[i as int] != tag@[i as int]);
            }
            return false;
        }
        i = i + 1;
    }
    proof {
        assert(b@.subrange(at as int, at + tag@.len()) =~= tag@);
    }
    true
}

fn find_tag(b: &[u8], ranges: &Vec<Range<usize>>, tag: &Vec<u8>, from: usize) -> (r: Option<usize>)
    requires
        from <= b@.len(),
        tag@.len() > 0,
    ensures
        match r {
            Some(at) => next_tag(b@, range_views(ranges@), tag@, from as int) == Some(at as int),
            None => next_tag(b@, range_views(ranges@), tag@, from as int) is None,
        },
{
    let mut at: usize = from;
    while at < b.len()
        invariant
            from <= at <= b@.len(),
            tag@.len() > 0,
            next_tag(b@, range_views(ranges@), tag@, from as int) == next_tag(
                b@,
                range_views(ranges@),
                tag@,
                at as int,
            ),
        decreases b@.len() - at,
    {
        if bytes_at(b, tag, at) {
            if !in_fence(ranges, at) {
                return Some(at);
            }
        } else if tag.len() > b.len() - at {
            return None;
        }
        at = at + 1;
    }
    None
}

/// Splits `source` into text and reasoning. Tags inside fenced code blocks stay
/// text; reasoning that is not closed, because it is still arriving, reaches to
/// the end.
pub fn split_thinking_segments(source: &str) -> (r: Vec<Segment>)
    ensures
        segment_views(r@) == segments_from(source.spec_bytes(), 0),
{
    let b: &[u8] = source.as_bytes();
    let ghost bytes = b@;
    let ranges = fenced_ranges(source);
    let open_tag_bytes = open_bytes();
    let close_tag_bytes = close_bytes();
    let total: usize = b.len();
    let mut segments: Vec<Segment> = Vec::new();
    let mut start: usize = 0;
    proof {
        assert(segment_views(segments@) =~= Seq::empty());
        assert(Seq::<SegmentView>::empty() + segments_from(bytes, 0) =~= segments_from(bytes, 0));
    }
    loop
        invariant
            b@ == bytes,
            bytes == source.spec_bytes(),
            start <= bytes.len() == total,
            range_views(ranges@) == fences(bytes),
            open_tag_bytes@ == open_tag(),
            close_tag_bytes@ == close_tag(),
            segments_from(bytes, 0) == segment_views(segments@) + segments_from(
                bytes,
                start as int,
            ),
        decreases bytes.len() - start,
    {
        let ghost here = segment_views(segments@);
        let found: Option<usize> = find_tag(b, &ranges, &open_tag_bytes, start);
        proof {
            lemma_next_tag(bytes, fences(bytes), open_tag(), start as int);
            assert(open_tag().len() == 10 && close_tag().len() == 11);
        }
        match found {
            None => {
                if start < b.len() {
                    let last = Segment::Markdown(start..b.len());
                    proof {
                        lemma_views_push(segments@, last);
                    }
                    segments.push(last);
                    proof {
                        assert(segment_views(segments@) =~= here + segments_from(
                            bytes,
                            start as int,
                        ));
                    }
                } else {
                    proof {
                        assert(here + Seq::<SegmentView>::empty() =~= here);
                    }
                }
                return segments;
            },
            Some(open) => {
                if start < open {
                    let before = Segment::Markdown(start..open);
                    proof {
                        lemma_views_push(segments@, before);
                    }
                    segments.push(before);
                }
                let thinking: usize = open + 10;
                let close: Option<usize> = find_tag(b, &ranges, &close_tag_bytes, thinking);
                proof {
                    lemma_next_tag(bytes, fences(bytes), close_tag(), thinking as int);
                }
                match close {
                    Some(close) => {
                        let inside = Segment::Thinking(thinking..close);
                        proof {
                            lemma_views_push(segments@, inside);
                        }
                        segments.push(inside);
                        proof {
                            assert(here + segments_from(bytes, start as int) =~= segment_views(
                                segments@,
                            ) + segments_from(bytes, close + 11));
                        }
                        start = close + 11;
                    },
                    None => {
                        let inside = Segment::Thinking(thinking..b.len());
                        proof {
                            lemma_views_push(segments@, inside);
                        }
                        segments.push(inside);
                        proof {
                            assert(segment_views(segments@) =~= here + segments_from(
                                bytes,
                                start as int,
                            ));
                        }
                        return segments;
                    },
                }
            },
        }
    }
}

/// From where up to where a segment reaches.
pub open spec fn segment_start(s: SegmentView) -> int {
    match s {
        SegmentView::Markdown(start, _) => start,
        SegmentView::Thinking(start, _) => start,
    }
}

/// Up to where a segment reaches.
pub open spec fn segment_end(s: SegmentView) -> int {
    match s {
        SegmentView::Markdown(_, end) => end,
        SegmentView::Thinking(_, end) => end,
    }
}

/// Segments stand in the order of the text, do not overlap and stay within it;
/// text that is no reasoning is never an empty segment.
pub proof fn lemma_segments_are_ordered(b: Seq<u8>, start: int)
    requires
        0 <= start <= b.len(),
    ensures
        forall|i: int|
            0 <= i < segments_from(b, start).len() ==> {
                let s = #[trigger] segments_from(b, start)[i];
                &&& start <= segment_start(s) <= segment_end(s) <= b.len()
                &&& s is Markdown ==> segment_start(s) < segment_end(s)
            },
        forall|i: int, j: int|
            0 <= i < j < segments_from(b, start).len() ==> segment_end(
                #[trigger] segments_from(b, start)[i],
            ) <= segment_start(#[trigger] segments_from(b, start)[j]),
    decreases b.len() - start,
{
    let all = segments_from(b, start);
    lemma_next_tag(b, fences(b), open_tag(), start);
    if let Some(open) = next_tag(b, fences(b), open_tag(), start) {
        lemma_next_tag(b, fences(b), close_tag(), open + 10);
        let before = if start < open {
            seq![SegmentView::Markdown(start, open)]
        } else {
            Seq::empty()
        };
        if let Some(close) = next_tag(b, fences(b), close_tag(), open + 10) {
            let rest = segments_from(b, close + 11);
            lemma_segments_are_ordered(b, close + 11);
            let head = before + seq![SegmentView::Thinking(open + 10, close)];
            assert(all == head + rest);
            assert forall|i: int| 0 <= i < all.len() implies ({
                let s = #[trigger] all[i];
                &&& start <= segment_start(s) <= segment_end(s) <= b.len()
                &&& s is Markdown ==> segment_start(s) < segment_end(s)
            }) by {
                if i >= head.len() {
                    assert(all[i] == rest[i - head.len()]);
                }
            }
            assert forall|i: int, j: int| 0 <= i < j < all.len() implies segment_end(
                #[trigger] all[i],
            ) <= segment_start(#[trigger] all[j]) by {
                if j >= head.len() {
                    assert(all[j] == rest[j - head.len()]);
                    if i >= head.len() {
                        assert(all[i] == rest[i - head.len()]);
                    }
                }
            }
        }
    }
}

/// Behind an ASCII byte that starts a character the next one starts.
proof fn lemma_behind_ascii(b: Seq<u8>, i: int)
    requires
        valid_utf8(b),
        0 <= i < b.len(),
        b[i] < 128,
    ensures
        is_char_boundary(b, i),
        is_char_boundary(b, i + 1),
    decreases b.len(),
{
    let byte = b[i];
    assert(byte & 0xC0 != 0x80) by (bit_vector)
        requires
            byte < 128,
    ;
    is_char_boundary_iff_not_is_continuation_byte(b, i);
    let width = length_of_first_scalar(b);
    let rest = pop_first_scalar(b);
    if i == 0 {
        assert(byte & 0x80 == 0) by (bit_vector)
            requires
                byte < 128,
        ;
        reveal_with_fuel(is_char_boundary, 2);
    } else {
        reveal_with_fuel(is_char_boundary, 2);
        assert(rest[i - width] == b[i]);
        lemma_behind_ascii(rest, i - width);
    }
}

proof fn lemma_tag_is_cut_at_characters(b: Seq<u8>, tag: Seq<u8>, at: int)
    requires
        valid_utf8(b),
        tag_at(b, tag, at),
        tag == open_tag() || tag == close_tag(),
    ensures
        is_char_boundary(b, at),
        is_char_boundary(b, at + tag.len()),
{
    let here = b.subrange(at, at + tag.len());
    assert(b[at] == here[0]);
    assert(b[at + tag.len() - 1] == here[tag.len() - 1]);
    lemma_behind_ascii(b, at);
    lemma_behind_ascii(b, at + tag.len() - 1);
}

/// Segments start and end between two characters.
pub proof fn lemma_segments_are_cut_at_characters(b: Seq<u8>, start: int)
    requires
        valid_utf8(b),
        0 <= start <= b.len(),
        is_char_boundary(b, start),
    ensures
        forall|i: int|
            0 <= i < segments_from(b, start).len() ==> is_char_boundary(
                b,
                segment_start(#[trigger] segments_from(b, start)[i]),
            ) && is_char_boundary(b, segment_end(segments_from(b, start)[i])),
    decreases b.len() - start,
{
    let all = segments_from(b, start);
    is_char_boundary_start_end_of_seq(b);
    lemma_next_tag(b, fences(b), open_tag(), start);
    if let Some(open) = next_tag(b, fences(b), open_tag(), start) {
        lemma_tag_is_cut_at_characters(b, open_tag(), open);
        lemma_next_tag(b, fences(b), close_tag(), open + 10);
        let before = if start < open {
            seq![SegmentView::Markdown(start, open)]
        } else {
            Seq::empty()
        };
        if let Some(close) = next_tag(b, fences(b), close_tag(), open + 10) {
            lemma_tag_is_cut_at_characters(b, close_tag(), close);
            let rest = segments_from(b, close + 11);
            lemma_segments_are_cut_at_characters(b, close + 11);
            let head = before + seq![SegmentView::Thinking(open + 10, close)];
            assert(all == head + rest);
            assert forall|i: int| 0 <= i < all.len() implies is_char_boundary(
                b,
                segment_start(#[trigger] all[i]),
            ) && is_char_boundary(b, segment_end(all[i])) by {
                if i >= head.len() {
                    assert(all[i] == rest[i - head.len()]);
                }
            }
        }
    }
}

/// How many trailing characters of the first `n` of `full` belong to a `tag` that
/// reaches past them, where at most `k` are looked at.
pub open spec fn cut_tag(full: Seq<char>, n: int, tag: Seq<char>, k: int) -> int
    decreases k,
{
    if k <= 0 {
        0
    } else if occurs_at(full, tag, n - k) {
        k
    } else {
        cut_tag(full, n, tag, k - 1)
    }
}

/// The most characters of `tag` that can stand at the end of a text of length `n`
/// without all of it standing there.
pub open spec fn longest_cut(n: int, tag: Seq<char>) -> int {
    if n < tag.len() - 1 {
        n
    } else {
        tag.len() - 1
    }
}

/// `visible` without the part of a tag that it ends in, where `full`, which it is
/// a shorter prefix of, has the whole tag there.
pub open spec fn without_cut_tag(visible: Seq<char>, full: Seq<char>) -> Seq<char> {
    let n = visible.len() as int;
    let opening = cut_tag(full, n, "<thinking>"@, longest_cut(n, "<thinking>"@));
    let closing = cut_tag(full, n, "</thinking>"@, longest_cut(n, "</thinking>"@));
    if n >= full.len() || !has_prefix(full, visible) {
        visible
    } else if opening > 0 {
        visible.take(n - opening)
    } else {
        visible.take(n - closing)
    }
}

fn find_cut(full: &Vec<char>, n: usize, tag: &Vec<char>) -> (r: usize)
    requires
        n <= full@.len(),
        tag@.len() > 0,
    ensures
        r == cut_tag(full@, n as int, tag@, longest_cut(n as int, tag@)),
        r <= n,
{
    let mut k: usize = if n < tag.len() - 1 {
        n
    } else {
        tag.len() - 1
    };
    while k > 0
        invariant
            k <= n <= full@.len(),
            cut_tag(full@, n as int, tag@, longest_cut(n as int, tag@)) == cut_tag(
                full@,
                n as int,
                tag@,
                k as int,
            ),
        decreases k,
    {
        if matches_at(full, tag, n - k) {
            return k;
        }
        k = k - 1;
    }
    0
}

/// Keeps a streaming prefix from exposing a half-written thinking tag. Only a
/// suffix that the complete message proves to be a tag is withheld.
pub fn trim_incomplete_tag(visible: &str, full: &str) -> (r: String)
    ensures
        r@ == without_cut_tag(visible@, full@),
{
    let shown = chars_of(visible);
    let all = chars_of(full);
    if shown.len() >= all.len() || !matches_at(&all, &shown, 0) {
        return visible.to_owned();
    }
    let opening = chars_of("<thinking>");
    let closing = chars_of("</thinking>");
    proof {
        reveal_strlit("<thinking>");
        reveal_strlit("</thinking>");
    }
    let cut: usize = find_cut(&all, shown.len(), &opening);
    let cut: usize = if cut > 0 {
        cut
    } else {
        find_cut(&all, shown.len(), &closing)
    };
    let r = string_of(&shown, 0, shown.len() - cut);
    proof {
        assert(r@ =~= without_cut_tag(visible@, full@));
    }
    r
}

proof fn lemma_cut_tag(full: Seq<char>, n: int, tag: Seq<char>, k: int)
    requires
        0 <= k,
    ensures
        0 <= cut_tag(full, n, tag, k) <= k,
        cut_tag(full, n, tag, k) > 0 ==> occurs_at(full, tag, n - cut_tag(full, n, tag, k)),
        forall|j: int|
            0 < j <= k && #[trigger] occurs_at(full, tag, n - j) ==> j <= cut_tag(full, n, tag, k),
    decreases k,
{
    if k > 0 && !occurs_at(full, tag, n - k) {
        lemma_cut_tag(full, n, tag, k - 1);
    }
}

/// A tag that stands in a text starts there and nowhere else within it.
proof fn lemma_tags_do_not_overlap(full: Seq<char>, a: Seq<char>, p: int, b: Seq<char>, q: int)
    requires
        a == "<thinking>"@ || a == "</thinking>"@,
        b == "<thinking>"@ || b == "</thinking>"@,
        occurs_at(full, a, p),
        occurs_at(full, b, q),
        p <= q < p + a.len(),
    ensures
        p == q,
        a == b,
{
    reveal_strlit("<thinking>");
    reveal_strlit("</thinking>");
    let x = full.subrange(p, p + a.len());
    let y = full.subrange(q, q + b.len());
    assert(full[q] == y[0]);
    assert(full[q] == x[q - p]);
    assert(y[0] == '<');
    assert(forall|i: int| 0 < i < a.len() ==> a[i] != '<');
    if p < q {
        assert(x[q - p] == a[q - p]);
    } else {
        assert(full[p + 1] == x[1]);
        assert(full[q + 1] == y[1]);
        if a != b {
            assert("<thinking>"@[1] == 't');
            assert("</thinking>"@[1] == '/');
        }
    }
}

/// Tags appear whole: what is shown of a text never ends inside a tag that the
/// text has.
pub proof fn lemma_tags_appear_whole(full: Seq<char>, n: int, tag: Seq<char>, p: int)
    requires
        0 <= n <= full.len(),
        tag == "<thinking>"@ || tag == "</thinking>"@,
        occurs_at(full, tag, p),
    ensures
        ({
            let shown = without_cut_tag(full.take(n), full);
            !(p < shown.len() < p + tag.len())
        }),
{
    reveal_strlit("<thinking>");
    reveal_strlit("</thinking>");
    let visible = full.take(n);
    let open = "<thinking>"@;
    let close = "</thinking>"@;
    assert(full.subrange(0, n) =~= visible);
    assert(has_prefix(full, visible));
    lemma_cut_tag(full, n, open, longest_cut(n, open));
    lemma_cut_tag(full, n, close, longest_cut(n, close));
    let opening = cut_tag(full, n, open, longest_cut(n, open));
    let closing = cut_tag(full, n, close, longest_cut(n, close));
    let shown = without_cut_tag(visible, full);
    if n < full.len() {
        let end = shown.len() as int;
        if opening > 0 {
            assert(end == n - opening);
            if p < end < p + tag.len() {
                lemma_tags_do_not_overlap(full, tag, p, open, end);
            }
        } else if closing > 0 {
            assert(end == n - closing);
            if p < end < p + tag.len() {
                lemma_tags_do_not_overlap(full, tag, p, close, end);
            }
        } else {
            assert(end == n);
            if p < n < p + tag.len() {
                let j = n - p;
                assert(occurs_at(full, tag, n - j));
                assert(0 < j <= longest_cut(n, tag));
            }
        }
    }
}

/// What is shown of the start of a text is a start of it too, and no longer.
pub proof fn lemma_shown_is_a_start(full: Seq<char>, n: int)
    requires
        0 <= n <= full.len(),
    ensures
        without_cut_tag(full.take(n), full).len() <= n,
        without_cut_tag(full.take(n), full) == full.take(
            without_cut_tag(full.take(n), full).len() as int,
        ),
{
    reveal_strlit("<thinking>");
    reveal_strlit("</thinking>");
    let visible = full.take(n);
    lemma_cut_tag(full, n, "<thinking>"@, longest_cut(n, "<thinking>"@));
    lemma_cut_tag(full, n, "</thinking>"@, longest_cut(n, "</thinking>"@));
    let shown = without_cut_tag(visible, full);
    assert(shown =~= full.take(shown.len() as int));
}

/// The bytes of the tags are those of their text.
pub proof fn lemma_tags_are_text()
    ensures
        open_tag() == encode_utf8("<thinking>"@),
        close_tag() == encode_utf8("</thinking>"@),
{
    reveal_strlit("<thinking>");
    reveal_strlit("</thinking>");
    is_ascii_chars_encode_utf8("<thinking>"@);
    is_ascii_chars_encode_utf8("</thinking>"@);
    assert(open_tag() =~= encode_utf8("<thinking>"@));
    assert(close_tag() =~= encode_utf8("</thinking>"@));
}

/// Whether a byte stands in one of the segments, or in a tag at or behind `start`.
pub open spec fn is_covered(b: Seq<u8>, start: int, segments: Seq<SegmentView>, i: int) -> bool {
    ||| exists|k: int|
        0 <= k < segments.len() && segment_start(#[trigger] segments[k]) <= i < segment_end(
            segments[k],
        )
    ||| exists|at: int|
        start <= at && #[trigger] tag_at(b, open_tag(), at) && at <= i < at + open_tag().len()
    ||| exists|at: int|
        start <= at && #[trigger] tag_at(b, close_tag(), at) && at <= i < at + close_tag().len()
}

/// Nothing of a text is lost: every byte stands in a segment or in a tag.
pub proof fn lemma_segments_cover_the_text(b: Seq<u8>, start: int, i: int)
    requires
        0 <= start <= i < b.len(),
    ensures
        is_covered(b, start, segments_from(b, start), i),
    decreases b.len() - start,
{
    let all = segments_from(b, start);
    lemma_next_tag(b, fences(b), open_tag(), start);
    match next_tag(b, fences(b), open_tag(), start) {
        None => {
            assert(segment_start(all[0]) <= i < segment_end(all[0]));
        },
        Some(open) => {
            lemma_next_tag(b, fences(b), close_tag(), open + 10);
            let before = if start < open {
                seq![SegmentView::Markdown(start, open)]
            } else {
                Seq::empty()
            };
            let n = before.len() as int;
            if i < open {
                assert(all[0] == before[0]);
                assert(segment_start(all[0]) <= i < segment_end(all[0]));
            } else if i < open + 10 {
                assert(tag_at(b, open_tag(), open));
            } else {
                match next_tag(b, fences(b), close_tag(), open + 10) {
                    None => {
                        assert(all[n] == SegmentView::Thinking(open + 10, b.len() as int));
                        assert(segment_start(all[n]) <= i < segment_end(all[n]));
                    },
                    Some(close) => {
                        let head = before + seq![SegmentView::Thinking(open + 10, close)];
                        let rest = segments_from(b, close + 11);
                        assert(all == head + rest);
                        if i < close {
                            assert(all[n] == SegmentView::Thinking(open + 10, close));
                            assert(segment_start(all[n]) <= i < segment_end(all[n]));
                        } else if i < close + 11 {
                            assert(tag_at(b, close_tag(), close));
                        } else {
                            lemma_segments_cover_the_text(b, close + 11, i);
                            if exists|k: int|
                                0 <= k < rest.len() && segment_start(#[trigger] rest[k]) <= i
                                    < segment_end(rest[k]) {
                                let k = choose|k: int|
                                    0 <= k < rest.len() && segment_start(#[trigger] rest[k]) <= i
                                        < segment_end(rest[k]);
                                assert(all[head.len() + k] == rest[k]);
                            }
                        }
                    },
                }
            }
        },
    }
}

/// Whether a line starts at `p`.
pub open spec fn starts_line(b: Seq<u8>, p: int) -> bool {
    0 <= p < b.len() && (p == 0 || b[p - 1] == 10)
}

/// Whether the line that starts at `p` ends at `e`, its line break counted.
pub open spec fn ends_line(b: Seq<u8>, p: int, e: int) -> bool {
    &&& 0 <= p < e <= b.len()
    &&& forall|i: int| p <= i < e - 1 ==> #[trigger] b[i] != 10
    &&& e == b.len() || b[e - 1] == 10
}

/// Whether `k` blanks stand at `p`, no more than three of them, and behind them
/// exactly `n` times `marker`.
pub open spec fn has_run(b: Seq<u8>, p: int, k: int, marker: u8, n: int) -> bool {
    &&& 0 <= k <= 3
    &&& 0 <= n && p + k + n <= b.len()
    &&& forall|i: int| p <= i < p + k ==> #[trigger] b[i] == 32 || b[i] == 9
    &&& forall|i: int| p + k <= i < p + k + n ==> #[trigger] b[i] == marker
    &&& p + k + n == b.len() || b[p + k + n] != marker
}

/// Whether the line that starts at `p` is a fence: three or more backticks or
/// tildes behind no more than three blanks, whatever stands behind them.
pub open spec fn is_fence_line(b: Seq<u8>, p: int, marker: u8, n: int) -> bool {
    &&& starts_line(b, p)
    &&& marker == 96 || marker == 126
    &&& n >= 3
    &&& exists|k: int| #[trigger] has_run(b, p, k, marker, n)
}

/// Whether the line that starts at `p` closes a block that was opened with `n` times
/// `marker`: it is a fence of the same marker that is no shorter.
pub open spec fn closes(b: Seq<u8>, p: int, marker: u8, n: int) -> bool {
    exists|m: int| m >= n && #[trigger] is_fence_line(b, p, marker, m)
}

/// Whether a fenced block that a fence opens reaches from `start` to `end`: to the
/// end of the first line that closes it, or of the text where none does.
pub open spec fn is_block_of(b: Seq<u8>, start: int, end: int, marker: u8, n: int) -> bool {
    &&& is_fence_line(b, start, marker, n)
    &&& start < end <= b.len()
    &&& forall|d: int|
        start < d < end && #[trigger] closes(b, d, marker, n) ==> ends_line(b, d, end)
    &&& end == b.len() || exists|d: int|
        start < d < end && #[trigger] closes(b, d, marker, n) && ends_line(b, d, end)
}

/// Whether a fenced block reaches from `start` to `end`.
pub open spec fn is_block(b: Seq<u8>, start: int, end: int) -> bool {
    exists|marker: u8, n: int| #[trigger] is_block_of(b, start, end, marker, n)
}

proof fn lemma_indent(b: Seq<u8>, from: int, end: int)
    requires
        0 <= from <= end <= b.len(),
    ensures
        0 <= indent_at(b, from, end) <= end - from,
        forall|i: int| from <= i < from + indent_at(b, from, end) ==> #[trigger] b[i] == 32 || b[i]
            == 9,
        from + indent_at(b, from, end) < end ==> b[from + indent_at(b, from, end)] != 32 && b[from
            + indent_at(b, from, end)] != 9,
    decreases end - from,
{
    if from < end && (b[from] == 32 || b[from] == 9) {
        lemma_indent(b, from + 1, end);
    }
}

proof fn lemma_run(b: Seq<u8>, from: int, end: int, marker: u8)
    requires
        0 <= from <= end <= b.len(),
    ensures
        0 <= run_at(b, from, end, marker) <= end - from,
        forall|i: int| from <= i < from + run_at(b, from, end, marker) ==> #[trigger] b[i] == marker,
        from + run_at(b, from, end, marker) < end ==> b[from + run_at(b, from, end, marker)]
            != marker,
    decreases end - from,
{
    if from < end && b[from] == marker {
        lemma_run(b, from + 1, end, marker);
    }
}

proof fn lemma_line_ends(b: Seq<u8>, from: int)
    requires
        0 <= from < b.len(),
    ensures
        ends_line(b, from, line_end(b, from)),
    decreases b.len() - from,
{
    lemma_line_end(b, from);
    if b[from] != line_break() && from + 1 < b.len() {
        lemma_line_ends(b, from + 1);
        let e = line_end(b, from);
        assert forall|i: int| from <= i < e - 1 implies #[trigger] b[i] != 10 by {
            if i > from {
                assert(b[i] != 10);
            }
        }
    }
}

/// What is read as a fence is one, and every fence is read as it is written.
proof fn lemma_fence_is_read(b: Seq<u8>, p: int, marker: u8, n: int)
    requires
        starts_line(b, p),
    ensures
        fence_of(b, p, line_end(b, p)) == Some((marker, n)) <==> is_fence_line(b, p, marker, n),
{
    let e = line_end(b, p);
    lemma_line_end(b, p);
    lemma_line_ends(b, p);
    lemma_indent(b, p, e);
    let k = indent_at(b, p, e);
    let at = p + k;
    lemma_run(b, at, e, marker);
    if fence_of(b, p, e) == Some((marker, n)) {
        if at + n == e && e < b.len() {
            assert(b[e - 1] == marker);
        }
        assert(has_run(b, p, k, marker, n));
    }
    if is_fence_line(b, p, marker, n) {
        let j = choose|j: int| #[trigger] has_run(b, p, j, marker, n);
        if e < p + j + n {
            assert(b[e - 1] == 10);
            assert(p <= e - 1 < p + j + n);
        }
        assert(b[p + j] == marker);
        if k < j {
            assert(b[p + k] == 32 || b[p + k] == 9);
        }
        if j < k {
            assert(b[p + j] == 32 || b[p + j] == 9);
        }
        assert(j == k);
        let len = run_at(b, at, e, marker);
        if len < n {
            assert(b[at + len] == marker);
        }
        if n < len {
            assert(b[at + n] == marker);
        }
    }
}

/// Whether `from` is behind a whole number of lines.
spec fn is_line_edge(b: Seq<u8>, from: int) -> bool {
    0 <= from <= b.len() && (from == 0 || from == b.len() || b[from - 1] == 10)
}

/// Where reading is in the middle of the lines, with a fence open or not.
spec fn is_reading(b: Seq<u8>, from: int, open: Option<(u8, int, int)>) -> bool {
    &&& is_line_edge(b, from)
    &&& match open {
        Some((marker, len, start)) => {
            &&& is_fence_line(b, start, marker, len)
            &&& start < from
            &&& forall|d: int| start < d < from ==> !(#[trigger] closes(b, d, marker, len))
        },
        None => true,
    }
}

/// Where what is still to be read begins to count.
spec fn counts_from(from: int, open: Option<(u8, int, int)>) -> int {
    match open {
        Some((_, _, start)) => start,
        None => from,
    }
}

/// Whether the ranges are the blocks that start at `low` or behind it.
spec fn are_blocks_from(b: Seq<u8>, low: int, r: Seq<(int, int)>) -> bool {
    &&& forall|k: int|
        0 <= k < r.len() ==> low <= (#[trigger] r[k]).0 && is_block(b, r[k].0, r[k].1)
    &&& forall|i: int, j: int| 0 <= i < j < r.len() ==> (#[trigger] r[i]).1 <= (#[trigger] r[j]).0
    &&& forall|p: int, marker: u8, n: int|
        low <= p && #[trigger] is_fence_line(b, p, marker, n) ==> in_ranges(r, p)
}

/// A line is read whole: no other line starts inside it.
proof fn lemma_inside_line(b: Seq<u8>, from: int, end: int)
    requires
        ends_line(b, from, end),
    ensures
        forall|d: int| from < d < end ==> !(#[trigger] starts_line(b, d)),
{
    assert forall|d: int| from < d < end implies !(#[trigger] starts_line(b, d)) by {
        assert(b[d - 1] != 10);
    }
}

proof fn lemma_block_is_closed(
    b: Seq<u8>,
    from: int,
    end: int,
    marker: u8,
    len: int,
    start: int,
)
    requires
        is_reading(b, from, Some((marker, len, start))),
        ends_line(b, from, end),
        closes(b, from, marker, len),
    ensures
        is_block(b, start, end),
{
    lemma_inside_line(b, from, end);
    assert forall|d: int| start < d < end && #[trigger] closes(b, d, marker, len) implies ends_line(
        b,
        d,
        end,
    ) by {
        let m = choose|m: int| m >= len && #[trigger] is_fence_line(b, d, marker, m);
        assert(starts_line(b, d));
        assert(d == from);
    }
    assert(is_block_of(b, start, end, marker, len));
}

proof fn lemma_block_stands_first(
    b: Seq<u8>,
    start: int,
    end: int,
    rest: Seq<(int, int)>,
)
    requires
        is_block(b, start, end),
        start < end,
        are_blocks_from(b, end, rest),
    ensures
        are_blocks_from(b, start, seq![(start, end)] + rest),
{
    let r = seq![(start, end)] + rest;
    assert(r[0] == (start, end));
    assert forall|k: int| 0 <= k < r.len() implies start <= (#[trigger] r[k]).0 && is_block(
        b,
        r[k].0,
        r[k].1,
    ) by {
        if k > 0 {
            assert(r[k] == rest[k - 1]);
        }
    }
    assert forall|i: int, j: int| 0 <= i < j < r.len() implies (#[trigger] r[i]).1 <= (#[trigger]
    r[j]).0 by {
        assert(r[j] == rest[j - 1]);
        if i > 0 {
            assert(r[i] == rest[i - 1]);
        }
    }
    assert forall|p: int, m: u8, n: int|
        start <= p && #[trigger] is_fence_line(b, p, m, n) implies in_ranges(r, p) by {
        if p < end {
            assert(r[0].0 <= p && p < r[0].1);
        } else {
            assert(in_ranges(rest, p));
            let k = choose|k: int|
                0 <= k < rest.len() && (#[trigger] rest[k]).0 <= p && p < rest[k].1;
            assert(r[k + 1] == rest[k]);
        }
    }
}

proof fn lemma_block_stays_open(
    b: Seq<u8>,
    from: int,
    end: int,
    marker: u8,
    len: int,
    start: int,
)
    requires
        is_fence_line(b, start, marker, len),
        start <= from,
        start == from || is_reading(b, from, Some((marker, len, start))),
        ends_line(b, from, end),
        start == from || !closes(b, from, marker, len),
    ensures
        is_reading(b, end, Some((marker, len, start))),
{
    lemma_inside_line(b, from, end);
    assert forall|d: int| start < d < end implies !(#[trigger] closes(b, d, marker, len)) by {
        if closes(b, d, marker, len) {
            let m = choose|m: int| m >= len && #[trigger] is_fence_line(b, d, marker, m);
            assert(starts_line(b, d));
        }
    }
}

proof fn lemma_last_block(b: Seq<u8>, marker: u8, len: int, start: int)
    requires
        is_reading(b, b.len() as int, Some((marker, len, start))),
    ensures
        are_blocks_from(b, start, seq![(start, b.len() as int)]),
{
    let r = seq![(start, b.len() as int)];
    assert(r[0] == (start, b.len() as int));
    assert(is_block_of(b, start, b.len() as int, marker, len));
    assert forall|p: int, m: u8, n: int|
        start <= p && #[trigger] is_fence_line(b, p, m, n) implies in_ranges(r, p) by {
        assert(starts_line(b, p));
        assert(r[0].0 <= p && p < r[0].1);
    }
}

proof fn lemma_plain_line(b: Seq<u8>, from: int, end: int, r: Seq<(int, int)>)
    requires
        ends_line(b, from, end),
        forall|m: u8, n: int| !(#[trigger] is_fence_line(b, from, m, n)),
        are_blocks_from(b, end, r),
    ensures
        are_blocks_from(b, from, r),
{
    lemma_inside_line(b, from, end);
    assert forall|p: int, m: u8, n: int|
        from <= p && #[trigger] is_fence_line(b, p, m, n) implies in_ranges(r, p) by {
        assert(starts_line(b, p));
    }
}

proof fn lemma_fence_is_read_whole(b: Seq<u8>, p: int)
    requires
        starts_line(b, p),
    ensures
        match fence_of(b, p, line_end(b, p)) {
            Some((marker, len)) => {
                &&& is_fence_line(b, p, marker, len)
                &&& forall|m: u8, n: int| #[trigger]
                    is_fence_line(b, p, m, n) ==> m == marker && n == len
            },
            None => forall|m: u8, n: int| !(#[trigger] is_fence_line(b, p, m, n)),
        },
{
    let fence = fence_of(b, p, line_end(b, p));
    if let Some((marker, len)) = fence {
        lemma_fence_is_read(b, p, marker, len);
    }
    assert forall|m: u8, n: int| #[trigger] is_fence_line(b, p, m, n) implies fence == Some(
        (m, n),
    ) by {
        lemma_fence_is_read(b, p, m, n);
    }
}

proof fn lemma_fences_from(b: Seq<u8>, from: int, open: Option<(u8, int, int)>)
    requires
        is_reading(b, from, open),
    ensures
        are_blocks_from(b, counts_from(from, open), fences_from(b, from, open)),
    decreases b.len() - from,
{
    if from >= b.len() {
        match open {
            Some((marker, len, start)) => lemma_last_block(b, marker, len, start),
            None => {
                assert forall|p: int, m: u8, n: int|
                    from <= p && #[trigger] is_fence_line(b, p, m, n) implies in_ranges(
                    Seq::empty(),
                    p,
                ) by {
                    assert(starts_line(b, p));
                }
            },
        }
    } else {
        let end = line_end(b, from);
        lemma_line_end(b, from);
        lemma_line_ends(b, from);
        lemma_fence_is_read_whole(b, from);
        let fence = fence_of(b, from, end);
        match open {
            Some((marker, len, start)) => {
                if closes(b, from, marker, len) {
                    lemma_fences_from(b, end, None);
                    lemma_block_is_closed(b, from, end, marker, len, start);
                    lemma_block_stands_first(b, start, end, fences_from(b, end, None));
                    let m = choose|m: int| m >= len && #[trigger] is_fence_line(b, from, marker, m);
                    assert(fence == Some((marker, m)));
                } else {
                    lemma_block_stays_open(b, from, end, marker, len, start);
                    lemma_fences_from(b, end, open);
                    if let Some((m, n)) = fence {
                        assert(is_fence_line(b, from, m, n));
                        assert(!(m == marker && n >= len));
                    }
                }
            },
            None => match fence {
                Some((marker, len)) => {
                    lemma_block_stays_open(b, from, end, marker, len, from);
                    lemma_fences_from(b, end, Some((marker, len, from)));
                },
                None => {
                    lemma_fences_from(b, end, None);
                    lemma_plain_line(b, from, end, fences_from(b, end, None));
                },
            },
        }
    }
}

/// Fenced blocks are what their fences say: each reaches from a fence to the end of
/// the first line that closes it, they do not overlap, and no fence stands outside
/// of them. A fence counts whatever stands behind its run, such as a language.
pub proof fn lemma_fenced_blocks(b: Seq<u8>)
    ensures
        forall|k: int|
            0 <= k < fences(b).len() ==> is_block(
                b,
                (#[trigger] fences(b)[k]).0,
                fences(b)[k].1,
            ),
        forall|i: int, j: int|
            0 <= i < j < fences(b).len() ==> (#[trigger] fences(b)[i]).1 <= (#[trigger] fences(
                b,
            )[j]).0,
        forall|p: int, marker: u8, n: int| #[trigger]
            is_fence_line(b, p, marker, n) ==> in_ranges(fences(b), p),
{
    lemma_fences_from(b, 0, None);
    assert forall|p: int, marker: u8, n: int| #[trigger]
        is_fence_line(b, p, marker, n) implies in_ranges(fences(b), p) by {
        assert(starts_line(b, p));
    }
}

/// Whether a tag stands at `p` and is no part of a fenced block.
pub open spec fn is_live_tag(b: Seq<u8>, tag: Seq<u8>, p: int) -> bool {
    tag_at(b, tag, p) && !in_ranges(fences(b), p)
}

/// Whether a segment is what the tags make of it: reasoning stands behind a tag that
/// opens it and reaches to the first tag that closes it, or to the end; prose holds
/// no tag that opens reasoning. Tags in fenced blocks do not count.
pub open spec fn is_delimited(b: Seq<u8>, segment: SegmentView) -> bool {
    match segment {
        SegmentView::Thinking(s, e) => {
            &&& is_live_tag(b, open_tag(), s - 10)
            &&& e == b.len() || is_live_tag(b, close_tag(), e)
            &&& forall|p: int| s <= p < e ==> !(#[trigger] is_live_tag(b, close_tag(), p))
        },
        SegmentView::Markdown(s, e) => {
            forall|p: int| s <= p < e ==> !(#[trigger] is_live_tag(b, open_tag(), p))
        },
    }
}

/// Whether a tag at `p` opens a segment of reasoning or stands inside one.
pub open spec fn is_in_reasoning(segments: Seq<SegmentView>, p: int) -> bool {
    exists|k: int|
        0 <= k < segments.len() && (#[trigger] segments[k]) is Thinking && segment_start(segments[k])
            - 10 <= p && (p < segment_start(segments[k]) || p < segment_end(segments[k]))
}

/// Reasoning is exactly what stands between the tags that no fenced block holds:
/// every segment is delimited by them, and no such tag is passed over.
pub proof fn lemma_reasoning_stands_between_tags(b: Seq<u8>, start: int)
    requires
        0 <= start <= b.len(),
    ensures
        forall|k: int|
            0 <= k < segments_from(b, start).len() ==> is_delimited(
                b,
                #[trigger] segments_from(b, start)[k],
            ),
        forall|p: int|
            start <= p && #[trigger] is_live_tag(b, open_tag(), p) ==> is_in_reasoning(
                segments_from(b, start),
                p,
            ),
    decreases b.len() - start,
{
    let all = segments_from(b, start);
    assert(open_tag().len() == 10 && close_tag().len() == 11);
    lemma_next_tag(b, fences(b), open_tag(), start);
    match next_tag(b, fences(b), open_tag(), start) {
        None => {
            assert forall|p: int| start <= p implies !(#[trigger] is_live_tag(
                b,
                open_tag(),
                p,
            )) by {
                if tag_at(b, open_tag(), p) {
                    assert(p < b.len());
                }
            }
        },
        Some(open) => {
            lemma_next_tag(b, fences(b), close_tag(), open + 10);
            let before = if start < open {
                seq![SegmentView::Markdown(start, open)]
            } else {
                Seq::empty()
            };
            let n = before.len() as int;
            assert forall|p: int| start <= p < open implies !(#[trigger] is_live_tag(
                b,
                open_tag(),
                p,
            )) by {
                assert(!tag_at(b, open_tag(), p) || in_ranges(fences(b), p));
            }
            match next_tag(b, fences(b), close_tag(), open + 10) {
                None => {
                    assert(all[n] == SegmentView::Thinking(open + 10, b.len() as int));
                    assert forall|p: int| open + 10 <= p implies !(#[trigger] is_live_tag(
                        b,
                        close_tag(),
                        p,
                    )) by {
                        if tag_at(b, close_tag(), p) {
                            assert(p < b.len());
                        }
                    }
                    assert forall|p: int|
                        start <= p && #[trigger] is_live_tag(
                            b,
                            open_tag(),
                            p,
                        ) implies is_in_reasoning(all, p) by {
                        assert(all[n] is Thinking);
                    }
                },
                Some(close) => {
                    let head = before + seq![SegmentView::Thinking(open + 10, close)];
                    let rest = segments_from(b, close + 11);
                    assert(all == head + rest);
                    assert(all[n] == SegmentView::Thinking(open + 10, close));
                    lemma_reasoning_stands_between_tags(b, close + 11);
                    assert forall|p: int| open + 10 <= p < close implies !(#[trigger] is_live_tag(
                        b,
                        close_tag(),
                        p,
                    )) by {
                        assert(!tag_at(b, close_tag(), p) || in_ranges(fences(b), p));
                    }
                    assert forall|k: int| 0 <= k < all.len() implies is_delimited(
                        b,
                        #[trigger] all[k],
                    ) by {
                        if k >= head.len() {
                            assert(all[k] == rest[k - head.len()]);
                        }
                    }
                    assert forall|p: int|
                        start <= p && #[trigger] is_live_tag(
                            b,
                            open_tag(),
                            p,
                        ) implies is_in_reasoning(all, p) by {
                        if p >= close + 11 {
                            let k = choose|k: int|
                                0 <= k < rest.len() && (#[trigger] rest[k]) is Thinking
                                    && segment_start(rest[k]) - 10 <= p && (p < segment_start(
                                    rest[k],
                                ) || p < segment_end(rest[k]));
                            assert(all[head.len() + k] == rest[k]);
                        } else if p >= close {
                            let x = b.subrange(close, close + 11);
                            let y = b.subrange(p, p + 10);
                            assert(b[p] == y[0] && y[0] == 60);
                            assert(b[p] == x[p - close]);
                            assert(x[p - close] == close_tag()[p - close]);
                            assert(p == close);
                            assert(b[p + 1] == y[1] && b[p + 1] == x[1]);
                        } else {
                            assert(all[n] is Thinking);
                        }
                    }
                },
            }
        },
    }
}

/// A fenced block is never torn apart by reasoning: no tag inside a block that a
/// fence opens delimits a segment of reasoning.
pub proof fn lemma_code_stays_whole(b: Seq<u8>, k: int, i: int)
    requires
        0 <= k < segments_from(b, 0).len(),
        segments_from(b, 0)[k] is Thinking,
        0 <= i < fences(b).len(),
    ensures
        ({
            let segment = segments_from(b, 0)[k];
            let block = fences(b)[i];
            &&& !(block.0 <= segment_start(segment) - 10 < block.1)
            &&& segment_end(segment) == b.len() || !(block.0 <= segment_end(segment) < block.1)
        }),
{
    lemma_reasoning_stands_between_tags(b, 0);
    let segment = segments_from(b, 0)[k];
    assert(is_delimited(b, segment));
    let block = fences(b)[i];
    if block.0 <= segment_start(segment) - 10 < block.1 {
        assert(in_ranges(fences(b), segment_start(segment) - 10));
    }
    if segment_end(segment) != b.len() && block.0 <= segment_end(segment) < block.1 {
        assert(in_ranges(fences(b), segment_end(segment)));
    }
}

/// Only a tag that is cut off is withheld: without one the text is shown as far as it is
/// revealed, and with one as far as the tag begins. A text that is no start of the whole
/// is left alone.
pub proof fn lemma_only_cut_tags_are_withheld(full: Seq<char>, n: int, tag: Seq<char>, p: int)
    requires
        0 <= n <= full.len(),
        tag == "<thinking>"@ || tag == "</thinking>"@,
    ensures
        n < full.len() && occurs_at(full, tag, p) && p < n < p + tag.len() ==> without_cut_tag(
            full.take(n),
            full,
        ) == full.take(p),
        (forall|q: int|
            q < n < q + 10 ==> !#[trigger] occurs_at(full, "<thinking>"@, q)) && (forall|q: int|
            q < n < q + 11 ==> !#[trigger] occurs_at(full, "</thinking>"@, q)) ==> without_cut_tag(
            full.take(n),
            full,
        ) == full.take(n),
        n == full.len() ==> without_cut_tag(full.take(n), full) == full,
{
    reveal_strlit("<thinking>");
    reveal_strlit("</thinking>");
    let open = "<thinking>"@;
    let close = "</thinking>"@;
    let visible = full.take(n);
    assert(full.subrange(0, n) =~= visible);
    assert(has_prefix(full, visible));
    lemma_cut_tag(full, n, open, longest_cut(n, open));
    lemma_cut_tag(full, n, close, longest_cut(n, close));
    let opening = cut_tag(full, n, open, longest_cut(n, open));
    let closing = cut_tag(full, n, close, longest_cut(n, close));
    if n == full.len() {
        assert(visible =~= full);
    } else {
        if occurs_at(full, tag, p) && p < n < p + tag.len() {
            let j = n - p;
            assert(occurs_at(full, tag, n - j));
            assert(0 < j <= longest_cut(n, tag));
            if opening > 0 {
                if n - opening <= p {
                    lemma_tags_do_not_overlap(full, open, n - opening, tag, p);
                } else {
                    lemma_tags_do_not_overlap(full, tag, p, open, n - opening);
                }
                assert(visible.take(n - opening) =~= full.take(p));
            } else {
                assert(tag == close);
                if n - closing <= p {
                    lemma_tags_do_not_overlap(full, close, n - closing, tag, p);
                } else {
                    lemma_tags_do_not_overlap(full, tag, p, close, n - closing);
                }
                assert(visible.take(n - closing) =~= full.take(p));
            }
        }
        if (forall|q: int| q < n < q + 10 ==> !#[trigger] occurs_at(full, open, q)) && (forall|q: int|
            q < n < q + 11 ==> !#[trigger] occurs_at(full, close, q)) {
            if opening > 0 {
                assert(occurs_at(full, open, n - opening));
            }
            if closing > 0 {
                assert(occurs_at(full, close, n - closing));
            }
            assert(visible.take(n) =~= visible);
        }
    }
}

/// What is shown of a text that is no start of the whole is that text.
pub proof fn lemma_other_texts_are_shown(visible: Seq<char>, full: Seq<char>)
    requires
        !has_prefix(full, visible) || visible.len() >= full.len(),
    ensures
        without_cut_tag(visible, full) == visible,
{
}

} // verus!
