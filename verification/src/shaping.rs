//! Queries over shaped text: lines, word and space segments, glyph runs by font, decoration
//! lines, and the merging of touching decoration lines.
//!
//! Glyphs are held by their glyph index; their positions are kept by the text renderer.
use vstd::prelude::*;

use crate::units::{int_max, sat, Px, PxPoint, PxRect, PxSideOffsets, PxSize};

verus! {

/// Kind of a text segment.
#[derive(Clone, Copy, Debug, PartialEq, Eq, Hash, Structural)]
pub enum TextSegmentKind {
    /// A word.
    Word,
    /// Spaces.
    Space,
    /// A tab.
    Tab,
    /// A line break.
    LineBreak,
}

/// A segment of text: its kind and the index after its last glyph.
#[derive(Clone, Copy, Debug, PartialEq, Eq, Hash, Structural)]
pub struct TextSegment {
    pub kind: TextSegmentKind,
    pub end: usize,
}

/// Identifies a font instance.
#[derive(Clone, Copy, Debug, PartialEq, Eq, Hash, Structural)]
pub struct FontKey(pub u64);

/// A range of indexes, start inclusive, end exclusive.
#[derive(Clone, Copy, Debug, PartialEq, Eq, Hash, Structural)]
pub struct IndexRange(pub usize, pub usize);

impl IndexRange {
    /// The first index.
    pub fn start(&self) -> (r: usize)
        ensures
            r == self.0,
    {
        self.0
    }

    /// The index after the last.
    pub fn end(&self) -> (r: usize)
        ensures
            r == self.1,
    {
        self.1
    }

    /// The last index in the range, `end - 1` saturating at zero.
    pub fn inclusive_end(&self) -> (r: usize)
        ensures
            r == (if self.1 == 0 { 0 } else { (self.1 - 1) as usize }),
    {
        self.1.saturating_sub(1)
    }
}

/// A run of glyphs that use the same font: the font and the glyph index range.
#[derive(Clone, Copy, Debug, PartialEq, Eq, Hash, Structural)]
pub struct GlyphRun {
    pub font: FontKey,
    pub start: usize,
    pub end: usize,
}

/// Output of text shaping: glyphs, segments, lines, font runs and metrics.
pub struct ShapedText {
    glyphs: Vec<u32>,
    segments: Vec<TextSegment>,
    // index of the segment that ends each line (the line break), line x-advance and width;
    // `segments.len()` for the last line.
    lines: Vec<(usize, Px, Px)>,
    // fonts and index after the last glyph that uses each font.
    fonts: Vec<(FontKey, usize)>,
    padding: PxSideOffsets,
    size: PxSize,
    line_height: Px,
    line_spacing: Px,
    baseline: Px,
    overline: Px,
    strikethrough: Px,
    underline: Px,
    underline_descent: Px,
}

/// The ends in `s` do not decrease and stay within `bound`.
pub open spec fn ends_ok(s: Seq<usize>, bound: int) -> bool {
    &&& forall|i: int, j: int| 0 <= i <= j < s.len() ==> s[i] <= s[j]
    &&& forall|i: int| 0 <= i < s.len() ==> s[i] <= bound
}

/// Glyph runs of the font ends `ends`: run `i` goes from the previous end to `ends[i]`.
pub open spec fn font_runs(fonts: Seq<(FontKey, usize)>) -> Seq<GlyphRun> {
    Seq::new(
        fonts.len(),
        |i: int|
            GlyphRun { font: fonts[i].0, start: if i == 0 { 0 } else { fonts[i - 1].1 }, end: fonts[i].1 },
    )
}

/// The runs of `glyphs_range`: from the font run that contains `start`, the part of each run
/// inside `[start, end)`, stopping at the first run that adds nothing.
pub open spec fn runs_in_range(fonts: Seq<(FontKey, usize)>, from: int, start: usize, end: usize) -> Seq<GlyphRun>
    decreases fonts.len() - from,
{
    if from < 0 || from >= fonts.len() {
        Seq::empty()
    } else {
        let i: usize = if fonts[from].1 <= end { fonts[from].1 } else { end };
        if i > start {
            seq![GlyphRun { font: fonts[from].0, start, end: i }].add(runs_in_range(fonts, from + 1, i, end))
        } else {
            Seq::empty()
        }
    }
}

/// No runs come out of an empty range.
pub proof fn lemma_runs_in_empty_range(fonts: Seq<(FontKey, usize)>, from: int, start: usize, end: usize)
    requires
        end <= start,
    ensures
        runs_in_range(fonts, from, start, end) == Seq::<GlyphRun>::empty(),
{
}

/// Index of the first font whose end is after `start`.
pub open spec fn first_font_after(fonts: Seq<(FontKey, usize)>, start: usize) -> int {
    choose|k: int| 0 <= k < fonts.len() && fonts[k].1 > start && forall|j: int| 0 <= j < k ==> fonts[j].1 <= start
}

/// Segment range of line `i`: after the line break that started it, up to and including the
/// line break that ends it; `lines[i].0` is the index of that line break, the segment count for
/// the last line.
pub open spec fn line_seg_range(lines: Seq<(usize, Px, Px)>, seg_len: usize, i: int) -> IndexRange {
    let e = lines[i].0;
    let end: usize = if e < seg_len { (e + 1) as usize } else { seg_len };
    let start: usize = if i == 0 {
        0
    } else if lines[i - 1].0 < end {
        (lines[i - 1].0 + 1) as usize
    } else {
        end
    };
    IndexRange(start, end)
}

/// Glyph range of a range of segments: from the end of the segment before it to the end of its
/// last segment.
pub open spec fn seg_glyph_range(segments: Seq<TextSegment>, r: IndexRange) -> IndexRange {
    IndexRange(
        if r.0 == 0 { 0 } else { segments[r.0 - 1].end },
        if r.1 == 0 { 0 } else { segments[r.1 - 1].end },
    )
}

/// Indexes of the line-break segments, in order.
pub open spec fn break_positions(segments: Seq<TextSegment>) -> Seq<usize>
    decreases segments.len(),
{
    if segments.len() == 0 {
        Seq::empty()
    } else {
        let before = break_positions(segments.drop_last());
        if segments.last().kind == TextSegmentKind::LineBreak {
            before.push((segments.len() - 1) as usize)
        } else {
            before
        }
    }
}

/// The largest of the widths, at least zero.
pub open spec fn max_width(widths: Seq<Px>) -> int
    decreases widths.len(),
{
    if widths.len() == 0 {
        0
    } else {
        int_max(max_width(widths.drop_last()), widths.last().0 as int)
    }
}

/// The width of each line.
pub open spec fn line_widths(lines: Seq<(usize, Px, Px)>) -> Seq<Px> {
    lines.map_values(|l: (usize, Px, Px)| l.2)
}

/// The size of shaped lines: the longest line wide, and the line heights with the spacing
/// between lines (none before the first or after the last) high; zero without lines.
pub open spec fn text_size(lines: Seq<(usize, Px, Px)>, line_height: Px, line_spacing: Px) -> PxSize {
    if lines.len() == 0 {
        PxSize { width: Px(0), height: Px(0) }
    } else {
        PxSize {
            width: Px(max_width(line_widths(lines)) as i32),
            height: Px(sat(lines.len() * line_height.0 + (lines.len() - 1) * line_spacing.0) as i32),
        }
    }
}

/// If a glyph in `[start, end)` is the missing-glyph index 0.
pub open spec fn has_tofu(glyphs: Seq<u32>, start: int, end: int) -> bool {
    exists|g: int| start <= g < end && glyphs[g] == 0
}

/// The indexes of the first `k` segments whose glyphs include a missing glyph, in order.
pub open spec fn tofu_segments_upto(glyphs: Seq<u32>, segments: Seq<TextSegment>, k: int) -> Seq<usize>
    decreases k,
{
    if k <= 0 {
        Seq::empty()
    } else {
        let before = tofu_segments_upto(glyphs, segments, k - 1);
        let start: int = if k - 1 == 0 { 0 } else { segments[k - 2].end as int };
        if has_tofu(glyphs, start, segments[k - 1].end as int) {
            before.push((k - 1) as usize)
        } else {
            before
        }
    }
}

/// The segments listed for fallback fonts are exactly those that hold a missing glyph
/// (index 0) anywhere among their glyphs: segment `k` covers the glyphs from the end of the
/// segment before it to its own end.
pub proof fn law_tofu_segments_exact(glyphs: Seq<u32>, segments: Seq<TextSegment>, k: int)
    requires
        segments.len() <= usize::MAX,
        0 <= k < segments.len(),
    ensures
        tofu_segments_upto(glyphs, segments, segments.len() as int).contains(k as usize) <==> exists|g: int|
            (if k == 0 { 0 } else { segments[k - 1].end as int }) <= g < segments[k].end && glyphs[g] == 0,
{
    lemma_tofu_upto(glyphs, segments, segments.len() as int);
}

/// The listed segments are in increasing order, so none is listed twice.
pub proof fn law_tofu_segments_ordered(glyphs: Seq<u32>, segments: Seq<TextSegment>, a: int, b: int)
    requires
        segments.len() <= usize::MAX,
        0 <= a < b < tofu_segments_upto(glyphs, segments, segments.len() as int).len(),
    ensures
        tofu_segments_upto(glyphs, segments, segments.len() as int)[a] < tofu_segments_upto(
            glyphs,
            segments,
            segments.len() as int,
        )[b],
{
    lemma_tofu_upto(glyphs, segments, segments.len() as int);
}

proof fn lemma_tofu_upto(glyphs: Seq<u32>, segments: Seq<TextSegment>, n: int)
    requires
        0 <= n <= segments.len() <= usize::MAX,
    ensures
        ({
            let r = tofu_segments_upto(glyphs, segments, n);
            &&& forall|x: usize| #[trigger] r.contains(x) <==> (x < n && exists|g: int|
                (if x == 0 { 0 } else { segments[x - 1].end as int }) <= g < segments[x as int].end
                    && glyphs[g] == 0)
            &&& forall|a: int, b: int| 0 <= a < b < r.len() ==> r[a] < r[b]
            &&& forall|a: int| 0 <= a < r.len() ==> r[a] < n
        }),
    decreases n,
{
    if n > 0 {
        lemma_tofu_upto(glyphs, segments, n - 1);
        let before = tofu_segments_upto(glyphs, segments, n - 1);
        let r = tofu_segments_upto(glyphs, segments, n);
        let start: int = if n - 1 == 0 { 0 } else { segments[n - 2].end as int };
        let x0 = (n - 1) as usize;
        if has_tofu(glyphs, start, segments[n - 1].end as int) {
            assert(r == before.push(x0));
            assert forall|x: usize| #[trigger] r.contains(x) <==> (x < n && exists|g: int|
                (if x == 0 { 0 } else { segments[x - 1].end as int }) <= g < segments[x as int].end
                    && glyphs[g] == 0) by {
                if r.contains(x) {
                    let j = choose|j: int| 0 <= j < r.len() && r[j] == x;
                    if j < before.len() {
                        assert(before.contains(x));
                    }
                }
                if x == x0 {
                    assert(r[before.len() as int] == x0);
                }
                if before.contains(x) {
                    let j = choose|j: int| 0 <= j < before.len() && before[j] == x;
                    assert(r[j] == x);
                }
            }
        } else {
            assert(r == before);
            assert forall|x: usize| #[trigger] r.contains(x) <==> (x < n && exists|g: int|
                (if x == 0 { 0 } else { segments[x - 1].end as int }) <= g < segments[x as int].end
                    && glyphs[g] == 0) by {
                if x == x0 {
                    assert(!before.contains(x));
                }
            }
        }
    }
}

/// The break positions are increasing indexes of line-break segments, and every line-break
/// segment is one of them.
pub proof fn lemma_breaks(s: Seq<TextSegment>)
    requires
        s.len() <= usize::MAX,
    ensures
        ({
            let bp = break_positions(s);
            &&& forall|i: int, j: int| 0 <= i < j < bp.len() ==> bp[i] < bp[j]
            &&& forall|i: int| 0 <= i < bp.len() ==> bp[i] < s.len()
            &&& forall|i: int| 0 <= i < bp.len() ==> s[bp[i] as int].kind == TextSegmentKind::LineBreak
            &&& forall|k: int|
                0 <= k < s.len() && s[k].kind == TextSegmentKind::LineBreak ==> exists|i: int|
                    0 <= i < bp.len() && bp[i] == k
        }),
    decreases s.len(),
{
    if s.len() > 0 {
        let d = s.drop_last();
        lemma_breaks(d);
        let bp0 = break_positions(d);
        let bp = break_positions(s);
        assert(bp == (if s.last().kind == TextSegmentKind::LineBreak {
            bp0.push((s.len() - 1) as usize)
        } else {
            bp0
        }));
        assert forall|i: int| 0 <= i < bp0.len() implies s[bp0[i] as int] == d[bp0[i] as int] by {}
        assert forall|k: int| 0 <= k < s.len() && s[k].kind == TextSegmentKind::LineBreak implies exists|i: int|
            0 <= i < bp.len() && bp[i] == k by {
            if k < s.len() - 1 {
                assert(d[k] == s[k]);
                let i = choose|i: int| 0 <= i < bp0.len() && bp0[i] == k;
                assert(bp[i] == k);
            } else {
                assert(s.last() == s[k]);
                assert(bp == bp0.push(k as usize));
                assert(bp[bp.len() - 1] == k);
            }
        }
    }
}

/// A prefix of the segments has no more break positions than all of them, and its break
/// positions come first.
proof fn lemma_breaks_prefix(s: Seq<TextSegment>, k: int)
    requires
        0 <= k <= s.len(),
    ensures
        break_positions(s.take(k)).len() <= break_positions(s).len(),
        break_positions(s.take(k)) == break_positions(s).take(break_positions(s.take(k)).len() as int),
    decreases s.len() - k,
{
    if k == s.len() {
        assert(s.take(k) =~= s);
    } else {
        lemma_breaks_prefix(s, k + 1);
        assert(s.take(k + 1).drop_last() =~= s.take(k));
        let a = break_positions(s.take(k));
        let b = break_positions(s.take(k + 1));
        let f = break_positions(s);
        assert(b == f.take(b.len() as int));
        if b.len() > a.len() {
            assert(a =~= b.drop_last());
            assert(a =~= f.take(a.len() as int));
        } else {
            assert(a == b);
        }
    }
}

/// The largest width is at least zero, and at least each width.
proof fn lemma_max_width(ws: Seq<Px>)
    ensures
        0 <= max_width(ws) <= i32::MAX,
        forall|i: int| 0 <= i < ws.len() ==> ws[i].0 <= max_width(ws),
    decreases ws.len(),
{
    if ws.len() > 0 {
        lemma_max_width(ws.drop_last());
        assert forall|i: int| 0 <= i < ws.len() implies ws[i].0 <= max_width(ws) by {
            if i < ws.len() - 1 {
                assert(ws.drop_last()[i] == ws[i]);
            }
        }
    }
}

/// The size of the lines (see [`text_size`]).
fn lines_size(lines: &Vec<(usize, Px, Px)>, line_height: Px, line_spacing: Px) -> (r: PxSize)
    ensures
        r == text_size(lines@, line_height, line_spacing),
{
    if lines.len() == 0 {
        return PxSize { width: Px(0), height: Px(0) };
    }
    let ghost ws = line_widths(lines@);
    let mut width: i32 = 0;
    let mut i: usize = 0;
    while i < lines.len()
        invariant
            i <= lines@.len(),
            ws == line_widths(lines@),
            width as int == max_width(ws.take(i as int)),
        decreases lines@.len() - i,
    {
        proof {
            assert(ws.take(i + 1).drop_last() =~= ws.take(i as int));
            assert(ws.take(i + 1).last() == lines@[i as int].2);
        }
        if lines[i].2.0 > width {
            width = lines[i].2.0;
        }
        i = i + 1;
    }
    proof {
        assert(ws.take(i as int) =~= ws);
    }
    let n = lines.len() as i128;
    let lh = line_height.0 as i128;
    let sp = line_spacing.0 as i128;
    assert(-0x1_0000_0000_0000_0000_0000_0000i128 <= n * lh <= 0x1_0000_0000_0000_0000_0000_0000i128) by (nonlinear_arith)
        requires
            0 <= n <= 0x1_0000_0000_0000_0000i128,
            -0x8000_0000i128 <= lh <= 0x8000_0000i128,
    ;
    assert(-0x1_0000_0000_0000_0000_0000_0000i128 <= (n - 1) * sp <= 0x1_0000_0000_0000_0000_0000_0000i128) by (nonlinear_arith)
        requires
            -1 <= n - 1 <= 0x1_0000_0000_0000_0000i128,
            -0x8000_0000i128 <= sp <= 0x8000_0000i128,
    ;
    let h: i128 = n * lh + (n - 1) * sp;
    let height: i32 = if h > 0x7fff_ffffi128 {
        0x7fff_ffffi32
    } else if h < -0x8000_0000i128 {
        -0x8000_0000i32
    } else {
        h as i32
    };
    PxSize { width: Px(width), height: Px(height) }
}

impl ShapedText {
    pub closed spec fn spec_glyphs(self) -> Seq<u32> {
        self.glyphs@
    }

    pub closed spec fn spec_segments(self) -> Seq<TextSegment> {
        self.segments@
    }

    pub closed spec fn spec_lines(self) -> Seq<(usize, Px, Px)> {
        self.lines@
    }

    pub closed spec fn spec_fonts(self) -> Seq<(FontKey, usize)> {
        self.fonts@
    }

    pub closed spec fn spec_padding(self) -> PxSideOffsets {
        self.padding
    }

    pub closed spec fn spec_line_height(self) -> Px {
        self.line_height
    }

    pub closed spec fn spec_metrics(self) -> (PxSize, Px, Px, Px, Px, Px, Px) {
        (self.size, self.line_spacing, self.baseline, self.overline, self.strikethrough, self.underline, self.underline_descent)
    }

    /// Segment ends, line segment indexes and font ends do not decrease, stay within the glyph,
    /// segment and glyph counts; every glyph is in a segment and in a font run; each line ends
    /// at its line-break segment and the last line at the last segment; the size is that of
    /// the lines.
    pub closed spec fn wf(self) -> bool {
        &&& ends_ok(self.segments@.map_values(|s: TextSegment| s.end), self.glyphs@.len() as int)
        &&& ends_ok(self.lines@.map_values(|l: (usize, Px, Px)| l.0), self.segments@.len() as int)
        &&& ends_ok(self.fonts@.map_values(|f: (FontKey, usize)| f.1), self.glyphs@.len() as int)
        &&& self.fonts@.len() > 0 ==> self.fonts@.last().1 == self.glyphs@.len()
        &&& self.glyphs@.len() > 0 ==> self.fonts@.len() > 0
        &&& self.segments@.len() > 0 ==> self.segments@.last().end == self.glyphs@.len()
        &&& self.segments@.len() == 0 ==> self.glyphs@.len() == 0
        &&& self.lines@.len() > 0 ==> self.lines@.last().0 == self.segments@.len()
        &&& self.lines@.len() == 0 ==> self.segments@.len() == 0
        &&& self.lines@.len() > 0 ==> self.lines@.map_values(|l: (usize, Px, Px)| l.0) == break_positions(
            self.segments@,
        ).push(self.segments@.len() as usize)
        &&& self.size == text_size(self.lines@, self.line_height, self.line_spacing)
    }

    /// The glyph range of a range of segments is ordered and within the glyphs, and a font run
    /// ends after its start when it is not empty.
    pub proof fn lemma_segment_ends(self, r: IndexRange)
        requires
            self.wf(),
            r.0 <= r.1 <= self.spec_segments().len(),
        ensures
            ({
                let g = seg_glyph_range(self.spec_segments(), r);
                &&& g.0 <= g.1 <= self.spec_glyphs().len()
                &&& g.0 < g.1 ==> exists|k: int|
                    0 <= k < self.spec_fonts().len() && self.spec_fonts()[k].1 > g.0
            }),
    {
        let ends = self.segments@.map_values(|s: TextSegment| s.end);
        let bound = self.glyphs@.len() as int;
        assert(ends_ok(ends, bound));
        if r.1 > 0 {
            assert(ends[r.1 - 1] == self.segments@[r.1 - 1].end);
            assert(ends[r.1 - 1] <= bound);
            if r.0 > 0 {
                assert(ends[r.0 - 1] == self.segments@[r.0 - 1].end);
                assert(ends[r.0 - 1] <= ends[r.1 - 1]);
            }
        }
        let g = seg_glyph_range(self.spec_segments(), r);
        assert(g.0 <= g.1 <= bound);
        if g.0 < g.1 {
            assert(self.glyphs@.len() > 0);
            let k = self.fonts@.len() - 1;
            assert(self.fonts@.last().1 == self.glyphs@.len());
            assert(self.spec_fonts()[k].1 > g.0);
        }
    }

    /// Text with no glyphs, no lines and zero metrics.
    pub fn new_empty() -> (r: ShapedText)
        ensures
            r.wf(),
            r.spec_glyphs().len() == 0,
            r.spec_lines().len() == 0,
            r.spec_segments().len() == 0,
            r.spec_fonts().len() == 0,
    {
        let z = Px(0);
        ShapedText {
            glyphs: Vec::new(),
            segments: Vec::new(),
            lines: Vec::new(),
            fonts: Vec::new(),
            padding: PxSideOffsets { top: z, right: z, bottom: z, left: z },
            size: PxSize { width: z, height: z },
            line_height: z,
            line_spacing: z,
            baseline: z,
            overline: z,
            strikethrough: z,
            underline: z,
            underline_descent: z,
        }
    }

    /// Text assembled from the shaping output: the glyphs, the segments, the width of each line
    /// and the fonts, with the line metrics. As shaping does, each line ends at a line-break
    /// segment and the last line at the last segment; no line is offset; the size is the
    /// longest line wide and the line heights, with the spacing between lines, high.
    pub fn from_parts(
        glyphs: Vec<u32>,
        segments: Vec<TextSegment>,
        line_widths: Vec<Px>,
        fonts: Vec<(FontKey, usize)>,
        line_height: Px,
        line_spacing: Px,
        baseline: Px,
        decorations: (Px, Px, Px, Px),
    ) -> (r: ShapedText)
        requires
            ends_ok(segments@.map_values(|s: TextSegment| s.end), glyphs@.len() as int),
            ends_ok(fonts@.map_values(|f: (FontKey, usize)| f.1), glyphs@.len() as int),
            fonts@.len() > 0 ==> fonts@.last().1 == glyphs@.len(),
            glyphs@.len() > 0 ==> fonts@.len() > 0,
            segments@.len() > 0 ==> segments@.last().end == glyphs@.len(),
            segments@.len() == 0 ==> glyphs@.len() == 0,
            line_widths@.len() == break_positions(segments@).len() + 1,
        ensures
            r.wf(),
            r.spec_glyphs() == glyphs@,
            r.spec_segments() == segments@,
            r.spec_fonts() == fonts@,
            r.spec_lines().len() == line_widths@.len(),
            r.spec_lines().map_values(|l: (usize, Px, Px)| l.0) == break_positions(segments@).push(
                segments@.len() as usize,
            ),
            forall|i: int|
                0 <= i < r.spec_lines().len() ==> (#[trigger] r.spec_lines()[i]).1 == Px(0) && r.spec_lines()[i].2
                    == line_widths@[i],
            r.spec_padding() == (PxSideOffsets { top: Px(0), right: Px(0), bottom: Px(0), left: Px(0) }),
            r.spec_line_height() == line_height,
            r.spec_metrics() == (
                text_size(r.spec_lines(), line_height, line_spacing),
                line_spacing,
                baseline,
                decorations.0,
                decorations.1,
                decorations.2,
                decorations.3,
            ),
    {
        let ghost bp = break_positions(segments@);
        let seg_len = segments.len();
        proof {
            lemma_breaks(segments@);
        }
        let mut lines: Vec<(usize, Px, Px)> = Vec::new();
        let mut k: usize = 0;
        while k < segments.len()
            invariant
                k <= segments@.len(),
                bp == break_positions(segments@),
                line_widths@.len() == bp.len() + 1,
                lines@.map_values(|l: (usize, Px, Px)| l.0) == break_positions(segments@.take(k as int)),
                forall|i: int|
                    0 <= i < lines@.len() ==> (#[trigger] lines@[i]).1 == Px(0) && lines@[i].2 == line_widths@[i],
            decreases segments@.len() - k,
        {
            proof {
                lemma_breaks_prefix(segments@, k + 1);
                assert(segments@.take(k + 1).drop_last() =~= segments@.take(k as int));
                assert(segments@.take(k + 1).last() == segments@[k as int]);
            }
            let ghost before = lines@;
            if segments[k].kind == TextSegmentKind::LineBreak {
                let w = line_widths[lines.len()];
                lines.push((k, Px(0), w));
                proof {
                    assert(lines@.map_values(|l: (usize, Px, Px)| l.0) =~= before.map_values(
                        |l: (usize, Px, Px)| l.0,
                    ).push(k));
                }
            }
            k = k + 1;
        }
        proof {
            assert(segments@.take(k as int) =~= segments@);
        }
        let ghost before = lines@;
        let w = line_widths[lines.len()];
        lines.push((segments.len(), Px(0), w));
        proof {
            assert(lines@.map_values(|l: (usize, Px, Px)| l.0) =~= before.map_values(|l: (usize, Px, Px)| l.0).push(
                segments@.len() as usize,
            ));
            let le = lines@.map_values(|l: (usize, Px, Px)| l.0);
            let sl = segments@.len() as int;
            assert forall|a: int, b: int| 0 <= a <= b < le.len() implies le[a] <= le[b] by {
                if b == le.len() - 1 {
                    if a < b {
                        assert(le[a] == bp[a]);
                    }
                } else if a < b {
                    assert(le[a] == bp[a] && le[b] == bp[b]);
                }
            }
            assert forall|a: int| 0 <= a < le.len() implies le[a] <= sl by {
                if a < le.len() - 1 {
                    assert(le[a] == bp[a]);
                }
            }
        }
        let size = lines_size(&lines, line_height, line_spacing);
        let z = Px(0);
        ShapedText {
            glyphs,
            segments,
            lines,
            fonts,
            padding: PxSideOffsets { top: z, right: z, bottom: z, left: z },
            size,
            line_height,
            line_spacing,
            baseline,
            overline: decorations.0,
            strikethrough: decorations.1,
            underline: decorations.2,
            underline_descent: decorations.3,
        }
    }

    /// The segments whose glyphs include a missing glyph (index 0), in order: the segments
    /// that fallback fonts are tried for.
    pub fn tofu_segments(&self) -> (r: Vec<usize>)
        requires
            self.wf(),
        ensures
            r@ == tofu_segments_upto(self.spec_glyphs(), self.spec_segments(), self.spec_segments().len() as int),
    {
        let ghost ends = self.segments@.map_values(|s: TextSegment| s.end);
        let mut r: Vec<usize> = Vec::new();
        let mut start: usize = 0;
        let mut i: usize = 0;
        while i < self.segments.len()
            invariant
                self.wf(),
                i <= self.segments@.len(),
                ends == self.segments@.map_values(|s: TextSegment| s.end),
                start == (if i == 0 { 0 } else { self.segments@[i - 1].end }),
                r@ == tofu_segments_upto(self.glyphs@, self.segments@, i as int),
            decreases self.segments@.len() - i,
        {
            let end = self.segments[i].end;
            proof {
                assert(ends[i as int] == end);
                assert(ends[i as int] <= self.glyphs@.len());
                if i > 0 {
                    assert(ends[i - 1] == start);
                    assert(ends[i - 1] <= ends[i as int]);
                }
            }
            let mut found = false;
            let mut g = start;
            while g < end
                invariant
                    start <= g <= end <= self.glyphs@.len(),
                    found == exists|x: int| start <= x < g && self.glyphs@[x] == 0,
                decreases end - g,
            {
                if self.glyphs[g] == 0 {
                    found = true;
                }
                g = g + 1;
            }
            if found {
                r.push(i);
            }
            start = end;
            i = i + 1;
        }
        r
    }

    /// Glyph runs by font: each font with the range of glyphs that use it.
    pub fn glyphs(&self) -> (r: Vec<GlyphRun>)
        ensures
            r@ == font_runs(self.spec_fonts()),
    {
        let mut r: Vec<GlyphRun> = Vec::new();
        let mut start: usize = 0;
        let mut i: usize = 0;
        while i < self.fonts.len()
            invariant
                i <= self.fonts@.len(),
                r@.len() == i,
                start == (if i == 0 { 0 } else { self.fonts@[i - 1].1 }),
                forall|k: int| 0 <= k < i ==> #[trigger] r@[k] == font_runs(self.fonts@)[k],
            decreases self.fonts@.len() - i,
        {
            let end = self.fonts[i].1;
            r.push(GlyphRun { font: self.fonts[i].0, start, end });
            start = end;
            i = i + 1;
        }
        assert(r@ =~= font_runs(self.fonts@));
        r
    }

    /// Glyph runs by font inside `range`, starting at the run that contains the range start.
    fn glyphs_range(&self, range: IndexRange) -> (r: Vec<GlyphRun>)
        requires
            self.wf(),
            exists|k: int| 0 <= k < self.spec_fonts().len() && self.spec_fonts()[k].1 > range.0,
        ensures
            r@ == runs_in_range(
                self.spec_fonts(),
                (if first_font_after(self.spec_fonts(), range.0) == 0 {
                    0
                } else {
                    first_font_after(self.spec_fonts(), range.0) - 1
                }),
                range.0,
                range.1,
            ),
    {
        let start0 = range.start();
        let end = range.end();
        let mut k: usize = 0;
        while k < self.fonts.len() && self.fonts[k].1 <= start0
            invariant
                k <= self.fonts@.len(),
                forall|j: int| 0 <= j < k ==> self.fonts@[j].1 <= start0,
                exists|q: int| 0 <= q < self.fonts@.len() && self.fonts@[q].1 > start0,
            decreases self.fonts@.len() - k,
        {
            k = k + 1;
        }
        proof {
            if k >= self.fonts@.len() {
                let q = choose|q: int| 0 <= q < self.fonts@.len() && self.fonts@[q].1 > start0;
                assert(self.fonts@[q].1 <= start0);
            }
            let f = self.fonts@;
            assert(0 <= k < f.len() && f[k as int].1 > start0 && forall|j: int| 0 <= j < k ==> f[j].1 <= start0);
            let c = first_font_after(f, start0);
            assert(0 <= c < f.len() && f[c].1 > start0 && forall|j: int| 0 <= j < c ==> f[j].1 <= start0);
            if c < k {
                assert(f[c].1 <= start0);
            }
            if (k as int) < c {
                assert(f[k as int].1 <= start0);
            }
        }
        let first = k.saturating_sub(1);
        let ghost from0 = first as int;
        let mut r: Vec<GlyphRun> = Vec::new();
        let mut start = start0;
        let mut idx = first;
        while idx < self.fonts.len()
            invariant
                from0 <= idx,
                start0 == range.0,
                end == range.1,
                from0 == (if first_font_after(self.fonts@, start0) == 0 {
                    0
                } else {
                    first_font_after(self.fonts@, start0) - 1
                }),
                runs_in_range(self.fonts@, from0, start0, end) == r@ + runs_in_range(self.fonts@, idx as int, start, end),
            decreases self.fonts@.len() - idx,
        {
            let fe = self.fonts[idx].1;
            let i = if fe <= end {
                fe
            } else {
                end
            };
            if i > start {
                r.push(GlyphRun { font: self.fonts[idx].0, start, end: i });
                proof {
                    assert(runs_in_range(self.fonts@, idx as int, start, end) == seq![
                        GlyphRun { font: self.fonts@[idx as int].0, start, end: i },
                    ].add(runs_in_range(self.fonts@, idx + 1, i, end)));
                    assert(r@ + runs_in_range(self.fonts@, idx + 1, i, end) =~= r@.drop_last() + (seq![
                        GlyphRun { font: self.fonts@[idx as int].0, start, end: i },
                    ].add(runs_in_range(self.fonts@, idx + 1, i, end))));
                }
                start = i;
                idx = idx + 1;
            } else {
                proof {
                    assert(runs_in_range(self.fonts@, idx as int, start, end) =~= Seq::<GlyphRun>::empty());
                    assert(r@ + runs_in_range(self.fonts@, idx as int, start, end) =~= r@);
                }
                return r;
            }
        }
        proof {
            assert(r@ + runs_in_range(self.fonts@, idx as int, start, end) =~= r@);
        }
        r
    }

    /// The glyph segments.
    pub fn segments(&self) -> (r: &Vec<TextSegment>)
        ensures
            r@ == self.spec_segments(),
    {
        &self.segments
    }

    /// Bounding box size.
    pub fn size(&self) -> (r: PxSize)
        ensures
            r == self.spec_metrics().0,
    {
        self.size
    }

    /// Offsets around the text block, already included in all other values.
    pub fn padding(&self) -> (r: PxSideOffsets)
        ensures
            r == self.spec_padding(),
    {
        self.padding
    }

    /// Height of a single line.
    pub fn line_height(&self) -> (r: Px)
        ensures
            r == self.spec_line_height(),
    {
        self.line_height
    }

    /// Vertical spacing in between lines.
    pub fn line_spacing(&self) -> (r: Px)
        ensures
            r == self.spec_metrics().1,
    {
        self.line_spacing
    }

    /// Offset from the line bottom up to the baseline.
    pub fn baseline(&self) -> (r: Px)
        ensures
            r == self.spec_metrics().2,
    {
        self.baseline
    }

    /// Offset from the bottom up to the baseline of the last line, considering the padding.
    pub fn box_baseline(&self) -> (r: Px)
        ensures
            r.0 == sat(self.spec_metrics().2.0 + self.spec_padding().bottom.0),
    {
        self.baseline.saturating_add(self.padding.bottom)
    }

    /// Offset from the line bottom up to the overline.
    pub fn overline(&self) -> (r: Px)
        ensures
            r == self.spec_metrics().3,
    {
        self.overline
    }

    /// Offset from the line bottom up to the strikethrough.
    pub fn strikethrough(&self) -> (r: Px)
        ensures
            r == self.spec_metrics().4,
    {
        self.strikethrough
    }

    /// Offset from the line bottom up to the font defined underline.
    pub fn underline(&self) -> (r: Px)
        ensures
            r == self.spec_metrics().5,
    {
        self.underline
    }

    /// Offset from the line bottom up to the underline that clears all glyph descents.
    pub fn underline_descent(&self) -> (r: Px)
        ensures
            r == self.spec_metrics().6,
    {
        self.underline_descent
    }

    /// No glyphs.
    pub fn is_empty(&self) -> (r: bool)
        ensures
            r == (self.spec_glyphs().len() == 0),
    {
        self.glyphs.len() == 0
    }

    /// The lines, split by line breaks: a line covers the segments after the line break that
    /// started it, up to and including the line break that ends it (see [`line_seg_range`]).
    pub fn lines<'a>(&'a self) -> (r: Vec<ShapedLine<'a>>)
        ensures
            r@.len() == self.spec_lines().len(),
            forall|i: int|
                0 <= i < r@.len() ==> {
                    &&& (#[trigger] r@[i]).text == self
                    &&& r@[i].index == i
                    &&& r@[i].seg_range == line_seg_range(self.spec_lines(), self.spec_segments().len() as usize, i)
                    &&& r@[i].x == self.spec_lines()[i].1
                    &&& r@[i].width == self.spec_lines()[i].2
                },
    {
        let seg_len = self.segments.len();
        let mut r: Vec<ShapedLine<'a>> = Vec::new();
        let mut i: usize = 0;
        while i < self.lines.len()
            invariant
                i <= self.lines@.len(),
                r@.len() == i,
                seg_len == self.segments@.len(),
                forall|k: int|
                    0 <= k < i ==> {
                        &&& (#[trigger] r@[k]).text == self
                        &&& r@[k].index == k
                        &&& r@[k].seg_range == line_seg_range(self.lines@, seg_len, k)
                        &&& r@[k].x == self.lines@[k].1
                        &&& r@[k].width == self.lines@[k].2
                    },
            decreases self.lines@.len() - i,
        {
            let (e, x, w) = self.lines[i];
            let end = if e < seg_len {
                e + 1
            } else {
                seg_len
            };
            let start = if i == 0 {
                0
            } else if self.lines[i - 1].0 < end {
                self.lines[i - 1].0 + 1
            } else {
                end
            };
            r.push(ShapedLine { text: self, seg_range: IndexRange(start, end), index: i, x, width: w });
            i = i + 1;
        }
        r
    }
}

/// The decoration line of line `index`: starts at `x`, `offset` up from the line bottom, plus
/// the top padding.
pub open spec fn decoration_y(line_height: Px, index: usize, offset: Px, top: Px) -> int {
    sat(sat(sat(line_height.0 * ((index as i32) + 1)) - offset.0) + top.0)
}

/// A decoration line at an offset within the line height lies inside its line: between the
/// top of the line's rectangle (`line_height * index`) and its bottom, both moved by the top
/// padding, where nothing saturates.
pub proof fn law_decoration_in_line(line_height: Px, index: usize, offset: Px, top: Px)
    requires
        0 <= offset.0 <= line_height.0,
        index < i32::MAX,
        line_height.0 * (index + 1) <= i32::MAX,
        i32::MIN <= line_height.0 * index + top.0,
        line_height.0 * (index + 1) + top.0 <= i32::MAX,
    ensures
        ({
            let origin = sat(line_height.0 * (index as i32));
            &&& origin + top.0 <= decoration_y(line_height, index, offset, top)
            &&& decoration_y(line_height, index, offset, top) <= origin + line_height.0 + top.0
        }),
{
    let h = line_height.0 as int;
    let i = index as int;
    assert((index as i32) as int == i);
    assert(h * (i + 1) == h * i + h) by (nonlinear_arith);
    assert(h * i >= 0) by (nonlinear_arith)
        requires
            h >= 0,
            i >= 0,
    ;
}

/// The decoration line of the next line is one line height further down, where nothing
/// saturates.
pub proof fn law_decoration_next_line(line_height: Px, index: usize, offset: Px, top: Px)
    requires
        index + 1 < i32::MAX,
        i32::MIN <= line_height.0 * (index + 1) <= i32::MAX,
        i32::MIN <= line_height.0 * (index + 2) <= i32::MAX,
        i32::MIN <= line_height.0 * (index + 1) - offset.0 <= i32::MAX,
        i32::MIN <= line_height.0 * (index + 2) - offset.0 <= i32::MAX,
        i32::MIN <= line_height.0 * (index + 1) - offset.0 + top.0 <= i32::MAX,
        i32::MIN <= line_height.0 * (index + 2) - offset.0 + top.0 <= i32::MAX,
    ensures
        decoration_y(line_height, (index + 1) as usize, offset, top) == decoration_y(line_height, index, offset, top)
            + line_height.0,
{
    let h = line_height.0 as int;
    let i = index as int;
    assert((index as i32) as int == i);
    assert((((index + 1) as usize) as i32) as int == i + 1);
    assert(h * (i + 2) == h * (i + 1) + h) by (nonlinear_arith);
}

/// A line of a [`ShapedText`].
#[derive(Clone, Copy)]
pub struct ShapedLine<'a> {
    pub text: &'a ShapedText,
    /// Range of segments of this line.
    pub seg_range: IndexRange,
    /// Line index.
    pub index: usize,
    /// Horizontal alignment advance.
    pub x: Px,
    /// Line width.
    pub width: Px,
}

impl<'a> ShapedLine<'a> {
    /// Bounds of the line.
    pub fn rect(&self) -> (r: PxRect)
        ensures
            r.size.width == self.width,
            r.size.height == self.text.spec_line_height(),
            r.origin.x == self.x,
            r.origin.y.0 == sat(self.text.spec_line_height().0 * (self.index as i32)),
    {
        let lh = self.text.line_height;
        let size = PxSize::new(self.width, lh);
        let origin = PxPoint::new(self.x, lh.saturating_mul(Px(self.index as i32)));
        PxRect::new(origin, size)
    }

    /// Horizontal alignment advance applied to the entire line.
    pub fn x(&self) -> (r: Px)
        ensures
            r == self.x,
    {
        self.x
    }

    fn decoration_line(&self, bottom_up_offset: Px) -> (r: (PxPoint, Px))
        requires
            (self.index as i32) < i32::MAX,
        ensures
            r.0.x == self.x,
            r.0.y.0 == decoration_y(self.text.spec_line_height(), self.index, bottom_up_offset, self.text.spec_padding().top),
            r.1 == self.width,
    {
        let line = Px((self.index as i32) + 1);
        let y = self.text.line_height.saturating_mul(line).saturating_sub(bottom_up_offset);
        (PxPoint::new(self.x, y.saturating_add(self.text.padding.top)), self.width)
    }

    /// Full overline: start point and width.
    pub fn overline(&self) -> (r: (PxPoint, Px))
        requires
            (self.index as i32) < i32::MAX,
        ensures
            r.0.x == self.x,
            r.0.y.0 == decoration_y(self.text.spec_line_height(), self.index, self.text.spec_metrics().3, self.text.spec_padding().top),
            r.1 == self.width,
    {
        self.decoration_line(self.text.overline)
    }

    /// Full strikethrough line: start point and width.
    pub fn strikethrough(&self) -> (r: (PxPoint, Px))
        requires
            (self.index as i32) < i32::MAX,
        ensures
            r.0.x == self.x,
            r.0.y.0 == decoration_y(self.text.spec_line_height(), self.index, self.text.spec_metrics().4, self.text.spec_padding().top),
            r.1 == self.width,
    {
        self.decoration_line(self.text.strikethrough)
    }

    /// Full underline at the font defined offset: start point and width.
    pub fn underline(&self) -> (r: (PxPoint, Px))
        requires
            (self.index as i32) < i32::MAX,
        ensures
            r.0.x == self.x,
            r.0.y.0 == decoration_y(self.text.spec_line_height(), self.index, self.text.spec_metrics().5, self.text.spec_padding().top),
            r.1 == self.width,
    {
        self.decoration_line(self.text.underline)
    }

    /// Full underline below all glyph descents: start point and width.
    pub fn underline_descent(&self) -> (r: (PxPoint, Px))
        requires
            (self.index as i32) < i32::MAX,
        ensures
            r.0.x == self.x,
            r.0.y.0 == decoration_y(self.text.spec_line_height(), self.index, self.text.spec_metrics().6, self.text.spec_padding().top),
            r.1 == self.width,
    {
        self.decoration_line(self.text.underline_descent)
    }

    /// Segments of the line; does not include the line break that started the line, can
    /// include the line break that starts the next.
    pub fn segments(&self) -> (r: &'a [TextSegment])
        requires
            self.seg_range.0 <= self.seg_range.1 <= self.text.spec_segments().len(),
        ensures
            r@ == self.text.spec_segments().subrange(self.seg_range.0 as int, self.seg_range.1 as int),
    {
        vstd::slice::slice_subrange(self.text.segments.as_slice(), self.seg_range.0, self.seg_range.1)
    }

    /// Range of glyphs of the line: from the end of the line break that started it (the start
    /// of its first segment) to the end of its last segment.
    fn glyphs_range(&self) -> (r: IndexRange)
        requires
            self.seg_range.0 <= self.seg_range.1 <= self.text.spec_segments().len(),
        ensures
            r == seg_glyph_range(self.text.spec_segments(), self.seg_range),
    {
        let start = if self.seg_range.start() == 0 {
            0
        } else {
            self.text.segments[self.seg_range.start() - 1].end
        };
        let end = if self.seg_range.end() == 0 {
            0
        } else {
            self.text.segments[self.seg_range.end() - 1].end
        };
        IndexRange(start, end)
    }

    /// Glyph runs by font in the line: the glyphs of its own segments, split by font.
    pub fn glyphs(&self) -> (r: Vec<GlyphRun>)
        requires
            self.text.wf(),
            self.seg_range.0 <= self.seg_range.1 <= self.text.spec_segments().len(),
        ensures
            ({
                let g = seg_glyph_range(self.text.spec_segments(), self.seg_range);
                let c = first_font_after(self.text.spec_fonts(), g.0);
                r@ == runs_in_range(self.text.spec_fonts(), if c == 0 { 0 } else { c - 1 }, g.0, g.1)
            }),
    {
        let range = self.glyphs_range();
        proof {
            self.text.lemma_segment_ends(self.seg_range);
        }
        if range.0 < range.1 {
            self.text.glyphs_range(range)
        } else {
            proof {
                let c = first_font_after(self.text.spec_fonts(), range.0);
                let from: int = if c == 0 { 0 } else { c - 1 };
                lemma_runs_in_empty_range(self.text.spec_fonts(), from, range.0, range.1);
            }
            Vec::new()
        }
    }

    /// The word and space segments of the line.
    pub fn parts(&self) -> (r: Vec<ShapedSegment<'a>>)
        ensures
            r@.len() == (if self.seg_range.1 >= self.seg_range.0 { self.seg_range.1 - self.seg_range.0 } else { 0 }),
            forall|k: int|
                0 <= k < r@.len() ==> {
                    &&& (#[trigger] r@[k]).text == self.text
                    &&& r@[k].line_index == self.index
                    &&& r@[k].index == self.seg_range.0 + k
                    &&& r@[k].is_last == (self.seg_range.0 + k == (if self.seg_range.1 == 0 {
                        0
                    } else {
                        self.seg_range.1 - 1
                    }))
                },
    {
        let last_i = self.seg_range.inclusive_end();
        let mut r: Vec<ShapedSegment<'a>> = Vec::new();
        let mut i = self.seg_range.0;
        while i < self.seg_range.1
            invariant
                self.seg_range.0 <= i,
                i <= self.seg_range.1 || i == self.seg_range.0,
                r@.len() == i - self.seg_range.0,
                last_i == (if self.seg_range.1 == 0 { 0 } else { (self.seg_range.1 - 1) as usize }),
                forall|k: int|
                    0 <= k < r@.len() ==> {
                        &&& (#[trigger] r@[k]).text == self.text
                        &&& r@[k].line_index == self.index
                        &&& r@[k].index == self.seg_range.0 + k
                        &&& r@[k].is_last == (self.seg_range.0 + k == last_i)
                    },
            decreases self.seg_range.1 - i,
        {
            r.push(ShapedSegment { text: self.text, line_index: self.index, index: i, is_last: i == last_i });
            i = i + 1;
        }
        r
    }
}

/// A word or space segment of a [`ShapedText`] line.
#[derive(Clone, Copy)]
pub struct ShapedSegment<'a> {
    pub text: &'a ShapedText,
    /// Index of the line.
    pub line_index: usize,
    /// Index of the segment.
    pub index: usize,
    /// If this is the last segment of the line.
    pub is_last: bool,
}

impl<'a> ShapedSegment<'a> {
    /// Segment kind.
    pub fn kind(&self) -> (r: TextSegmentKind)
        requires
            self.index < self.text.spec_segments().len(),
        ensures
            r == self.text.spec_segments()[self.index as int].kind,
    {
        self.text.segments[self.index].kind
    }

    /// If the segment is a word.
    pub fn is_word(&self) -> (r: bool)
        requires
            self.index < self.text.spec_segments().len(),
        ensures
            r == (self.text.spec_segments()[self.index as int].kind == TextSegmentKind::Word),
    {
        match self.kind() {
            TextSegmentKind::Word => true,
            _ => false,
        }
    }

    /// If the segment is spaces or a tab.
    pub fn is_space(&self) -> (r: bool)
        requires
            self.index < self.text.spec_segments().len(),
        ensures
            r == (self.text.spec_segments()[self.index as int].kind == TextSegmentKind::Space
                || self.text.spec_segments()[self.index as int].kind == TextSegmentKind::Tab),
    {
        match self.kind() {
            TextSegmentKind::Space => true,
            TextSegmentKind::Tab => true,
            _ => false,
        }
    }

    /// If this is the last segment of the line.
    pub fn is_last(&self) -> (r: bool)
        ensures
            r == self.is_last,
    {
        self.is_last
    }

    /// Range of glyphs of the segment: from the previous segment end to its own end.
    fn glyph_range(&self) -> (r: IndexRange)
        requires
            self.index < self.text.spec_segments().len(),
        ensures
            r.0 == (if self.index == 0 { 0 } else { self.text.spec_segments()[self.index - 1].end }),
            r.1 == self.text.spec_segments()[self.index as int].end,
    {
        let start = if self.index == 0 {
            0
        } else {
            self.text.segments[self.index - 1].end
        };
        IndexRange(start, self.text.segments[self.index].end)
    }

    /// Glyph runs by font in the segment.
    pub fn glyphs(&self) -> (r: Vec<GlyphRun>)
        requires
            self.text.wf(),
            self.index < self.text.spec_segments().len(),
            exists|k: int|
                0 <= k < self.text.spec_fonts().len() && self.text.spec_fonts()[k].1 > (if self.index == 0 {
                    0
                } else {
                    self.text.spec_segments()[self.index - 1].end
                }),
        ensures
            ({
                let start: usize = if self.index == 0 { 0 } else { self.text.spec_segments()[self.index - 1].end };
                let c = first_font_after(self.text.spec_fonts(), start);
                r@ == runs_in_range(
                    self.text.spec_fonts(),
                    if c == 0 { 0 } else { c - 1 },
                    start,
                    self.text.spec_segments()[self.index as int].end,
                )
            }),
    {
        let range = self.glyph_range();
        self.text.glyphs_range(range)
    }
}

/// One step of merging decoration lines that share the same `y`: from `pos`, extend the
/// current line with each following line that starts at most 1px after its end; yield it when
/// a line starts further away, or when the input ends. Returns the yielded line, the next
/// position and the new current line.
pub open spec fn merge_next(items: Seq<(PxPoint, Px)>, pos: int, line: Option<(PxPoint, Px)>) -> (
    Option<(PxPoint, Px)>,
    int,
    Option<(PxPoint, Px)>,
)
    decreases items.len() - pos,
{
    if pos < 0 || pos >= items.len() {
        (line, pos, None)
    } else {
        let (point, width) = items[pos];
        match line {
            Some((lp, lw)) => {
                let diff = sat(point.x.0 - sat(lp.x.0 + lw.0));
                if diff <= 1 {
                    merge_next(items, pos + 1, Some((lp, Px(sat(lw.0 + sat(width.0 + diff)) as i32))))
                } else {
                    (Some((lp, lw)), pos + 1, Some((point, width)))
                }
            },
            None => merge_next(items, pos + 1, Some((point, width))),
        }
    }
}

/// Merges decoration lines `(start, width)` with the same `y` that touch or leave a gap of at
/// most 1px (lines are snapped to pixels).
pub struct MergingLineIter {
    iter: Vec<(PxPoint, Px)>,
    pos: usize,
    line: Option<(PxPoint, Px)>,
}

impl MergingLineIter {
    pub closed spec fn spec_items(self) -> Seq<(PxPoint, Px)> {
        self.iter@
    }

    pub closed spec fn spec_pos(self) -> int {
        self.pos as int
    }

    pub closed spec fn spec_line(self) -> Option<(PxPoint, Px)> {
        self.line
    }

    /// Merges the lines of `iter`.
    pub fn new(iter: Vec<(PxPoint, Px)>) -> (r: MergingLineIter)
        ensures
            r.spec_items() == iter@,
            r.spec_pos() == 0,
            r.spec_line() is None,
    {
        MergingLineIter { iter, pos: 0, line: None }
    }

    /// The next merged line.
    pub fn next(&mut self) -> (r: Option<(PxPoint, Px)>)
        requires
            0 <= old(self).spec_pos() <= old(self).spec_items().len(),
        ensures
            final(self).spec_items() == old(self).spec_items(),
            (r, final(self).spec_pos(), final(self).spec_line()) == merge_next(
                old(self).spec_items(),
                old(self).spec_pos(),
                old(self).spec_line(),
            ),
            0 <= final(self).spec_pos() <= final(self).spec_items().len(),
        decreases old(self).spec_items().len() - old(self).spec_pos(),
    {
        if self.pos < self.iter.len() {
            let (point, width) = self.iter[self.pos];
            self.pos = self.pos + 1;
            match self.line {
                Some((lp, lw)) => {
                    let diff = point.x.saturating_sub(lp.x.saturating_add(lw));
                    if diff.0 <= 1 {
                        self.line = Some((lp, lw.saturating_add(width.saturating_add(diff))));
                        self.next()
                    } else {
                        let r = (lp, lw);
                        self.line = Some((point, width));
                        Some(r)
                    }
                },
                None => {
                    self.line = Some((point, width));
                    self.next()
                },
            }
        } else {
            let r = self.line;
            self.line = None;
            r
        }
    }
}

/// An OpenType feature setting applied to a range of the text.
#[derive(Clone, Copy, Debug, PartialEq, Eq, Hash, Structural)]
pub struct FontFeature {
    pub tag: u32,
    pub value: u32,
    pub start: usize,
    pub end: usize,
}

/// Extra configuration for text shaping.
pub struct TextShapingArgs {
    /// Extra spacing after each character.
    pub letter_spacing: Px,
    /// Extra spacing after each space.
    pub word_spacing: Px,
    /// Height of each line.
    pub line_height: Px,
    /// Extra spacing in between lines.
    pub line_spacing: Px,
    /// Language tag of the text.
    pub lang: String,
    /// Don't use font ligatures.
    pub ignore_ligatures: bool,
    /// Don't use font letter spacing.
    pub disable_kerning: bool,
    /// Width of the TAB character.
    pub tab_x_advance: Px,
    /// Extra space before the start of the first line.
    pub text_indent: Px,
    /// Finalized font features.
    pub font_features: Vec<FontFeature>,
}

impl TextShapingArgs {
    /// All lengths zero, undetermined language, ligatures and kerning on, no features.
    pub fn default() -> (r: TextShapingArgs)
        ensures
            r.letter_spacing.0 == 0 && r.word_spacing.0 == 0 && r.line_height.0 == 0,
            r.line_spacing.0 == 0 && r.tab_x_advance.0 == 0 && r.text_indent.0 == 0,
            r.lang@ == seq!['u', 'n', 'd'],
            !r.ignore_ligatures && !r.disable_kerning,
            r.font_features@.len() == 0,
    {
        let lang = String::from_str("und");
        proof {
            reveal_strlit("und");
        }
        TextShapingArgs {
            letter_spacing: Px(0),
            word_spacing: Px(0),
            line_height: Px(0),
            line_spacing: Px(0),
            lang,
            ignore_ligatures: false,
            disable_kerning: false,
            tab_x_advance: Px(0),
            text_indent: Px(0),
            font_features: Vec::new(),
        }
    }
}

/// The words of a font feature in a word cache key: on 64-bit targets the tag and value share
/// one word, then the range start and end.
pub open spec fn feature_words(f: FontFeature, is_64: bool) -> Seq<usize> {
    if is_64 {
        seq![((f.tag as usize) | ((f.value as usize) << 32usize)) as usize, f.start, f.end]
    } else {
        seq![f.tag as usize, f.value as usize, f.start, f.end]
    }
}

/// The words of a list of font features, in order.
pub open spec fn features_words(fs: Seq<FontFeature>, is_64: bool) -> Seq<usize>
    decreases fs.len(),
{
    if fs.len() == 0 {
        Seq::empty()
    } else {
        features_words(fs.drop_last(), is_64) + feature_words(fs.last(), is_64)
    }
}

/// Context of a word shaping cache entry: the language and the packed font features.
pub struct WordContextKey {
    pub lang: String,
    pub font_features: Option<Vec<usize>>,
}

impl WordContextKey {
    /// The cache context of `config`: its language, and its font features packed in words
    /// (none when there are no features).
    pub fn new(config: &TextShapingArgs) -> (r: WordContextKey)
        ensures
            r.lang@ == config.lang@,
            config.font_features@.len() == 0 ==> r.font_features is None,
            config.font_features@.len() > 0 ==> (r.font_features matches Some(v) && v@ == features_words(
                config.font_features@,
                usize::BITS == 64,
            )),
    {
        let is_64 = usize::BITS == 64;
        let mut font_features = None;
        if config.font_features.len() > 0 {
            let mut features: Vec<usize> = Vec::new();
            let mut i: usize = 0;
            while i < config.font_features.len()
                invariant
                    i <= config.font_features@.len(),
                    is_64 == (usize::BITS == 64),
                    features@ == features_words(config.font_features@.take(i as int), is_64),
                decreases config.font_features@.len() - i,
            {
                let f = config.font_features[i];
                proof {
                    assert(config.font_features@.take(i + 1).drop_last() =~= config.font_features@.take(i as int));
                }
                if is_64 {
                    let h: usize = (f.tag as usize) | ((f.value as usize) << 32usize);
                    features.push(h);
                } else {
                    features.push(f.tag as usize);
                    features.push(f.value as usize);
                }
                features.push(f.start);
                features.push(f.end);
                proof {
                    assert(features@ =~= features_words(config.font_features@.take(i as int), is_64) + feature_words(f, is_64));
                }
                i = i + 1;
            }
            proof {
                assert(config.font_features@.take(i as int) =~= config.font_features@);
            }
            font_features = Some(features);
        }
        WordContextKey { lang: config.lang.clone(), font_features }
    }
}

/// The font runs tile the glyphs: the first run starts at the first glyph, each run starts
/// where the one before it ends, the last ends at the glyph count, and each glyph lies in
/// exactly one run, whose font is the font of that run's entry.
pub proof fn law_glyph_runs_tile(t: ShapedText)
    requires
        t.wf(),
    ensures
        ({
            let runs = font_runs(t.spec_fonts());
            let n = t.spec_glyphs().len();
            &&& runs.len() == t.spec_fonts().len()
            &&& runs.len() > 0 ==> runs[0].start == 0 && runs.last().end == n
            &&& forall|k: int| 1 <= k < runs.len() ==> #[trigger] runs[k].start == runs[k - 1].end
            &&& forall|k: int|
                0 <= k < runs.len() ==> #[trigger] runs[k].start <= runs[k].end && runs[k].font
                    == t.spec_fonts()[k].0
            &&& forall|g: int| 0 <= g < n ==> #[trigger] in_some_run(runs, g)
            &&& forall|j: int, k: int|
                #![trigger runs[j], runs[k]]
                0 <= j < k < runs.len() ==> runs[j].end <= runs[k].start
        }),
{
    let f = t.spec_fonts();
    let runs = font_runs(f);
    let ends = f.map_values(|x: (FontKey, usize)| x.1);
    let n = t.spec_glyphs().len();
    assert(ends_ok(ends, n as int));
    if f.len() > 0 {
        assert(runs.last() == runs[f.len() - 1]);
    }
    assert forall|k: int| 1 <= k < runs.len() implies #[trigger] runs[k].start == runs[k - 1].end by {}
    assert forall|k: int| 0 <= k < runs.len() implies #[trigger] runs[k].start <= runs[k].end && runs[k].font
        == f[k].0 by {
        assert(ends[k] == f[k].1);
        if k > 0 {
            assert(ends[k - 1] == f[k - 1].1);
        }
    }
    assert forall|j: int, k: int| #![trigger runs[j], runs[k]] 0 <= j < k < runs.len() implies runs[j].end <= runs[k].start by {
        assert(ends[j] == f[j].1);
        assert(ends[k - 1] == f[k - 1].1);
    }
    assert forall|g: int| 0 <= g < n implies #[trigger] in_some_run(runs, g) by {
        assert(f.len() > 0);
        assert(f[f.len() - 1].1 > g);
        let k = choose_first_end_after(f, g, f.len() - 1);
        assert(runs[k].end > g);
        if k > 0 {
            assert(runs[k].start == f[k - 1].1);
        }
        assert(0 <= k < runs.len() && runs[k].start <= g < runs[k].end);
    }
}

/// Glyph `g` lies in one of `runs`.
pub open spec fn in_some_run(runs: Seq<GlyphRun>, g: int) -> bool {
    exists|k: int| 0 <= k < runs.len() && #[trigger] runs[k].start <= g < runs[k].end
}

/// The first entry of `fonts` up to `last` whose end is after `g`.
proof fn choose_first_end_after(fonts: Seq<(FontKey, usize)>, g: int, last: int) -> (k: int)
    requires
        0 <= last < fonts.len(),
        fonts[last].1 > g,
    ensures
        0 <= k <= last,
        fonts[k].1 > g,
        k > 0 ==> fonts[k - 1].1 <= g,
    decreases last,
{
    if last > 0 && fonts[last - 1].1 > g {
        choose_first_end_after(fonts, g, last - 1)
    } else {
        last
    }
}

/// The lines tile the glyphs: the first line starts at the first glyph, each line starts
/// where the one before it ends, and the last line ends at the last glyph, so the lines
/// together give every glyph once, in order.
pub proof fn law_lines_tile_glyphs(t: ShapedText, i: int)
    requires
        t.wf(),
        0 <= i < t.spec_lines().len(),
    ensures
        ({
            let n = t.spec_segments().len() as usize;
            let g = seg_glyph_range(t.spec_segments(), line_seg_range(t.spec_lines(), n, i));
            &&& g.0 <= g.1
            &&& i == 0 ==> g.0 == 0
            &&& i + 1 < t.spec_lines().len() ==> g.1 == seg_glyph_range(
                t.spec_segments(),
                line_seg_range(t.spec_lines(), n, i + 1),
            ).0
            &&& i + 1 == t.spec_lines().len() ==> g.1 == t.spec_glyphs().len()
        }),
{
    let n = t.spec_segments().len() as usize;
    let lines = t.spec_lines();
    let le = lines.map_values(|l: (usize, Px, Px)| l.0);
    assert(le[i] == lines[i].0);
    let r = line_seg_range(lines, n, i);
    if i > 0 {
        assert(le[i - 1] == lines[i - 1].0);
    }
    t.lemma_segment_ends(r);
    if i + 1 < lines.len() {
        assert(le[i + 1] == lines[i + 1].0);
        let r2 = line_seg_range(lines, n, i + 1);
        assert(r2.0 == r.1);
    }
    if i + 1 == lines.len() {
        assert(lines.last() == lines[i]);
    }
}

/// A line holds no line break but possibly its last segment, the break that starts the next
/// line; the last line holds none; a line after the first starts just after the line break
/// that started it.
pub proof fn law_line_breaks(t: ShapedText, i: int)
    requires
        t.wf(),
        0 <= i < t.spec_lines().len(),
    ensures
        ({
            let n = t.spec_segments().len() as usize;
            let r = line_seg_range(t.spec_lines(), n, i);
            &&& forall|k: int|
                r.0 <= k < r.1 && (#[trigger] t.spec_segments()[k]).kind == TextSegmentKind::LineBreak ==> k == r.1 - 1
                    && i + 1 < t.spec_lines().len()
            &&& i > 0 ==> r.0 >= 1 && t.spec_segments()[r.0 - 1].kind == TextSegmentKind::LineBreak
        }),
{
    let segs = t.spec_segments();
    let lines = t.spec_lines();
    let n = segs.len() as usize;
    let bp = break_positions(segs);
    let le = lines.map_values(|l: (usize, Px, Px)| l.0);
    assert(segs.len() <= usize::MAX);
    lemma_breaks(segs);
    assert(le == bp.push(n));
    assert(le[i] == lines[i].0);
    if i > 0 {
        assert(le[i - 1] == lines[i - 1].0);
        assert(bp.push(n)[i - 1] == bp[i - 1]);
        assert(lines[i - 1].0 == bp[i - 1]);
    }
    assert(le.len() == lines.len());
    if i + 1 < lines.len() {
        assert(bp.push(n)[i] == bp[i]);
        assert(lines[i].0 == bp[i]);
    } else {
        assert(lines[i].0 == n);
    }
    let r = line_seg_range(lines, n, i);
    assert forall|k: int|
        r.0 <= k < r.1 && (#[trigger] segs[k]).kind == TextSegmentKind::LineBreak implies k == r.1 - 1 && i + 1
            < lines.len() by {
        let j = choose|j: int| 0 <= j < bp.len() && bp[j] == k;
        if i > 0 && j <= i - 1 {
            if j < i - 1 {
                assert(bp[j] < bp[i - 1]);
            }
        }
        if i + 1 < lines.len() {
            if j > i {
                assert(bp[i] < bp[j]);
            }
        } else {
            assert(j <= i - 1);
        }
    }
}

/// Shaped text has one line more than it has line breaks (none when it has no segments); its
/// size is the longest line wide and the line heights, with the spacing between lines, high.
pub proof fn law_lines_and_size(t: ShapedText)
    requires
        t.wf(),
    ensures
        t.spec_lines().len() == 0 ==> t.spec_segments().len() == 0 && t.spec_metrics().0 == (PxSize {
            width: Px(0),
            height: Px(0),
        }),
        t.spec_lines().len() > 0 ==> {
            let n = t.spec_lines().len();
            &&& n == break_positions(t.spec_segments()).len() + 1
            &&& t.spec_metrics().0.height.0 == sat(n * t.spec_line_height().0 + (n - 1) * t.spec_metrics().1.0)
            &&& t.spec_metrics().0.width.0 == max_width(line_widths(t.spec_lines()))
            &&& forall|i: int| 0 <= i < n ==> #[trigger] t.spec_lines()[i].2.0 <= t.spec_metrics().0.width.0
        },
{
    let lines = t.spec_lines();
    if lines.len() > 0 {
        let le = lines.map_values(|l: (usize, Px, Px)| l.0);
        assert(le.len() == lines.len());
        let ws = line_widths(lines);
        lemma_max_width(ws);
        assert forall|i: int| 0 <= i < lines.len() implies #[trigger] lines[i].2.0 <= t.spec_metrics().0.width.0 by {
            assert(ws[i] == lines[i].2);
        }
    }
}

} // verus!
