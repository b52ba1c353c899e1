use zero_ui_core::shaping::{FontKey, MergingLineIter, ShapedText, TextSegment, TextSegmentKind, TextShapingArgs};
use zero_ui_core::units::{Px, PxPoint, PxSize};

fn two_lines() -> ShapedText {
    ShapedText::from_parts(
        vec![1, 2, 3, 4, 5],
        vec![
            TextSegment { kind: TextSegmentKind::Word, end: 2 },
            TextSegment { kind: TextSegmentKind::LineBreak, end: 2 },
            TextSegment { kind: TextSegmentKind::Word, end: 5 },
        ],
        vec![Px(10), Px(8)],
        vec![(FontKey(1), 5)],
        Px(20),
        Px(0),
        Px(15),
        (Px(18), Px(10), Px(3), Px(2)),
    )
}

#[test]
fn lines_split_at_line_breaks() {
    let t = two_lines();
    assert!(!t.is_empty());
    assert_eq!(t.line_height(), Px(20));
    let lines = t.lines();
    assert_eq!(lines.len(), 2);
    assert_eq!(lines[0].segments().len(), 2);
    assert_eq!(lines[1].segments().len(), 1);
    assert_eq!(lines[1].segments()[0].kind, TextSegmentKind::Word);
    let r = lines[1].rect();
    assert_eq!(r.origin.y, Px(20));
    assert_eq!(r.origin.x, Px(0));
    assert_eq!(r.size.width, Px(8));
    let (p, w) = lines[0].underline();
    assert_eq!(p.y, Px(20 - 3));
    assert_eq!(w, Px(10));
    let parts = lines[0].parts();
    assert_eq!(parts.len(), 2);
    assert!(parts[0].is_word());
    assert!(!parts[1].is_space());
}

#[test]
fn glyph_runs_by_font() {
    let t = two_lines();
    let runs = t.glyphs();
    assert_eq!(runs.len(), 1);
    assert_eq!((runs[0].font, runs[0].start, runs[0].end), (FontKey(1), 0, 5));
}

#[test]
fn merging_lines_joins_touching_lines() {
    let mut it = MergingLineIter::new(vec![
        (PxPoint::new(Px(0), Px(0)), Px(10)),
        (PxPoint::new(Px(11), Px(0)), Px(5)),
        (PxPoint::new(Px(30), Px(0)), Px(4)),
    ]);
    assert_eq!(it.next(), Some((PxPoint::new(Px(0), Px(0)), Px(16))));
    assert_eq!(it.next(), Some((PxPoint::new(Px(30), Px(0)), Px(4))));
    assert_eq!(it.next(), None);
}

#[test]
fn default_shaping_args() {
    let a = TextShapingArgs::default();
    assert_eq!(a.lang, "und");
    assert!(a.font_features.is_empty());
}

#[test]
fn line_glyphs_are_their_segments_glyphs() {
    let t = two_lines();
    let lines = t.lines();
    assert_eq!(lines[0].segments()[1].kind, TextSegmentKind::LineBreak);
    let g0 = lines[0].glyphs();
    assert_eq!(g0.len(), 1);
    assert_eq!((g0[0].font, g0[0].start, g0[0].end), (FontKey(1), 0, 2));
    let g1 = lines[1].glyphs();
    assert_eq!(g1.len(), 1);
    assert_eq!((g1[0].start, g1[0].end), (2, 5));
}

#[test]
fn empty_last_line_has_no_glyphs() {
    let t = ShapedText::from_parts(
        vec![7, 8],
        vec![
            TextSegment { kind: TextSegmentKind::Word, end: 2 },
            TextSegment { kind: TextSegmentKind::LineBreak, end: 2 },
        ],
        vec![Px(10), Px(0)],
        vec![(FontKey(2), 1), (FontKey(3), 2)],
        Px(20),
        Px(0),
        Px(15),
        (Px(18), Px(10), Px(3), Px(2)),
    );
    let lines = t.lines();
    assert_eq!(lines.len(), 2);
    assert_eq!(lines[0].segments().len(), 2);
    assert!(lines[1].segments().is_empty());
    let g0 = lines[0].glyphs();
    assert_eq!(g0.len(), 2);
    assert_eq!((g0[0].font, g0[0].start, g0[0].end), (FontKey(2), 0, 1));
    assert_eq!((g0[1].font, g0[1].start, g0[1].end), (FontKey(3), 1, 2));
    assert!(lines[1].glyphs().is_empty());
}

#[test]
fn size_of_shaped_lines() {
    let t = ShapedText::from_parts(
        vec![1, 2, 3],
        vec![
            TextSegment { kind: TextSegmentKind::Word, end: 1 },
            TextSegment { kind: TextSegmentKind::LineBreak, end: 1 },
            TextSegment { kind: TextSegmentKind::Word, end: 2 },
            TextSegment { kind: TextSegmentKind::LineBreak, end: 2 },
            TextSegment { kind: TextSegmentKind::Word, end: 3 },
        ],
        vec![Px(7), Px(12), Px(5)],
        vec![(FontKey(1), 3)],
        Px(20),
        Px(4),
        Px(15),
        (Px(18), Px(10), Px(3), Px(2)),
    );
    let lines = t.lines();
    assert_eq!(lines.len(), 3);
    assert_eq!(t.size(), PxSize::new(Px(12), Px(3 * 20 + 2 * 4)));
    for (i, l) in lines.iter().enumerate() {
        let segs = l.segments();
        for (k, s) in segs.iter().enumerate() {
            if s.kind == TextSegmentKind::LineBreak {
                assert_eq!(k, segs.len() - 1);
                assert!(i + 1 < lines.len());
            }
        }
    }
    assert_eq!(lines[1].segments()[0].kind, TextSegmentKind::Word);
    let empty = ShapedText::new_empty();
    assert_eq!(empty.size(), PxSize::new(Px(0), Px(0)));
}

#[test]
fn segments_with_missing_glyphs() {
    let t = ShapedText::from_parts(
        vec![3, 0, 4, 5, 0],
        vec![
            TextSegment { kind: TextSegmentKind::Word, end: 2 },
            TextSegment { kind: TextSegmentKind::Space, end: 3 },
            TextSegment { kind: TextSegmentKind::Word, end: 5 },
        ],
        vec![Px(30)],
        vec![(FontKey(1), 5)],
        Px(20),
        Px(0),
        Px(15),
        (Px(18), Px(10), Px(3), Px(2)),
    );
    assert_eq!(t.tofu_segments(), vec![0, 2]);
}
