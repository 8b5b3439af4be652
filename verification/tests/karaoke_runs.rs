use subrass::renderer::karaoke::{KaraokeKind, KaraokeTag};
use subrass::renderer::karaoke_runs::{build_karaoke_runs, KaraokeRun, KaraokeSegment};

fn text(tags: Vec<KaraokeTag>, rows: Vec<u64>) -> KaraokeSegment {
    KaraokeSegment {
        tags,
        emits: !rows.is_empty(),
        is_drawing: false,
        leading_breaks: 0,
        trailing_break: false,
        glyph_rows: rows,
        style_key: 1,
    }
}

fn run(kind: KaraokeKind, start_ms: u64, end_ms: u64, sweep: bool, first_piece: usize) -> KaraokeRun {
    KaraokeRun { kind, start_ms, end_ms, sweep, first_piece }
}

#[test]
fn karaoke_plan_hard_syllables_follow_each_other() {
    let segs = vec![
        text(vec![KaraokeTag::Duration(10)], vec![0, 0]),
        text(vec![KaraokeTag::Duration(20)], vec![0, 0]),
    ];
    let plan = build_karaoke_runs(&segs);
    assert_eq!(plan.runs, vec![run(KaraokeKind::Hard, 0, 0, false, 0), run(KaraokeKind::Hard, 100, 100, false, 1)]);
    assert_eq!(plan.piece_run, vec![Some(0), Some(1)]);
    assert_eq!(plan.glyph_run, vec![vec![Some(0), Some(0)], vec![Some(1), Some(1)]]);
    assert_eq!(plan.run_first_glyph, vec![Some((0, 0)), Some((1, 0))]);
    assert_eq!(plan.run_last_glyph, vec![Some((0, 1)), Some((1, 1))]);
}

#[test]
fn karaoke_plan_sweep_keeps_its_window() {
    let plan = build_karaoke_runs(&[text(vec![KaraokeTag::Sweep(50)], vec![0, 0, 0])]);
    assert_eq!(plan.runs, vec![run(KaraokeKind::Sweep, 0, 500, true, 0)]);
}

#[test]
fn karaoke_plan_stacked_tags_delay_the_start() {
    let plan = build_karaoke_runs(&[text(vec![KaraokeTag::Duration(10), KaraokeTag::Sweep(20)], vec![0])]);
    assert_eq!(plan.runs, vec![run(KaraokeKind::Sweep, 100, 300, true, 0)]);
}

#[test]
fn karaoke_plan_kt_restarts_the_clock() {
    let segs = vec![
        text(vec![KaraokeTag::Duration(10)], vec![0]),
        text(vec![KaraokeTag::Start(50), KaraokeTag::Duration(10)], vec![0]),
    ];
    let plan = build_karaoke_runs(&segs);
    assert_eq!(plan.runs[1], run(KaraokeKind::Hard, 500, 500, false, 1));
}

#[test]
fn karaoke_plan_second_row_pops_at_window_end() {
    let plan = build_karaoke_runs(&[text(vec![KaraokeTag::Sweep(10)], vec![0, 0, 1, 1])]);
    assert_eq!(plan.pieces.len(), 2);
    assert_eq!(plan.pieces[1].event_line, 1);
    assert_eq!(plan.runs, vec![run(KaraokeKind::Sweep, 0, 100, true, 0), run(KaraokeKind::Sweep, 100, 100, false, 1)]);
    assert_eq!(plan.glyph_run, vec![vec![Some(0), Some(0), Some(1), Some(1)]]);
    assert_eq!(plan.run_first_glyph, vec![Some((0, 0)), Some((0, 2))]);
    assert_eq!(plan.run_last_glyph, vec![Some((0, 1)), Some((0, 3))]);
}

#[test]
fn karaoke_plan_tag_only_segment_passes_state_on() {
    let segs = vec![text(vec![KaraokeTag::Outline(30)], vec![]), text(vec![], vec![0])];
    let plan = build_karaoke_runs(&segs);
    assert_eq!(plan.runs, vec![run(KaraokeKind::Outline, 0, 0, false, 0)]);
    assert_eq!(plan.glyph_run, vec![vec![], vec![Some(0)]]);
    assert_eq!(plan.pieces[0].segment, 1);
}

#[test]
fn karaoke_plan_without_karaoke_has_no_runs() {
    let plan = build_karaoke_runs(&[text(vec![], vec![0, 0])]);
    assert!(plan.runs.is_empty());
    assert_eq!(plan.piece_run, vec![None]);
    assert_eq!(plan.glyph_run, vec![vec![None, None]]);
}

#[test]
fn karaoke_plan_drawing_and_leading_break() {
    let mut draw = text(vec![KaraokeTag::Duration(10)], vec![]);
    draw.emits = true;
    draw.is_drawing = true;
    let mut broken = text(vec![KaraokeTag::Duration(20)], vec![0]);
    broken.leading_breaks = 1;
    let plan = build_karaoke_runs(&[draw, broken]);
    assert_eq!(plan.drawing_run, vec![Some(0), None]);
    assert_eq!(plan.pieces.len(), 3);
    assert_eq!(plan.pieces[1].row, None);
    assert_eq!(plan.pieces[2].event_line, 1);
    assert_eq!(plan.runs[1], run(KaraokeKind::Hard, 100, 100, false, 1));
    assert_eq!(plan.glyph_run[1], vec![Some(2)]);
}

#[test]
fn karaoke_plan_style_change_breaks_the_run() {
    let mut b = text(vec![], vec![0]);
    b.style_key = 2;
    let plan = build_karaoke_runs(&[text(vec![KaraokeTag::Sweep(10)], vec![0]), b]);
    assert_eq!(plan.runs.len(), 2);
    assert_eq!(plan.runs[1], run(KaraokeKind::Sweep, 100, 100, false, 1));
}
