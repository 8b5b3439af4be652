//! Karaoke runs: cutting an event's segments into pieces, grouping the
//! pieces into runs, timing each run, and assigning glyphs and drawings
//! to runs. Widths, sweep spans and the `\frz` flip are pixel matters
//! and are left to the painter, which finds a run's pieces by index.
use crate::renderer::karaoke::{
    consume_karaoke_tags, empty_lead, new_lead, sat_u64, spec_consume_all, KaraokeKind, KaraokeLead,
    KaraokeTag,
};
use vstd::prelude::*;

verus! {

/// What the run builder knows of one segment of an event.
pub struct KaraokeSegment {
    /// The karaoke tags this segment adds, in order.
    pub tags: Vec<KaraokeTag>,
    /// The segment has text or a drawing to lay out.
    pub emits: bool,
    /// The segment is a drawing.
    pub is_drawing: bool,
    /// Number of `\n` at the start of its text.
    pub leading_breaks: usize,
    /// Its text ends with `\n`.
    pub trailing_break: bool,
    /// For each shaped glyph, the row it sits on: equal keys for equal
    /// baselines.
    pub glyph_rows: Vec<u64>,
    /// Style key: two segments continue a run only when their keys are
    /// equal.
    pub style_key: u64,
}

/// A (segment, line) span of a karaoke run.
#[derive(Debug, Clone, Copy, PartialEq, Eq, Structural)]
pub struct KaraokePiece {
    pub segment: usize,
    /// The glyph row of a text piece; `None` for a drawing or for the
    /// empty piece a leading break carries.
    pub row: Option<u64>,
    pub event_line: usize,
    pub is_drawing: bool,
    /// The effect state the piece starts with.
    pub lead: KaraokeLead,
}

/// `x` held in a `usize`, saturating at its maximum.
pub open spec fn sat_usize(x: int) -> usize {
    if x > usize::MAX {
        usize::MAX
    } else {
        x as usize
    }
}

/// The row keys of glyphs grouped by consecutive equal keys, one entry
/// per group.
pub open spec fn row_keys(keys: Seq<u64>) -> Seq<u64>
    decreases keys.len(),
{
    if keys.len() == 0 {
        Seq::empty()
    } else if keys.len() == 1 || keys.last() != keys[keys.len() - 2] {
        row_keys(keys.drop_last()).push(keys.last())
    } else {
        row_keys(keys.drop_last())
    }
}

/// The row pieces of a text segment whose glyph rows are `keys`: the
/// `r`-th row lies on line `base + r`; the first row takes `first`.
pub open spec fn row_pieces(seg: int, keys: Seq<u64>, base: usize, first: KaraokeLead) -> Seq<
    KaraokePiece,
> {
    let rk = row_keys(keys);
    Seq::new(
        rk.len(),
        |r: int|
            KaraokePiece {
                segment: seg as usize,
                row: Some(rk[r]),
                event_line: sat_usize(base + r),
                is_drawing: false,
                lead: if r == 0 {
                    first
                } else {
                    empty_lead()
                },
            },
    )
}

/// Pieces of an emitting text segment starting on line `line`: an empty
/// piece for a leading break (it carries the state), then one per row.
pub open spec fn text_pieces(seg: int, s: KaraokeSegment, line: usize, lead: KaraokeLead) -> Seq<
    KaraokePiece,
> {
    let base = sat_usize(line + s.leading_breaks);
    if s.leading_breaks > 0 {
        seq![KaraokePiece { segment: seg as usize, row: None, event_line: line, is_drawing: false, lead }]
            + row_pieces(seg, s.glyph_rows@, base, empty_lead())
    } else {
        row_pieces(seg, s.glyph_rows@, base, lead)
    }
}

/// The line a text segment's last row lies on.
pub open spec fn text_line_after(s: KaraokeSegment, line: usize) -> usize {
    let base = sat_usize(line + s.leading_breaks);
    let n = row_keys(s.glyph_rows@).len();
    if n == 0 {
        base
    } else {
        sat_usize(base + n - 1)
    }
}

/// State of the cut after some segments: the effect state waiting for
/// the next emitting segment, the current event line, the pieces.
pub struct PieceScan {
    pub pending: KaraokeLead,
    pub line: usize,
    pub pieces: Seq<KaraokePiece>,
}

/// One segment cut: its tags add to the waiting state; a segment that
/// emits hands the state to its first piece and clears it.
pub open spec fn scan_step(st: PieceScan, i: int, s: KaraokeSegment) -> PieceScan {
    let pending = spec_consume_all(st.pending, s.tags@);
    if !s.emits {
        PieceScan { pending, line: st.line, pieces: st.pieces }
    } else {
        let new_pieces = if s.is_drawing {
            seq![
                KaraokePiece {
                    segment: i as usize,
                    row: None,
                    event_line: st.line,
                    is_drawing: true,
                    lead: pending,
                },
            ]
        } else {
            text_pieces(i, s, st.line, pending)
        };
        let line = if s.is_drawing {
            st.line
        } else {
            text_line_after(s, st.line)
        };
        PieceScan {
            pending: empty_lead(),
            line: if s.trailing_break {
                sat_usize(line + 1)
            } else {
                line
            },
            pieces: st.pieces + new_pieces,
        }
    }
}

/// The cut of the first `n` segments.
pub open spec fn scan_pieces(segs: Seq<KaraokeSegment>, n: int) -> PieceScan
    decreases n,
{
    if n <= 0 {
        PieceScan { pending: empty_lead(), line: 0, pieces: Seq::empty() }
    } else {
        scan_step(scan_pieces(segs, n - 1), n - 1, segs[n - 1])
    }
}

/// All pieces of an event.
pub open spec fn spec_pieces(segs: Seq<KaraokeSegment>) -> Seq<KaraokePiece> {
    scan_pieces(segs, segs.len() as int).pieces
}

fn push_text_pieces(
    out: &mut Vec<KaraokePiece>,
    seg: usize,
    s: &KaraokeSegment,
    line: usize,
    lead: KaraokeLead,
) -> (after: usize)
    ensures
        final(out)@ == old(out)@ + text_pieces(seg as int, *s, line, lead),
        after == text_line_after(*s, line),
{
    let first = if s.leading_breaks > 0 {
        out.push(KaraokePiece { segment: seg, row: None, event_line: line, is_drawing: false, lead });
        new_lead()
    } else {
        lead
    };
    let ghost head = out@;
    let base = line.saturating_add(s.leading_breaks);
    let mut cur = base;
    let mut nrows: usize = 0;
    let n = s.glyph_rows.len();
    let mut k: usize = 0;
    assert(s.glyph_rows@.take(0) =~= Seq::<u64>::empty());
    assert(row_pieces(seg as int, s.glyph_rows@.take(0), base, first) =~= Seq::<KaraokePiece>::empty());
    while k < n
        invariant
            k <= n,
            n == s.glyph_rows@.len(),
            nrows == row_keys(s.glyph_rows@.take(k as int)).len(),
            nrows <= k,
            k > 0 ==> row_keys(s.glyph_rows@.take(k as int)).last() == s.glyph_rows@[k - 1],
            cur == (if nrows == 0 {
                base
            } else {
                sat_usize(base + nrows - 1)
            }),
            out@ == head + row_pieces(seg as int, s.glyph_rows@.take(k as int), base, first),
        decreases n - k,
    {
        let ghost pre = s.glyph_rows@.take(k as int);
        let ghost post = s.glyph_rows@.take(k + 1);
        assert(post.drop_last() =~= pre);
        let key = s.glyph_rows[k];
        if k == 0 || key != s.glyph_rows[k - 1] {
            let row_line = if nrows == 0 {
                base
            } else {
                cur.saturating_add(1)
            };
            let piece = KaraokePiece {
                segment: seg,
                row: Some(key),
                event_line: row_line,
                is_drawing: false,
                lead: if nrows == 0 {
                    first
                } else {
                    new_lead()
                },
            };
            out.push(piece);
            proof {
                assert(row_keys(post) == row_keys(pre).push(key));
                assert(row_pieces(seg as int, post, base, first) =~= row_pieces(
                    seg as int,
                    pre,
                    base,
                    first,
                ).push(piece));
            }
            cur = row_line;
            nrows = nrows + 1;
        } else {
            proof {
                assert(row_keys(post) == row_keys(pre));
            }
        }
        k = k + 1;
    }
    assert(s.glyph_rows@.take(n as int) =~= s.glyph_rows@);
    proof {
        if s.leading_breaks > 0 {
            assert(out@ =~= old(out)@ + text_pieces(seg as int, *s, line, lead));
        } else {
            assert(out@ =~= old(out)@ + text_pieces(seg as int, *s, line, lead));
        }
    }
    cur
}

/// Cut an event's segments into karaoke pieces.
pub fn karaoke_pieces(segs: &[KaraokeSegment]) -> (r: Vec<KaraokePiece>)
    ensures
        r@ == spec_pieces(segs@),
        forall|k: int| 0 <= k < r@.len() ==> (#[trigger] r@[k]).segment < segs@.len(),
{
    let mut pending = new_lead();
    let mut line: usize = 0;
    let mut out: Vec<KaraokePiece> = Vec::new();
    let mut i: usize = 0;
    while i < segs.len()
        invariant
            i <= segs@.len(),
            scan_pieces(segs@, i as int).pending == pending,
            scan_pieces(segs@, i as int).line == line,
            scan_pieces(segs@, i as int).pieces == out@,
            forall|k: int| 0 <= k < out@.len() ==> (#[trigger] out@[k]).segment < i,
        decreases segs@.len() - i,
    {
        let s = &segs[i];
        let ghost before = out@;
        consume_karaoke_tags(&mut pending, s.tags.as_slice());
        if s.emits {
            if s.is_drawing {
                out.push(
                    KaraokePiece {
                        segment: i,
                        row: None,
                        event_line: line,
                        is_drawing: true,
                        lead: pending,
                    },
                );
            } else {
                line = push_text_pieces(&mut out, i, s, line, pending);
            }
            if s.trailing_break {
                line = line.saturating_add(1);
            }
            pending = new_lead();
            proof {
                assert forall|k: int| 0 <= k < out@.len() implies (#[trigger] out@[k]).segment < i + 1 by {
                    if k >= before.len() {
                        if s.is_drawing {
                        } else {
                            assert(out@[k] == text_pieces(
                                i as int,
                                *s,
                                scan_pieces(segs@, i as int).line,
                                spec_consume_all(scan_pieces(segs@, i as int).pending, s.tags@),
                            )[k - before.len()]);
                        }
                    } else {
                        assert(out@[k] == before[k]);
                    }
                }
            }
        }
        i += 1;
    }
    out
}

// ---------------------------------------------------------------------
// Grouping pieces into runs
// ---------------------------------------------------------------------
/// The kind named by the last of the first `n` pieces that names one.
pub open spec fn kind_before(pieces: Seq<KaraokePiece>, n: int) -> Option<KaraokeKind>
    decreases n,
{
    if n <= 0 {
        None
    } else if pieces[n - 1].lead.kind is Some {
        pieces[n - 1].lead.kind
    } else {
        kind_before(pieces, n - 1)
    }
}

/// A piece starts a new run when it is the first, carries a nonzero
/// duration or a change of effect kind, is or follows a drawing, starts
/// another event line, or changes style.
pub open spec fn starts_run(segs: Seq<KaraokeSegment>, pieces: Seq<KaraokePiece>, pid: int) -> bool {
    pid == 0 || {
        let p = pieces[pid];
        let q = pieces[pid - 1];
        ||| p.lead.dur_ms > 0
        ||| (p.lead.kind is Some && p.lead.kind != kind_before(pieces, pid))
        ||| p.is_drawing
        ||| q.is_drawing
        ||| p.event_line != q.event_line
        ||| segs[p.segment as int].style_key != segs[q.segment as int].style_key
    }
}

fn same_kind(a: Option<KaraokeKind>, b: Option<KaraokeKind>) -> (r: bool)
    ensures
        r == (a == b),
{
    match (a, b) {
        (None, None) => true,
        (Some(KaraokeKind::Hard), Some(KaraokeKind::Hard)) => true,
        (Some(KaraokeKind::Sweep), Some(KaraokeKind::Sweep)) => true,
        (Some(KaraokeKind::Outline), Some(KaraokeKind::Outline)) => true,
        _ => false,
    }
}

/// For each piece, whether it starts a run.
pub fn run_starts(segs: &[KaraokeSegment], pieces: &[KaraokePiece]) -> (r: Vec<bool>)
    requires
        forall|k: int| 0 <= k < pieces@.len() ==> (#[trigger] pieces@[k]).segment < segs@.len(),
    ensures
        r@.len() == pieces@.len(),
        forall|pid: int| 0 <= pid < pieces@.len() ==> r@[pid] == starts_run(segs@, pieces@, pid),
{
    let mut r: Vec<bool> = Vec::new();
    let mut last_kind: Option<KaraokeKind> = None;
    let mut pid: usize = 0;
    while pid < pieces.len()
        invariant
            pid <= pieces@.len(),
            r@.len() == pid,
            last_kind == kind_before(pieces@, pid as int),
            forall|j: int| 0 <= j < pid ==> r@[j] == starts_run(segs@, pieces@, j),
            forall|k: int| 0 <= k < pieces@.len() ==> (#[trigger] pieces@[k]).segment < segs@.len(),
        decreases pieces@.len() - pid,
    {
        let p = pieces[pid];
        let b = if pid == 0 {
            true
        } else {
            let q = pieces[pid - 1];
            p.lead.dur_ms > 0 || (p.lead.kind.is_some() && !same_kind(p.lead.kind, last_kind))
                || p.is_drawing || q.is_drawing || p.event_line != q.event_line
                || segs[p.segment].style_key != segs[q.segment].style_key
        };
        if p.lead.kind.is_some() {
            last_kind = p.lead.kind;
        }
        r.push(b);
        pid += 1;
    }
    r
}

// ---------------------------------------------------------------------
// Timing
// ---------------------------------------------------------------------
/// A karaoke run's timing: its window `[start_ms, end_ms)` (an empty
/// window pops at once), whether it sweeps, and its first piece. The
/// run's pieces are the ones `piece_run` maps to it.
#[derive(Debug, Clone, Copy, PartialEq, Eq, Structural)]
pub struct KaraokeRun {
    pub kind: KaraokeKind,
    pub start_ms: u64,
    pub end_ms: u64,
    pub sweep: bool,
    pub first_piece: usize,
}

/// State of the timing walk: the syllable clock, dead time and reset
/// gathered since the open run began, the effect in force, the end of
/// the open run (if one is open), the runs so far, and each piece's run.
pub struct TimingScan {
    pub clock: u64,
    pub skip: u64,
    pub effect: Option<KaraokeKind>,
    pub has_reset: bool,
    pub open_end: Option<u64>,
    pub runs: Seq<KaraokeRun>,
    pub piece_run: Seq<Option<usize>>,
}

pub open spec fn timing_start() -> TimingScan {
    TimingScan {
        clock: 0,
        skip: 0,
        effect: None,
        has_reset: false,
        open_end: None,
        runs: Seq::empty(),
        piece_run: Seq::empty(),
    }
}

/// One piece of the timing walk. A run start first closes the open run
/// (the clock moves to its end, or to 0 after a reset, plus the dead
/// time gathered), then opens a run if an effect is in force: it starts
/// at the clock (0 after `\kt`) plus the piece's dead time and lasts
/// its duration; only a sweep keeps its window. A piece inside a run
/// adds its dead time (`\kt` restarts the count).
pub open spec fn timing_step(st: TimingScan, pid: int, p: KaraokePiece, start: bool) -> TimingScan {
    let l = p.lead;
    if start {
        let clock = match st.open_end {
            Some(e) => sat_u64(
                (if st.has_reset {
                    0
                } else {
                    e as int
                }) + st.skip,
            ),
            None => st.clock,
        };
        let has_reset = if st.open_end is Some {
            false
        } else {
            st.has_reset
        };
        let skip: u64 = if st.open_end is Some {
            0
        } else {
            st.skip
        };
        let effect = if l.kind is Some {
            l.kind
        } else {
            st.effect
        };
        match effect {
            None => TimingScan {
                clock,
                skip,
                effect,
                has_reset,
                open_end: None,
                runs: st.runs,
                piece_run: st.piece_run.push(None),
            },
            Some(k) => {
                let c: u64 = if l.reset {
                    0
                } else {
                    clock
                };
                let ts = sat_u64(c + l.skip_ms);
                let te = sat_u64(ts + l.dur_ms);
                let run = KaraokeRun {
                    kind: k,
                    start_ms: ts,
                    end_ms: if k == KaraokeKind::Sweep {
                        te
                    } else {
                        ts
                    },
                    sweep: k == KaraokeKind::Sweep && te > ts,
                    first_piece: pid as usize,
                };
                TimingScan {
                    clock: c,
                    skip,
                    effect,
                    has_reset,
                    open_end: Some(te),
                    runs: st.runs.push(run),
                    piece_run: st.piece_run.push(Some(st.runs.len() as usize)),
                }
            },
        }
    } else {
        TimingScan {
            clock: st.clock,
            skip: sat_u64(
                (if l.reset {
                    0
                } else {
                    st.skip as int
                }) + l.skip_ms,
            ),
            effect: st.effect,
            has_reset: st.has_reset || l.reset,
            open_end: st.open_end,
            runs: st.runs,
            piece_run: st.piece_run.push(
                if st.open_end is Some {
                    Some((st.runs.len() - 1) as usize)
                } else {
                    None
                },
            ),
        }
    }
}

/// The timing walk over the first `n` pieces.
pub open spec fn timing_scan(pieces: Seq<KaraokePiece>, starts: Seq<bool>, n: int) -> TimingScan
    decreases n,
{
    if n <= 0 {
        timing_start()
    } else {
        timing_step(timing_scan(pieces, starts, n - 1), n - 1, pieces[n - 1], starts[n - 1])
    }
}

/// Time the runs: the runs with an effect, in order, and each piece's
/// run (`None` for pieces of runs without karaoke).
pub fn karaoke_timing(pieces: &[KaraokePiece], starts: &[bool]) -> (r: (Vec<KaraokeRun>, Vec<Option<usize>>))
    requires
        starts@.len() == pieces@.len(),
    ensures
        r.0@ == timing_scan(pieces@, starts@, pieces@.len() as int).runs,
        r.1@ == timing_scan(pieces@, starts@, pieces@.len() as int).piece_run,
        r.1@.len() == pieces@.len(),
        forall|pid: int|
            0 <= pid < pieces@.len() && (#[trigger] r.1@[pid]) is Some ==> r.1@[pid]->0 < r.0@.len()
                && r.0@[r.1@[pid]->0 as int].first_piece <= pid,
        forall|q: int| 0 <= q < r.0@.len() ==> (#[trigger] r.0@[q]).first_piece < pieces@.len() && r.1@[r.0@[q].first_piece as int] == Some(q as usize),
{
    let mut clock: u64 = 0;
    let mut skip: u64 = 0;
    let mut effect: Option<KaraokeKind> = None;
    let mut has_reset = false;
    let mut open_end: Option<u64> = None;
    let mut runs: Vec<KaraokeRun> = Vec::new();
    let mut piece_run: Vec<Option<usize>> = Vec::new();
    let mut pid: usize = 0;
    while pid < pieces.len()
        invariant
            pid <= pieces@.len(),
            starts@.len() == pieces@.len(),
            timing_scan(pieces@, starts@, pid as int).clock == clock,
            timing_scan(pieces@, starts@, pid as int).skip == skip,
            timing_scan(pieces@, starts@, pid as int).effect == effect,
            timing_scan(pieces@, starts@, pid as int).has_reset == has_reset,
            timing_scan(pieces@, starts@, pid as int).open_end == open_end,
            timing_scan(pieces@, starts@, pid as int).runs == runs@,
            timing_scan(pieces@, starts@, pid as int).piece_run == piece_run@,
            runs@.len() <= pid,
            piece_run@.len() == pid,
            open_end is Some ==> runs@.len() > 0,
            forall|j: int|
                0 <= j < pid && (#[trigger] piece_run@[j]) is Some ==> piece_run@[j]->0 < runs@.len()
                    && runs@[piece_run@[j]->0 as int].first_piece <= j,
            forall|q: int| 0 <= q < runs@.len() ==> (#[trigger] runs@[q]).first_piece < pid && piece_run@[runs@[q].first_piece as int] == Some(q as usize),
        decreases pieces@.len() - pid,
    {
        let l = pieces[pid].lead;
        if starts[pid] {
            match open_end {
                Some(e) => {
                    clock = (if has_reset {
                        0
                    } else {
                        e
                    }).saturating_add(skip);
                    has_reset = false;
                    skip = 0;
                },
                None => {},
            }
            if l.kind.is_some() {
                effect = l.kind;
            }
            match effect {
                None => {
                    open_end = None;
                    piece_run.push(None);
                },
                Some(k) => {
                    if l.reset {
                        clock = 0;
                    }
                    let ts = clock.saturating_add(l.skip_ms);
                    let te = ts.saturating_add(l.dur_ms);
                    let is_sweep = match k {
                        KaraokeKind::Sweep => true,
                        _ => false,
                    };
                    let run = KaraokeRun {
                        kind: k,
                        start_ms: ts,
                        end_ms: if is_sweep {
                            te
                        } else {
                            ts
                        },
                        sweep: is_sweep && te > ts,
                        first_piece: pid,
                    };
                    piece_run.push(Some(runs.len()));
                    runs.push(run);
                    open_end = Some(te);
                },
            }
        } else {
            if l.reset {
                has_reset = true;
                skip = 0;
            }
            skip = skip.saturating_add(l.skip_ms);
            if open_end.is_some() {
                piece_run.push(Some(runs.len() - 1));
            } else {
                piece_run.push(None);
            }
        }
        pid += 1;
    }
    (runs, piece_run)
}

// ---------------------------------------------------------------------
// Glyphs and drawings
// ---------------------------------------------------------------------
/// The run of glyphs with row key `key` in segment `seg`: that of the
/// last of the first `n` pieces on that row of that segment.
pub open spec fn glyph_run_of(
    pieces: Seq<KaraokePiece>,
    piece_run: Seq<Option<usize>>,
    seg: int,
    key: u64,
    n: int,
) -> Option<usize>
    decreases n,
{
    if n <= 0 {
        None
    } else if pieces[n - 1].segment == seg && pieces[n - 1].row == Some(key) {
        piece_run[n - 1]
    } else {
        glyph_run_of(pieces, piece_run, seg, key, n - 1)
    }
}

/// The run of segment `seg`'s drawing: that of its last drawing piece
/// among the first `n`.
pub open spec fn drawing_run_of(
    pieces: Seq<KaraokePiece>,
    piece_run: Seq<Option<usize>>,
    seg: int,
    n: int,
) -> Option<usize>
    decreases n,
{
    if n <= 0 {
        None
    } else if pieces[n - 1].segment == seg && pieces[n - 1].is_drawing {
        piece_run[n - 1]
    } else {
        drawing_run_of(pieces, piece_run, seg, n - 1)
    }
}

/// The run of each glyph of each segment.
pub fn glyph_runs(segs: &[KaraokeSegment], pieces: &[KaraokePiece], piece_run: &[Option<usize>]) -> (r: Vec<
    Vec<Option<usize>>,
>)
    requires
        piece_run@.len() == pieces@.len(),
    ensures
        r@.len() == segs@.len(),
        forall|s: int|
            0 <= s < segs@.len() ==> (#[trigger] r@[s])@ == Seq::new(
                segs@[s].glyph_rows@.len(),
                |g: int| glyph_run_of(pieces@, piece_run@, s, segs@[s].glyph_rows@[g], pieces@.len() as int),
            ),
{
    let mut out: Vec<Vec<Option<usize>>> = Vec::new();
    let mut s: usize = 0;
    while s < segs.len()
        invariant
            s <= segs@.len(),
            out@.len() == s,
            piece_run@.len() == pieces@.len(),
            forall|t: int|
                0 <= t < s ==> (#[trigger] out@[t])@ == Seq::new(
                    segs@[t].glyph_rows@.len(),
                    |g: int| glyph_run_of(pieces@, piece_run@, t, segs@[t].glyph_rows@[g], pieces@.len() as int),
                ),
        decreases segs@.len() - s,
    {
        let rows = &segs[s].glyph_rows;
        let n = rows.len();
        let mut row: Vec<Option<usize>> = Vec::new();
        let mut g: usize = 0;
        while g < n
            invariant
                g <= n,
                n == rows@.len(),
                row@.len() == g,
                forall|j: int| 0 <= j < g ==> row@[j] is None,
            decreases n - g,
        {
            row.push(None);
            g += 1;
        }
        let mut pid: usize = 0;
        while pid < pieces.len()
            invariant
                pid <= pieces@.len(),
                piece_run@.len() == pieces@.len(),
                n == rows@.len(),
                rows@ == segs@[s as int].glyph_rows@,
                row@.len() == n,
                forall|j: int|
                    0 <= j < n ==> row@[j] == glyph_run_of(pieces@, piece_run@, s as int, rows@[j], pid as int),
            decreases pieces@.len() - pid,
        {
            let p = pieces[pid];
            if p.segment == s {
                match p.row {
                    Some(k) => {
                        let mut g: usize = 0;
                        while g < n
                            invariant
                                g <= n,
                                n == rows@.len(),
                                row@.len() == n,
                                pid < pieces@.len(),
                                piece_run@.len() == pieces@.len(),
                                p == pieces@[pid as int],
                                p.row == Some(k),
                                p.segment == s,
                                forall|j: int|
                                    0 <= j < g ==> row@[j] == glyph_run_of(
                                        pieces@,
                                        piece_run@,
                                        s as int,
                                        rows@[j],
                                        pid + 1,
                                    ),
                                forall|j: int|
                                    g <= j < n ==> row@[j] == glyph_run_of(
                                        pieces@,
                                        piece_run@,
                                        s as int,
                                        rows@[j],
                                        pid as int,
                                    ),
                            decreases n - g,
                        {
                            if rows[g] == k {
                                row.set(g, piece_run[pid]);
                            }
                            g += 1;
                        }
                    },
                    None => {},
                }
            }
            pid += 1;
        }
        out.push(row);
        proof {
            assert(out@[s as int]@ =~= Seq::new(
                segs@[s as int].glyph_rows@.len(),
                |g: int|
                    glyph_run_of(
                        pieces@,
                        piece_run@,
                        s as int,
                        segs@[s as int].glyph_rows@[g],
                        pieces@.len() as int,
                    ),
            ));
        }
        s += 1;
    }
    out
}

/// The run of each segment's drawing (`None` for segments without one).
pub fn drawing_runs(seg_count: usize, pieces: &[KaraokePiece], piece_run: &[Option<usize>]) -> (r: Vec<
    Option<usize>,
>)
    requires
        piece_run@.len() == pieces@.len(),
    ensures
        r@.len() == seg_count,
        forall|s: int|
            0 <= s < seg_count ==> r@[s] == drawing_run_of(pieces@, piece_run@, s, pieces@.len() as int),
{
    let mut out: Vec<Option<usize>> = Vec::new();
    let mut s: usize = 0;
    while s < seg_count
        invariant
            s <= seg_count,
            out@.len() == s,
            forall|j: int| 0 <= j < s ==> out@[j] is None,
        decreases seg_count - s,
    {
        out.push(None);
        s += 1;
    }
    let mut pid: usize = 0;
    while pid < pieces.len()
        invariant
            pid <= pieces@.len(),
            piece_run@.len() == pieces@.len(),
            out@.len() == seg_count,
            forall|j: int| 0 <= j < seg_count ==> out@[j] == drawing_run_of(pieces@, piece_run@, j, pid as int),
        decreases pieces@.len() - pid,
    {
        let p = pieces[pid];
        if p.is_drawing && p.segment < seg_count {
            out.set(p.segment, piece_run[pid]);
        }
        pid += 1;
    }
    out
}

/// The first index at or after `from` whose key is `k`, or the length
/// when there is none.
pub open spec fn first_index_of(keys: Seq<u64>, k: u64, from: int) -> int
    decreases keys.len() - from,
{
    if from >= keys.len() || from < 0 {
        keys.len() as int
    } else if keys[from] == k {
        from
    } else {
        first_index_of(keys, k, from + 1)
    }
}

/// The last index below `n` whose key is `k`, or the length when there
/// is none.
pub open spec fn last_index_of(keys: Seq<u64>, k: u64, n: int) -> int
    decreases n,
{
    if n <= 0 {
        keys.len() as int
    } else if keys[n - 1] == k {
        n - 1
    } else {
        last_index_of(keys, k, n - 1)
    }
}

/// The first glyph of run `r`: in the first of its pieces that lies on a
/// glyph row (scanning from piece `from`), the first glyph of that row.
pub open spec fn run_first_glyph(
    segs: Seq<KaraokeSegment>,
    pieces: Seq<KaraokePiece>,
    piece_run: Seq<Option<usize>>,
    r: usize,
    from: int,
) -> Option<(usize, usize)>
    decreases pieces.len() - from,
{
    if from >= pieces.len() || from < 0 {
        None
    } else if piece_run[from] == Some(r) && pieces[from].row is Some {
        let seg = pieces[from].segment;
        Some(
            (seg, first_index_of(segs[seg as int].glyph_rows@, pieces[from].row->0, 0) as usize),
        )
    } else {
        run_first_glyph(segs, pieces, piece_run, r, from + 1)
    }
}

/// The last glyph of run `r`: in the last of its first `n` pieces that
/// lies on a glyph row, the last glyph of that row.
pub open spec fn run_last_glyph(
    segs: Seq<KaraokeSegment>,
    pieces: Seq<KaraokePiece>,
    piece_run: Seq<Option<usize>>,
    r: usize,
    n: int,
) -> Option<(usize, usize)>
    decreases n,
{
    if n <= 0 {
        None
    } else if piece_run[n - 1] == Some(r) && pieces[n - 1].row is Some {
        let seg = pieces[n - 1].segment;
        let keys = segs[seg as int].glyph_rows@;
        Some((seg, last_index_of(keys, pieces[n - 1].row->0, keys.len() as int) as usize))
    } else {
        run_last_glyph(segs, pieces, piece_run, r, n - 1)
    }
}

fn first_index(keys: &Vec<u64>, k: u64) -> (r: usize)
    ensures
        r == first_index_of(keys@, k, 0),
{
    let mut j: usize = 0;
    while j < keys.len()
        invariant
            j <= keys@.len(),
            first_index_of(keys@, k, 0) == first_index_of(keys@, k, j as int),
        decreases keys@.len() - j,
    {
        if keys[j] == k {
            return j;
        }
        j += 1;
    }
    keys.len()
}

fn last_index(keys: &Vec<u64>, k: u64) -> (r: usize)
    ensures
        r == last_index_of(keys@, k, keys@.len() as int),
{
    let mut n = keys.len();
    while n > 0
        invariant
            n <= keys@.len(),
            last_index_of(keys@, k, keys@.len() as int) == last_index_of(keys@, k, n as int),
        decreases n,
    {
        if keys[n - 1] == k {
            return n - 1;
        }
        n -= 1;
    }
    keys.len()
}

fn first_glyph_of_run(
    segs: &[KaraokeSegment],
    pieces: &[KaraokePiece],
    piece_run: &[Option<usize>],
    q: usize,
) -> (r: Option<(usize, usize)>)
    requires
        piece_run@.len() == pieces@.len(),
        forall|k: int| 0 <= k < pieces@.len() ==> (#[trigger] pieces@[k]).segment < segs@.len(),
    ensures
        r == run_first_glyph(segs@, pieces@, piece_run@, q, 0),
{
    let mut j: usize = 0;
    while j < pieces.len()
        invariant
            j <= pieces@.len(),
            piece_run@.len() == pieces@.len(),
            forall|k: int| 0 <= k < pieces@.len() ==> (#[trigger] pieces@[k]).segment < segs@.len(),
            run_first_glyph(segs@, pieces@, piece_run@, q, 0) == run_first_glyph(
                segs@,
                pieces@,
                piece_run@,
                q,
                j as int,
            ),
        decreases pieces@.len() - j,
    {
        let p = pieces[j];
        if piece_run[j] == Some(q) && p.row.is_some() {
            let k = p.row.unwrap();
            assert(p.segment < segs@.len());
            return Some((p.segment, first_index(&segs[p.segment].glyph_rows, k)));
        }
        j += 1;
    }
    None
}

fn last_glyph_of_run(
    segs: &[KaraokeSegment],
    pieces: &[KaraokePiece],
    piece_run: &[Option<usize>],
    q: usize,
) -> (r: Option<(usize, usize)>)
    requires
        piece_run@.len() == pieces@.len(),
        forall|k: int| 0 <= k < pieces@.len() ==> (#[trigger] pieces@[k]).segment < segs@.len(),
    ensures
        r == run_last_glyph(segs@, pieces@, piece_run@, q, pieces@.len() as int),
{
    let mut n = pieces.len();
    while n > 0
        invariant
            n <= pieces@.len(),
            piece_run@.len() == pieces@.len(),
            forall|k: int| 0 <= k < pieces@.len() ==> (#[trigger] pieces@[k]).segment < segs@.len(),
            run_last_glyph(segs@, pieces@, piece_run@, q, pieces@.len() as int) == run_last_glyph(
                segs@,
                pieces@,
                piece_run@,
                q,
                n as int,
            ),
        decreases n,
    {
        let p = pieces[n - 1];
        if piece_run[n - 1] == Some(q) && p.row.is_some() {
            let k = p.row.unwrap();
            assert(p.segment < segs@.len());
            return Some((p.segment, last_index(&segs[p.segment].glyph_rows, k)));
        }
        n -= 1;
    }
    None
}

/// The first and last glyph of each run.
pub fn run_glyph_bounds(
    segs: &[KaraokeSegment],
    pieces: &[KaraokePiece],
    piece_run: &[Option<usize>],
    run_count: usize,
) -> (r: (Vec<Option<(usize, usize)>>, Vec<Option<(usize, usize)>>))
    requires
        piece_run@.len() == pieces@.len(),
        forall|k: int| 0 <= k < pieces@.len() ==> (#[trigger] pieces@[k]).segment < segs@.len(),
    ensures
        r.0@.len() == run_count,
        r.1@.len() == run_count,
        forall|q: int|
            0 <= q < run_count ==> r.0@[q] == run_first_glyph(segs@, pieces@, piece_run@, q as usize, 0),
        forall|q: int|
            0 <= q < run_count ==> r.1@[q] == run_last_glyph(
                segs@,
                pieces@,
                piece_run@,
                q as usize,
                pieces@.len() as int,
            ),
{
    let mut firsts: Vec<Option<(usize, usize)>> = Vec::new();
    let mut lasts: Vec<Option<(usize, usize)>> = Vec::new();
    let mut q: usize = 0;
    while q < run_count
        invariant
            q <= run_count,
            firsts@.len() == q,
            lasts@.len() == q,
            piece_run@.len() == pieces@.len(),
            forall|k: int| 0 <= k < pieces@.len() ==> (#[trigger] pieces@[k]).segment < segs@.len(),
            forall|t: int|
                0 <= t < q ==> firsts@[t] == run_first_glyph(segs@, pieces@, piece_run@, t as usize, 0),
            forall|t: int|
                0 <= t < q ==> lasts@[t] == run_last_glyph(
                    segs@,
                    pieces@,
                    piece_run@,
                    t as usize,
                    pieces@.len() as int,
                ),
        decreases run_count - q,
    {
        let first = first_glyph_of_run(segs, pieces, piece_run, q);
        let last = last_glyph_of_run(segs, pieces, piece_run, q);
        firsts.push(first);
        lasts.push(last);
        q += 1;
    }
    (firsts, lasts)
}

// ---------------------------------------------------------------------
// The plan
// ---------------------------------------------------------------------
/// Which pieces start runs.
pub open spec fn spec_starts(segs: Seq<KaraokeSegment>) -> Seq<bool> {
    let pieces = spec_pieces(segs);
    Seq::new(pieces.len(), |pid: int| starts_run(segs, pieces, pid))
}

/// The timing walk over all pieces of an event.
pub open spec fn spec_timing(segs: Seq<KaraokeSegment>) -> TimingScan {
    let pieces = spec_pieces(segs);
    timing_scan(pieces, spec_starts(segs), pieces.len() as int)
}

/// An event's karaoke plan: its pieces, its timed runs with their first
/// and last glyph, the run of each piece, of each glyph of each
/// segment, and of each segment's drawing.
pub struct KaraokePlan {
    pub pieces: Vec<KaraokePiece>,
    pub runs: Vec<KaraokeRun>,
    pub run_first_glyph: Vec<Option<(usize, usize)>>,
    pub run_last_glyph: Vec<Option<(usize, usize)>>,
    pub piece_run: Vec<Option<usize>>,
    pub glyph_run: Vec<Vec<Option<usize>>>,
    pub drawing_run: Vec<Option<usize>>,
}

/// Build an event's karaoke runs: tag groups accumulate effect state
/// that the next emitting segment's first piece takes; runs break at
/// nonzero durations, effect changes, drawings, line changes and style
/// changes; each run with an effect is timed on the syllable clock.
pub fn build_karaoke_runs(segs: &[KaraokeSegment]) -> (r: KaraokePlan)
    ensures
        r.pieces@ == spec_pieces(segs@),
        r.runs@ == spec_timing(segs@).runs,
        r.piece_run@ == spec_timing(segs@).piece_run,
        r.piece_run@.len() == r.pieces@.len(),
        forall|pid: int|
            0 <= pid < r.pieces@.len() && (#[trigger] r.piece_run@[pid]) is Some ==> r.piece_run@[pid]->0
                < r.runs@.len() && r.runs@[r.piece_run@[pid]->0 as int].first_piece <= pid,
        forall|q: int|
            0 <= q < r.runs@.len() ==> (#[trigger] r.runs@[q]).first_piece < r.pieces@.len()
                && r.piece_run@[r.runs@[q].first_piece as int] == Some(q as usize),
        r.run_first_glyph@.len() == r.runs@.len(),
        r.run_last_glyph@.len() == r.runs@.len(),
        forall|q: int|
            0 <= q < r.runs@.len() ==> r.run_first_glyph@[q] == run_first_glyph(
                segs@,
                spec_pieces(segs@),
                spec_timing(segs@).piece_run,
                q as usize,
                0,
            ),
        forall|q: int|
            0 <= q < r.runs@.len() ==> r.run_last_glyph@[q] == run_last_glyph(
                segs@,
                spec_pieces(segs@),
                spec_timing(segs@).piece_run,
                q as usize,
                spec_pieces(segs@).len() as int,
            ),
        r.glyph_run@.len() == segs@.len(),
        forall|s: int|
            0 <= s < segs@.len() ==> (#[trigger] r.glyph_run@[s])@ == Seq::new(
                segs@[s].glyph_rows@.len(),
                |g: int|
                    glyph_run_of(
                        spec_pieces(segs@),
                        spec_timing(segs@).piece_run,
                        s,
                        segs@[s].glyph_rows@[g],
                        spec_pieces(segs@).len() as int,
                    ),
            ),
        r.drawing_run@.len() == segs@.len(),
        forall|s: int|
            0 <= s < segs@.len() ==> r.drawing_run@[s] == drawing_run_of(
                spec_pieces(segs@),
                spec_timing(segs@).piece_run,
                s,
                spec_pieces(segs@).len() as int,
            ),
{
    let pieces = karaoke_pieces(segs);
    let starts = run_starts(segs, pieces.as_slice());
    assert(starts@ =~= spec_starts(segs@));
    let (runs, piece_run) = karaoke_timing(pieces.as_slice(), starts.as_slice());
    let (firsts, lasts) = run_glyph_bounds(segs, pieces.as_slice(), piece_run.as_slice(), runs.len());
    let glyph_run = glyph_runs(segs, pieces.as_slice(), piece_run.as_slice());
    let drawing_run = drawing_runs(segs.len(), pieces.as_slice(), piece_run.as_slice());
    KaraokePlan {
        pieces,
        runs,
        run_first_glyph: firsts,
        run_last_glyph: lasts,
        piece_run,
        glyph_run,
        drawing_run,
    }
}

} // verus!
