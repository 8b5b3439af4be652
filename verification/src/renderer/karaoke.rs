//! Karaoke timing: how a run of override tags turns into the effect
//! state (kind, duration, dead time, clock reset) that the first glyph
//! after them carries.
use vstd::prelude::*;

verus! {

/// Karaoke syllable kind.
#[derive(Debug, Clone, Copy, PartialEq, Eq, Structural)]
pub enum KaraokeKind {
    /// `\k`: hard colour swap when the syllable starts.
    Hard,
    /// `\K` / `\kf`: left-to-right sweep over the syllable.
    Sweep,
    /// `\ko`: outline hidden until the syllable starts.
    Outline,
}

/// A karaoke tag of a tag group.
#[derive(Debug, Clone, Copy, PartialEq, Eq, Structural)]
pub enum KaraokeTag {
    /// `\kt`: dead time in centiseconds, and a clock reset.
    Start(u64),
    /// `\k`: duration in centiseconds.
    Duration(u64),
    /// `\K` / `\kf`: duration in centiseconds.
    Sweep(u64),
    /// `\ko`: duration in centiseconds.
    Outline(u64),
    /// Timing given in milliseconds with its mode
    /// (1 sweep, 2 outline, anything else hard).
    Timing { mode: i32, millis: i64 },
}

/// Effect state a tag group hands to the glyph that follows it.
#[derive(Debug, Clone, Copy, PartialEq, Eq, Structural)]
pub struct KaraokeLead {
    pub kind: Option<KaraokeKind>,
    /// Duration in ms; nonzero starts a new run.
    pub dur_ms: u64,
    /// Accumulated dead time in ms.
    pub skip_ms: u64,
    /// `\kt` clock reset.
    pub reset: bool,
}

/// The state before any tag: no kind, no time, no reset.
pub open spec fn empty_lead() -> KaraokeLead {
    KaraokeLead { kind: None, dur_ms: 0, skip_ms: 0, reset: false }
}

/// A non-negative value held in a `u64`, saturating at its maximum.
pub open spec fn sat_u64(x: int) -> u64 {
    if x > u64::MAX {
        u64::MAX
    } else {
        x as u64
    }
}

/// The kind a millisecond timing tag selects.
pub open spec fn timing_kind(mode: i32) -> KaraokeKind {
    if mode == 1 {
        KaraokeKind::Sweep
    } else if mode == 2 {
        KaraokeKind::Outline
    } else {
        KaraokeKind::Hard
    }
}

/// A duration tag banks the previous duration as dead time and takes
/// over with its own.
pub open spec fn bank(l: KaraokeLead, dur: u64, kind: KaraokeKind) -> KaraokeLead {
    KaraokeLead {
        kind: Some(kind),
        dur_ms: dur,
        skip_ms: sat_u64(l.skip_ms + l.dur_ms),
        reset: l.reset,
    }
}

/// One tag applied to the state.
pub open spec fn spec_consume(l: KaraokeLead, t: KaraokeTag) -> KaraokeLead {
    match t {
        KaraokeTag::Start(cs) => KaraokeLead {
            kind: l.kind,
            dur_ms: 0,
            skip_ms: sat_u64(cs * 10),
            reset: true,
        },
        KaraokeTag::Duration(cs) => bank(l, sat_u64(cs * 10), KaraokeKind::Hard),
        KaraokeTag::Sweep(cs) => bank(l, sat_u64(cs * 10), KaraokeKind::Sweep),
        KaraokeTag::Outline(cs) => bank(l, sat_u64(cs * 10), KaraokeKind::Outline),
        KaraokeTag::Timing { mode, millis } => bank(
            l,
            if millis < 0 {
                0u64
            } else {
                millis as u64
            },
            timing_kind(mode),
        ),
    }
}

/// The tags of a group applied in order.
pub open spec fn spec_consume_all(l: KaraokeLead, ts: Seq<KaraokeTag>) -> KaraokeLead
    decreases ts.len(),
{
    if ts.len() == 0 {
        l
    } else {
        spec_consume(spec_consume_all(l, ts.drop_last()), ts.last())
    }
}

fn centis_to_ms(cs: u64) -> (ms: u64)
    ensures
        ms == sat_u64(cs * 10),
{
    if cs > u64::MAX / 10 {
        u64::MAX
    } else {
        cs * 10
    }
}

/// Apply one karaoke tag to the pending state: `\kt` sets the dead time
/// (wiping stacked durations) and resets the clock; every duration tag
/// adds the previous duration to the dead time and takes over.
pub fn consume_karaoke_tag(lead: &mut KaraokeLead, tag: KaraokeTag)
    ensures
        *final(lead) == spec_consume(*old(lead), tag),
{
    match tag {
        KaraokeTag::Start(cs) => {
            lead.skip_ms = centis_to_ms(cs);
            lead.dur_ms = 0;
            lead.reset = true;
        },
        KaraokeTag::Duration(cs) => {
            lead.skip_ms = lead.skip_ms.saturating_add(lead.dur_ms);
            lead.dur_ms = centis_to_ms(cs);
            lead.kind = Some(KaraokeKind::Hard);
        },
        KaraokeTag::Sweep(cs) => {
            lead.skip_ms = lead.skip_ms.saturating_add(lead.dur_ms);
            lead.dur_ms = centis_to_ms(cs);
            lead.kind = Some(KaraokeKind::Sweep);
        },
        KaraokeTag::Outline(cs) => {
            lead.skip_ms = lead.skip_ms.saturating_add(lead.dur_ms);
            lead.dur_ms = centis_to_ms(cs);
            lead.kind = Some(KaraokeKind::Outline);
        },
        KaraokeTag::Timing { mode, millis } => {
            lead.skip_ms = lead.skip_ms.saturating_add(lead.dur_ms);
            lead.dur_ms = if millis < 0 {
                0
            } else {
                millis as u64
            };
            lead.kind = Some(
                if mode == 1 {
                    KaraokeKind::Sweep
                } else if mode == 2 {
                    KaraokeKind::Outline
                } else {
                    KaraokeKind::Hard
                },
            );
        },
    }
}

/// Apply a group's karaoke tags in order.
pub fn consume_karaoke_tags(lead: &mut KaraokeLead, tags: &[KaraokeTag])
    ensures
        *final(lead) == spec_consume_all(*old(lead), tags@),
{
    let ghost start = *lead;
    let mut k: usize = 0;
    while k < tags.len()
        invariant
            k <= tags@.len(),
            *lead == spec_consume_all(start, tags@.take(k as int)),
        decreases tags@.len() - k,
    {
        assert(tags@.take(k + 1).drop_last() =~= tags@.take(k as int));
        consume_karaoke_tag(lead, tags[k]);
        k += 1;
    }
    assert(tags@.take(k as int) =~= tags@);
}

/// A fresh pending state.
pub fn new_lead() -> (l: KaraokeLead)
    ensures
        l == empty_lead(),
{
    KaraokeLead { kind: None, dur_ms: 0, skip_ms: 0, reset: false }
}

/// Dead time plus duration.
pub open spec fn total_ms(l: KaraokeLead) -> int {
    l.skip_ms + l.dur_ms
}

/// Stacked duration tags lose no time: away from saturation, a duration
/// tag adds exactly its own length to dead time plus duration, and the
/// last tag of a group sets the duration and kind.
pub proof fn lemma_stacked_durations_accumulate(l: KaraokeLead, t: KaraokeTag)
    requires
        !(t is Start),
        total_ms(l) <= u64::MAX,
        t matches KaraokeTag::Duration(cs) ==> cs * 10 <= u64::MAX,
        t matches KaraokeTag::Sweep(cs) ==> cs * 10 <= u64::MAX,
        t matches KaraokeTag::Outline(cs) ==> cs * 10 <= u64::MAX,
    ensures
        total_ms(spec_consume(l, t)) == total_ms(l) + spec_consume(empty_lead(), t).dur_ms,
        spec_consume(l, t).dur_ms == spec_consume(empty_lead(), t).dur_ms,
        spec_consume(l, t).kind == spec_consume(empty_lead(), t).kind,
        spec_consume(l, t).reset == l.reset,
{
}

/// `\kt` forgets what came before it: the time state after it is the
/// same from any starting state; only the kind carries over.
pub proof fn lemma_start_overrides(l1: KaraokeLead, l2: KaraokeLead, cs: u64)
    ensures
        spec_consume(l1, KaraokeTag::Start(cs)).skip_ms == spec_consume(l2, KaraokeTag::Start(cs)).skip_ms,
        spec_consume(l1, KaraokeTag::Start(cs)).dur_ms == 0,
        spec_consume(l1, KaraokeTag::Start(cs)).reset,
        spec_consume(l1, KaraokeTag::Start(cs)).kind == l1.kind,
{
}

/// A group's effect splits at any point: applying its tags in two
/// parts, one after the other, gives the state of applying them at once.
pub proof fn lemma_consume_split(l: KaraokeLead, a: Seq<KaraokeTag>, b: Seq<KaraokeTag>)
    ensures
        spec_consume_all(spec_consume_all(l, a), b) == spec_consume_all(l, a + b),
    decreases b.len(),
{
    if b.len() == 0 {
        assert(a + b =~= a);
    } else {
        lemma_consume_split(l, a, b.drop_last());
        assert((a + b).drop_last() =~= a + b.drop_last());
        assert((a + b).last() == b.last());
    }
}

} // verus!
