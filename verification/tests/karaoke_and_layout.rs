use subrass::renderer::karaoke::{consume_karaoke_tag, consume_karaoke_tags, new_lead, KaraokeKind, KaraokeLead, KaraokeTag};
use subrass::renderer::layout_tags::{apply_layout_tag, resolve_layout_tags, AlignmentSlot, LayoutSlots, LayoutTag};

#[test]
fn karaoke_single_duration_sets_kind_and_ms() {
    let mut lead = new_lead();
    consume_karaoke_tag(&mut lead, KaraokeTag::Sweep(25));
    assert_eq!(lead, KaraokeLead { kind: Some(KaraokeKind::Sweep), dur_ms: 250, skip_ms: 0, reset: false });
}

#[test]
fn karaoke_stacked_durations_bank_dead_time() {
    let mut lead = new_lead();
    consume_karaoke_tags(&mut lead, &[KaraokeTag::Duration(10), KaraokeTag::Duration(20), KaraokeTag::Outline(5)]);
    assert_eq!(lead.skip_ms, 300);
    assert_eq!(lead.dur_ms, 50);
    assert_eq!(lead.kind, Some(KaraokeKind::Outline));
    assert!(!lead.reset);
}

#[test]
fn karaoke_start_wipes_stacked_time_and_resets() {
    let mut lead = new_lead();
    consume_karaoke_tags(&mut lead, &[KaraokeTag::Duration(10), KaraokeTag::Start(7)]);
    assert_eq!(lead, KaraokeLead { kind: Some(KaraokeKind::Hard), dur_ms: 0, skip_ms: 70, reset: true });
}

#[test]
fn karaoke_millisecond_timing_modes() {
    let mut lead = new_lead();
    consume_karaoke_tag(&mut lead, KaraokeTag::Timing { mode: 1, millis: 120 });
    assert_eq!(lead.kind, Some(KaraokeKind::Sweep));
    assert_eq!(lead.dur_ms, 120);
    consume_karaoke_tag(&mut lead, KaraokeTag::Timing { mode: 2, millis: -5 });
    assert_eq!(lead.kind, Some(KaraokeKind::Outline));
    assert_eq!(lead.dur_ms, 0);
    assert_eq!(lead.skip_ms, 120);
    consume_karaoke_tag(&mut lead, KaraokeTag::Timing { mode: 9, millis: 3 });
    assert_eq!(lead.kind, Some(KaraokeKind::Hard));
}

#[test]
fn karaoke_durations_saturate() {
    let mut lead = new_lead();
    consume_karaoke_tags(&mut lead, &[KaraokeTag::Duration(u64::MAX), KaraokeTag::Duration(1)]);
    assert_eq!(lead.skip_ms, u64::MAX);
    assert_eq!(lead.dur_ms, 10);
}

fn empty_slots() -> LayoutSlots {
    LayoutSlots { placement: None, origin: None, alignment: None, fade: None, rect_clip: None, vector_clip: None }
}

#[test]
fn layout_first_placement_wins_over_later_pos_and_move() {
    let s = resolve_layout_tags(&[LayoutTag::Move, LayoutTag::Position, LayoutTag::Move], 2);
    assert_eq!(s.placement, Some(0));
    let s = resolve_layout_tags(&[LayoutTag::Origin, LayoutTag::Position, LayoutTag::Move], 2);
    assert_eq!(s.placement, Some(1));
    assert_eq!(s.origin, Some(0));
}

#[test]
fn layout_first_fade_wins_in_either_order() {
    let s = resolve_layout_tags(&[LayoutTag::ComplexFade, LayoutTag::Fade], 2);
    assert_eq!(s.fade, Some(0));
    let s = resolve_layout_tags(&[LayoutTag::Fade, LayoutTag::ComplexFade], 2);
    assert_eq!(s.fade, Some(0));
}

#[test]
fn layout_last_rect_clip_wins_first_vector_clip_wins() {
    let s = resolve_layout_tags(
        &[LayoutTag::Clip, LayoutTag::InverseClipVector, LayoutTag::InverseClip, LayoutTag::ClipVector],
        2,
    );
    assert_eq!(s.rect_clip, Some(2));
    assert_eq!(s.vector_clip, Some(1));
}

#[test]
fn layout_alignment_first_wins_and_out_of_range_takes_style() {
    let s = resolve_layout_tags(&[LayoutTag::Alignment(12), LayoutTag::Alignment(7)], 2);
    assert_eq!(s.alignment, Some(AlignmentSlot { index: 0, value: 2 }));
    let s = resolve_layout_tags(&[LayoutTag::Alignment(7), LayoutTag::AlignmentReset], 2);
    assert_eq!(s.alignment, Some(AlignmentSlot { index: 0, value: 7 }));
    let s = resolve_layout_tags(&[LayoutTag::AlignmentReset, LayoutTag::Alignment(7)], 5);
    assert_eq!(s.alignment, Some(AlignmentSlot { index: 0, value: 5 }));
}

#[test]
fn layout_no_tags_leaves_every_slot_empty() {
    assert_eq!(resolve_layout_tags(&[], 2), empty_slots());
}

#[test]
fn layout_apply_one_tag_keeps_a_filled_slot() {
    let mut s = empty_slots();
    apply_layout_tag(&mut s, LayoutTag::Position, 4, 2);
    apply_layout_tag(&mut s, LayoutTag::Move, 9, 2);
    assert_eq!(s.placement, Some(4));
    apply_layout_tag(&mut s, LayoutTag::Clip, 10, 2);
    apply_layout_tag(&mut s, LayoutTag::Clip, 11, 2);
    assert_eq!(s.rect_clip, Some(11));
}
