//! Event-layout override tags (`\pos`, `\move`, `\org`, `\an`/`\a`,
//! `\fad`, `\fade`, rect and vector `\clip`/`\iclip`) and which of them
//! take effect. They apply wherever they stand in the event text; most
//! slots keep the first tag that fills them, rect clips keep the last.
use vstd::prelude::*;

verus! {

/// An event-layout tag, without its coordinates: the slot it fills and,
/// for alignment, its value. The winners are reported by their index
/// in the event's tag stream, where the caller finds their values.
#[derive(Debug, Clone, Copy, PartialEq, Eq, Structural)]
pub enum LayoutTag {
    /// `\pos`
    Position,
    /// `\move`, with or without times.
    Move,
    /// `\org`
    Origin,
    /// `\an` / `\a`, as a numpad alignment.
    Alignment(i32),
    /// `\an` / `\a` without a usable value.
    AlignmentReset,
    /// `\fad`
    Fade,
    /// `\fade`
    ComplexFade,
    /// Rectangular `\clip`.
    Clip,
    /// Rectangular `\iclip`.
    InverseClip,
    /// Vector `\clip`.
    ClipVector,
    /// Vector `\iclip`.
    InverseClipVector,
}

/// The alignment tag that won and the alignment it sets.
#[derive(Debug, Clone, Copy, PartialEq, Eq, Structural)]
pub struct AlignmentSlot {
    pub index: usize,
    pub value: i32,
}

/// What the layout tags of an event resolve to: the index of the tag
/// that fills each slot, and the alignment it gives.
#[derive(Debug, Clone, Copy, PartialEq, Eq, Structural)]
pub struct LayoutSlots {
    /// `\pos` and `\move` share one slot.
    pub placement: Option<usize>,
    pub origin: Option<usize>,
    /// `\an` and `\a` share one slot: the tag and the alignment it sets.
    pub alignment: Option<AlignmentSlot>,
    /// `\fad` and `\fade` share one slot.
    pub fade: Option<usize>,
    /// The rect clip in force: `\clip` and `\iclip` replace each other.
    pub rect_clip: Option<usize>,
    /// Vector `\clip` and `\iclip` share one slot.
    pub vector_clip: Option<usize>,
}

pub open spec fn is_placement(t: LayoutTag) -> bool {
    t is Position || t is Move
}

pub open spec fn is_origin(t: LayoutTag) -> bool {
    t is Origin
}

pub open spec fn is_alignment(t: LayoutTag) -> bool {
    t is Alignment || t is AlignmentReset
}

pub open spec fn is_fade(t: LayoutTag) -> bool {
    t is Fade || t is ComplexFade
}

pub open spec fn is_rect_clip(t: LayoutTag) -> bool {
    t is Clip || t is InverseClip
}

pub open spec fn is_vector_clip(t: LayoutTag) -> bool {
    t is ClipVector || t is InverseClipVector
}

/// The alignment an alignment tag sets: its value when it is a numpad
/// position (1 to 9), else the style's.
pub open spec fn alignment_value(t: LayoutTag, base_alignment: i32) -> i32 {
    match t {
        LayoutTag::Alignment(a) => if 1 <= a <= 9 {
            a
        } else {
            base_alignment
        },
        _ => base_alignment,
    }
}

/// `slot` holds the first tag of `ts` with property `p`, or nothing
/// when no tag has it.
pub open spec fn first_fills(ts: Seq<LayoutTag>, p: spec_fn(LayoutTag) -> bool, slot: Option<usize>) -> bool {
    match slot {
        None => forall|j: int| 0 <= j < ts.len() ==> !p(#[trigger] ts[j]),
        Some(k) => {
            &&& k < ts.len()
            &&& p(ts[k as int])
            &&& forall|j: int| 0 <= j < k ==> !p(#[trigger] ts[j])
        },
    }
}

/// `slot` holds the last tag of `ts` with property `p`, or nothing
/// when no tag has it.
pub open spec fn last_fills(ts: Seq<LayoutTag>, p: spec_fn(LayoutTag) -> bool, slot: Option<usize>) -> bool {
    match slot {
        None => forall|j: int| 0 <= j < ts.len() ==> !p(#[trigger] ts[j]),
        Some(k) => {
            &&& k < ts.len()
            &&& p(ts[k as int])
            &&& forall|j: int| k < j < ts.len() ==> !p(#[trigger] ts[j])
        },
    }
}

/// The slots an event's layout tags resolve to.
pub open spec fn resolves_to(ts: Seq<LayoutTag>, base_alignment: i32, s: LayoutSlots) -> bool {
    &&& first_fills(ts, |t: LayoutTag| is_placement(t), s.placement)
    &&& first_fills(ts, |t: LayoutTag| is_origin(t), s.origin)
    &&& first_fills(ts, |t: LayoutTag| is_fade(t), s.fade)
    &&& first_fills(ts, |t: LayoutTag| is_vector_clip(t), s.vector_clip)
    &&& last_fills(ts, |t: LayoutTag| is_rect_clip(t), s.rect_clip)
    &&& first_fills(
        ts,
        |t: LayoutTag| is_alignment(t),
        match s.alignment {
            Some(a) => Some(a.index),
            None => None,
        },
    )
    &&& (s.alignment matches Some(a) ==> a.value == alignment_value(ts[a.index as int], base_alignment))
}

fn placement_tag(t: LayoutTag) -> (b: bool)
    ensures
        b == is_placement(t),
{
    match t {
        LayoutTag::Position | LayoutTag::Move => true,
        _ => false,
    }
}

fn fade_tag(t: LayoutTag) -> (b: bool)
    ensures
        b == is_fade(t),
{
    match t {
        LayoutTag::Fade | LayoutTag::ComplexFade => true,
        _ => false,
    }
}

fn rect_clip_tag(t: LayoutTag) -> (b: bool)
    ensures
        b == is_rect_clip(t),
{
    match t {
        LayoutTag::Clip | LayoutTag::InverseClip => true,
        _ => false,
    }
}

fn vector_clip_tag(t: LayoutTag) -> (b: bool)
    ensures
        b == is_vector_clip(t),
{
    match t {
        LayoutTag::ClipVector | LayoutTag::InverseClipVector => true,
        _ => false,
    }
}

/// Apply one layout tag, the `index`-th of the event's tag stream, to
/// the slots: a filled first-wins slot ignores it; a rect clip always
/// replaces the one before.
pub fn apply_layout_tag(slots: &mut LayoutSlots, tag: LayoutTag, index: usize, base_alignment: i32)
    ensures
        final(slots).placement == (if is_placement(tag) && old(slots).placement is None {
            Some(index)
        } else {
            old(slots).placement
        }),
        final(slots).origin == (if is_origin(tag) && old(slots).origin is None {
            Some(index)
        } else {
            old(slots).origin
        }),
        final(slots).alignment == (if is_alignment(tag) && old(slots).alignment is None {
            Some(AlignmentSlot { index, value: alignment_value(tag, base_alignment) })
        } else {
            old(slots).alignment
        }),
        final(slots).fade == (if is_fade(tag) && old(slots).fade is None {
            Some(index)
        } else {
            old(slots).fade
        }),
        final(slots).rect_clip == (if is_rect_clip(tag) {
            Some(index)
        } else {
            old(slots).rect_clip
        }),
        final(slots).vector_clip == (if is_vector_clip(tag) && old(slots).vector_clip is None {
            Some(index)
        } else {
            old(slots).vector_clip
        }),
{
    if placement_tag(tag) {
        if slots.placement.is_none() {
            slots.placement = Some(index);
        }
    } else if fade_tag(tag) {
        if slots.fade.is_none() {
            slots.fade = Some(index);
        }
    } else if rect_clip_tag(tag) {
        slots.rect_clip = Some(index);
    } else if vector_clip_tag(tag) {
        if slots.vector_clip.is_none() {
            slots.vector_clip = Some(index);
        }
    } else {
        match tag {
            LayoutTag::Origin => {
                if slots.origin.is_none() {
                    slots.origin = Some(index);
                }
            },
            LayoutTag::Alignment(a) => {
                if slots.alignment.is_none() {
                    let v = if 1 <= a && a <= 9 {
                        a
                    } else {
                        base_alignment
                    };
                    slots.alignment = Some(AlignmentSlot { index, value: v });
                }
            },
            LayoutTag::AlignmentReset => {
                if slots.alignment.is_none() {
                    slots.alignment = Some(AlignmentSlot { index, value: base_alignment });
                }
            },
            _ => {},
        }
    }
}

/// Resolve an event's layout tags, given in text order: `\pos`/`\move`,
/// `\org`, `\an`/`\a`, `\fad`/`\fade` and vector clips keep the first
/// tag of their slot; the last rect `\clip`/`\iclip` stays in force.
pub fn resolve_layout_tags(tags: &[LayoutTag], base_alignment: i32) -> (s: LayoutSlots)
    ensures
        resolves_to(tags@, base_alignment, s),
{
    let mut s = LayoutSlots {
        placement: None,
        origin: None,
        alignment: None,
        fade: None,
        rect_clip: None,
        vector_clip: None,
    };
    let mut i: usize = 0;
    while i < tags.len()
        invariant
            i <= tags@.len(),
            resolves_to(tags@.take(i as int), base_alignment, s),
        decreases tags@.len() - i,
    {
        let ghost pre = tags@.take(i as int);
        let ghost post = tags@.take(i + 1);
        assert(post =~= pre.push(tags@[i as int]));
        apply_layout_tag(&mut s, tags[i], i, base_alignment);
        proof {
            assert forall|j: int| 0 <= j < i implies #[trigger] post[j] == pre[j] by {}
            assert(post[i as int] == tags@[i as int]);
        }
        i += 1;
    }
    assert(tags@.take(i as int) =~= tags@);
    s
}

} // verus!
