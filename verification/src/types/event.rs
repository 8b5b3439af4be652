//! Dialogue and comment events.
use crate::types::time::Time;
use vstd::prelude::*;

verus! {

#[derive(Debug, Clone, Copy, PartialEq, Eq, Structural)]
pub enum EventType {
    Dialogue,
    Comment,
}

/// One `Dialogue:` or `Comment:` line.
#[derive(Debug, Clone)]
pub struct Event {
    pub event_type: EventType,
    pub layer: i32,
    pub start: Time,
    pub end: Time,
    pub style: String,
    pub name: String,
    pub margin_l: i32,
    pub margin_r: i32,
    pub margin_v: i32,
    pub effect: String,
    pub text: String,
}

pub struct EventView {
    pub event_type: EventType,
    pub layer: i32,
    pub start: u64,
    pub end: u64,
    pub style: Seq<char>,
    pub name: Seq<char>,
    pub margin_l: i32,
    pub margin_r: i32,
    pub margin_v: i32,
    pub effect: Seq<char>,
    pub text: Seq<char>,
}

impl View for Event {
    type V = EventView;

    open spec fn view(&self) -> EventView {
        EventView {
            event_type: self.event_type,
            layer: self.layer,
            start: self.start.millis,
            end: self.end.millis,
            style: self.style@,
            name: self.name@,
            margin_l: self.margin_l,
            margin_r: self.margin_r,
            margin_v: self.margin_v,
            effect: self.effect@,
            text: self.text@,
        }
    }
}

/// An event is shown from its start (inclusive) to its end (exclusive).
pub open spec fn active_at(e: EventView, t: u64) -> bool {
    e.start <= t && t < e.end
}

impl Event {
    pub fn is_active_at(&self, time_ms: u64) -> (b: bool)
        ensures
            b == active_at(self@, time_ms),
    {
        self.start.millis <= time_ms && time_ms < self.end.millis
    }

    pub fn is_dialogue(&self) -> (b: bool)
        ensures
            b == (self.event_type == EventType::Dialogue),
    {
        self.event_type == EventType::Dialogue
    }

    pub fn is_comment(&self) -> (b: bool)
        ensures
            b == (self.event_type == EventType::Comment),
    {
        self.event_type == EventType::Comment
    }
}

} // verus!
