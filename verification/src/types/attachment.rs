//! Embedded `[Fonts]` / `[Graphics]` attachments.
use vstd::prelude::*;

verus! {

#[derive(Debug, Clone, Copy, PartialEq, Eq, Structural)]
pub enum AttachmentKind {
    Font,
    Graphic,
}

/// A decoded embedded file.
#[derive(Debug, Clone)]
pub struct Attachment {
    pub kind: AttachmentKind,
    pub filename: String,
    pub data: Vec<u8>,
}

pub struct AttachmentView {
    pub kind: AttachmentKind,
    pub filename: Seq<char>,
    pub data: Seq<u8>,
}

impl View for Attachment {
    type V = AttachmentView;

    open spec fn view(&self) -> AttachmentView {
        AttachmentView { kind: self.kind, filename: self.filename@, data: self.data@ }
    }
}

} // verus!
