//! The ASS document parser: section dispatch over the lines of a script.
pub mod errors;
pub mod attachment;
pub mod event;
pub mod style;
pub mod script_info;
pub mod input;

use crate::parser::attachment::{
    att_views, line_err, parse_attachment_lines, spec_parse_attachments, MAX_ATTACHMENTS,
    MAX_TOTAL_ATTACHMENT_BYTES,
};
use crate::charset::MAX_DECODE_BYTES;
use crate::parser::errors::{spec_section, ParseError, ParseErrorView, Section};
use crate::parser::input::spec_parse_bytes;
use crate::parser::event::{
    derefs, event_views, get_comment_events, get_dialogue_events, get_events_at_time,
    is_active, is_comment_event, is_dialogue_event, parse_event_lines, sort_events_by_layer,
    sort_events_by_time, spec_parse_events, stably_sorted, SortKey, MAX_EVENTS,
};
use crate::parser::script_info::{parse_script_info_lines, spec_parse_script_info};
use crate::parser::style::{parse_style_lines, spec_parse_styles, style_views, MAX_STYLES};
use crate::text::{
    chars_eq, dec_str, lemma_lines_from_len, push_decimal, push_str, spec_lines, split_lines,
    str_chars, string_of, string_of_str, sub_chars, trim, trim_chars, views_of,
};
use crate::types::attachment::{Attachment, AttachmentKind, AttachmentView};
use crate::types::event::{Event, EventView};
use crate::types::script_info::{default_script_info, ScriptInfo, ScriptInfoView};
use crate::types::style::{Style, StyleView};
use vstd::prelude::*;

verus! {

/// A parsed ASS document.
#[derive(Debug, Clone)]
pub struct AssDocument {
    pub script_info: ScriptInfo,
    pub styles: Vec<Style>,
    pub events: Vec<Event>,
    pub attachments: Vec<Attachment>,
}

pub struct DocView {
    pub script_info: ScriptInfoView,
    pub styles: Seq<StyleView>,
    pub events: Seq<EventView>,
    pub attachments: Seq<AttachmentView>,
}

impl View for AssDocument {
    type V = DocView;

    open spec fn view(&self) -> DocView {
        DocView {
            script_info: self.script_info@,
            styles: style_views(self.styles@),
            events: event_views(self.events@),
            attachments: att_views(self.attachments@),
        }
    }
}

pub open spec fn empty_doc() -> DocView {
    DocView {
        script_info: default_script_info(),
        styles: Seq::empty(),
        events: Seq::empty(),
        attachments: Seq::empty(),
    }
}

// ---------------------------------------------------------------------
// Document-wide caps
// ---------------------------------------------------------------------
/// The count after appending `additional` items to `existing`, or the
/// error at `line` when it overflows `usize` or exceeds `max`.
pub open spec fn spec_check_count(
    existing: int,
    additional: int,
    max: int,
    what: Seq<char>,
    line: int,
) -> Result<int, ParseErrorView> {
    let total = existing + additional;
    if total > usize::MAX {
        Err(line_err(line, "Too many "@ + what + " (count overflow)"@))
    } else if total > max {
        Err(
            line_err(
                line,
                "Too many "@ + what + " (limit "@ + dec_str(max as nat) + " per document)"@,
            ),
        )
    } else {
        Ok(total)
    }
}

/// Enforce a per-document count cap across appended sections.
pub fn check_global_count(
    existing: usize,
    additional: usize,
    max: usize,
    what: &str,
    line: usize,
) -> (r: Result<usize, ParseError>)
    ensures
        match r {
            Ok(t) => spec_check_count(existing as int, additional as int, max as int, what@, line as int)
                == Ok::<int, ParseErrorView>(t as int),
            Err(e) => spec_check_count(existing as int, additional as int, max as int, what@, line as int)
                == Err::<int, ParseErrorView>(e@),
        },
{
    match existing.checked_add(additional) {
        None => {
            let mut m = String::new();
            push_str(&mut m, "Too many ");
            push_str(&mut m, what);
            push_str(&mut m, " (count overflow)");
            Err(ParseError::line_error(line, m))
        },
        Some(total) => {
            if total > max {
                let mut m = String::new();
                push_str(&mut m, "Too many ");
                push_str(&mut m, what);
                push_str(&mut m, " (limit ");
                push_decimal(&mut m, max as u64);
                push_str(&mut m, " per document)");
                Err(ParseError::line_error(line, m))
            } else {
                Ok(total)
            }
        },
    }
}

pub open spec fn data_lens(atts: Seq<AttachmentView>) -> Seq<int> {
    atts.map_values(|a: AttachmentView| a.data.len() as int)
}

pub open spec fn budget_msg() -> Seq<char> {
    "Total attachment data exceeds the "@ + dec_str(
        (MAX_TOTAL_ATTACHMENT_BYTES as int / 1048576int) as nat,
    ) + " MiB document budget"@
}

/// Running sum of the data sizes from `k` on, starting at `total`: the
/// first sum that overflows `usize` or exceeds the byte budget is an
/// error.
pub open spec fn budget_from(lens: Seq<int>, k: int, total: int, line: int) -> Result<
    (),
    ParseErrorView,
>
    decreases lens.len() - k,
{
    if k < 0 || k >= lens.len() {
        Ok(())
    } else {
        let t = total + lens[k];
        if t > usize::MAX {
            Err(line_err(line, "Attachment data size overflow"@))
        } else if t > MAX_TOTAL_ATTACHMENT_BYTES {
            Err(line_err(line, budget_msg()))
        } else {
            budget_from(lens, k + 1, t, line)
        }
    }
}

/// The document-wide attachment count and byte budget, checked before a
/// parsed section is appended.
pub open spec fn spec_check_attachments(
    existing: Seq<AttachmentView>,
    parsed: Seq<AttachmentView>,
    line: int,
) -> Result<(), ParseErrorView> {
    match spec_check_count(
        existing.len() as int,
        parsed.len() as int,
        MAX_ATTACHMENTS as int,
        "attachments"@,
        line,
    ) {
        Err(e) => Err(e),
        Ok(_) => budget_from(data_lens(existing + parsed), 0, 0, line),
    }
}

fn budget_error(line: usize) -> (e: ParseError)
    ensures
        e@ == line_err(line as int, budget_msg()),
{
    let mut m = String::new();
    push_str(&mut m, "Total attachment data exceeds the ");
    push_decimal(&mut m, (MAX_TOTAL_ATTACHMENT_BYTES / (1024 * 1024)) as u64);
    push_str(&mut m, " MiB document budget");
    ParseError::line_error(line, m)
}

/// Enforce the document-wide attachment count and decoded-byte budget
/// before appending `parsed`.
pub fn check_global_attachments(doc: &AssDocument, parsed: &[Attachment], line: usize) -> (r: Result<
    (),
    ParseError,
>)
    ensures
        match r {
            Ok(()) => spec_check_attachments(att_views(doc.attachments@), att_views(parsed@), line as int)
                == Ok::<(), ParseErrorView>(()),
            Err(e) => spec_check_attachments(att_views(doc.attachments@), att_views(parsed@), line as int)
                == Err::<(), ParseErrorView>(e@),
        },
{
    match check_global_count(doc.attachments.len(), parsed.len(), MAX_ATTACHMENTS, "attachments", line) {
        Err(e) => return Err(e),
        Ok(_) => {},
    }
    let ghost lens = data_lens(att_views(doc.attachments@) + att_views(parsed@));
    let ghost goal = spec_check_attachments(att_views(doc.attachments@), att_views(parsed@), line as int);
    assert(goal == budget_from(lens, 0, 0, line as int));
    assert(lens.len() == doc.attachments@.len() + parsed@.len());
    let mut total: usize = 0;
    let mut k: usize = 0;
    while k < doc.attachments.len()
        invariant
            0 <= k <= doc.attachments@.len(),
            lens == data_lens(att_views(doc.attachments@) + att_views(parsed@)),
            lens.len() == doc.attachments@.len() + parsed@.len(),
            goal == spec_check_attachments(att_views(doc.attachments@), att_views(parsed@), line as int),
            goal == budget_from(lens, 0, 0, line as int),
            budget_from(lens, 0, 0, line as int) == budget_from(lens, k as int, total as int, line as int),
            total <= MAX_TOTAL_ATTACHMENT_BYTES,
        decreases doc.attachments@.len() - k,
    {
        assert(lens[k as int] == doc.attachments@[k as int].data@.len());
        match total.checked_add(doc.attachments[k].data.len()) {
            None => {
                let m = string_of_str("Attachment data size overflow");
                return Err(ParseError::line_error(line, m));
            },
            Some(t) => {
                if t > MAX_TOTAL_ATTACHMENT_BYTES {
                    return Err(budget_error(line));
                }
                total = t;
            },
        }
        k += 1;
    }
    let mut j: usize = 0;
    while j < parsed.len()
        invariant
            0 <= j <= parsed@.len(),
            lens == data_lens(att_views(doc.attachments@) + att_views(parsed@)),
            lens.len() == doc.attachments@.len() + parsed@.len(),
            goal == spec_check_attachments(att_views(doc.attachments@), att_views(parsed@), line as int),
            goal == budget_from(lens, 0, 0, line as int),
            budget_from(lens, 0, 0, line as int) == budget_from(
                lens,
                doc.attachments@.len() + j,
                total as int,
                line as int,
            ),
            total <= MAX_TOTAL_ATTACHMENT_BYTES,
        decreases parsed@.len() - j,
    {
        assert(lens[doc.attachments@.len() + j] == parsed@[j as int].data@.len());
        match total.checked_add(parsed[j].data.len()) {
            None => {
                let m = string_of_str("Attachment data size overflow");
                return Err(ParseError::line_error(line, m));
            },
            Some(t) => {
                if t > MAX_TOTAL_ATTACHMENT_BYTES {
                    return Err(budget_error(line));
                }
                total = t;
            },
        }
        j += 1;
    }
    Ok(())
}

// ---------------------------------------------------------------------
// Sections
// ---------------------------------------------------------------------
/// Parse one section's lines into the document. Repeated style, event
/// and attachment sections append, every cap counted per document.
pub open spec fn add_styles(doc: DocView, parsed: Result<Seq<StyleView>, ParseErrorView>, first: int) -> Result<
    DocView,
    ParseErrorView,
> {
    match parsed {
        Err(e) => Err(e),
        Ok(p) => match spec_check_count(
            doc.styles.len() as int,
            p.len() as int,
            MAX_STYLES as int,
            "styles"@,
            first,
        ) {
            Err(e) => Err(e),
            Ok(_) => Ok(DocView { styles: doc.styles + p, ..doc }),
        },
    }
}

pub open spec fn add_events(doc: DocView, parsed: Result<Seq<EventView>, ParseErrorView>, first: int) -> Result<
    DocView,
    ParseErrorView,
> {
    match parsed {
        Err(e) => Err(e),
        Ok(p) => match spec_check_count(
            doc.events.len() as int,
            p.len() as int,
            MAX_EVENTS as int,
            "events"@,
            first,
        ) {
            Err(e) => Err(e),
            Ok(_) => Ok(DocView { events: doc.events + p, ..doc }),
        },
    }
}

pub open spec fn add_attachments(
    doc: DocView,
    parsed: Result<Seq<AttachmentView>, ParseErrorView>,
    first: int,
) -> Result<DocView, ParseErrorView> {
    match parsed {
        Err(e) => Err(e),
        Ok(p) => match spec_check_attachments(doc.attachments, p, first) {
            Err(e) => Err(e),
            Ok(_) => Ok(DocView { attachments: doc.attachments + p, ..doc }),
        },
    }
}

/// Parse one section's lines into the document. Repeated style, event
/// and attachment sections append, every cap counted per document.
#[verifier::opaque]
pub open spec fn spec_process(doc: DocView, sec: Section, lines: Seq<Seq<char>>, first: int) -> Result<
    DocView,
    ParseErrorView,
> {
    match sec {
        Section::ScriptInfo => Ok(DocView { script_info: spec_parse_script_info(lines), ..doc }),
        Section::V4PlusStyles => add_styles(doc, spec_parse_styles(lines, first, false), first),
        Section::V4Styles => add_styles(doc, spec_parse_styles(lines, first, true), first),
        Section::Events => add_events(doc, spec_parse_events(lines, first), first),
        Section::Fonts => add_attachments(
            doc,
            spec_parse_attachments(lines, AttachmentKind::Font, first),
            first,
        ),
        Section::Graphics => add_attachments(
            doc,
            spec_parse_attachments(lines, AttachmentKind::Graphic, first),
            first,
        ),
    }
}

/// Parse one section's lines (content starting at line `first`) into
/// `doc`; on an error `doc` may hold part of the section's effect.
pub fn process_section(
    doc: &mut AssDocument,
    section: Section,
    lines: &Vec<Vec<char>>,
    first: usize,
) -> (r: Result<(), ParseError>)
    requires
        first + lines@.len() <= usize::MAX,
    ensures
        match r {
            Ok(()) => spec_process(old(doc)@, section, views_of(lines@), first as int) == Ok::<
                DocView,
                ParseErrorView,
            >(final(doc)@),
            Err(e) => spec_process(old(doc)@, section, views_of(lines@), first as int) == Err::<
                DocView,
                ParseErrorView,
            >(e@),
        },
{
    reveal(spec_process);
    match section {
        Section::ScriptInfo => {
            doc.script_info = parse_script_info_lines(lines);
            Ok(())
        },
        Section::V4PlusStyles | Section::V4Styles => {
            let is_ssa = match section {
                Section::V4Styles => true,
                _ => false,
            };
            let mut parsed = match parse_style_lines(lines, first, is_ssa) {
                Ok(p) => p,
                Err(e) => return Err(e),
            };
            match check_global_count(doc.styles.len(), parsed.len(), MAX_STYLES, "styles", first) {
                Ok(_) => {},
                Err(e) => return Err(e),
            }
            let ghost before = style_views(doc.styles@);
            let ghost added = style_views(parsed@);
            doc.styles.append(&mut parsed);
            assert(style_views(doc.styles@) =~= before + added);
            Ok(())
        },
        Section::Events => {
            let mut parsed = match parse_event_lines(lines, first) {
                Ok(p) => p,
                Err(e) => return Err(e),
            };
            match check_global_count(doc.events.len(), parsed.len(), MAX_EVENTS, "events", first) {
                Ok(_) => {},
                Err(e) => return Err(e),
            }
            let ghost before = event_views(doc.events@);
            let ghost added = event_views(parsed@);
            doc.events.append(&mut parsed);
            assert(event_views(doc.events@) =~= before + added);
            Ok(())
        },
        Section::Fonts | Section::Graphics => {
            let kind = match section {
                Section::Fonts => AttachmentKind::Font,
                _ => AttachmentKind::Graphic,
            };
            let mut parsed = match parse_attachment_lines(lines, kind, first) {
                Ok(p) => p,
                Err(e) => return Err(e),
            };
            match check_global_attachments(doc, parsed.as_slice(), first) {
                Ok(()) => {},
                Err(e) => return Err(e),
            }
            let ghost before = att_views(doc.attachments@);
            let ghost added = att_views(parsed@);
            doc.attachments.append(&mut parsed);
            assert(att_views(doc.attachments@) =~= before + added);
            Ok(())
        },
    }
}

// ---------------------------------------------------------------------
// Documents
// ---------------------------------------------------------------------
/// Parser state between lines: the document so far, the open section
/// with its lines and header line number, and whether any known section
/// was seen.
pub struct DocState {
    pub doc: DocView,
    pub cur: Option<Section>,
    pub sec_lines: Seq<Seq<char>>,
    pub sec_start: int,
    pub found: bool,
}

/// A trimmed line that starts with `[` and ends with `]`.
pub open spec fn is_header(t: Seq<char>) -> bool {
    t.len() > 0 && t[0] == '[' && t[t.len() - 1] == ']'
}

/// Parse the open section, if any, into the document.
pub open spec fn close_section(st: DocState) -> Result<DocView, ParseErrorView> {
    match st.cur {
        Some(s) => spec_process(st.doc, s, st.sec_lines, st.sec_start + 1),
        None => Ok(st.doc),
    }
}

/// Line `i` (0-based) of the input: a header closes the open section and
/// opens the one it names (lines under an unknown header are dropped);
/// any other line joins the open section.
pub open spec fn doc_step(i: int, raw: Seq<char>, st: DocState) -> Result<DocState, ParseErrorView> {
    let t = trim(raw);
    if is_header(t) {
        match close_section(st) {
            Err(e) => Err(e),
            Ok(d) => {
                let c = spec_section(t);
                Ok(
                    DocState {
                        doc: d,
                        cur: c,
                        sec_lines: Seq::empty(),
                        sec_start: i + 1,
                        found: st.found || c is Some,
                    },
                )
            },
        }
    } else if st.cur is Some {
        Ok(DocState { sec_lines: st.sec_lines.push(raw), ..st })
    } else {
        Ok(st)
    }
}

pub open spec fn doc_fold(lines: Seq<Seq<char>>, i: int, st: DocState) -> Result<
    DocState,
    ParseErrorView,
>
    decreases lines.len() - i,
{
    if i < 0 || i >= lines.len() {
        Ok(st)
    } else {
        match doc_step(i, lines[i], st) {
            Ok(next) => doc_fold(lines, i + 1, next),
            Err(e) => Err(e),
        }
    }
}

pub open spec fn init_state() -> DocState {
    DocState {
        doc: empty_doc(),
        cur: None,
        sec_lines: Seq::empty(),
        sec_start: 0,
        found: false,
    }
}

pub open spec fn has_text(lines: Seq<Seq<char>>) -> bool {
    exists|k: int| 0 <= k < lines.len() && #[trigger] trim(lines[k]).len() > 0
}

/// A script given by its lines: folded through `doc_step`, the last
/// section closed; lines with text but no known section are rejected.
pub open spec fn spec_parse_lines(lines: Seq<Seq<char>>) -> Result<DocView, ParseErrorView> {
    match doc_fold(lines, 0, init_state()) {
        Err(e) => Err(e),
        Ok(st) => match close_section(st) {
            Err(e) => Err(e),
            Ok(d) => if !st.found && has_text(lines) {
                Err(ParseErrorView::Unexpected("No valid ASS sections found"@))
            } else {
                Ok(d)
            },
        },
    }
}

/// A whole script: its `str::lines`.
pub open spec fn spec_parse_doc(input: Seq<char>) -> Result<DocView, ParseErrorView> {
    spec_parse_lines(spec_lines(input))
}

// ---------------------------------------------------------------------
// Caps hold of every parsed document
// ---------------------------------------------------------------------
/// Sum of `lens[k..]`.
pub open spec fn lens_sum(lens: Seq<int>, k: int) -> int
    decreases lens.len() - k,
{
    if k < 0 || k >= lens.len() {
        0
    } else {
        lens[k] + lens_sum(lens, k + 1)
    }
}

/// Decoded attachment bytes of a document.
pub open spec fn attachment_bytes(atts: Seq<AttachmentView>) -> int {
    lens_sum(data_lens(atts), 0)
}

/// The per-document caps: styles, events, attachments and decoded
/// attachment bytes.
pub open spec fn within_caps(d: DocView) -> bool {
    &&& d.styles.len() <= MAX_STYLES
    &&& d.events.len() <= MAX_EVENTS
    &&& d.attachments.len() <= MAX_ATTACHMENTS
    &&& attachment_bytes(d.attachments) <= MAX_TOTAL_ATTACHMENT_BYTES
}

proof fn lemma_budget_sum(lens: Seq<int>, k: int, total: int, line: int)
    requires
        0 <= k <= lens.len(),
        0 <= total <= MAX_TOTAL_ATTACHMENT_BYTES,
        forall|j: int| 0 <= j < lens.len() ==> #[trigger] lens[j] >= 0,
        budget_from(lens, k, total, line) is Ok,
    ensures
        total + lens_sum(lens, k) <= MAX_TOTAL_ATTACHMENT_BYTES,
    decreases lens.len() - k,
{
    if k < lens.len() {
        assert(lens[k] >= 0);
        lemma_budget_sum(lens, k + 1, total + lens[k], line);
    }
}

/// Processing a section keeps the caps of a document within them.
proof fn lemma_process_within_caps(doc: DocView, sec: Section, lines: Seq<Seq<char>>, first: int)
    requires
        within_caps(doc),
    ensures
        spec_process(doc, sec, lines, first) matches Ok(d) ==> within_caps(d),
{
    reveal(spec_process);
    match spec_process(doc, sec, lines, first) {
        Ok(d) => {
            match sec {
                Section::Fonts | Section::Graphics => {
                    if d.attachments != doc.attachments {
                        let p = d.attachments.subrange(doc.attachments.len() as int, d.attachments.len() as int);
                        assert(d.attachments =~= doc.attachments + p);
                        let lens = data_lens(doc.attachments + p);
                        assert forall|j: int| 0 <= j < lens.len() implies #[trigger] lens[j] >= 0 by {}
                        lemma_budget_sum(lens, 0, 0, first);
                    }
                },
                _ => {},
            }
        },
        Err(_) => {},
    }
}

/// Every document the parser produces keeps the per-document caps, how
/// many sections ever repeat: at most `MAX_STYLES` styles, `MAX_EVENTS`
/// events, `MAX_ATTACHMENTS` attachments and
/// `MAX_TOTAL_ATTACHMENT_BYTES` decoded attachment bytes.
pub proof fn lemma_parsed_documents_within_caps(lines: Seq<Seq<char>>)
    ensures
        spec_parse_lines(lines) matches Ok(d) ==> within_caps(d),
{
    assert(attachment_bytes(Seq::<AttachmentView>::empty()) == 0);
    lemma_fold_within_caps(lines, 0, init_state());
    match doc_fold(lines, 0, init_state()) {
        Ok(st) => {
            match st.cur {
                Some(s) => lemma_process_within_caps(st.doc, s, st.sec_lines, st.sec_start + 1),
                None => {},
            }
        },
        Err(_) => {},
    }
}

proof fn lemma_fold_within_caps(lines: Seq<Seq<char>>, i: int, st: DocState)
    requires
        within_caps(st.doc),
    ensures
        doc_fold(lines, i, st) matches Ok(end) ==> within_caps(end.doc),
    decreases lines.len() - i,
{
    if 0 <= i < lines.len() {
        match st.cur {
            Some(s) => lemma_process_within_caps(st.doc, s, st.sec_lines, st.sec_start + 1),
            None => {},
        }
        match doc_step(i, lines[i], st) {
            Ok(next) => lemma_fold_within_caps(lines, i + 1, next),
            Err(_) => {},
        }
    }
}

pub open spec fn state_of(
    doc: AssDocument,
    cur: Option<Section>,
    sec_lines: Seq<Vec<char>>,
    sec_start: usize,
    found: bool,
) -> DocState {
    DocState { doc: doc@, cur, sec_lines: views_of(sec_lines), sec_start: sec_start as int, found }
}

/// Parse the open section, if any, into `doc`.
fn close_open(doc: &mut AssDocument, cur: Option<Section>, sec_lines: &Vec<Vec<char>>, sec_start: usize) -> (r: Result<(), ParseError>)
    requires
        sec_start + 1 + sec_lines@.len() <= usize::MAX,
    ensures
        match r {
            Ok(()) => close_section(state_of(*old(doc), cur, sec_lines@, sec_start, false)) == Ok::<DocView, ParseErrorView>(final(doc)@),
            Err(e) => close_section(state_of(*old(doc), cur, sec_lines@, sec_start, false)) == Err::<DocView, ParseErrorView>(e@),
        },
{
    match cur {
        Some(s) => process_section(doc, s, sec_lines, sec_start + 1),
        None => Ok(()),
    }
}

/// A header line `t` (trimmed) at index `i`: close the open section and
/// open the one it names.
fn open_section(
    doc: &mut AssDocument,
    cur: &mut Option<Section>,
    sec_lines: &mut Vec<Vec<char>>,
    sec_start: &mut usize,
    found: &mut bool,
    i: usize,
    t: &Vec<char>,
) -> (r: Result<(), ParseError>)
    requires
        is_header(t@),
        *old(sec_start) + 1 + old(sec_lines)@.len() <= usize::MAX,
        i < usize::MAX,
    ensures
        match r {
            Ok(()) => ({
                let st = state_of(*old(doc), *old(cur), old(sec_lines)@, *old(sec_start), *old(found));
                &&& close_section(st) == Ok::<DocView, ParseErrorView>(final(doc)@)
                &&& *final(cur) == spec_section(t@)
                &&& final(sec_lines)@.len() == 0
                &&& *final(sec_start) == i + 1
                &&& *final(found) == (*old(found) || spec_section(t@) is Some)
            }),
            Err(e) => close_section(
                state_of(*old(doc), *old(cur), old(sec_lines)@, *old(sec_start), *old(found)),
            ) == Err::<DocView, ParseErrorView>(e@),
        },
        *final(sec_start) + final(sec_lines)@.len() <= i + 1 || (*final(sec_start) == *old(
            sec_start) && final(sec_lines)@ == old(sec_lines)@),
{
    match close_open(doc, *cur, sec_lines, *sec_start) {
        Ok(()) => {},
        Err(e) => return Err(e),
    }
    let ts = string_of(t.as_slice());
    *cur = Section::from_header(ts.as_str());
    if cur.is_some() {
        *found = true;
    }
    *sec_lines = Vec::new();
    *sec_start = i + 1;
    Ok(())
}

/// Line `i` of the input (`raw`) applied to the parser state.
fn doc_line(
    doc: &mut AssDocument,
    cur: &mut Option<Section>,
    sec_lines: &mut Vec<Vec<char>>,
    sec_start: &mut usize,
    found: &mut bool,
    i: usize,
    raw: &Vec<char>,
) -> (r: Result<(), ParseError>)
    requires
        *old(sec_start) + old(sec_lines)@.len() <= i,
        i + 1 < usize::MAX,
    ensures
        match r {
            Ok(()) => doc_step(
                i as int,
                raw@,
                state_of(*old(doc), *old(cur), old(sec_lines)@, *old(sec_start), *old(found)),
            ) == Ok::<DocState, ParseErrorView>(
                state_of(*final(doc), *final(cur), final(sec_lines)@, *final(sec_start), *final(found)),
            ),
            Err(e) => doc_step(
                i as int,
                raw@,
                state_of(*old(doc), *old(cur), old(sec_lines)@, *old(sec_start), *old(found)),
            ) == Err::<DocState, ParseErrorView>(e@),
        },
        *final(sec_start) + final(sec_lines)@.len() <= i + 1,
{
    let t = trim_chars(raw.as_slice());
    if t.len() > 0 && t[0] == '[' && t[t.len() - 1] == ']' {
        let r = open_section(doc, cur, sec_lines, sec_start, found, i, &t);
        if r.is_ok() {
            assert(views_of(sec_lines@) =~= Seq::<Seq<char>>::empty());
        }
        r
    } else if cur.is_some() {
        let copy = sub_chars(raw.as_slice(), 0, raw.len());
        assert(copy@ =~= raw@);
        let ghost before = views_of(sec_lines@);
        sec_lines.push(copy);
        assert(views_of(sec_lines@) =~= before.push(raw@));
        Ok(())
    } else {
        Ok(())
    }
}

impl AssDocument {
    /// An empty document with the default script header.
    pub fn new() -> (d: AssDocument)
        ensures
            d@ == empty_doc(),
    {
        let d = AssDocument {
            script_info: ScriptInfo::new(),
            styles: Vec::new(),
            events: Vec::new(),
            attachments: Vec::new(),
        };
        assert(d@.styles =~= Seq::<StyleView>::empty());
        assert(d@.events =~= Seq::<EventView>::empty());
        assert(d@.attachments =~= Seq::<AttachmentView>::empty());
        d
    }

    /// Parse an ASS script.
    pub fn parse(input: &str) -> (r: Result<AssDocument, ParseError>)
        requires
            input@.len() < usize::MAX,
        ensures
            match r {
                Ok(d) => spec_parse_doc(input@) == Ok::<DocView, ParseErrorView>(d@),
                Err(e) => spec_parse_doc(input@) == Err::<DocView, ParseErrorView>(e@),
            },
    {
        let chars = str_chars(input);
        let lines = split_lines(chars.as_slice());
        proof {
            lemma_lines_from_len(input@, 0);
            assert(views_of(lines@) =~= spec_lines(input@));
        }
        AssDocument::parse_lines(&lines)
    }

    /// Parse an ASS script given as bytes (see `spec_parse_bytes`).
    pub fn parse_bytes(input: &[u8]) -> (r: Result<AssDocument, ParseError>)
        requires
            input@.len() <= MAX_DECODE_BYTES,
        ensures
            match r {
                Ok(d) => spec_parse_bytes(input@) == Ok::<DocView, ParseErrorView>(d@),
                Err(e) => spec_parse_bytes(input@) == Err::<DocView, ParseErrorView>(e@),
            },
    {
        crate::parser::input::parse_bytes(input)
    }

    /// Parse a script given by its lines (line `k` is source line `k + 1`).
    pub fn parse_lines(lines: &Vec<Vec<char>>) -> (r: Result<AssDocument, ParseError>)
        requires
            lines@.len() < usize::MAX,
        ensures
            match r {
                Ok(d) => spec_parse_lines(views_of(lines@)) == Ok::<DocView, ParseErrorView>(d@),
                Err(e) => spec_parse_lines(views_of(lines@)) == Err::<DocView, ParseErrorView>(e@),
            },
    {
        let ghost ls = views_of(lines@);
        let mut doc = AssDocument::new();
        let mut cur: Option<Section> = None;
        let mut sec_lines: Vec<Vec<char>> = Vec::new();
        let mut sec_start: usize = 0;
        let mut found = false;
        let mut text = false;
        let mut i: usize = 0;
        assert(views_of(sec_lines@) =~= Seq::<Seq<char>>::empty());
        while i < lines.len()
            invariant
                0 <= i <= lines@.len(),
                lines@.len() == ls.len(),
                ls == views_of(lines@),
                ls.len() < usize::MAX,
                sec_start <= i,
                sec_start + sec_lines@.len() <= i,
                doc_fold(ls, 0, init_state()) == doc_fold(
                    ls,
                    i as int,
                    state_of(doc, cur, sec_lines@, sec_start, found),
                ),
                text == exists|k: int| 0 <= k < i && #[trigger] trim(ls[k]).len() > 0,
            decreases lines@.len() - i,
        {
            let ghost pre = state_of(doc, cur, sec_lines@, sec_start, found);
            assert(ls[i as int] == lines@[i as int]@);
            let t = trim_chars(lines[i].as_slice());
            if t.len() > 0 {
                text = true;
            }
            match doc_line(&mut doc, &mut cur, &mut sec_lines, &mut sec_start, &mut found, i, &lines[i]) {
                Ok(()) => {},
                Err(e) => {
                    assert(doc_fold(ls, i as int, pre) == Err::<DocState, ParseErrorView>(e@));
                    return Err(e);
                },
            }
            i += 1;
        }
        let ghost last = state_of(doc, cur, sec_lines@, sec_start, found);
        assert(doc_fold(ls, 0, init_state()) == Ok::<DocState, ParseErrorView>(last));
        match close_open(&mut doc, cur, &sec_lines, sec_start) {
            Ok(()) => {},
            Err(e) => return Err(e),
        }
        assert(text == has_text(ls));
        if !found && text {
            return Err(ParseError::Unexpected(string_of_str("No valid ASS sections found")));
        }
        Ok(doc)
    }

    pub fn get_event_count(&self) -> (n: usize)
        ensures
            n == self.events@.len(),
    {
        self.events.len()
    }

    pub fn get_style_count(&self) -> (n: usize)
        ensures
            n == self.styles@.len(),
    {
        self.styles.len()
    }

    /// Total decoded attachment bytes across the document.
    pub fn total_attachment_bytes(&self) -> (n: usize)
        requires
            total_bytes(att_views(self.attachments@)) <= usize::MAX,
        ensures
            n == total_bytes(att_views(self.attachments@)),
    {
        let ghost av = att_views(self.attachments@);
        let mut n: usize = 0;
        let mut k: usize = 0;
        while k < self.attachments.len()
            invariant
                0 <= k <= self.attachments@.len(),
                av == att_views(self.attachments@),
                total_bytes(av) <= usize::MAX,
                n == total_bytes(av.take(k as int)),
            decreases self.attachments@.len() - k,
        {
            proof {
                assert(av.take(k + 1).drop_last() =~= av.take(k as int));
                lemma_total_bytes_prefix(av, k + 1);
            }
            n = n + self.attachments[k].data.len();
            k += 1;
        }
        assert(av.take(av.len() as int) =~= av);
        n
    }

    /// The events shown at `time_ms`, in document order.
    pub fn get_events_at_time(&self, time_ms: u64) -> (r: Vec<&Event>)
        ensures
            derefs(r@) == self.events@.filter(is_active(time_ms)),
    {
        get_events_at_time(self.events.as_slice(), time_ms)
    }

    /// The `Dialogue:` events, in document order.
    pub fn get_dialogue_events(&self) -> (r: Vec<&Event>)
        ensures
            derefs(r@) == self.events@.filter(is_dialogue_event()),
    {
        get_dialogue_events(self.events.as_slice())
    }

    /// The `Comment:` events, in document order.
    pub fn get_comment_events(&self) -> (r: Vec<&Event>)
        ensures
            derefs(r@) == self.events@.filter(is_comment_event()),
    {
        get_comment_events(self.events.as_slice())
    }

    /// The first style named `name`.
    pub fn find_style(&self, name: &str) -> (r: Option<&Style>)
        ensures
            match r {
                Some(s) => style_index(self.styles@, name@, 0) < self.styles@.len() && *s
                    == self.styles@[style_index(self.styles@, name@, 0)],
                None => style_index(self.styles@, name@, 0) == self.styles@.len(),
            },
    {
        let n = str_chars(name);
        let mut k: usize = 0;
        while k < self.styles.len()
            invariant
                0 <= k <= self.styles@.len(),
                n@ == name@,
                style_index(self.styles@, name@, k as int) == style_index(self.styles@, name@, 0),
            decreases self.styles@.len() - k,
        {
            let sn = str_chars(self.styles[k].name.as_str());
            if chars_eq(sn.as_slice(), n.as_slice()) {
                return Some(&self.styles[k]);
            }
            k += 1;
        }
        None
    }

    /// The first style named `Default`.
    pub fn get_default_style(&self) -> (r: Option<&Style>)
        ensures
            match r {
                Some(s) => style_index(self.styles@, "Default"@, 0) < self.styles@.len() && *s
                    == self.styles@[style_index(self.styles@, "Default"@, 0)],
                None => style_index(self.styles@, "Default"@, 0) == self.styles@.len(),
            },
    {
        self.find_style("Default")
    }

    /// Stable sort of the events by start time.
    pub fn sort_events_by_time(&mut self)
        ensures
            stably_sorted(old(self).events@, final(self).events@, SortKey::Start),
            final(self).script_info == old(self).script_info,
            final(self).styles == old(self).styles,
            final(self).attachments == old(self).attachments,
    {
        sort_events_by_time(&mut self.events);
    }

    /// Stable sort of the events by layer.
    pub fn sort_events_by_layer(&mut self)
        ensures
            stably_sorted(old(self).events@, final(self).events@, SortKey::Layer),
            final(self).script_info == old(self).script_info,
            final(self).styles == old(self).styles,
            final(self).attachments == old(self).attachments,
    {
        sort_events_by_layer(&mut self.events);
    }
}

impl Default for AssDocument {
    fn default() -> (d: AssDocument)
        ensures
            d@ == empty_doc(),
    {
        AssDocument::new()
    }
}

/// Index of the first style named `name` at or after `k`, or the count.
pub open spec fn style_index(styles: Seq<Style>, name: Seq<char>, k: int) -> int
    decreases styles.len() - k,
{
    if k < 0 || k >= styles.len() {
        styles.len() as int
    } else if styles[k].name@ == name {
        k
    } else {
        style_index(styles, name, k + 1)
    }
}

/// The summed data sizes of `atts`.
pub open spec fn total_bytes(atts: Seq<AttachmentView>) -> int
    decreases atts.len(),
{
    if atts.len() == 0 {
        0
    } else {
        total_bytes(atts.drop_last()) + atts.last().data.len()
    }
}

proof fn lemma_total_bytes_prefix(atts: Seq<AttachmentView>, k: int)
    requires
        0 <= k <= atts.len(),
    ensures
        total_bytes(atts.take(k)) <= total_bytes(atts),
    decreases atts.len(),
{
    if k < atts.len() {
        assert(atts.drop_last().take(k) =~= atts.take(k));
        lemma_total_bytes_prefix(atts.drop_last(), k);
    } else {
        assert(atts.take(k) =~= atts);
    }
}

} // verus!
