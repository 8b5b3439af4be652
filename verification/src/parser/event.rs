//! `[Events]` sections: `Format:` columns, `Dialogue:` / `Comment:` lines,
//! event queries and stable sorting.
use crate::charset::{decode_metadata_bytes, spec_decode_metadata, MAX_DECODE_BYTES};
use crate::parser::attachment::line_err;
use crate::parser::errors::{ParseError, ParseErrorView};
use crate::text::{
    dec_str, has_prefix_ci, lines_of, lowercase_str, parse_i32, push_chars, push_decimal,
    push_str, spec_parse_i32, split_all, split_all_chars, split_n, split_n_chars, starts_with_ci,
    str_chars, str_views, string_of, sub_chars, trim, trim_chars, unicode_lowercase, views_of,
    chars_eq,
};
use crate::types::event::{active_at, Event, EventType, EventView};
use crate::types::time::{spec_parse_time, Time};
use vstd::prelude::*;

verus! {

/// Defensive cap on events per file (untrusted subtitle input).
pub const MAX_EVENTS: usize = 100_000;

// ---------------------------------------------------------------------
// Format columns
// ---------------------------------------------------------------------
/// Column names of a `Format:` line: the comma-separated pieces, trimmed
/// and lowercased, empty ones dropped.
pub open spec fn columns_of(pieces: Seq<Seq<char>>) -> Seq<Seq<char>>
    decreases pieces.len(),
{
    if pieces.len() == 0 {
        Seq::empty()
    } else {
        let rest = columns_of(pieces.drop_last());
        let c = unicode_lowercase(trim(pieces.last()));
        if c.len() > 0 {
            rest.push(c)
        } else {
            rest
        }
    }
}

pub open spec fn spec_format_columns(fmt: Seq<char>) -> Seq<Seq<char>> {
    columns_of(split_all(fmt, ','))
}

/// Column names of a `Format:` line (the text after `Format:`).
pub fn parse_format_columns(fmt: &[char]) -> (r: Vec<Vec<char>>)
    ensures
        views_of(r@) == spec_format_columns(fmt@),
{
    let pieces = split_all_chars(fmt, ',');
    let ghost ps = split_all(fmt@, ',');
    let mut r: Vec<Vec<char>> = Vec::new();
    let mut k: usize = 0;
    assert(ps.take(0) =~= Seq::<Seq<char>>::empty());
    while k < pieces.len()
        invariant
            0 <= k <= pieces@.len(),
            pieces@.len() == ps.len(),
            forall|j: int| 0 <= j < pieces@.len() ==> (#[trigger] pieces@[j])@ == ps[j],
            views_of(r@) == columns_of(ps.take(k as int)),
        decreases pieces@.len() - k,
    {
        let t = trim_chars(pieces[k].as_slice());
        let ts = string_of(t.as_slice());
        let lower = lowercase_str(ts.as_str());
        let c = str_chars(lower.as_str());
        let ghost before = views_of(r@);
        proof {
            assert(ps.take(k + 1).drop_last() =~= ps.take(k as int));
            assert(ps.take(k + 1).last() == ps[k as int]);
        }
        if c.len() > 0 {
            r.push(c);
            assert(views_of(r@) =~= before.push(c@));
        }
        k += 1;
    }
    assert(ps.take(pieces@.len() as int) =~= ps);
    r
}

/// The column layout of a `[Events]` section without a `Format:` line.
pub open spec fn default_event_columns() -> Seq<Seq<char>> {
    seq![
        "layer"@,
        "start"@,
        "end"@,
        "style"@,
        "name"@,
        "marginl"@,
        "marginr"@,
        "marginv"@,
        "effect"@,
        "text"@,
    ]
}

fn push_col(r: &mut Vec<Vec<char>>, name: &str)
    ensures
        views_of(final(r)@) == views_of(old(r)@).push(name@),
{
    let v = str_chars(name);
    let ghost before = views_of(r@);
    r.push(v);
    assert(views_of(r@) =~= before.push(name@));
}

fn default_columns() -> (r: Vec<Vec<char>>)
    ensures
        views_of(r@) == default_event_columns(),
{
    let mut r: Vec<Vec<char>> = Vec::new();
    push_col(&mut r, "layer");
    push_col(&mut r, "start");
    push_col(&mut r, "end");
    push_col(&mut r, "style");
    push_col(&mut r, "name");
    push_col(&mut r, "marginl");
    push_col(&mut r, "marginr");
    push_col(&mut r, "marginv");
    push_col(&mut r, "effect");
    push_col(&mut r, "text");
    assert(views_of(r@) =~= default_event_columns());
    r
}

/// Index of the first column named `name`, or `cols.len()`.
pub open spec fn col_index(cols: Seq<Seq<char>>, name: Seq<char>, k: int) -> int
    decreases cols.len() - k,
{
    if k < 0 || k >= cols.len() {
        cols.len() as int
    } else if cols[k] == name {
        k
    } else {
        col_index(cols, name, k + 1)
    }
}

fn find_col(cols: &Vec<Vec<char>>, name: &str) -> (r: usize)
    ensures
        r == col_index(views_of(cols@), name@, 0),
        r <= cols@.len(),
{
    let n = str_chars(name);
    let ghost cs = views_of(cols@);
    let mut k: usize = 0;
    while k < cols.len()
        invariant
            0 <= k <= cols@.len(),
            cs == views_of(cols@),
            n@ == name@,
            col_index(cs, name@, k as int) == col_index(cs, name@, 0),
        decreases cols@.len() - k,
    {
        if chars_eq(cols[k].as_slice(), n.as_slice()) {
            return k;
        }
        k += 1;
    }
    k
}

// ---------------------------------------------------------------------
// Event lines
// ---------------------------------------------------------------------
/// The event kind of a line and the length of its keyword.
pub open spec fn event_kind(line: Seq<char>) -> Option<(EventType, int)> {
    if starts_with_ci(line, "Dialogue:"@) {
        Some((EventType::Dialogue, 9))
    } else if starts_with_ci(line, "Comment:"@) {
        Some((EventType::Comment, 8))
    } else {
        None
    }
}

/// Field values an event line does not set.
pub open spec fn base_event(t: EventType) -> EventView {
    EventView {
        event_type: t,
        layer: 0,
        start: 0,
        end: 0,
        style: "Default"@,
        name: Seq::empty(),
        margin_l: 0,
        margin_r: 0,
        margin_v: 0,
        effect: Seq::empty(),
        text: Seq::empty(),
    }
}

pub open spec fn invalid_value(col: Seq<char>, v: Seq<char>) -> Seq<char> {
    "Invalid value for field "@ + col + ": "@ + v
}

/// Store one field. `text` keeps its raw value; every other field is
/// trimmed first. Unknown columns are ignored.
pub open spec fn apply_field(ev: EventView, col: Seq<char>, raw: Seq<char>) -> Result<
    EventView,
    Seq<char>,
> {
    let v = trim(raw);
    if col == "layer"@ {
        match spec_parse_i32(v) {
            Some(x) => Ok(EventView { layer: x, ..ev }),
            None => Err(invalid_value(col, v)),
        }
    } else if col == "start"@ {
        match spec_parse_time(v) {
            Some(x) => Ok(EventView { start: x, ..ev }),
            None => Err("Invalid time format: "@ + v),
        }
    } else if col == "end"@ {
        match spec_parse_time(v) {
            Some(x) => Ok(EventView { end: x, ..ev }),
            None => Err("Invalid time format: "@ + v),
        }
    } else if col == "style"@ {
        Ok(EventView { style: v, ..ev })
    } else if col == "name"@ {
        Ok(EventView { name: v, ..ev })
    } else if col == "marginl"@ {
        match spec_parse_i32(v) {
            Some(x) => Ok(EventView { margin_l: x, ..ev }),
            None => Err(invalid_value(col, v)),
        }
    } else if col == "marginr"@ {
        match spec_parse_i32(v) {
            Some(x) => Ok(EventView { margin_r: x, ..ev }),
            None => Err(invalid_value(col, v)),
        }
    } else if col == "marginv"@ {
        match spec_parse_i32(v) {
            Some(x) => Ok(EventView { margin_v: x, ..ev }),
            None => Err(invalid_value(col, v)),
        }
    } else if col == "effect"@ {
        Ok(EventView { effect: v, ..ev })
    } else if col == "text"@ {
        Ok(EventView { text: raw, ..ev })
    } else {
        Ok(ev)
    }
}

pub open spec fn apply_fields(
    ev: EventView,
    cols: Seq<Seq<char>>,
    fields: Seq<Seq<char>>,
    k: int,
) -> Result<EventView, Seq<char>>
    decreases cols.len() - k,
{
    if k < 0 || k >= cols.len() || k >= fields.len() {
        Ok(ev)
    } else {
        match apply_field(ev, cols[k], fields[k]) {
            Ok(next) => apply_fields(next, cols, fields, k + 1),
            Err(e) => Err(e),
        }
    }
}

/// An event line under the given columns: the keyword, then the fields
/// split at commas into exactly as many pieces as there are columns,
/// the last column (which must be `text`) taking the rest of the line.
/// `start` and `end` are required.
pub open spec fn spec_parse_event(line: Seq<char>, cols: Seq<Seq<char>>) -> Result<
    EventView,
    Seq<char>,
> {
    match event_kind(line) {
        None => Err("Line is not a Dialogue or Comment event"@),
        Some((t, plen)) => {
            let n = cols.len();
            let rest = line.subrange(plen, line.len() as int);
            if col_index(cols, "text"@, 0) >= n {
                Err("Missing required field: text"@)
            } else if col_index(cols, "text"@, 0) != n - 1 {
                Err("Text must be the last column"@)
            } else if col_index(cols, "start"@, 0) >= n {
                Err("Missing required field: start"@)
            } else if col_index(cols, "end"@, 0) >= n {
                Err("Missing required field: end"@)
            } else {
                let fields = split_n(rest, ',', n as nat);
                if fields.len() < n {
                    Err(
                        "Field count mismatch: expected "@ + dec_str(n) + ", got "@ + dec_str(
                            fields.len(),
                        ),
                    )
                } else {
                    apply_fields(base_event(t), cols, fields, 0)
                }
            }
        },
    }
}

/// The columns an event line is read with: the section's `Format:`
/// columns when present and non-empty, else the default layout.
pub open spec fn effective_columns(fmt: Option<Seq<Seq<char>>>) -> Seq<Seq<char>> {
    match fmt {
        Some(c) => if c.len() > 0 {
            c
        } else {
            default_event_columns()
        },
        None => default_event_columns(),
    }
}

fn msg(s: &str) -> (r: String)
    ensures
        r@ == s@,
{
    crate::text::string_of_str(s)
}

fn is_col(c: &Vec<char>, name: &str) -> (b: bool)
    ensures
        b == (c@ == name@),
{
    let n = str_chars(name);
    chars_eq(c.as_slice(), n.as_slice())
}

fn parse_i32_field(col: &Vec<char>, v: &Vec<char>) -> (r: Result<i32, String>)
    ensures
        match r {
            Ok(x) => spec_parse_i32(v@) == Some(x),
            Err(m) => spec_parse_i32(v@) is None && m@ == invalid_value(col@, v@),
        },
{
    match parse_i32(v.as_slice()) {
        Some(x) => Ok(x),
        None => {
            let mut m = String::new();
            push_str(&mut m, "Invalid value for field ");
            push_chars(&mut m, col.as_slice());
            push_str(&mut m, ": ");
            push_chars(&mut m, v.as_slice());
            Err(m)
        },
    }
}

fn parse_time_field(v: &Vec<char>) -> (r: Result<Time, String>)
    ensures
        match r {
            Ok(t) => spec_parse_time(v@) == Some(t.millis),
            Err(m) => spec_parse_time(v@) is None && m@ == "Invalid time format: "@ + v@,
        },
{
    match Time::parse_chars(v.as_slice()) {
        Some(t) => Ok(t),
        None => {
            let mut m = String::new();
            push_str(&mut m, "Invalid time format: ");
            push_chars(&mut m, v.as_slice());
            Err(m)
        },
    }
}

fn apply_field_exec(ev: &mut Event, col: &Vec<char>, raw: &Vec<char>) -> (r: Result<(), String>)
    ensures
        match r {
            Ok(()) => apply_field(old(ev)@, col@, raw@) == Ok::<EventView, Seq<char>>(final(ev)@),
            Err(m) => apply_field(old(ev)@, col@, raw@) == Err::<EventView, Seq<char>>(m@),
        },
{
    let v = trim_chars(raw.as_slice());
    if is_col(col, "layer") {
        match parse_i32_field(col, &v) {
            Ok(x) => {
                ev.layer = x;
            },
            Err(m) => return Err(m),
        }
    } else if is_col(col, "start") {
        match parse_time_field(&v) {
            Ok(t) => {
                ev.start = t;
            },
            Err(m) => return Err(m),
        }
    } else if is_col(col, "end") {
        match parse_time_field(&v) {
            Ok(t) => {
                ev.end = t;
            },
            Err(m) => return Err(m),
        }
    } else if is_col(col, "style") {
        ev.style = string_of(v.as_slice());
    } else if is_col(col, "name") {
        ev.name = string_of(v.as_slice());
    } else if is_col(col, "marginl") {
        match parse_i32_field(col, &v) {
            Ok(x) => {
                ev.margin_l = x;
            },
            Err(m) => return Err(m),
        }
    } else if is_col(col, "marginr") {
        match parse_i32_field(col, &v) {
            Ok(x) => {
                ev.margin_r = x;
            },
            Err(m) => return Err(m),
        }
    } else if is_col(col, "marginv") {
        match parse_i32_field(col, &v) {
            Ok(x) => {
                ev.margin_v = x;
            },
            Err(m) => return Err(m),
        }
    } else if is_col(col, "effect") {
        ev.effect = string_of(v.as_slice());
    } else if is_col(col, "text") {
        ev.text = string_of(raw.as_slice());
    }
    Ok(())
}

impl Event {
    /// Parse an event line with the given columns (`None` or an empty
    /// list: the default layout).
    pub fn parse_from_line_with_format(line: &[char], format: Option<&Vec<Vec<char>>>) -> (r: Result<
        Event,
        String,
    >)
        ensures
            ({
                let cols = match format {
                    Some(c) => Some(views_of(c@)),
                    None => None,
                };
                match r {
                    Ok(e) => spec_parse_event(line@, effective_columns(cols)) == Ok::<
                        EventView,
                        Seq<char>,
                    >(e@),
                    Err(m) => spec_parse_event(line@, effective_columns(cols)) == Err::<
                        EventView,
                        Seq<char>,
                    >(m@),
                }
            }),
    {
        let dflt = default_columns();
        let cols: &Vec<Vec<char>> = match format {
            Some(c) => if c.len() > 0 {
                c
            } else {
                &dflt
            },
            None => &dflt,
        };
        let ghost cs = views_of(cols@);
        let dia = str_chars("Dialogue:");
        let com = str_chars("Comment:");
        let (t, plen) = if has_prefix_ci(line, dia.as_slice()) {
            proof {
                reveal_strlit("Dialogue:");
            }
            (EventType::Dialogue, 9usize)
        } else if has_prefix_ci(line, com.as_slice()) {
            proof {
                reveal_strlit("Comment:");
            }
            (EventType::Comment, 8usize)
        } else {
            return Err(msg("Line is not a Dialogue or Comment event"));
        };
        let n = cols.len();
        let ti = find_col(cols, "text");
        if ti >= n {
            return Err(msg("Missing required field: text"));
        }
        if ti != n - 1 {
            return Err(msg("Text must be the last column"));
        }
        if find_col(cols, "start") >= n {
            return Err(msg("Missing required field: start"));
        }
        if find_col(cols, "end") >= n {
            return Err(msg("Missing required field: end"));
        }
        let rest = sub_chars(line, plen, line.len());
        let fields = split_n_chars(rest.as_slice(), ',', n);
        let ghost fs = split_n(rest@, ',', n as nat);
        if fields.len() < n {
            let mut m = String::new();
            push_str(&mut m, "Field count mismatch: expected ");
            push_decimal(&mut m, n as u64);
            push_str(&mut m, ", got ");
            push_decimal(&mut m, fields.len() as u64);
            return Err(m);
        }
        let mut ev = Event {
            event_type: t,
            layer: 0,
            start: Time { millis: 0 },
            end: Time { millis: 0 },
            style: msg("Default"),
            name: String::new(),
            margin_l: 0,
            margin_r: 0,
            margin_v: 0,
            effect: String::new(),
            text: String::new(),
        };
        assert(ev@ == base_event(t));
        let ghost fv = match format {
            Some(c) => Some(views_of(c@)),
            None => None,
        };
        assert(cs == effective_columns(fv));
        assert(spec_parse_event(line@, cs) == apply_fields(base_event(t), cs, fs, 0));
        let mut k: usize = 0;
        while k < n
            invariant
                0 <= k <= n,
                n == cols@.len(),
                cs == views_of(cols@),
                fields@.len() >= n,
                forall|j: int| 0 <= j < fields@.len() ==> (#[trigger] fields@[j])@ == fs[j],
                fs.len() == fields@.len(),
                apply_fields(base_event(t), cs, fs, 0) == apply_fields(ev@, cs, fs, k as int),
                cs == effective_columns(fv),
                spec_parse_event(line@, cs) == apply_fields(base_event(t), cs, fs, 0),
                fv == match format {
                    Some(c) => Some(views_of(c@)),
                    None => None,
                },
            decreases n - k,
        {
            let ghost pre = ev@;
            assert(cs[k as int] == cols@[k as int]@);
            assert(fs[k as int] == fields@[k as int]@);
            match apply_field_exec(&mut ev, &cols[k], &fields[k]) {
                Ok(()) => {},
                Err(m) => {
                    assert(apply_fields(pre, cs, fs, k as int) == Err::<EventView, Seq<char>>(
                        m@,
                    ));
                    return Err(m);
                },
            }
            k += 1;
        }
        Ok(ev)
    }
}

impl Event {
    /// Parse an event line with the default column layout.
    pub fn parse_from_line(line: &str) -> (r: Result<Event, String>)
        ensures
            match r {
                Ok(e) => spec_parse_event(line@, default_event_columns()) == Ok::<
                    EventView,
                    Seq<char>,
                >(e@),
                Err(m) => spec_parse_event(line@, default_event_columns()) == Err::<
                    EventView,
                    Seq<char>,
                >(m@),
            },
    {
        let cs = str_chars(line);
        Event::parse_from_line_with_format(cs.as_slice(), None)
    }
}

// ---------------------------------------------------------------------
// Section
// ---------------------------------------------------------------------
/// Parser state between lines of an `[Events]` section.
pub struct EvState {
    pub events: Seq<EventView>,
    pub format: Option<Seq<Seq<char>>>,
}

pub open spec fn too_many_events() -> Seq<char> {
    "Too many events (limit "@ + dec_str(MAX_EVENTS as nat) + ")"@
}

/// One line of an `[Events]` section: blank lines and `;` comments are
/// skipped, `Format:` sets the columns, `Dialogue:` / `Comment:` adds an
/// event, anything else is ignored.
pub open spec fn ev_step(start: int, i: int, raw: Seq<char>, st: EvState) -> Result<
    EvState,
    ParseErrorView,
> {
    let line = trim(raw);
    if line.len() == 0 || line[0] == ';' {
        Ok(st)
    } else if starts_with_ci(line, "Format:"@) {
        Ok(
            EvState {
                events: st.events,
                format: Some(spec_format_columns(line.subrange(7, line.len() as int))),
            },
        )
    } else if event_kind(line) is Some {
        if st.events.len() >= MAX_EVENTS {
            Err(line_err(start + i, too_many_events()))
        } else {
            match spec_parse_event(line, effective_columns(st.format)) {
                Ok(e) => Ok(EvState { events: st.events.push(e), format: st.format }),
                Err(m) => Err(line_err(start + i, m)),
            }
        }
    } else {
        Ok(st)
    }
}

pub open spec fn ev_fold(start: int, lines: Seq<Seq<char>>, i: int, st: EvState) -> Result<
    EvState,
    ParseErrorView,
>
    decreases lines.len() - i,
{
    if i < 0 || i >= lines.len() {
        Ok(st)
    } else {
        match ev_step(start, i, lines[i], st) {
            Ok(next) => ev_fold(start, lines, i + 1, next),
            Err(e) => Err(e),
        }
    }
}

/// The events of a section's lines.
pub open spec fn spec_parse_events(lines: Seq<Seq<char>>, start: int) -> Result<
    Seq<EventView>,
    ParseErrorView,
> {
    match ev_fold(start, lines, 0, EvState { events: Seq::empty(), format: None }) {
        Ok(st) => Ok(st.events),
        Err(e) => Err(e),
    }
}

pub open spec fn event_views(v: Seq<Event>) -> Seq<EventView> {
    v.map_values(|e: Event| e@)
}

pub open spec fn format_view(f: Option<Vec<Vec<char>>>) -> Option<Seq<Seq<char>>> {
    match f {
        Some(c) => Some(views_of(c@)),
        None => None,
    }
}

fn ev_step_exec(
    start: usize,
    i: usize,
    raw: &Vec<char>,
    events: &mut Vec<Event>,
    format: &mut Option<Vec<Vec<char>>>,
) -> (r: Result<(), ParseError>)
    requires
        start + i <= usize::MAX,
    ensures
        match r {
            Ok(()) => ev_step(
                start as int,
                i as int,
                raw@,
                EvState { events: event_views(old(events)@), format: format_view(*old(format)) },
            ) == Ok::<EvState, ParseErrorView>(
                EvState { events: event_views(final(events)@), format: format_view(*final(format)) },
            ),
            Err(e) => ev_step(
                start as int,
                i as int,
                raw@,
                EvState { events: event_views(old(events)@), format: format_view(*old(format)) },
            ) == Err::<EvState, ParseErrorView>(e@),
        },
{
    let line = trim_chars(raw.as_slice());
    if line.len() == 0 || line[0] == ';' {
        return Ok(());
    }
    let fmt = str_chars("Format:");
    if has_prefix_ci(line.as_slice(), fmt.as_slice()) {
        proof {
            reveal_strlit("Format:");
        }
        let rest = sub_chars(line.as_slice(), 7, line.len());
        let cols = parse_format_columns(rest.as_slice());
        *format = Some(cols);
        return Ok(());
    }
    let dia = str_chars("Dialogue:");
    let com = str_chars("Comment:");
    if has_prefix_ci(line.as_slice(), dia.as_slice()) || has_prefix_ci(
        line.as_slice(),
        com.as_slice(),
    ) {
        if events.len() >= MAX_EVENTS {
            let mut m = String::new();
            push_str(&mut m, "Too many events (limit ");
            push_decimal(&mut m, MAX_EVENTS as u64);
            push_str(&mut m, ")");
            return Err(ParseError::line_error(start + i, m));
        }
        let parsed = match format {
            Some(c) => Event::parse_from_line_with_format(line.as_slice(), Some(c)),
            None => Event::parse_from_line_with_format(line.as_slice(), None),
        };
        match parsed {
            Ok(e) => {
                let ghost before = event_views(events@);
                events.push(e);
                assert(event_views(events@) =~= before.push(e@));
                Ok(())
            },
            Err(m) => Err(ParseError::line_error(start + i, m)),
        }
    } else {
        Ok(())
    }
}

pub fn parse_event_lines(lines: &Vec<Vec<char>>, start_line: usize) -> (r: Result<
    Vec<Event>,
    ParseError,
>)
    requires
        start_line + lines@.len() <= usize::MAX,
    ensures
        match r {
            Ok(v) => spec_parse_events(views_of(lines@), start_line as int) == Ok::<
                Seq<EventView>,
                ParseErrorView,
            >(event_views(v@)),
            Err(e) => spec_parse_events(views_of(lines@), start_line as int) == Err::<
                Seq<EventView>,
                ParseErrorView,
            >(e@),
        },
{
    let ghost ls = views_of(lines@);
    let mut events: Vec<Event> = Vec::new();
    let mut format: Option<Vec<Vec<char>>> = None;
    let ghost init = EvState { events: Seq::empty(), format: None };
    assert(event_views(events@) =~= Seq::<EventView>::empty());
    let mut i: usize = 0;
    while i < lines.len()
        invariant
            0 <= i <= lines@.len(),
            ls == views_of(lines@),
            init == (EvState { events: Seq::empty(), format: None }),
            start_line + lines@.len() <= usize::MAX,
            ev_fold(start_line as int, ls, 0, init) == ev_fold(
                start_line as int,
                ls,
                i as int,
                EvState { events: event_views(events@), format: format_view(format) },
            ),
        decreases lines@.len() - i,
    {
        let ghost pre = EvState { events: event_views(events@), format: format_view(format) };
        assert(ls[i as int] == lines@[i as int]@);
        match ev_step_exec(start_line, i, &lines[i], &mut events, &mut format) {
            Ok(()) => {},
            Err(e) => {
                assert(ev_fold(start_line as int, ls, i as int, pre) == Err::<
                    EvState,
                    ParseErrorView,
                >(e@));
                return Err(e);
            },
        }
        i += 1;
    }
    Ok(events)
}

/// Parse the lines of an `[Events]` section.
pub fn parse_events(lines: &[&str], start_line: usize) -> (r: Result<Vec<Event>, ParseError>)
    requires
        start_line + lines@.len() <= usize::MAX,
    ensures
        match r {
            Ok(v) => spec_parse_events(str_views(lines@), start_line as int) == Ok::<
                Seq<EventView>,
                ParseErrorView,
            >(event_views(v@)),
            Err(e) => spec_parse_events(str_views(lines@), start_line as int) == Err::<
                Seq<EventView>,
                ParseErrorView,
            >(e@),
        },
{
    let ls = lines_of(lines);
    parse_event_lines(&ls, start_line)
}


/// Byte lines of an `[Events]` section: each line is decoded as metadata
/// (valid UTF-8 kept, other runs read as Windows-1252), then parsed as
/// text.
pub fn parse_events_bytes(lines: &[&[u8]], start_line: usize) -> (r: Result<Vec<Event>, ParseError>)
    requires
        start_line + lines@.len() <= usize::MAX,
        forall|k: int| 0 <= k < lines@.len() ==> (#[trigger] lines@[k])@.len() <= MAX_DECODE_BYTES,
    ensures
        match r {
            Ok(v) => spec_parse_events(
                lines@.map_values(|l: &[u8]| spec_decode_metadata(l@, 1)),
                start_line as int,
            ) == Ok::<Seq<EventView>, ParseErrorView>(event_views(v@)),
            Err(e) => spec_parse_events(
                lines@.map_values(|l: &[u8]| spec_decode_metadata(l@, 1)),
                start_line as int,
            ) == Err::<Seq<EventView>, ParseErrorView>(e@),
        },
{
    let mut decoded: Vec<Vec<char>> = Vec::new();
    let mut k: usize = 0;
    while k < lines.len()
        invariant
            0 <= k <= lines@.len(),
            forall|j: int| 0 <= j < lines@.len() ==> (#[trigger] lines@[j])@.len() <= MAX_DECODE_BYTES,
            decoded@.len() == k,
            forall|j: int| 0 <= j < k ==> (#[trigger] decoded@[j])@ == spec_decode_metadata(lines@[j]@, 1),
        decreases lines@.len() - k,
    {
        let text = decode_metadata_bytes(lines[k], 1);
        decoded.push(str_chars(text.as_str()));
        k += 1;
    }
    assert(views_of(decoded@) =~= lines@.map_values(|l: &[u8]| spec_decode_metadata(l@, 1)));
    parse_event_lines(&decoded, start_line)
}

// ---------------------------------------------------------------------
// Queries
// ---------------------------------------------------------------------
pub open spec fn derefs(v: Seq<&Event>) -> Seq<Event> {
    v.map_values(|e: &Event| *e)
}

pub open spec fn is_active(t: u64) -> spec_fn(Event) -> bool {
    |e: Event| active_at(e@, t)
}

pub open spec fn is_dialogue_event() -> spec_fn(Event) -> bool {
    |e: Event| e.event_type == EventType::Dialogue
}

pub open spec fn is_comment_event() -> spec_fn(Event) -> bool {
    |e: Event| e.event_type == EventType::Comment
}

/// The events shown at `time_ms`, in their order.
pub fn get_events_at_time(events: &[Event], time_ms: u64) -> (r: Vec<&Event>)
    ensures
        derefs(r@) == events@.filter(is_active(time_ms)),
{
    let mut r: Vec<&Event> = Vec::new();
    let mut i: usize = 0;
    while i < events.len()
        invariant
            0 <= i <= events@.len(),
            derefs(r@) == events@.take(i as int).filter(is_active(time_ms)),
        decreases events@.len() - i,
    {
        let ghost before = derefs(r@);
        proof {
            events@.take(i as int).lemma_filter_push(events@[i as int], is_active(time_ms));
            assert(events@.take(i + 1) =~= events@.take(i as int).push(events@[i as int]));
        }
        if events[i].is_active_at(time_ms) {
            r.push(&events[i]);
            assert(derefs(r@) =~= before.push(events@[i as int]));
        }
        i += 1;
    }
    assert(events@.take(events@.len() as int) =~= events@);
    r
}

/// The `Dialogue:` events, in their order.
pub fn get_dialogue_events(events: &[Event]) -> (r: Vec<&Event>)
    ensures
        derefs(r@) == events@.filter(is_dialogue_event()),
{
    let mut r: Vec<&Event> = Vec::new();
    let mut i: usize = 0;
    while i < events.len()
        invariant
            0 <= i <= events@.len(),
            derefs(r@) == events@.take(i as int).filter(is_dialogue_event()),
        decreases events@.len() - i,
    {
        let ghost before = derefs(r@);
        proof {
            events@.take(i as int).lemma_filter_push(events@[i as int], is_dialogue_event());
            assert(events@.take(i + 1) =~= events@.take(i as int).push(events@[i as int]));
        }
        if events[i].is_dialogue() {
            r.push(&events[i]);
            assert(derefs(r@) =~= before.push(events@[i as int]));
        }
        i += 1;
    }
    assert(events@.take(events@.len() as int) =~= events@);
    r
}

/// The `Comment:` events, in their order.
pub fn get_comment_events(events: &[Event]) -> (r: Vec<&Event>)
    ensures
        derefs(r@) == events@.filter(is_comment_event()),
{
    let mut r: Vec<&Event> = Vec::new();
    let mut i: usize = 0;
    while i < events.len()
        invariant
            0 <= i <= events@.len(),
            derefs(r@) == events@.take(i as int).filter(is_comment_event()),
        decreases events@.len() - i,
    {
        let ghost before = derefs(r@);
        proof {
            events@.take(i as int).lemma_filter_push(events@[i as int], is_comment_event());
            assert(events@.take(i + 1) =~= events@.take(i as int).push(events@[i as int]));
        }
        if events[i].is_comment() {
            r.push(&events[i]);
            assert(derefs(r@) =~= before.push(events@[i as int]));
        }
        i += 1;
    }
    assert(events@.take(events@.len() as int) =~= events@);
    r
}

// ---------------------------------------------------------------------
// Stable sorting
// ---------------------------------------------------------------------
/// What events are ordered by.
#[derive(Debug, Clone, Copy, PartialEq, Eq, Structural)]
pub enum SortKey {
    Layer,
    Start,
}

pub open spec fn sort_key(e: Event, by: SortKey) -> int {
    match by {
        SortKey::Layer => e.layer as int,
        SortKey::Start => e.start.millis as int,
    }
}

pub open spec fn sorted_by(s: Seq<Event>, by: SortKey) -> bool {
    forall|i: int, j: int| 0 <= i <= j < s.len() ==> sort_key(s[i], by) <= sort_key(s[j], by)
}

/// The events whose key is `k`.
pub open spec fn key_is(by: SortKey, k: int) -> spec_fn(Event) -> bool {
    |e: Event| sort_key(e, by) == k
}

/// A stable sort of `before` by `by`: ordered by key, and the events of
/// each key in the order they had.
pub open spec fn stably_sorted(before: Seq<Event>, after: Seq<Event>, by: SortKey) -> bool {
    &&& sorted_by(after, by)
    &&& forall|k: int| #[trigger] after.filter(key_is(by, k)) == before.filter(key_is(by, k))
    &&& after.to_multiset() == before.to_multiset()
}

fn key_less(e: &Event, x: &Event, by: SortKey) -> (b: bool)
    ensures
        b == (sort_key(*e, by) < sort_key(*x, by)),
{
    match by {
        SortKey::Layer => e.layer < x.layer,
        SortKey::Start => e.start.millis < x.start.millis,
    }
}

proof fn lemma_filter_none(s: Seq<Event>, p: spec_fn(Event) -> bool)
    requires
        forall|i: int| 0 <= i < s.len() ==> !p(#[trigger] s[i]),
    ensures
        s.filter(p) == Seq::<Event>::empty(),
    decreases s.len(),
{
    reveal(Seq::filter);
    if s.len() > 0 {
        lemma_filter_none(s.drop_last(), p);
    }
}

/// Inserting `x` before the first element whose key is not below its own
/// keeps `out` sorted and puts `x` first among the events of its key.
proof fn lemma_insert_keeps(out: Seq<Event>, p: int, x: Event, by: SortKey)
    requires
        sorted_by(out, by),
        0 <= p <= out.len(),
        forall|i: int| 0 <= i < p ==> sort_key(#[trigger] out[i], by) < sort_key(x, by),
        p < out.len() ==> sort_key(out[p], by) >= sort_key(x, by),
    ensures
        sorted_by(out.insert(p, x), by),
        forall|k: int| #[trigger] out.insert(p, x).filter(key_is(by, k)) == (seq![x] + out).filter(
            key_is(by, k),
        ),
{
    let n = out.insert(p, x);
    assert forall|i: int, j: int| 0 <= i <= j < n.len() implies sort_key(n[i], by) <= sort_key(
        n[j],
        by,
    ) by {
        if j < p {
        } else if j == p {
        } else if i < p {
            assert(n[j] == out[j - 1]);
        } else if i == p {
            assert(n[j] == out[j - 1]);
            assert(sort_key(out[p], by) <= sort_key(out[j - 1], by));
        } else {
            assert(n[i] == out[i - 1]);
            assert(n[j] == out[j - 1]);
        }
    }
    assert forall|k: int| #[trigger] n.filter(key_is(by, k)) == (seq![x] + out).filter(
        key_is(by, k),
    ) by {
        let pk = key_is(by, k);
        let a = out.take(p);
        let b = out.skip(p);
        assert(n =~= a + (seq![x] + b));
        assert(out =~= a + b);
        Seq::filter_distributes_over_add(a, seq![x] + b, pk);
        Seq::filter_distributes_over_add(a, b, pk);
        b.lemma_filter_prepend(x, pk);
        out.lemma_filter_prepend(x, pk);
        if sort_key(x, by) == k {
            lemma_filter_none(a, pk);
            assert(a.filter(pk) + (seq![x] + b.filter(pk)) =~= seq![x] + (a.filter(pk) + b.filter(
                pk,
            )));
        } else {
            assert(seq![x].filter(pk) =~= Seq::<Event>::empty()) by {
                reveal_with_fuel(Seq::filter, 2);
            }
            assert(a.filter(pk) + (Seq::<Event>::empty() + b.filter(pk)) =~= Seq::<Event>::empty()
                + (a.filter(pk) + b.filter(pk)));
        }
    }
}

/// Stable insertion sort of `events` by `by`.
pub fn sort_events_stable(events: &mut Vec<Event>, by: SortKey)
    ensures
        stably_sorted(old(events)@, final(events)@, by),
{
    let ghost orig = events@;
    let mut src: Vec<Event> = Vec::new();
    std::mem::swap(events, &mut src);
    let mut out: Vec<Event> = Vec::new();
    assert(orig.skip(orig.len() as int) =~= out@);
    while src.len() > 0
        invariant
            src@.len() <= orig.len(),
            src@ == orig.take(src@.len() as int),
            sorted_by(out@, by),
            forall|k: int| #[trigger] out@.filter(key_is(by, k)) == orig.skip(
                src@.len() as int,
            ).filter(key_is(by, k)),
            out@.to_multiset() == orig.skip(src@.len() as int).to_multiset(),
        decreases src@.len(),
    {
        let ghost i = src@.len() as int;
        let x = src.pop().unwrap();
        assert(x == orig[i - 1]);
        assert(orig.skip(i - 1) =~= seq![x] + orig.skip(i));
        let mut p: usize = 0;
        while p < out.len() && key_less(&out[p], &x, by)
            invariant
                0 <= p <= out@.len(),
                forall|j: int| 0 <= j < p ==> sort_key(#[trigger] out@[j], by) < sort_key(x, by),
            decreases out@.len() - p,
        {
            p += 1;
        }
        proof {
            lemma_insert_keeps(out@, p as int, x, by);
            broadcast use vstd::seq_lib::group_to_multiset_ensures;

            assert forall|k: int| #[trigger] orig.skip(i - 1).filter(key_is(by, k)) == (seq![x]
                + orig.skip(i)).filter(key_is(by, k)) by {}
            assert forall|k: int| #[trigger] (seq![x] + out@).filter(key_is(by, k)) == (seq![x]
                + orig.skip(i)).filter(key_is(by, k)) by {
                out@.lemma_filter_prepend(x, key_is(by, k));
                orig.skip(i).lemma_filter_prepend(x, key_is(by, k));
            }
            vstd::seq_lib::lemma_multiset_commutative(seq![x], out@);
            vstd::seq_lib::lemma_multiset_commutative(seq![x], orig.skip(i));
        }
        out.insert(p, x);
        assert(src@ =~= orig.take(src@.len() as int));
    }
    assert(orig.skip(0) =~= orig);
    *events = out;
}

/// Stable sort by layer: equal layers keep their order.
pub fn sort_events_by_layer(events: &mut Vec<Event>)
    ensures
        stably_sorted(old(events)@, final(events)@, SortKey::Layer),
{
    sort_events_stable(events, SortKey::Layer);
}

/// Stable sort by start time: equal start times keep their order.
pub fn sort_events_by_time(events: &mut Vec<Event>)
    ensures
        stably_sorted(old(events)@, final(events)@, SortKey::Start),
{
    sort_events_stable(events, SortKey::Start);
}

} // verus!
