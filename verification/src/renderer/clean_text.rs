//! Event text without its override blocks: the characters that are
//! shown, with `\N`, `\n` and `\h` turned into what they stand for.
use crate::text::{is_digit, parse_i32, spec_parse_i32, str_chars, string_push, sub_chars};
use vstd::prelude::*;

verus! {

/// The end of the run of ASCII digits starting at `j`.
pub open spec fn digit_run_end(t: Seq<char>, j: int) -> int
    decreases t.len() - j,
{
    if j < 0 || j >= t.len() || !is_digit(t[j]) {
        j
    } else {
        digit_run_end(t, j + 1)
    }
}

/// A digit run ends at or after its start, inside the text.
pub proof fn lemma_digit_run_end(t: Seq<char>, j: int)
    requires
        0 <= j,
    ensures
        j <= digit_run_end(t, j),
        digit_run_end(t, j) <= t.len() || digit_run_end(t, j) == j,
        j <= t.len() ==> digit_run_end(t, j) <= t.len(),
    decreases t.len() - j,
{
    if j < t.len() && is_digit(t[j]) {
        lemma_digit_run_end(t, j + 1);
    }
}

/// What `\N`, `\n` or `\h` shows outside drawing mode.
pub open spec fn escape_text(n: char, wrap_style: i32) -> char {
    if n == 'N' {
        '\n'
    } else if n == 'n' {
        if wrap_style == 2 {
            '\n'
        } else {
            ' '
        }
    } else {
        '\u{A0}'
    }
}

/// Clean text of `t` from position `i` on, given whether an override
/// block is open and whether drawing mode is on; also the drawing mode
/// at the end.
/// - `{` opens a block and `}` closes it; neither is shown.
/// - `\N` is a line break, `\n` a space (a break under wrap style 2),
///   `\h` a no-break space; in drawing mode they stay as written.
/// - `\p` followed by digits that parse as an `i32` sets drawing mode
///   (on for a positive value); the digits are not shown.
/// - `\r` in a block ends drawing mode. Another `\` in a block is
///   dropped; outside a block it is shown. A final `\` is dropped.
/// - Other characters are shown outside blocks and in drawing mode.
pub open spec fn clean_from(t: Seq<char>, i: int, in_tag: bool, drawing: bool, wrap_style: i32) -> (
    Seq<char>,
    bool,
)
    decreases t.len() - i,
{
    if i < 0 || i >= t.len() {
        (Seq::empty(), drawing)
    } else {
        let c = t[i];
        if c == '{' {
            clean_from(t, i + 1, true, drawing, wrap_style)
        } else if c == '}' {
            clean_from(t, i + 1, false, drawing, wrap_style)
        } else if c == '\\' {
            if i + 1 >= t.len() {
                (Seq::empty(), drawing)
            } else {
                let n = t[i + 1];
                if n == 'N' || n == 'n' || n == 'h' {
                    let shown = if drawing {
                        seq!['\\', n]
                    } else {
                        seq![escape_text(n, wrap_style)]
                    };
                    let rest = clean_from(t, i + 2, in_tag, drawing, wrap_style);
                    (shown + rest.0, rest.1)
                } else if n == 'p' {
                    proof {
                        lemma_digit_run_end(t, i + 2);
                    }
                    let e = digit_run_end(t, i + 2);
                    let d = match spec_parse_i32(t.subrange(i + 2, e)) {
                        Some(m) => m > 0,
                        None => drawing,
                    };
                    clean_from(t, e, in_tag, d, wrap_style)
                } else if n == 'r' && in_tag {
                    clean_from(t, i + 2, in_tag, false, wrap_style)
                } else if in_tag {
                    clean_from(t, i + 1, in_tag, drawing, wrap_style)
                } else {
                    let rest = clean_from(t, i + 1, in_tag, drawing, wrap_style);
                    (seq!['\\'] + rest.0, rest.1)
                }
            }
        } else if !in_tag || drawing {
            let rest = clean_from(t, i + 1, in_tag, drawing, wrap_style);
            (seq![c] + rest.0, rest.1)
        } else {
            clean_from(t, i + 1, in_tag, drawing, wrap_style)
        }
    }
}

/// Event text without override blocks, and whether it ends in drawing
/// mode.
pub fn extract_clean_text(text: &str, wrap_style: i32) -> (r: (String, bool))
    ensures
        r.0@ == clean_from(text@, 0, false, false, wrap_style).0,
        r.1 == clean_from(text@, 0, false, false, wrap_style).1,
{
    let t = str_chars(text);
    let n = t.len();
    let mut out = String::new();
    let mut in_tag = false;
    let mut drawing = false;
    let mut i: usize = 0;
    let ghost whole = clean_from(t@, 0, false, false, wrap_style);
    assert(out@ + whole.0 =~= whole.0);
    while i < n
        invariant
            n == t@.len(),
            t@ == text@,
            i <= n,
            out@ + clean_from(t@, i as int, in_tag, drawing, wrap_style).0 == whole.0,
            clean_from(t@, i as int, in_tag, drawing, wrap_style).1 == whole.1,
        decreases n - i,
    {
        let ghost before = out@;
        let c = t[i];
        if c == '{' {
            in_tag = true;
            i += 1;
        } else if c == '}' {
            in_tag = false;
            i += 1;
        } else if c == '\\' {
            if i + 1 >= n {
                assert(out@ + Seq::<char>::empty() =~= out@);
                i = n;
                assert(clean_from(t@, n as int, in_tag, drawing, wrap_style).0 =~= Seq::<char>::empty());
            } else {
                let nx = t[i + 1];
                if nx == 'N' || nx == 'n' || nx == 'h' {
                    let ghost rest = clean_from(t@, i + 2, in_tag, drawing, wrap_style);
                    if drawing {
                        string_push(&mut out, '\\');
                        string_push(&mut out, nx);
                        assert(out@ + rest.0 =~= before + (seq!['\\', nx] + rest.0));
                    } else {
                        let shown = if nx == 'N' {
                            '\n'
                        } else if nx == 'n' {
                            if wrap_style == 2 {
                                '\n'
                            } else {
                                ' '
                            }
                        } else {
                            '\u{A0}'
                        };
                        string_push(&mut out, shown);
                        assert(out@ + rest.0 =~= before + (seq![escape_text(nx, wrap_style)] + rest.0));
                    }
                    i += 2;
                } else if nx == 'p' {
                    let mut e = i + 2;
                    while e < n && '0' <= t[e] && t[e] <= '9'
                        invariant
                            i + 2 <= e <= n,
                            n == t@.len(),
                            digit_run_end(t@, i + 2) == digit_run_end(t@, e as int),
                        decreases n - e,
                    {
                        e += 1;
                    }
                    let digits = sub_chars(t.as_slice(), i + 2, e);
                    match parse_i32(digits.as_slice()) {
                        Some(m) => {
                            drawing = m > 0;
                        },
                        None => {},
                    }
                    i = e;
                } else if nx == 'r' && in_tag {
                    drawing = false;
                    i += 2;
                } else if in_tag {
                    i += 1;
                } else {
                    let ghost rest = clean_from(t@, i + 1, in_tag, drawing, wrap_style);
                    string_push(&mut out, '\\');
                    assert(out@ + rest.0 =~= before + (seq!['\\'] + rest.0));
                    i += 1;
                }
            }
        } else if !in_tag || drawing {
            let ghost rest = clean_from(t@, i + 1, in_tag, drawing, wrap_style);
            string_push(&mut out, c);
            assert(out@ + rest.0 =~= before + (seq![c] + rest.0));
            i += 1;
        } else {
            i += 1;
        }
    }
    assert(out@ + Seq::<char>::empty() =~= out@);
    (out, drawing)
}

/// Text with no override block and no escape is shown as it is, and
/// never enters drawing mode.
pub proof fn lemma_plain_text_unchanged(t: Seq<char>, wrap_style: i32)
    requires
        forall|k: int| 0 <= k < t.len() ==> #[trigger] t[k] != '{' && t[k] != '}' && t[k] != '\\',
    ensures
        clean_from(t, 0, false, false, wrap_style) == (t, false),
{
    lemma_plain_from(t, 0, wrap_style);
    assert(t.subrange(0, t.len() as int) =~= t);
}

proof fn lemma_plain_from(t: Seq<char>, i: int, wrap_style: i32)
    requires
        0 <= i <= t.len(),
        forall|k: int| 0 <= k < t.len() ==> #[trigger] t[k] != '{' && t[k] != '}' && t[k] != '\\',
    ensures
        clean_from(t, i, false, false, wrap_style) == (t.subrange(i, t.len() as int), false),
    decreases t.len() - i,
{
    if i < t.len() {
        lemma_plain_from(t, i + 1, wrap_style);
        assert(seq![t[i]] + t.subrange(i + 1, t.len() as int) =~= t.subrange(i, t.len() as int));
    } else {
        assert(t.subrange(i, t.len() as int) =~= Seq::<char>::empty());
    }
}

} // verus!
