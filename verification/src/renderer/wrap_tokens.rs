//! Words for line wrapping: event text cut into words, each carrying the
//! override blocks before it, and the explicit breaks that split the
//! text into separately wrapped runs. Measuring and placing the words
//! is floating-point work for the caller.
use crate::renderer::clean_text::{digit_run_end, lemma_digit_run_end};
use crate::renderer::shaper::{cjk_break_between, spec_cjk_break};
use crate::text::{
    find_char, lemma_next_of_bounds, next_of, parse_i32, spec_parse_i32, str_chars, string_of, sub_chars,
};
use vstd::prelude::*;

verus! {

/// A word and the override blocks that came before it.
#[derive(Debug, Clone)]
pub struct WrapWord {
    pub prefix: String,
    pub text: String,
    /// A space separated it from the previous word.
    pub preceded_by_space: bool,
    /// Its text is drawing commands (measured as a shape, never split).
    pub is_drawing: bool,
    /// A piece split from the previous word at a CJK break opportunity:
    /// no space goes between them.
    pub glued_to_prev: bool,
}

pub struct WrapWordView {
    pub prefix: Seq<char>,
    pub text: Seq<char>,
    pub preceded_by_space: bool,
    pub is_drawing: bool,
    pub glued_to_prev: bool,
}

impl View for WrapWord {
    type V = WrapWordView;

    open spec fn view(&self) -> WrapWordView {
        WrapWordView {
            prefix: self.prefix@,
            text: self.text@,
            preceded_by_space: self.preceded_by_space,
            is_drawing: self.is_drawing,
            glued_to_prev: self.glued_to_prev,
        }
    }
}

/// The drawing state an override block leaves: its last `\p` with
/// digits that parse as an `i32` (on when positive), scanning from `i`;
/// `state` when there is none.
pub open spec fn block_drawing_from(g: Seq<char>, i: int, state: Option<bool>) -> Option<bool>
    decreases g.len() - i,
{
    if i < 0 || i + 1 >= g.len() {
        state
    } else if g[i] == '\\' && g[i + 1] == 'p' && digit_run_end(g, i + 2) > i + 2 {
        proof {
            lemma_digit_run_end(g, i + 2);
        }
        let j = digit_run_end(g, i + 2);
        let st = match spec_parse_i32(g.subrange(i + 2, j)) {
            Some(m) => Some(m > 0),
            None => state,
        };
        block_drawing_from(g, j, st)
    } else {
        block_drawing_from(g, i + 1, state)
    }
}

/// Where the override block opening at `i` ends: after its `}`, or at
/// the end of the text.
pub open spec fn block_end(t: Seq<char>, i: int) -> int {
    let c = next_of(t, '}', i + 1);
    if c < t.len() {
        c + 1
    } else {
        t.len() as int
    }
}

/// State of the cut: the blocks and the word being gathered, the words
/// so far, where each explicit-break run starts, whether a space came
/// before the word, whether the word holds drawing commands, and
/// whether drawing mode is on.
pub struct WrapScan {
    pub prefix: Seq<char>,
    pub word: Seq<char>,
    pub words: Seq<WrapWordView>,
    pub run_starts: Seq<usize>,
    pub spaced: bool,
    pub word_drawing: bool,
    pub in_drawing: bool,
}

/// Close the word being gathered (if it or its blocks are non-empty).
/// A word with text uses up the space before it.
pub open spec fn flush(st: WrapScan) -> WrapScan {
    if st.word.len() == 0 && st.prefix.len() == 0 {
        st
    } else {
        WrapScan {
            prefix: Seq::empty(),
            word: Seq::empty(),
            words: st.words.push(
                WrapWordView {
                    prefix: st.prefix,
                    text: st.word,
                    preceded_by_space: st.spaced,
                    is_drawing: st.word_drawing,
                    glued_to_prev: false,
                },
            ),
            spaced: if st.word.len() > 0 {
                false
            } else {
                st.spaced
            },
            word_drawing: false,
            ..st
        }
    }
}

/// A break between words (a space, or `\n` outside wrap style 2).
pub open spec fn soft_break(st: WrapScan) -> WrapScan {
    WrapScan { spaced: true, ..flush(st) }
}

/// An explicit break: a new run starts with the next word.
pub open spec fn hard_break(st: WrapScan) -> WrapScan {
    let f = flush(st);
    WrapScan { spaced: true, run_starts: f.run_starts.push(f.words.len() as usize), ..f }
}

/// The word gathers `s`.
pub open spec fn gather(st: WrapScan, s: Seq<char>, drawing: bool) -> WrapScan {
    WrapScan { word: st.word + s, word_drawing: st.word_drawing || drawing, ..st }
}

/// One step of the cut at `t[i]`: the position after it and the state.
/// - An override block is gathered whole: into the word in drawing
///   mode, else into the blocks of the next word (closing the current
///   one); its `\p` then sets drawing mode.
/// - In drawing mode `\` and the character after it are gathered.
/// - `\N`, and `\n` under wrap style 2, break the run; other `\n`,
///   spaces and tabs separate words (spaces and tabs are gathered in
///   drawing mode); `\h` is a no-break space; any other `\x` is kept.
pub open spec fn wrap_step(t: Seq<char>, i: int, st: WrapScan, wrap_style: i32) -> (int, WrapScan) {
    let c = t[i];
    if c == '{' {
        let e = block_end(t, i);
        let g = t.subrange(i, e);
        let st2 = if st.in_drawing {
            gather(st, g, true)
        } else {
            let f = flush(st);
            WrapScan { prefix: f.prefix + g, ..f }
        };
        let d = match block_drawing_from(g, 0, None) {
            Some(b) => b,
            None => st.in_drawing,
        };
        (e, WrapScan { in_drawing: d, ..st2 })
    } else if c == '\\' && st.in_drawing {
        if i + 1 < t.len() {
            (i + 2, gather(st, seq!['\\', t[i + 1]], true))
        } else {
            (i + 1, gather(st, seq!['\\'], true))
        }
    } else if c == '\\' {
        if i + 1 >= t.len() {
            (i + 1, gather(st, seq!['\\'], false))
        } else {
            let n = t[i + 1];
            if n == 'N' || (n == 'n' && wrap_style == 2) {
                (i + 2, hard_break(st))
            } else if n == 'n' {
                (i + 2, soft_break(st))
            } else if n == 'h' {
                (i + 2, gather(st, seq!['\u{A0}'], false))
            } else {
                (i + 2, gather(st, seq!['\\', n], false))
            }
        }
    } else if c == ' ' || c == '\t' {
        if st.in_drawing {
            (i + 1, gather(st, seq![c], true))
        } else {
            (i + 1, soft_break(st))
        }
    } else {
        (i + 1, gather(st, seq![c], st.in_drawing))
    }
}

pub proof fn lemma_block_end(t: Seq<char>, i: int)
    requires
        0 <= i < t.len(),
    ensures
        i < block_end(t, i) <= t.len(),
{
    lemma_next_of_bounds(t, '}', i + 1);
}

/// The cut of `t` from position `i` on, closing the last word at the end.
pub open spec fn wrap_scan(t: Seq<char>, i: int, st: WrapScan, wrap_style: i32) -> WrapScan
    decreases t.len() - i,
{
    if i < 0 || i >= t.len() {
        flush(st)
    } else {
        proof {
            lemma_block_end(t, i);
        }
        let (j, st2) = wrap_step(t, i, st, wrap_style);
        if j <= i {
            st2
        } else {
            wrap_scan(t, j, st2, wrap_style)
        }
    }
}

pub open spec fn wrap_start() -> WrapScan {
    WrapScan {
        prefix: Seq::empty(),
        word: Seq::empty(),
        words: Seq::empty(),
        run_starts: seq![0usize],
        spaced: false,
        word_drawing: false,
        in_drawing: false,
    }
}

/// The words of an event text and where its explicit-break runs start.
pub struct WrapWords {
    pub words: Vec<WrapWord>,
    pub run_starts: Vec<usize>,
}

fn block_drawing(g: &Vec<char>) -> (r: Option<bool>)
    ensures
        r == block_drawing_from(g@, 0, None),
{
    let mut state: Option<bool> = None;
    let mut i: usize = 0;
    while i < g.len() && i + 1 < g.len()
        invariant
            i <= g@.len(),
            block_drawing_from(g@, 0, None) == block_drawing_from(g@, i as int, state),
        decreases g@.len() - i,
    {
        if g[i] == '\\' && g[i + 1] == 'p' {
            let mut j = i + 2;
            while j < g.len() && '0' <= g[j] && g[j] <= '9'
                invariant
                    i + 2 <= j <= g@.len(),
                    digit_run_end(g@, i + 2) == digit_run_end(g@, j as int),
                decreases g@.len() - j,
            {
                j += 1;
            }
            if j > i + 2 {
                let digits = sub_chars(g.as_slice(), i + 2, j);
                match parse_i32(digits.as_slice()) {
                    Some(m) => {
                        state = Some(m > 0);
                    },
                    None => {},
                }
                i = j;
            } else {
                i += 1;
            }
        } else {
            i += 1;
        }
    }
    state
}

/// Links the exec state of the cut to its spec state.
pub open spec fn words_match(words: Seq<WrapWord>, v: Seq<WrapWordView>) -> bool {
    &&& words.len() == v.len()
    &&& forall|k: int| 0 <= k < words.len() ==> (#[trigger] words[k])@ == v[k]
}

fn flush_exec(
    prefix: &mut Vec<char>,
    word: &mut Vec<char>,
    words: &mut Vec<WrapWord>,
    spaced: &mut bool,
    word_drawing: &mut bool,
    Ghost(st): Ghost<WrapScan>,
) -> (r: Ghost<WrapScan>)
    requires
        old(prefix)@ == st.prefix,
        old(word)@ == st.word,
        words_match(old(words)@, st.words),
        *old(spaced) == st.spaced,
        *old(word_drawing) == st.word_drawing,
    ensures
        r@ == flush(st),
        final(prefix)@ == r@.prefix,
        final(word)@ == r@.word,
        words_match(final(words)@, r@.words),
        *final(spaced) == r@.spaced,
        *final(word_drawing) == r@.word_drawing,
{
    if word.len() == 0 && prefix.len() == 0 {
        return Ghost(st);
    }
    let has_text = word.len() > 0;
    let w = WrapWord {
        prefix: string_of(prefix.as_slice()),
        text: string_of(word.as_slice()),
        preceded_by_space: *spaced,
        is_drawing: *word_drawing,
        glued_to_prev: false,
    };
    words.push(w);
    *prefix = Vec::new();
    *word = Vec::new();
    *word_drawing = false;
    if has_text {
        *spaced = false;
    }
    let ghost r = flush(st);
    proof {
        assert(prefix@ =~= r.prefix);
        assert(word@ =~= r.word);
        assert forall|k: int| 0 <= k < words@.len() implies (#[trigger] words@[k])@ == r.words[k] by {
            if k < old(words)@.len() {
                assert(words@[k] == old(words)@[k]);
            }
        }
    }
    Ghost(r)
}

fn push_all(v: &mut Vec<char>, s: &[char], lo: usize, hi: usize)
    requires
        lo <= hi <= s@.len(),
    ensures
        final(v)@ == old(v)@ + s@.subrange(lo as int, hi as int),
{
    let mut k = lo;
    while k < hi
        invariant
            lo <= k <= hi,
            hi <= s@.len(),
            v@ == old(v)@ + s@.subrange(lo as int, k as int),
        decreases hi - k,
    {
        v.push(s[k]);
        assert(s@.subrange(lo as int, k + 1) =~= s@.subrange(lo as int, k as int).push(s@[k as int]));
        k += 1;
    }
}

/// Cut event text into wrap words and explicit-break runs.
pub fn wrap_words(text: &str, wrap_style: i32) -> (r: WrapWords)
    ensures
        words_match(r.words@, wrap_scan(text@, 0, wrap_start(), wrap_style).words),
        r.run_starts@ == wrap_scan(text@, 0, wrap_start(), wrap_style).run_starts,
{
    let t = str_chars(text);
    let n = t.len();
    let mut prefix: Vec<char> = Vec::new();
    let mut word: Vec<char> = Vec::new();
    let mut words: Vec<WrapWord> = Vec::new();
    let mut run_starts: Vec<usize> = vec![0];
    let mut spaced = false;
    let mut word_drawing = false;
    let mut in_drawing = false;
    let ghost total = wrap_scan(t@, 0, wrap_start(), wrap_style);
    let ghost mut st = wrap_start();
    assert(prefix@ =~= st.prefix && word@ =~= st.word && run_starts@ =~= st.run_starts);
    let mut i: usize = 0;
    while i < n
        invariant
            n == t@.len(),
            t@ == text@,
            i <= n,
            wrap_scan(t@, i as int, st, wrap_style) == total,
            prefix@ == st.prefix,
            word@ == st.word,
            words_match(words@, st.words),
            run_starts@ == st.run_starts,
            spaced == st.spaced,
            word_drawing == st.word_drawing,
            in_drawing == st.in_drawing,
            words@.len() <= i,
        decreases n - i,
    {
        proof {
            lemma_block_end(t@, i as int);
        }
        let ghost step = wrap_step(t@, i as int, st, wrap_style);
        let c = t[i];
        if c == '{' {
            let close = find_char(t.as_slice(), '}', i + 1);
            let e = if close < n {
                close + 1
            } else {
                n
            };
            let g = sub_chars(t.as_slice(), i, e);
            let d = block_drawing(&g);
            if in_drawing {
                push_all(&mut word, t.as_slice(), i, e);
                word_drawing = true;
            } else {
                let _f = flush_exec(
                    &mut prefix,
                    &mut word,
                    &mut words,
                    &mut spaced,
                    &mut word_drawing,
                    Ghost(st),
                );
                push_all(&mut prefix, t.as_slice(), i, e);
            }
            match d {
                Some(b) => {
                    in_drawing = b;
                },
                None => {},
            }
            i = e;
        } else if c == '\\' && in_drawing {
            word.push('\\');
            if i + 1 < n {
                word.push(t[i + 1]);
                i += 2;
            } else {
                i += 1;
            }
            word_drawing = true;
        } else if c == '\\' {
            if i + 1 >= n {
                word.push('\\');
                i += 1;
            } else {
                let nx = t[i + 1];
                if nx == 'N' || (nx == 'n' && wrap_style == 2) {
                    let _f = flush_exec(
                        &mut prefix,
                        &mut word,
                        &mut words,
                        &mut spaced,
                        &mut word_drawing,
                        Ghost(st),
                    );
                    spaced = true;
                    run_starts.push(words.len());
                } else if nx == 'n' {
                    let _f = flush_exec(
                        &mut prefix,
                        &mut word,
                        &mut words,
                        &mut spaced,
                        &mut word_drawing,
                        Ghost(st),
                    );
                    spaced = true;
                } else if nx == 'h' {
                    word.push('\u{A0}');
                } else {
                    word.push('\\');
                    word.push(nx);
                }
                i += 2;
            }
        } else if c == ' ' || c == '\t' {
            if in_drawing {
                word.push(c);
                word_drawing = true;
            } else {
                let _f = flush_exec(
                    &mut prefix,
                    &mut word,
                    &mut words,
                    &mut spaced,
                    &mut word_drawing,
                    Ghost(st),
                );
                spaced = true;
            }
            i += 1;
        } else {
            word.push(c);
            if in_drawing {
                word_drawing = true;
            }
            i += 1;
        }
        proof {
            st = step.1;
            assert(prefix@ =~= st.prefix);
            assert(word@ =~= st.word);
            assert(run_starts@ =~= st.run_starts);
        }
    }
    let _f = flush_exec(&mut prefix, &mut word, &mut words, &mut spaced, &mut word_drawing, Ghost(st));
    WrapWords { words, run_starts }
}

// ---------------------------------------------------------------------
// CJK break opportunities inside words
// ---------------------------------------------------------------------
/// A cut after `t[i]`: a CJK break opportunity before the next
/// character, not right after a `\`.
pub open spec fn is_cut(t: Seq<char>, i: int) -> bool {
    0 <= i && i + 1 < t.len() && t[i] != '\\' && spec_cjk_break(t[i], t[i + 1])
}

/// The pieces of `t[start..]` cut after every cut position at or after
/// `i`.
pub open spec fn split_text(t: Seq<char>, start: int, i: int) -> Seq<Seq<char>>
    decreases t.len() - i,
{
    if i < 0 || i >= t.len() {
        seq![t.subrange(start, t.len() as int)]
    } else if is_cut(t, i) {
        seq![t.subrange(start, i + 1)] + split_text(t, i + 1, i + 1)
    } else {
        split_text(t, start, i + 1)
    }
}

/// A word as pieces: words with text and no override block split at
/// their cuts. The first piece keeps the word's blocks and space; the
/// others glue to the piece before. A word without cuts stays whole.
pub open spec fn split_word(w: WrapWordView) -> Seq<WrapWordView> {
    let ps = split_text(w.text, 0, 0);
    if w.text.len() == 0 || w.text.contains('{') || ps.len() <= 1 {
        seq![w]
    } else {
        Seq::new(
            ps.len(),
            |k: int|
                if k == 0 {
                    WrapWordView {
                        prefix: w.prefix,
                        text: ps[0],
                        preceded_by_space: w.preceded_by_space,
                        is_drawing: false,
                        glued_to_prev: false,
                    }
                } else {
                    WrapWordView {
                        prefix: Seq::empty(),
                        text: ps[k],
                        preceded_by_space: false,
                        is_drawing: false,
                        glued_to_prev: true,
                    }
                },
        )
    }
}

/// All words as pieces, in order.
pub open spec fn split_words(ws: Seq<WrapWordView>) -> Seq<WrapWordView>
    decreases ws.len(),
{
    if ws.len() == 0 {
        Seq::empty()
    } else {
        split_words(ws.drop_last()) + split_word(ws.last())
    }
}

/// Where a run that started at word `s` starts among the pieces.
pub open spec fn remap_start(ws: Seq<WrapWordView>, s: int) -> int {
    if s <= ws.len() {
        split_words(ws.take(s)).len() as int
    } else {
        split_words(ws).len() as int
    }
}

fn copy_string(s: &String) -> (r: String)
    ensures
        r@ == s@,
{
    s.clone()
}

fn copy_word(w: &WrapWord) -> (r: WrapWord)
    ensures
        r@ == w@,
{
    WrapWord {
        prefix: copy_string(&w.prefix),
        text: copy_string(&w.text),
        preceded_by_space: w.preceded_by_space,
        is_drawing: w.is_drawing,
        glued_to_prev: w.glued_to_prev,
    }
}

fn split_text_exec(t: &Vec<char>) -> (r: Vec<Vec<char>>)
    ensures
        r@.len() == split_text(t@, 0, 0).len(),
        forall|k: int| 0 <= k < r@.len() ==> (#[trigger] r@[k])@ == split_text(t@, 0, 0)[k],
{
    let n = t.len();
    let mut out: Vec<Vec<char>> = Vec::new();
    let mut start: usize = 0;
    let mut i: usize = 0;
    let ghost whole = split_text(t@, 0, 0);
    while i < n
        invariant
            n == t@.len(),
            start <= i <= n,
            forall|k: int| 0 <= k < out@.len() ==> (#[trigger] out@[k])@ == whole[k],
            out@.len() + split_text(t@, start as int, i as int).len() == whole.len(),
            forall|k: int|
                0 <= k < split_text(t@, start as int, i as int).len() ==> whole[out@.len() + k]
                    == #[trigger] split_text(t@, start as int, i as int)[k],
        decreases n - i,
    {
        if i + 1 < n && t[i] != '\\' && cjk_break_between(t[i], t[i + 1]) {
            let piece = sub_chars(t.as_slice(), start, i + 1);
            let ghost rest = split_text(t@, start as int, i as int);
            assert(rest == seq![t@.subrange(start as int, i + 1)] + split_text(t@, i + 1, i + 1));
            assert(rest[0] == t@.subrange(start as int, i + 1));
            assert forall|k: int| 0 <= k < split_text(t@, i + 1, i + 1).len() implies whole[out@.len() + 1 + k]
                == #[trigger] split_text(t@, i + 1, i + 1)[k] by {
                assert(rest[k + 1] == split_text(t@, i + 1, i + 1)[k]);
            }
            out.push(piece);
            start = i + 1;
        }
        i += 1;
    }
    let last = sub_chars(t.as_slice(), start, n);
    let ghost len0 = out@.len();
    assert(split_text(t@, start as int, n as int) == seq![t@.subrange(start as int, n as int)]);
    assert(whole[len0 as int] == t@.subrange(start as int, n as int)) by {
        assert(split_text(t@, start as int, n as int)[0] == t@.subrange(start as int, n as int));
    }
    out.push(last);
    assert forall|k: int| 0 <= k < out@.len() implies (#[trigger] out@[k])@ == whole[k] by {
        if k < len0 {
        } else {
            assert(out@[k]@ == t@.subrange(start as int, n as int));
        }
    }
    out
}

fn string_of_vec(v: &Vec<char>) -> (r: String)
    ensures
        r@ == v@,
{
    string_of(v.as_slice())
}

fn push_split_word(out: &mut Vec<WrapWord>, w: &WrapWord)
    ensures
        words_match(final(out)@, words_views(old(out)@) + split_word(w@)),
        old(out)@.len() <= final(out)@.len(),
{
    let t = str_chars(w.text.as_str());
    let mut has_block = false;
    let mut j: usize = 0;
    while j < t.len()
        invariant
            j <= t@.len(),
            t@ == w.text@,
            has_block == exists|k: int| 0 <= k < j && t@[k] == '{',
        decreases t@.len() - j,
    {
        if t[j] == '{' {
            has_block = true;
        }
        j += 1;
    }
    proof {
        if has_block {
            let k = choose|k: int| 0 <= k < t@.len() && t@[k] == '{';
            assert(w.text@.contains('{')) by {
                assert(w.text@[k] == '{');
            }
        } else {
            assert(!w.text@.contains('{'));
        }
    }
    let ps = split_text_exec(&t);
    let ghost pre = out@;
    if t.len() == 0 || has_block || ps.len() <= 1 {
        assert(split_word(w@) == seq![w@]);
        out.push(copy_word(w));
        assert(out@[pre.len() as int]@ == split_word(w@)[0]);
        assert(forall|q: int| 0 <= q < pre.len() ==> out@[q] == pre[q]);
        assert forall|j: int| 0 <= j < split_word(w@).len() implies (#[trigger] out@[pre.len() + j])@
            == split_word(w@)[j] by {
            assert(j == 0);
        }
    } else {
        assert(split_word(w@).len() == ps@.len());
        let mut k: usize = 0;
        while k < ps.len()
            invariant
                k <= ps@.len(),
                ps@.len() == split_text(w.text@, 0, 0).len(),
                ps@.len() > 1,
                w.text@.len() > 0,
                !w.text@.contains('{'),
                forall|q: int| 0 <= q < ps@.len() ==> (#[trigger] ps@[q])@ == split_text(w.text@, 0, 0)[q],
                out@.len() == pre.len() + k,
                forall|q: int| 0 <= q < pre.len() ==> out@[q] == pre[q],
                forall|q: int|
                    0 <= q < k ==> (#[trigger] out@[pre.len() + q])@ == split_word(w@)[q],
            decreases ps@.len() - k,
        {
            let piece = if k == 0 {
                WrapWord {
                    prefix: copy_string(&w.prefix),
                    text: string_of_vec(&ps[k]),
                    preceded_by_space: w.preceded_by_space,
                    is_drawing: false,
                    glued_to_prev: false,
                }
            } else {
                WrapWord {
                    prefix: String::new(),
                    text: string_of_vec(&ps[k]),
                    preceded_by_space: false,
                    is_drawing: false,
                    glued_to_prev: true,
                }
            };
            proof {
                if k != 0 {
                    assert(piece.prefix@ =~= Seq::<char>::empty());
                }
            }
            out.push(piece);
            k += 1;
        }
    }
    assert(out@.len() == pre.len() + split_word(w@).len());
    assert(forall|q: int| 0 <= q < pre.len() ==> out@[q] == pre[q]);
    assert(forall|j: int| 0 <= j < split_word(w@).len() ==> (#[trigger] out@[pre.len() + j])@ == split_word(w@)[j]);
    proof {
        let v = words_views(pre) + split_word(w@);
        assert forall|q: int| 0 <= q < out@.len() implies (#[trigger] out@[q])@ == v[q] by {
            if q < pre.len() {
                assert(out@[q] == pre[q]);
                assert(words_views(pre)[q] == pre[q]@);
            } else {
                let j = q - pre.len();
                assert(v[q] == split_word(w@)[j]);
                assert(out@[pre.len() + j]@ == split_word(w@)[j]);
            }
        }
    }
}

/// The views of a sequence of words.
pub open spec fn words_views(ws: Seq<WrapWord>) -> Seq<WrapWordView> {
    ws.map_values(|w: WrapWord| w@)
}

/// Split words at CJK break opportunities and move the run starts to
/// the pieces.
pub fn split_cjk_words(ws: &Vec<WrapWord>, run_starts: &Vec<usize>) -> (r: WrapWords)
    ensures
        words_match(r.words@, split_words(words_views(ws@))),
        r.run_starts@.len() == run_starts@.len(),
        forall|k: int|
            0 <= k < run_starts@.len() ==> r.run_starts@[k] == remap_start(
                words_views(ws@),
                run_starts@[k] as int,
            ),
{
    let mut out: Vec<WrapWord> = Vec::new();
    let mut index_of: Vec<usize> = Vec::new();
    let ghost wv = words_views(ws@);
    let mut k: usize = 0;
    assert(wv.take(0) =~= Seq::<WrapWordView>::empty());
    assert(split_words(wv.take(0)) =~= Seq::<WrapWordView>::empty());
    while k < ws.len()
        invariant
            k <= ws@.len(),
            wv == words_views(ws@),
            words_match(out@, split_words(wv.take(k as int))),
            index_of@.len() == k,
            forall|j: int| 0 <= j < k ==> index_of@[j] == split_words(wv.take(j)).len(),
        decreases ws@.len() - k,
    {
        index_of.push(out.len());
        let ghost pre = out@;
        push_split_word(&mut out, &ws[k]);
        proof {
            assert(wv.take(k + 1).drop_last() =~= wv.take(k as int));
            assert(wv.take(k + 1).last() == ws@[k as int]@);
            assert(words_views(pre) =~= split_words(wv.take(k as int))) by {
                assert forall|q: int| 0 <= q < pre.len() implies words_views(pre)[q] == split_words(
                    wv.take(k as int),
                )[q] by {
                    assert(pre[q]@ == split_words(wv.take(k as int))[q]);
                }
            }
        }
        k += 1;
    }
    assert(wv.take(k as int) =~= wv);
    index_of.push(out.len());
    let mut starts: Vec<usize> = Vec::new();
    let mut q: usize = 0;
    while q < run_starts.len()
        invariant
            q <= run_starts@.len(),
            starts@.len() == q,
            index_of@.len() == ws@.len() + 1,
            wv == words_views(ws@),
            wv.len() == ws@.len(),
            forall|j: int| 0 <= j <= ws@.len() ==> index_of@[j] == split_words(wv.take(j)).len(),
            out@.len() == split_words(wv).len(),
            forall|j: int| 0 <= j < q ==> starts@[j] == remap_start(wv, run_starts@[j] as int),
        decreases run_starts@.len() - q,
    {
        let s = run_starts[q];
        if s < index_of.len() {
            starts.push(index_of[s]);
        } else {
            starts.push(out.len());
        }
        q += 1;
    }
    WrapWords { words: out, run_starts: starts }
}

/// The words of an event text for wrapping: cut at spaces and breaks
/// (each carrying the override blocks before it), then split at CJK
/// break opportunities; and where each explicit-break run starts among
/// them.
pub fn wrap_tokens(text: &str, wrap_style: i32) -> (r: WrapWords)
    ensures
        words_match(
            r.words@,
            split_words(wrap_scan(text@, 0, wrap_start(), wrap_style).words),
        ),
        r.run_starts@.len() == wrap_scan(text@, 0, wrap_start(), wrap_style).run_starts.len(),
        forall|k: int|
            0 <= k < r.run_starts@.len() ==> r.run_starts@[k] == remap_start(
                wrap_scan(text@, 0, wrap_start(), wrap_style).words,
                wrap_scan(text@, 0, wrap_start(), wrap_style).run_starts[k] as int,
            ),
{
    let w = wrap_words(text, wrap_style);
    proof {
        let v = wrap_scan(text@, 0, wrap_start(), wrap_style).words;
        assert(words_views(w.words@) =~= v) by {
            assert forall|k: int| 0 <= k < v.len() implies words_views(w.words@)[k] == v[k] by {
                assert(w.words@[k]@ == v[k]);
            }
        }
    }
    split_cjk_words(&w.words, &w.run_starts)
}

} // verus!
