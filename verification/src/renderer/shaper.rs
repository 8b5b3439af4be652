//! Line-break classes of characters and cluster-aware font fallback.
use vstd::prelude::*;

verus! {

/// Combining marks (Mn/Mc) of the common scripts: Latin, Greek, Cyrillic,
/// Hebrew, Arabic, Syriac, Thaana, Devanagari, Thai, Lao, Tibetan, kana
/// voicing marks and the generic combining blocks.
pub open spec fn combining_mark(ch: char) -> bool {
    let v = ch as u32;
    ||| (0x0300 <= v && v <= 0x036F)
    ||| (0x0483 <= v && v <= 0x0489)
    ||| (0x0591 <= v && v <= 0x05BD)
    ||| v == 0x05BF
    ||| (0x05C1 <= v && v <= 0x05C2)
    ||| (0x05C4 <= v && v <= 0x05C5)
    ||| v == 0x05C7
    ||| (0x0610 <= v && v <= 0x061A)
    ||| (0x064B <= v && v <= 0x065F)
    ||| v == 0x0670
    ||| (0x06D6 <= v && v <= 0x06DC)
    ||| (0x06DF <= v && v <= 0x06E4)
    ||| (0x06E7 <= v && v <= 0x06E8)
    ||| (0x06EA <= v && v <= 0x06ED)
    ||| v == 0x0711
    ||| (0x0730 <= v && v <= 0x074A)
    ||| (0x07A6 <= v && v <= 0x07B0)
    ||| (0x0900 <= v && v <= 0x0903)
    ||| (0x093A <= v && v <= 0x093C)
    ||| (0x093E <= v && v <= 0x094D)
    ||| (0x094E <= v && v <= 0x094F)
    ||| (0x0951 <= v && v <= 0x0957)
    ||| (0x0962 <= v && v <= 0x0963)
    ||| v == 0x0E31
    ||| (0x0E34 <= v && v <= 0x0E3A)
    ||| (0x0E47 <= v && v <= 0x0E4E)
    ||| v == 0x0EB1
    ||| (0x0EB4 <= v && v <= 0x0EBC)
    ||| (0x0EC8 <= v && v <= 0x0ECD)
    ||| (0x0F71 <= v && v <= 0x0F84)
    ||| (0x0F86 <= v && v <= 0x0F87)
    ||| (0x1AB0 <= v && v <= 0x1AFF)
    ||| (0x1DC0 <= v && v <= 0x1DFF)
    ||| (0x20D0 <= v && v <= 0x20FF)
    ||| (0xFE20 <= v && v <= 0xFE2F)
    ||| (0x3099 <= v && v <= 0x309A)
}

pub fn is_combining_mark(ch: char) -> (b: bool)
    ensures
        b == combining_mark(ch),
{
    let v = ch as u32;
    (0x0300 <= v && v <= 0x036F)
        || (0x0483 <= v && v <= 0x0489)
        || (0x0591 <= v && v <= 0x05BD)
        || v == 0x05BF
        || (0x05C1 <= v && v <= 0x05C2)
        || (0x05C4 <= v && v <= 0x05C5)
        || v == 0x05C7
        || (0x0610 <= v && v <= 0x061A)
        || (0x064B <= v && v <= 0x065F)
        || v == 0x0670
        || (0x06D6 <= v && v <= 0x06DC)
        || (0x06DF <= v && v <= 0x06E4)
        || (0x06E7 <= v && v <= 0x06E8)
        || (0x06EA <= v && v <= 0x06ED)
        || v == 0x0711
        || (0x0730 <= v && v <= 0x074A)
        || (0x07A6 <= v && v <= 0x07B0)
        || (0x0900 <= v && v <= 0x0903)
        || (0x093A <= v && v <= 0x093C)
        || (0x093E <= v && v <= 0x094D)
        || (0x094E <= v && v <= 0x094F)
        || (0x0951 <= v && v <= 0x0957)
        || (0x0962 <= v && v <= 0x0963)
        || v == 0x0E31
        || (0x0E34 <= v && v <= 0x0E3A)
        || (0x0E47 <= v && v <= 0x0E4E)
        || v == 0x0EB1
        || (0x0EB4 <= v && v <= 0x0EBC)
        || (0x0EC8 <= v && v <= 0x0ECD)
        || (0x0F71 <= v && v <= 0x0F84)
        || (0x0F86 <= v && v <= 0x0F87)
        || (0x1AB0 <= v && v <= 0x1AFF)
        || (0x1DC0 <= v && v <= 0x1DFF)
        || (0x20D0 <= v && v <= 0x20FF)
        || (0xFE20 <= v && v <= 0xFE2F)
        || (0x3099 <= v && v <= 0x309A)
}

/// Wide CJK characters that allow line breaks around them: ideographs,
/// kana, Hangul syllables, wide symbols and U+3000.
pub open spec fn cjk_breakable(ch: char) -> bool {
    let v = ch as u32;
    ||| (0x2E80 <= v && v <= 0x2FD5)
    ||| (0x3000 <= v && v <= 0x303F)
    ||| (0x3040 <= v && v <= 0x30FF)
    ||| (0x31F0 <= v && v <= 0x31FF)
    ||| (0x3200 <= v && v <= 0x33FF)
    ||| (0x3400 <= v && v <= 0x4DBF)
    ||| (0x4E00 <= v && v <= 0x9FFF)
    ||| (0xAC00 <= v && v <= 0xD7A3)
    ||| (0xF900 <= v && v <= 0xFAFF)
    ||| (0xFE30 <= v && v <= 0xFE44)
    ||| (0xFF01 <= v && v <= 0xFF0F)
    ||| (0xFF1A <= v && v <= 0xFF20)
    ||| (0xFF3B <= v && v <= 0xFF40)
    ||| (0xFF5B <= v && v <= 0xFF60)
    ||| (0xFFE0 <= v && v <= 0xFFE6)
    ||| (0x20000 <= v && v <= 0x2FFFF)
    ||| (0x30000 <= v && v <= 0x3FFFF)
}

pub fn is_cjk_breakable(ch: char) -> (b: bool)
    ensures
        b == cjk_breakable(ch),
{
    let v = ch as u32;
    (0x2E80 <= v && v <= 0x2FD5)
        || (0x3000 <= v && v <= 0x303F)
        || (0x3040 <= v && v <= 0x30FF)
        || (0x31F0 <= v && v <= 0x31FF)
        || (0x3200 <= v && v <= 0x33FF)
        || (0x3400 <= v && v <= 0x4DBF)
        || (0x4E00 <= v && v <= 0x9FFF)
        || (0xAC00 <= v && v <= 0xD7A3)
        || (0xF900 <= v && v <= 0xFAFF)
        || (0xFE30 <= v && v <= 0xFE44)
        || (0xFF01 <= v && v <= 0xFF0F)
        || (0xFF1A <= v && v <= 0xFF20)
        || (0xFF3B <= v && v <= 0xFF40)
        || (0xFF5B <= v && v <= 0xFF60)
        || (0xFFE0 <= v && v <= 0xFFE6)
        || (0x20000 <= v && v <= 0x2FFFF)
        || (0x30000 <= v && v <= 0x3FFFF)
}

/// CJK opening brackets: no break after them.
pub open spec fn cjk_open(ch: char) -> bool {
    let v = ch as u32;
    ||| v == 0x3008
    ||| v == 0x300A
    ||| v == 0x300C
    ||| v == 0x300E
    ||| v == 0x3010
    ||| v == 0x3014
    ||| v == 0x3016
    ||| v == 0x3018
    ||| v == 0x301A
    ||| v == 0x301D
    ||| v == 0xFF08
    ||| v == 0xFF3B
    ||| v == 0xFF5B
    ||| v == 0xFF5F
    ||| v == 0xFF62
}

pub fn is_cjk_open(ch: char) -> (b: bool)
    ensures
        b == cjk_open(ch),
{
    let v = ch as u32;
    v == 0x3008
        || v == 0x300A
        || v == 0x300C
        || v == 0x300E
        || v == 0x3010
        || v == 0x3014
        || v == 0x3016
        || v == 0x3018
        || v == 0x301A
        || v == 0x301D
        || v == 0xFF08
        || v == 0xFF3B
        || v == 0xFF5B
        || v == 0xFF5F
        || v == 0xFF62
}

/// CJK closing punctuation, small kana, iteration and sound marks and
/// fullwidth mirrors of ASCII punctuation: no break before them.
pub open spec fn cjk_nobreak_before(ch: char) -> bool {
    let v = ch as u32;
    ||| (0x3001 <= v && v <= 0x3003)
    ||| v == 0x3005
    ||| v == 0x3009
    ||| v == 0x300B
    ||| v == 0x300D
    ||| v == 0x300F
    ||| v == 0x3011
    ||| v == 0x3015
    ||| v == 0x3017
    ||| v == 0x3019
    ||| (0x301B <= v && v <= 0x301C)
    ||| (0x301E <= v && v <= 0x301F)
    ||| (0x3030 <= v && v <= 0x3035)
    ||| v == 0x3041
    ||| v == 0x3043
    ||| v == 0x3045
    ||| v == 0x3047
    ||| v == 0x3049
    ||| v == 0x3063
    ||| v == 0x3083
    ||| v == 0x3085
    ||| v == 0x3087
    ||| v == 0x308E
    ||| (0x3095 <= v && v <= 0x3096)
    ||| (0x309D <= v && v <= 0x309E)
    ||| v == 0x30A1
    ||| v == 0x30A3
    ||| v == 0x30A5
    ||| v == 0x30A7
    ||| v == 0x30A9
    ||| v == 0x30C3
    ||| v == 0x30E3
    ||| v == 0x30E5
    ||| v == 0x30E7
    ||| v == 0x30EE
    ||| (0x30F5 <= v && v <= 0x30F6)
    ||| (0x30FB <= v && v <= 0x30FE)
    ||| (0x31F0 <= v && v <= 0x31FF)
    ||| (0xFE30 <= v && v <= 0xFE36)
    ||| v == 0xFF01
    ||| v == 0xFF0C
    ||| v == 0xFF0E
    ||| (0xFF1A <= v && v <= 0xFF1B)
    ||| v == 0xFF1F
    ||| (0xFF60 <= v && v <= 0xFF61)
    ||| (0xFF63 <= v && v <= 0xFF65)
    ||| v == 0xFFE6
}

pub fn is_cjk_nobreak_before(ch: char) -> (b: bool)
    ensures
        b == cjk_nobreak_before(ch),
{
    let v = ch as u32;
    (0x3001 <= v && v <= 0x3003)
        || v == 0x3005
        || v == 0x3009
        || v == 0x300B
        || v == 0x300D
        || v == 0x300F
        || v == 0x3011
        || v == 0x3015
        || v == 0x3017
        || v == 0x3019
        || (0x301B <= v && v <= 0x301C)
        || (0x301E <= v && v <= 0x301F)
        || (0x3030 <= v && v <= 0x3035)
        || v == 0x3041
        || v == 0x3043
        || v == 0x3045
        || v == 0x3047
        || v == 0x3049
        || v == 0x3063
        || v == 0x3083
        || v == 0x3085
        || v == 0x3087
        || v == 0x308E
        || (0x3095 <= v && v <= 0x3096)
        || (0x309D <= v && v <= 0x309E)
        || v == 0x30A1
        || v == 0x30A3
        || v == 0x30A5
        || v == 0x30A7
        || v == 0x30A9
        || v == 0x30C3
        || v == 0x30E3
        || v == 0x30E5
        || v == 0x30E7
        || v == 0x30EE
        || (0x30F5 <= v && v <= 0x30F6)
        || (0x30FB <= v && v <= 0x30FE)
        || (0x31F0 <= v && v <= 0x31FF)
        || (0xFE30 <= v && v <= 0xFE36)
        || v == 0xFF01
        || v == 0xFF0C
        || v == 0xFF0E
        || (0xFF1A <= v && v <= 0xFF1B)
        || v == 0xFF1F
        || (0xFF60 <= v && v <= 0xFF61)
        || (0xFF63 <= v && v <= 0xFF65)
        || v == 0xFFE6
}

/// A currency sign that sticks to following digits.
pub open spec fn currency(ch: char) -> bool {
    let v = ch as u32;
    v == 0x24 || v == 0xA2 || v == 0xA3 || v == 0xA5 || v == 0xFFE0 || v == 0xFFE1 || v == 0xFFE5
}

/// An ASCII or fullwidth digit.
pub open spec fn any_digit(ch: char) -> bool {
    let v = ch as u32;
    (0x30 <= v && v <= 0x39) || (0xFF10 <= v && v <= 0xFF19)
}

/// A break opportunity between two adjacent in-word characters: never
/// next to ZWNJ, ZWJ or no-break space, never before a combining mark;
/// always next to a zero-width space; never between a currency sign and
/// a digit; otherwise only where one side is breakable CJK, and not
/// after an opening bracket or before a no-break-before character.
pub open spec fn spec_cjk_break(prev: char, next: char) -> bool {
    if prev == '\u{200C}' || next == '\u{200C}' || prev == '\u{200D}' || next == '\u{200D}'
        || prev == '\u{00A0}' || next == '\u{00A0}' {
        false
    } else if combining_mark(next) {
        false
    } else if prev == '\u{200B}' || next == '\u{200B}' {
        true
    } else if currency(prev) && any_digit(next) {
        false
    } else if !cjk_breakable(prev) && !cjk_breakable(next) {
        false
    } else {
        !cjk_open(prev) && !cjk_nobreak_before(next)
    }
}

/// Break opportunity between two adjacent in-word characters.
pub fn cjk_break_between(prev: char, next: char) -> (b: bool)
    ensures
        b == spec_cjk_break(prev, next),
{
    if prev == '\u{200C}' || next == '\u{200C}' || prev == '\u{200D}' || next == '\u{200D}'
        || prev == '\u{00A0}' || next == '\u{00A0}' {
        return false;
    }
    if is_combining_mark(next) {
        return false;
    }
    if prev == '\u{200B}' || next == '\u{200B}' {
        return true;
    }
    let p = prev as u32;
    let n = next as u32;
    if (p == 0x24 || p == 0xA2 || p == 0xA3 || p == 0xA5 || p == 0xFFE0 || p == 0xFFE1 || p == 0xFFE5)
        && ((0x30 <= n && n <= 0x39) || (0xFF10 <= n && n <= 0xFF19)) {
        return false;
    }
    if !is_cjk_breakable(prev) && !is_cjk_breakable(next) {
        return false;
    }
    if is_cjk_open(prev) || is_cjk_nobreak_before(next) {
        return false;
    }
    true
}

// ---------------------------------------------------------------------
// Cluster-aware fallback
// ---------------------------------------------------------------------
/// End of the run of combining marks starting at `j`.
pub open spec fn marks_end(cs: Seq<char>, j: int) -> int
    decreases cs.len() - j,
{
    if j < 0 || j >= cs.len() || !combining_mark(cs[j]) {
        j
    } else {
        marks_end(cs, j + 1)
    }
}

/// Face `f` has a glyph for every char in `lo..hi`.
pub open spec fn covers(has: Seq<Seq<bool>>, f: int, lo: int, hi: int) -> bool {
    forall|k: int| lo <= k < hi ==> #[trigger] has[f][k]
}

/// The first face from `f` on covering `lo..hi`, or the face count.
pub open spec fn first_cover(has: Seq<Seq<bool>>, lo: int, hi: int, f: int) -> int
    decreases has.len() - f,
{
    if f < 0 || f >= has.len() {
        has.len() as int
    } else if covers(has, f, lo, hi) {
        f
    } else {
        first_cover(has, lo, hi, f + 1)
    }
}

/// The first face with a glyph for char `k`, or face 0.
pub open spec fn first_with(has: Seq<Seq<bool>>, k: int) -> int {
    let f = first_cover(has, k, k + 1, 0);
    if f < has.len() {
        f
    } else {
        0
    }
}

/// Face picks from char `i` on: line breaks get 0; a mark without a base
/// before it falls back alone; a base and its following marks share the
/// first face that has them all, else each falls back alone.
pub open spec fn picks_from(cs: Seq<char>, has: Seq<Seq<bool>>, i: int) -> Seq<usize>
    decreases cs.len() - i,
{
    if i < 0 || i >= cs.len() {
        Seq::empty()
    } else if cs[i] == '\n' || cs[i] == '\r' {
        seq![0usize] + picks_from(cs, has, i + 1)
    } else if combining_mark(cs[i]) {
        seq![first_with(has, i) as usize] + picks_from(cs, has, i + 1)
    } else {
        let j = marks_end(cs, i + 1);
        proof {
            lemma_marks_end_bounds(cs, i + 1);
        }
        let f = first_cover(has, i, j, 0);
        let block = if f < has.len() {
            Seq::new((j - i) as nat, |t: int| f as usize)
        } else {
            Seq::new((j - i) as nat, |t: int| first_with(has, i + t) as usize)
        };
        block + picks_from(cs, has, j)
    }
}

pub proof fn lemma_marks_end_bounds(cs: Seq<char>, j: int)
    requires
        0 <= j <= cs.len(),
    ensures
        j <= marks_end(cs, j) <= cs.len(),
    decreases cs.len() - j,
{
    if j < cs.len() && combining_mark(cs[j]) {
        lemma_marks_end_bounds(cs, j + 1);
    }
}

pub open spec fn rows_view(v: Seq<Vec<bool>>) -> Seq<Seq<bool>> {
    v.map_values(|r: Vec<bool>| r@)
}

fn first_cover_exec(has: &Vec<Vec<bool>>, lo: usize, hi: usize) -> (r: usize)
    requires
        lo <= hi,
        forall|f: int| 0 <= f < has@.len() ==> hi <= (#[trigger] has@[f])@.len(),
    ensures
        r == first_cover(rows_view(has@), lo as int, hi as int, 0),
{
    let ghost hv = rows_view(has@);
    let mut f: usize = 0;
    while f < has.len()
        invariant
            f <= has@.len(),
            lo <= hi,
            hv == rows_view(has@),
            forall|g: int| 0 <= g < has@.len() ==> hi <= (#[trigger] has@[g])@.len(),
            first_cover(hv, lo as int, hi as int, f as int) == first_cover(hv, lo as int, hi as int, 0),
        decreases has@.len() - f,
    {
        let row = &has[f];
        let mut k = lo;
        let mut all = true;
        while k < hi
            invariant
                lo <= k <= hi,
                hi <= row@.len(),
                row@ == hv[f as int],
                all == (forall|t: int| lo <= t < k ==> #[trigger] hv[f as int][t]),
            decreases hi - k,
        {
            if !row[k] {
                all = false;
            }
            k += 1;
        }
        if all {
            return f;
        }
        f += 1;
    }
    f
}

fn first_with_exec(has: &Vec<Vec<bool>>, k: usize) -> (r: usize)
    requires
        k < usize::MAX,
        forall|f: int| 0 <= f < has@.len() ==> k < (#[trigger] has@[f])@.len(),
    ensures
        r == first_with(rows_view(has@), k as int),
{
    let f = first_cover_exec(has, k, k + 1);
    if f < has.len() {
        f
    } else {
        0
    }
}

/// The fallback face for every char of `text`, given which of the
/// `font_count` faces has a glyph for which char (`has_glyph[f][k]`).
pub fn cluster_font_picks(text: &str, font_count: usize, has_glyph: &Vec<Vec<bool>>) -> (r: Vec<usize>)
    requires
        has_glyph@.len() == font_count,
        forall|f: int| 0 <= f < font_count ==> (#[trigger] has_glyph@[f])@.len() == text@.len(),
    ensures
        r@ == picks_from(text@, rows_view(has_glyph@), 0),
{
    let chars = crate::text::str_chars(text);
    let ghost cs = chars@;
    let ghost hv = rows_view(has_glyph@);
    let n = chars.len();
    let mut out: Vec<usize> = Vec::new();
    let mut i: usize = 0;
    assert(out@ + picks_from(cs, hv, 0) =~= picks_from(cs, hv, 0));
    while i < n
        invariant
            i <= n,
            n == cs.len(),
            cs == chars@,
            cs == text@,
            hv == rows_view(has_glyph@),
            has_glyph@.len() == font_count,
            forall|f: int| 0 <= f < font_count ==> (#[trigger] has_glyph@[f])@.len() == n,
            out@ + picks_from(cs, hv, i as int) == picks_from(cs, hv, 0),
        decreases n - i,
    {
        let ch = chars[i];
        let ghost rest = picks_from(cs, hv, i + 1);
        if ch == '\n' || ch == '\r' {
            out.push(0);
            assert(out@ + rest =~= picks_from(cs, hv, 0));
            i += 1;
        } else if is_combining_mark(ch) {
            let f = first_with_exec(has_glyph, i);
            out.push(f);
            assert(out@ + rest =~= picks_from(cs, hv, 0));
            i += 1;
        } else {
            let mut j = i + 1;
            proof {
                lemma_marks_end_bounds(cs, i + 1);
            }
            while j < n && is_combining_mark(chars[j])
                invariant
                    i < j <= n,
                    n == cs.len(),
                    cs == chars@,
                    marks_end(cs, j as int) == marks_end(cs, i + 1),
                decreases n - j,
            {
                j += 1;
            }
            let ghost before = out@;
            let ghost tail = picks_from(cs, hv, j as int);
            let f = first_cover_exec(has_glyph, i, j);
            let mut k = i;
            if f < font_count {
                while k < j
                    invariant
                        i <= k <= j,
                        out@ == before + Seq::new((k - i) as nat, |t: int| f),
                    decreases j - k,
                {
                    out.push(f);
                    assert(out@ =~= before + Seq::new((k + 1 - i) as nat, |t: int| f));
                    k += 1;
                }
                assert(out@ + tail =~= picks_from(cs, hv, 0));
            } else {
                while k < j
                    invariant
                        i <= k <= j,
                        j <= n,
                        hv == rows_view(has_glyph@),
                        forall|g: int| 0 <= g < font_count ==> (#[trigger] has_glyph@[g])@.len() == n,
                        has_glyph@.len() == font_count,
                        out@ == before + Seq::new(
                            (k - i) as nat,
                            |t: int| first_with(hv, i + t) as usize,
                        ),
                    decreases j - k,
                {
                    let g = first_with_exec(has_glyph, k);
                    out.push(g);
                    assert(out@ =~= before + Seq::new(
                        (k + 1 - i) as nat,
                        |t: int| first_with(hv, i + t) as usize,
                    ));
                    k += 1;
                }
                assert(out@ + tail =~= picks_from(cs, hv, 0));
            }
            i = j;
        }
    }
    assert(out@ + picks_from(cs, hv, n as int) =~= out@);
    out
}

/// Characters of right-to-left scripts (Hebrew, the Arabic blocks and
/// their presentation forms) and the right-to-left controls.
pub open spec fn right_to_left(ch: char) -> bool {
    let v = ch as u32;
    ||| (0x0590 <= v && v <= 0x05FF)
    ||| (0x0600 <= v && v <= 0x06FF)
    ||| (0x0750 <= v && v <= 0x077F)
    ||| (0x08A0 <= v && v <= 0x08FF)
    ||| v == 0x200F
    ||| v == 0x202B
    ||| v == 0x202E
    ||| (0x2066 <= v && v <= 0x2069)
    ||| (0xFB50 <= v && v <= 0xFDFF)
    ||| (0xFE70 <= v && v <= 0xFEFE)
}

/// Whether `ch` belongs to a right-to-left script; layout stays
/// left-to-right, this only feeds a diagnostic.
pub fn is_right_to_left(ch: char) -> (b: bool)
    ensures
        b == right_to_left(ch),
{
    let v = ch as u32;
    (0x0590 <= v && v <= 0x05FF) || (0x0600 <= v && v <= 0x06FF) || (0x0750 <= v && v <= 0x077F) || (
    0x08A0 <= v && v <= 0x08FF) || v == 0x200F || v == 0x202B || v == 0x202E || (0x2066 <= v && v
        <= 0x2069) || (0xFB50 <= v && v <= 0xFDFF) || (0xFE70 <= v && v <= 0xFEFE)
}

/// Hiragana and katakana (U+3040..U+30FF), the CJK unified ideographs
/// (U+3400..U+4DBF, U+4E00..U+9FFF, U+20000..U+3FFFF), compatibility
/// ideographs (U+F900..U+FAFF) and Hangul syllables (U+AC00..U+D7A3) are
/// breakable CJK characters; ASCII characters are not.
pub proof fn lemma_cjk_scripts_breakable(ch: char)
    ensures
        0x3040 <= ch as u32 <= 0x30FF ==> cjk_breakable(ch),
        0x3400 <= ch as u32 <= 0x4DBF ==> cjk_breakable(ch),
        0x4E00 <= ch as u32 <= 0x9FFF ==> cjk_breakable(ch),
        0x20000 <= ch as u32 <= 0x3FFFF ==> cjk_breakable(ch),
        0xF900 <= ch as u32 <= 0xFAFF ==> cjk_breakable(ch),
        0xAC00 <= ch as u32 <= 0xD7A3 ==> cjk_breakable(ch),
        (ch as u32) < 0x80 ==> !cjk_breakable(ch),
{
}

/// Between two kana or ideographs there is a break opportunity unless
/// the first is an opening bracket, the second may not start a line
/// (small kana, closing punctuation, iteration marks) or the second is a
/// combining mark (the voicing marks U+3099/U+309A).
pub proof fn lemma_break_between_cjk(prev: char, next: char)
    requires
        (0x3040 <= prev as u32 <= 0x30FF) || (0x4E00 <= prev as u32 <= 0x9FFF),
        (0x3040 <= next as u32 <= 0x30FF) || (0x4E00 <= next as u32 <= 0x9FFF),
        !cjk_open(prev),
        !cjk_nobreak_before(next),
        !combining_mark(next),
    ensures
        spec_cjk_break(prev, next),
{
}

/// Two ASCII characters never break inside a word.
pub proof fn lemma_no_break_between_ascii(prev: char, next: char)
    requires
        (prev as u32) < 0x80,
        (next as u32) < 0x80,
    ensures
        !spec_cjk_break(prev, next),
{
}

/// No break comes before a small kana (っ, ゃ, ャ, ...), except after a
/// zero-width space, which always allows one; nor right after an opening
/// bracket (「, 『, （).
pub proof fn lemma_no_break_before_small_kana(prev: char)
    requires
        prev != '\u{200B}',
    ensures
        !spec_cjk_break(prev, '\u{3063}'),
        !spec_cjk_break(prev, '\u{3083}'),
        !spec_cjk_break(prev, '\u{30E3}'),
        !spec_cjk_break('\u{300C}', '\u{3042}'),
        !spec_cjk_break('\u{300E}', '\u{4E00}'),
        !spec_cjk_break('\u{FF08}', '\u{3042}'),
{
}

} // verus!
