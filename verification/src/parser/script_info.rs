//! `[Script Info]` sections: `Key: Value` lines.
use crate::text::{
    chars_eq, eq_ci, find_char, lines_of, next_of, parse_u32, spec_parse_u32, str_chars,
    str_views, string_of, sub_chars, trim, trim_chars, views_of, char_ascii_lower, ascii_lower,
};
use crate::types::script_info::{default_script_info, ScriptInfo, ScriptInfoView};
use vstd::prelude::*;

verus! {

/// A yes/no flag: `yes` or `1` is true, `no` or `0` false (ASCII case
/// ignored); anything else leaves the flag as it was.
pub open spec fn spec_flag(v: Seq<char>, old_flag: bool) -> bool {
    if eq_ci(v, "yes"@) || v == "1"@ {
        true
    } else if eq_ci(v, "no"@) || v == "0"@ {
        false
    } else {
        old_flag
    }
}

/// Store one header field. Numeric fields that do not read as a `u32`
/// keep their value; unknown keys are ignored.
pub open spec fn info_field(info: ScriptInfoView, key: Seq<char>, v: Seq<char>) -> ScriptInfoView {
    if key == "Title"@ {
        ScriptInfoView { title: Some(v), ..info }
    } else if key == "ScriptType"@ {
        ScriptInfoView { script_type: v, ..info }
    } else if key == "PlayResX"@ {
        match spec_parse_u32(v) {
            Some(x) => ScriptInfoView { play_res_x: x, ..info },
            None => info,
        }
    } else if key == "PlayResY"@ {
        match spec_parse_u32(v) {
            Some(x) => ScriptInfoView { play_res_y: x, ..info },
            None => info,
        }
    } else if key == "LayoutResX"@ {
        match spec_parse_u32(v) {
            Some(x) => ScriptInfoView { layout_res_x: Some(x), ..info },
            None => info,
        }
    } else if key == "LayoutResY"@ {
        match spec_parse_u32(v) {
            Some(x) => ScriptInfoView { layout_res_y: Some(x), ..info },
            None => info,
        }
    } else if key == "WrapStyle"@ {
        match spec_parse_u32(v) {
            Some(x) => ScriptInfoView { wrap_style: x, ..info },
            None => info,
        }
    } else if key == "ScaledBorderAndShadow"@ {
        ScriptInfoView {
            scaled_border_and_shadow: spec_flag(v, info.scaled_border_and_shadow),
            ..info
        }
    } else if key == "Kerning"@ {
        ScriptInfoView { kerning: spec_flag(v, info.kerning), ..info }
    } else if key == "YCbCr Matrix"@ {
        ScriptInfoView { ycbcr_matrix: Some(v), ..info }
    } else {
        info
    }
}

/// One header line: blank lines, `;` comments and lines without a `:`
/// are skipped; otherwise the key before the first `:` and the value
/// after it, both trimmed.
pub open spec fn info_step(raw: Seq<char>, info: ScriptInfoView) -> ScriptInfoView {
    let line = trim(raw);
    let c = next_of(line, ':', 0);
    if line.len() == 0 || line[0] == ';' || c >= line.len() {
        info
    } else {
        info_field(
            info,
            trim(line.subrange(0, c)),
            trim(line.subrange(c + 1, line.len() as int)),
        )
    }
}

pub open spec fn info_fold(lines: Seq<Seq<char>>, info: ScriptInfoView) -> ScriptInfoView
    decreases lines.len(),
{
    if lines.len() == 0 {
        info
    } else {
        info_step(lines.last(), info_fold(lines.drop_last(), info))
    }
}

/// The header of a `[Script Info]` section's lines.
pub open spec fn spec_parse_script_info(lines: Seq<Seq<char>>) -> ScriptInfoView {
    info_fold(lines, default_script_info())
}

fn is_key(k: &[char], name: &str) -> (b: bool)
    ensures
        b == (k@ == name@),
{
    let n = str_chars(name);
    chars_eq(k, n.as_slice())
}

fn eq_ci_str(v: &[char], name: &str) -> (b: bool)
    ensures
        b == eq_ci(v@, name@),
{
    let n = str_chars(name);
    if v.len() != n.len() {
        return false;
    }
    let mut k: usize = 0;
    while k < v.len()
        invariant
            0 <= k <= v@.len(),
            v@.len() == n@.len(),
            n@ == name@,
            forall|j: int| 0 <= j < k ==> ascii_lower(v@[j]) == ascii_lower(n@[j]),
        decreases v@.len() - k,
    {
        if char_ascii_lower(v[k]) != char_ascii_lower(n[k]) {
            return false;
        }
        k += 1;
    }
    true
}

fn flag(v: &[char], old_flag: bool) -> (b: bool)
    ensures
        b == spec_flag(v@, old_flag),
{
    if eq_ci_str(v, "yes") || is_key(v, "1") {
        true
    } else if eq_ci_str(v, "no") || is_key(v, "0") {
        false
    } else {
        old_flag
    }
}

fn info_field_exec(info: &mut ScriptInfo, key: &[char], v: &[char])
    ensures
        final(info)@ == info_field(old(info)@, key@, v@),
{
    if is_key(key, "Title") {
        info.title = Some(string_of(v));
    } else if is_key(key, "ScriptType") {
        info.script_type = string_of(v);
    } else if is_key(key, "PlayResX") {
        if let Some(x) = parse_u32(v) {
            info.play_res_x = x;
        }
    } else if is_key(key, "PlayResY") {
        if let Some(x) = parse_u32(v) {
            info.play_res_y = x;
        }
    } else if is_key(key, "LayoutResX") {
        if let Some(x) = parse_u32(v) {
            info.layout_res_x = Some(x);
        }
    } else if is_key(key, "LayoutResY") {
        if let Some(x) = parse_u32(v) {
            info.layout_res_y = Some(x);
        }
    } else if is_key(key, "WrapStyle") {
        if let Some(x) = parse_u32(v) {
            info.wrap_style = x;
        }
    } else if is_key(key, "ScaledBorderAndShadow") {
        info.scaled_border_and_shadow = flag(v, info.scaled_border_and_shadow);
    } else if is_key(key, "Kerning") {
        info.kerning = flag(v, info.kerning);
    } else if is_key(key, "YCbCr Matrix") {
        info.ycbcr_matrix = Some(string_of(v));
    }
}

/// Read the lines of a `[Script Info]` section.
pub fn parse_script_info_lines(lines: &Vec<Vec<char>>) -> (r: ScriptInfo)
    ensures
        r@ == spec_parse_script_info(views_of(lines@)),
{
    let ghost ls = views_of(lines@);
    let mut info = ScriptInfo::new();
    let mut i: usize = 0;
    assert(ls.take(0) =~= Seq::<Seq<char>>::empty());
    while i < lines.len()
        invariant
            0 <= i <= lines@.len(),
            ls == views_of(lines@),
            info@ == info_fold(ls.take(i as int), default_script_info()),
        decreases lines@.len() - i,
    {
        assert(ls.take(i + 1).drop_last() =~= ls.take(i as int));
        assert(ls.take(i + 1).last() == lines@[i as int]@);
        let line = trim_chars(lines[i].as_slice());
        let c = find_char(line.as_slice(), ':', 0);
        if line.len() > 0 && line[0] != ';' && c < line.len() {
            let key = trim_chars(sub_chars(line.as_slice(), 0, c).as_slice());
            let value = trim_chars(sub_chars(line.as_slice(), c + 1, line.len()).as_slice());
            info_field_exec(&mut info, key.as_slice(), value.as_slice());
        }
        i += 1;
    }
    assert(ls.take(lines@.len() as int) =~= ls);
    info
}

/// Read the lines of a `[Script Info]` section.
pub fn parse_script_info(lines: &[&str]) -> (r: ScriptInfo)
    ensures
        r@ == spec_parse_script_info(str_views(lines@)),
{
    let ls = lines_of(lines);
    parse_script_info_lines(&ls)
}

} // verus!
