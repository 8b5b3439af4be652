//! `[Script Info]` header fields.
use crate::text::string_of_str;
use vstd::prelude::*;

verus! {

/// The script header. Unset optional fields are `None`.
#[derive(Debug, Clone)]
pub struct ScriptInfo {
    pub title: Option<String>,
    pub script_type: String,
    pub play_res_x: u32,
    pub play_res_y: u32,
    pub layout_res_x: Option<u32>,
    pub layout_res_y: Option<u32>,
    pub wrap_style: u32,
    pub scaled_border_and_shadow: bool,
    pub kerning: bool,
    pub ycbcr_matrix: Option<String>,
}

pub struct ScriptInfoView {
    pub title: Option<Seq<char>>,
    pub script_type: Seq<char>,
    pub play_res_x: u32,
    pub play_res_y: u32,
    pub layout_res_x: Option<u32>,
    pub layout_res_y: Option<u32>,
    pub wrap_style: u32,
    pub scaled_border_and_shadow: bool,
    pub kerning: bool,
    pub ycbcr_matrix: Option<Seq<char>>,
}

pub open spec fn opt_view(o: Option<String>) -> Option<Seq<char>> {
    match o {
        Some(s) => Some(s@),
        None => None,
    }
}

impl View for ScriptInfo {
    type V = ScriptInfoView;

    open spec fn view(&self) -> ScriptInfoView {
        ScriptInfoView {
            title: opt_view(self.title),
            script_type: self.script_type@,
            play_res_x: self.play_res_x,
            play_res_y: self.play_res_y,
            layout_res_x: self.layout_res_x,
            layout_res_y: self.layout_res_y,
            wrap_style: self.wrap_style,
            scaled_border_and_shadow: self.scaled_border_and_shadow,
            kerning: self.kerning,
            ycbcr_matrix: opt_view(self.ycbcr_matrix),
        }
    }
}

/// The header of a script without a `[Script Info]` section: ASS v4.00+
/// at the 384x288 play resolution, smart wrapping, scaled borders.
pub open spec fn default_script_info() -> ScriptInfoView {
    ScriptInfoView {
        title: None,
        script_type: "v4.00+"@,
        play_res_x: 384,
        play_res_y: 288,
        layout_res_x: None,
        layout_res_y: None,
        wrap_style: 0,
        scaled_border_and_shadow: true,
        kerning: false,
        ycbcr_matrix: None,
    }
}

impl ScriptInfo {
    pub fn new() -> (s: ScriptInfo)
        ensures
            s@ == default_script_info(),
    {
        ScriptInfo {
            title: None,
            script_type: string_of_str("v4.00+"),
            play_res_x: 384,
            play_res_y: 288,
            layout_res_x: None,
            layout_res_y: None,
            wrap_style: 0,
            scaled_border_and_shadow: true,
            kerning: false,
            ycbcr_matrix: None,
        }
    }
}

} // verus!
