//! The configuration record read by every rewrite rule.
use vstd::prelude::*;
use vstd::string::StringExecFns;

verus! {

/// Which Chinese quotation style unification should produce.
#[derive(Debug, Clone, Copy, PartialEq, Eq, Structural)]
pub enum ZhScript {
    /// Curly quotes.
    Simplified,
    /// Corner-bracket quotes.
    Traditional,
}

/// Options for the whole rule battery. Boolean options switch one rewrite on
/// or off; `Option<bool>` options are tri-state: enforce a space, enforce no
/// space, or leave the text as it is.
#[derive(Debug, Clone)]
pub struct Config {
    /// Named preset; informational only.
    pub preset: Option<String>,
    /// Punctuation to convert into half-width form.
    pub halfwidth_punctuation: String,
    /// Punctuation to convert into full-width form.
    pub fullwidth_punctuation: String,
    /// Unify Chinese quotation marks to this script's style.
    pub unified_punctuation: Option<ZhScript>,
    /// Abbreviations whose trailing dot is kept half-width.
    pub skip_abbrs: Vec<String>,
    /// Ensure one space between half-width content runs.
    pub space_between_halfwidth_content: bool,
    /// Remove the space between full-width content runs.
    pub no_space_between_fullwidth_content: bool,
    /// One space / no space / keep, between mixed-width content runs.
    pub space_between_mixedwidth_letters: Option<bool>,
    /// Chinese unit characters that suppress mixed-width spacing after digits.
    pub skip_zh_units: Vec<String>,
    /// Remove spaces before pause/stop punctuation.
    pub no_space_before_pause_or_stop: bool,
    /// One space / no space / keep, after half-width pause/stop punctuation.
    pub space_after_halfwidth_pause_or_stop: Option<bool>,
    /// Remove spaces after full-width pause/stop punctuation.
    pub no_space_after_fullwidth_pause_or_stop: bool,
    /// One space / no space / keep, outside half-width quotations.
    pub space_outside_halfwidth_quotation: Option<bool>,
    /// Remove spaces outside full-width quotations.
    pub no_space_outside_fullwidth_quotation: bool,
    /// Remove spaces just inside quotation delimiters.
    pub no_space_inside_quotation: bool,
    /// One space / no space / keep, outside half-width brackets.
    pub space_outside_halfwidth_bracket: Option<bool>,
    /// Remove spaces outside full-width brackets.
    pub no_space_outside_fullwidth_bracket: bool,
    /// Remove spaces just inside bracket pairs.
    pub no_space_inside_bracket: bool,
    /// One space / no space / keep, between inline code and its neighbors.
    pub space_outside_code: Option<bool>,
    /// Remove spaces just inside markup wrapper boundaries.
    pub no_space_inside_hyper_mark: bool,
    /// Trim whitespace at the beginning and end of the text.
    pub trim_space: bool,
}

impl Config {
    /// A configuration with every rewrite switched off: running the engine
    /// with it proposes no modification.
    pub fn empty() -> (r: Config)
        ensures
            r.preset is None,
            r.halfwidth_punctuation@.len() == 0,
            r.fullwidth_punctuation@.len() == 0,
            r.unified_punctuation is None,
            r.skip_abbrs@.len() == 0,
            !r.space_between_halfwidth_content,
            !r.no_space_between_fullwidth_content,
            r.space_between_mixedwidth_letters is None,
            r.skip_zh_units@.len() == 0,
            !r.no_space_before_pause_or_stop,
            r.space_after_halfwidth_pause_or_stop is None,
            !r.no_space_after_fullwidth_pause_or_stop,
            r.space_outside_halfwidth_quotation is None,
            !r.no_space_outside_fullwidth_quotation,
            !r.no_space_inside_quotation,
            r.space_outside_halfwidth_bracket is None,
            !r.no_space_outside_fullwidth_bracket,
            !r.no_space_inside_bracket,
            r.space_outside_code is None,
            !r.no_space_inside_hyper_mark,
            !r.trim_space,
    {
        Config {
            preset: None,
            halfwidth_punctuation: String::new(),
            fullwidth_punctuation: String::new(),
            unified_punctuation: None,
            skip_abbrs: Vec::new(),
            space_between_halfwidth_content: false,
            no_space_between_fullwidth_content: false,
            space_between_mixedwidth_letters: None,
            skip_zh_units: Vec::new(),
            no_space_before_pause_or_stop: false,
            space_after_halfwidth_pause_or_stop: None,
            no_space_after_fullwidth_pause_or_stop: false,
            space_outside_halfwidth_quotation: None,
            no_space_outside_fullwidth_quotation: false,
            no_space_inside_quotation: false,
            space_outside_halfwidth_bracket: None,
            no_space_outside_fullwidth_bracket: false,
            no_space_inside_bracket: false,
            space_outside_code: None,
            no_space_inside_hyper_mark: false,
            trim_space: false,
        }
    }
}

impl Default for Config {
    /// The default preset: every rewrite on, curly quotes, the usual
    /// abbreviation and Chinese calendar/time unit lists.
    fn default() -> (r: Config)
        ensures
            r.preset is None,
            r.halfwidth_punctuation@ == "()"@,
            r.fullwidth_punctuation@ == "\u{FF0C}\u{3002}\u{FF1A}\u{FF1B}\u{FF1F}\u{FF01}\u{201C}\u{201D}\u{2018}\u{2019}"@,
            r.unified_punctuation == Some(ZhScript::Simplified),
            r.skip_abbrs@.len() == 10,
            r.skip_abbrs@[5]@ == "vs."@,
            r.space_between_halfwidth_content,
            r.no_space_between_fullwidth_content,
            r.space_between_mixedwidth_letters == Some(true),
            r.skip_zh_units@.len() == 8,
            r.skip_zh_units@[0]@ == "\u{5E74}"@,
            r.no_space_before_pause_or_stop,
            r.space_after_halfwidth_pause_or_stop == Some(true),
            r.no_space_after_fullwidth_pause_or_stop,
            r.space_outside_halfwidth_quotation == Some(true),
            r.no_space_outside_fullwidth_quotation,
            r.no_space_inside_quotation,
            r.space_outside_halfwidth_bracket == Some(true),
            r.no_space_outside_fullwidth_bracket,
            r.no_space_inside_bracket,
            r.space_outside_code == Some(true),
            r.no_space_inside_hyper_mark,
            r.trim_space,
    {
        let mut skip_abbrs: Vec<String> = Vec::new();
        skip_abbrs.push(String::from_str("Mr."));
        skip_abbrs.push(String::from_str("Mrs."));
        skip_abbrs.push(String::from_str("Dr."));
        skip_abbrs.push(String::from_str("Jr."));
        skip_abbrs.push(String::from_str("Sr."));
        skip_abbrs.push(String::from_str("vs."));
        skip_abbrs.push(String::from_str("etc."));
        skip_abbrs.push(String::from_str("i.e."));
        skip_abbrs.push(String::from_str("e.g."));
        skip_abbrs.push(String::from_str("a.k.a"));
        let mut skip_zh_units: Vec<String> = Vec::new();
        skip_zh_units.push(String::from_str("\u{5E74}"));
        skip_zh_units.push(String::from_str("\u{6708}"));
        skip_zh_units.push(String::from_str("\u{65E5}"));
        skip_zh_units.push(String::from_str("\u{5929}"));
        skip_zh_units.push(String::from_str("\u{53F7}"));
        skip_zh_units.push(String::from_str("\u{65F6}"));
        skip_zh_units.push(String::from_str("\u{5206}"));
        skip_zh_units.push(String::from_str("\u{79D2}"));
        Config {
            preset: None,
            halfwidth_punctuation: String::from_str("()"),
            fullwidth_punctuation: String::from_str(
                "\u{FF0C}\u{3002}\u{FF1A}\u{FF1B}\u{FF1F}\u{FF01}\u{201C}\u{201D}\u{2018}\u{2019}",
            ),
            unified_punctuation: Some(ZhScript::Simplified),
            skip_abbrs,
            space_between_halfwidth_content: true,
            no_space_between_fullwidth_content: true,
            space_between_mixedwidth_letters: Some(true),
            skip_zh_units,
            no_space_before_pause_or_stop: true,
            space_after_halfwidth_pause_or_stop: Some(true),
            no_space_after_fullwidth_pause_or_stop: true,
            space_outside_halfwidth_quotation: Some(true),
            no_space_outside_fullwidth_quotation: true,
            no_space_inside_quotation: true,
            space_outside_halfwidth_bracket: Some(true),
            no_space_outside_fullwidth_bracket: true,
            no_space_inside_bracket: true,
            space_outside_code: Some(true),
            no_space_inside_hyper_mark: true,
            trim_space: true,
        }
    }
}

} // verus!
