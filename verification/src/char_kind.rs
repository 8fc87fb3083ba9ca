//! Classifies a single character into the semantic kinds the rules branch on:
//! whitespace, half/full-width letters, and curated Chinese/Western
//! punctuation sub-kinds. The Unicode property lookups (general category and
//! East-Asian width) are black-box oracles; the curated tables and every
//! derived predicate are the library's own and exactly specified.
use vstd::prelude::*;

use icu_properties::{maps, EastAsianWidth, GeneralCategoryGroup};

verus! {

/// The semantic kind of a single character.
#[derive(Debug, Clone, Copy, PartialEq, Eq, Structural)]
pub enum CharKind {
    /// A space-separator character.
    Space,
    /// A half-width letter, digit or symbol.
    LetterHalf,
    /// A full-width letter, digit or symbol.
    LetterFull,
    /// Chinese pause/stop punctuation.
    PunctuationChinesePauseStop,
    /// Chinese left quotation mark.
    PunctuationChineseLeftQuotation,
    /// Chinese right quotation mark.
    PunctuationChineseRightQuotation,
    /// Chinese left bracket.
    PunctuationChineseLeftBracket,
    /// Chinese right bracket.
    PunctuationChineseRightBracket,
    /// Other Chinese punctuation.
    PunctuationChineseOther,
    /// Western pause/stop punctuation.
    PunctuationWesternPauseStop,
    /// Western quotation mark.
    PunctuationWesternQuotation,
    /// Western left bracket.
    PunctuationWesternLeftBracket,
    /// Western right bracket.
    PunctuationWesternRightBracket,
    /// Other Western (ASCII) punctuation.
    PunctuationWesternOther,
    /// Other non-ASCII punctuation.
    PunctuationOther,
    /// Any other character.
    Other,
}

/// The four buckets of the Unicode general category that the classifier
/// distinguishes.
#[derive(Debug, Clone, Copy, PartialEq, Eq, Structural)]
pub enum UnicodeBucket {
    /// The space-separator category.
    SpaceSeparator,
    /// The letter, number and symbol categories (broad-sense letters).
    LetterLike,
    /// The punctuation categories.
    Punctuation,
    /// Everything else.
    OtherCategory,
}

/// Which general-category bucket the Unicode tables put a character in.
pub uninterp spec fn bucket_of(c: char) -> UnicodeBucket;

/// Whether the Unicode tables give a character a wide or full-width
/// East-Asian width.
pub uninterp spec fn wide_of(c: char) -> bool;

/// Whether the Unicode tables classify a character as numeric.
pub uninterp spec fn numeric_of(c: char) -> bool;

/// Relies on icu_properties' general-category map (`maps::general_category`)
/// and `GeneralCategoryGroup::contains`: the category of a character depends
/// on the character alone, and the groups tested are space-separator,
/// letter/number/symbol, and punctuation.
#[verifier::external_body]
pub fn char_bucket(c: char) -> (r: UnicodeBucket)
    ensures
        r == bucket_of(c),
{
    let cat = maps::general_category().get(c);
    if GeneralCategoryGroup::SpaceSeparator.contains(cat) {
        UnicodeBucket::SpaceSeparator
    } else if GeneralCategoryGroup::Letter.union(GeneralCategoryGroup::Number).union(
        GeneralCategoryGroup::Symbol,
    ).contains(cat) {
        UnicodeBucket::LetterLike
    } else if GeneralCategoryGroup::Punctuation.contains(cat) {
        UnicodeBucket::Punctuation
    } else {
        UnicodeBucket::OtherCategory
    }
}

/// Relies on icu_properties' East-Asian width map (`maps::east_asian_width`):
/// the width of a character depends on the character alone; wide means the
/// `Wide` or `Fullwidth` class.
#[verifier::external_body]
pub fn char_is_wide(c: char) -> (r: bool)
    ensures
        r == wide_of(c),
{
    matches!(
        maps::east_asian_width().get(c),
        EastAsianWidth::Wide | EastAsianWidth::Fullwidth
    )
}

/// Relies on std's `char::is_numeric`: whether a character has a numeric
/// general category depends on the character alone.
#[verifier::external_body]
pub fn char_is_numeric(c: char) -> (r: bool)
    ensures
        r == numeric_of(c),
{
    c.is_numeric()
}

/// The Chinese pause/stop punctuation table.
pub open spec fn is_chinese_pause_stop_char(c: char) -> bool {
    c == '\u{3002}' || c == '\u{FF0E}' || c == '\u{FF0C}' || c == '\u{3001}' || c == '\u{FF1A}'
        || c == '\u{FF1B}' || c == '\u{FF01}' || c == '\u{203C}' || c == '\u{FF1F}' || c
        == '\u{2047}'
}

/// The Chinese left quotation table.
pub open spec fn is_chinese_left_quotation_char(c: char) -> bool {
    c == '\u{300C}' || c == '\u{300E}' || c == '\u{201C}' || c == '\u{2018}'
}

/// The Chinese right quotation table.
pub open spec fn is_chinese_right_quotation_char(c: char) -> bool {
    c == '\u{300D}' || c == '\u{300F}' || c == '\u{201D}' || c == '\u{2019}'
}

/// The right quotation mark that closes a Chinese left quotation mark,
/// matched by table position.
pub open spec fn chinese_quote_closer(c: char) -> char {
    if c == '\u{300C}' {
        '\u{300D}'
    } else if c == '\u{300E}' {
        '\u{300F}'
    } else if c == '\u{201C}' {
        '\u{201D}'
    } else if c == '\u{2018}' {
        '\u{2019}'
    } else {
        c
    }
}

/// The Chinese left bracket table.
pub open spec fn is_chinese_left_bracket_char(c: char) -> bool {
    c == '\u{FF08}' || c == '\u{300A}' || c == '\u{3008}' || c == '\u{3010}' || c == '\u{3016}'
        || c == '\u{3014}' || c == '\u{FF3B}' || c == '\u{FF5B}'
}

/// The Chinese right bracket table.
pub open spec fn is_chinese_right_bracket_char(c: char) -> bool {
    c == '\u{FF09}' || c == '\u{300B}' || c == '\u{3009}' || c == '\u{3011}' || c == '\u{3017}'
        || c == '\u{3015}' || c == '\u{FF3D}' || c == '\u{FF5D}'
}

/// The other-Chinese-punctuation table (dashes, ellipses, middle dots, ...).
pub open spec fn is_chinese_other_char(c: char) -> bool {
    c == '\u{2E3A}' || c == '\u{2014}' || c == '\u{2026}' || c == '\u{22EF}' || c == '\u{FF5E}'
        || c == '\u{002D}' || c == '\u{2013}' || c == '\u{00B7}' || c == '\u{30FB}' || c
        == '\u{2027}' || c == '\u{FF0F}'
}

/// The Western pause/stop punctuation table.
pub open spec fn is_western_pause_stop_char(c: char) -> bool {
    c == '.' || c == ',' || c == ':' || c == ';' || c == '!' || c == '?'
}

/// The Western quotation table.
pub open spec fn is_western_quotation_char(c: char) -> bool {
    c == '"' || c == '\''
}

/// The Western left bracket table.
pub open spec fn is_western_left_bracket_char(c: char) -> bool {
    c == '(' || c == '[' || c == '{'
}

/// The Western right bracket table.
pub open spec fn is_western_right_bracket_char(c: char) -> bool {
    c == ')' || c == ']' || c == '}'
}

/// Whether a character is in the ASCII range.
pub open spec fn is_ascii_char(c: char) -> bool {
    (c as u32) < 0x80
}

/// The kind of a character: space separators first, then broad-sense letters
/// split by East-Asian width, then punctuation split by the curated tables
/// (ASCII punctuation in no table is Western-other, non-ASCII is other), and
/// anything else is other.
pub open spec fn kind_of(c: char) -> CharKind {
    if bucket_of(c) is SpaceSeparator {
        CharKind::Space
    } else if bucket_of(c) is LetterLike {
        if wide_of(c) {
            CharKind::LetterFull
        } else {
            CharKind::LetterHalf
        }
    } else if bucket_of(c) is Punctuation {
        if is_chinese_pause_stop_char(c) {
            CharKind::PunctuationChinesePauseStop
        } else if is_chinese_left_quotation_char(c) {
            CharKind::PunctuationChineseLeftQuotation
        } else if is_chinese_right_quotation_char(c) {
            CharKind::PunctuationChineseRightQuotation
        } else if is_chinese_left_bracket_char(c) {
            CharKind::PunctuationChineseLeftBracket
        } else if is_chinese_right_bracket_char(c) {
            CharKind::PunctuationChineseRightBracket
        } else if is_chinese_other_char(c) {
            CharKind::PunctuationChineseOther
        } else if is_western_pause_stop_char(c) {
            CharKind::PunctuationWesternPauseStop
        } else if is_western_quotation_char(c) {
            CharKind::PunctuationWesternQuotation
        } else if is_western_left_bracket_char(c) {
            CharKind::PunctuationWesternLeftBracket
        } else if is_western_right_bracket_char(c) {
            CharKind::PunctuationWesternRightBracket
        } else if is_ascii_char(c) {
            CharKind::PunctuationWesternOther
        } else {
            CharKind::PunctuationOther
        }
    } else {
        CharKind::Other
    }
}

pub fn chinese_pause_stop(c: char) -> (r: bool)
    ensures
        r == is_chinese_pause_stop_char(c),
{
    matches!(
        c,
        '\u{3002}' | '\u{FF0E}' | '\u{FF0C}' | '\u{3001}' | '\u{FF1A}' | '\u{FF1B}' | '\u{FF01}'
            | '\u{203C}' | '\u{FF1F}' | '\u{2047}'
    )
}

pub fn chinese_left_quotation(c: char) -> (r: bool)
    ensures
        r == is_chinese_left_quotation_char(c),
{
    matches!(c, '\u{300C}' | '\u{300E}' | '\u{201C}' | '\u{2018}')
}

pub fn chinese_right_quotation(c: char) -> (r: bool)
    ensures
        r == is_chinese_right_quotation_char(c),
{
    matches!(c, '\u{300D}' | '\u{300F}' | '\u{201D}' | '\u{2019}')
}

/// The matching closer for a Chinese left quotation mark.
pub fn quote_closer(c: char) -> (r: char)
    ensures
        r == chinese_quote_closer(c),
{
    match c {
        '\u{300C}' => '\u{300D}',
        '\u{300E}' => '\u{300F}',
        '\u{201C}' => '\u{201D}',
        '\u{2018}' => '\u{2019}',
        _ => c,
    }
}

pub fn chinese_left_bracket(c: char) -> (r: bool)
    ensures
        r == is_chinese_left_bracket_char(c),
{
    matches!(
        c,
        '\u{FF08}' | '\u{300A}' | '\u{3008}' | '\u{3010}' | '\u{3016}' | '\u{3014}' | '\u{FF3B}'
            | '\u{FF5B}'
    )
}

pub fn chinese_right_bracket(c: char) -> (r: bool)
    ensures
        r == is_chinese_right_bracket_char(c),
{
    matches!(
        c,
        '\u{FF09}' | '\u{300B}' | '\u{3009}' | '\u{3011}' | '\u{3017}' | '\u{3015}' | '\u{FF3D}'
            | '\u{FF5D}'
    )
}

pub fn chinese_other(c: char) -> (r: bool)
    ensures
        r == is_chinese_other_char(c),
{
    matches!(
        c,
        '\u{2E3A}' | '\u{2014}' | '\u{2026}' | '\u{22EF}' | '\u{FF5E}' | '\u{002D}' | '\u{2013}'
            | '\u{00B7}' | '\u{30FB}' | '\u{2027}' | '\u{FF0F}'
    )
}

pub fn western_pause_stop(c: char) -> (r: bool)
    ensures
        r == is_western_pause_stop_char(c),
{
    matches!(c, '.' | ',' | ':' | ';' | '!' | '?')
}

pub fn western_quotation(c: char) -> (r: bool)
    ensures
        r == is_western_quotation_char(c),
{
    matches!(c, '"' | '\'')
}

pub fn western_left_bracket(c: char) -> (r: bool)
    ensures
        r == is_western_left_bracket_char(c),
{
    matches!(c, '(' | '[' | '{')
}

pub fn western_right_bracket(c: char) -> (r: bool)
    ensures
        r == is_western_right_bracket_char(c),
{
    matches!(c, ')' | ']' | '}')
}

/// Classifies a character.
pub fn kind(c: char) -> (r: CharKind)
    ensures
        r == kind_of(c),
{
    match char_bucket(c) {
        UnicodeBucket::SpaceSeparator => CharKind::Space,
        UnicodeBucket::LetterLike => {
            if char_is_wide(c) {
                CharKind::LetterFull
            } else {
                CharKind::LetterHalf
            }
        },
        UnicodeBucket::Punctuation => {
            if chinese_pause_stop(c) {
                CharKind::PunctuationChinesePauseStop
            } else if chinese_left_quotation(c) {
                CharKind::PunctuationChineseLeftQuotation
            } else if chinese_right_quotation(c) {
                CharKind::PunctuationChineseRightQuotation
            } else if chinese_left_bracket(c) {
                CharKind::PunctuationChineseLeftBracket
            } else if chinese_right_bracket(c) {
                CharKind::PunctuationChineseRightBracket
            } else if chinese_other(c) {
                CharKind::PunctuationChineseOther
            } else if western_pause_stop(c) {
                CharKind::PunctuationWesternPauseStop
            } else if western_quotation(c) {
                CharKind::PunctuationWesternQuotation
            } else if western_left_bracket(c) {
                CharKind::PunctuationWesternLeftBracket
            } else if western_right_bracket(c) {
                CharKind::PunctuationWesternRightBracket
            } else if (c as u32) < 0x80 {
                CharKind::PunctuationWesternOther
            } else {
                CharKind::PunctuationOther
            }
        },
        UnicodeBucket::OtherCategory => CharKind::Other,
    }
}

impl CharKind {
    pub open spec fn spec_is_letter(self) -> bool {
        self is LetterHalf || self is LetterFull
    }

    pub fn is_letter(&self) -> (r: bool)
        ensures
            r == self.spec_is_letter(),
    {
        matches!(self, CharKind::LetterHalf | CharKind::LetterFull)
    }

    pub open spec fn spec_is_space(self) -> bool {
        self is Space
    }

    pub fn is_space(&self) -> (r: bool)
        ensures
            r == self.spec_is_space(),
    {
        matches!(self, CharKind::Space)
    }

    pub open spec fn spec_is_chinese_punctuation(self) -> bool {
        self is PunctuationChinesePauseStop || self is PunctuationChineseLeftQuotation
            || self is PunctuationChineseRightQuotation || self is PunctuationChineseLeftBracket
            || self is PunctuationChineseRightBracket || self is PunctuationChineseOther
    }

    pub fn is_chinese_punctuation(&self) -> (r: bool)
        ensures
            r == self.spec_is_chinese_punctuation(),
    {
        matches!(
            self,
            CharKind::PunctuationChinesePauseStop | CharKind::PunctuationChineseLeftQuotation
                | CharKind::PunctuationChineseRightQuotation
                | CharKind::PunctuationChineseLeftBracket
                | CharKind::PunctuationChineseRightBracket | CharKind::PunctuationChineseOther
        )
    }

    pub open spec fn spec_is_western_punctuation(self) -> bool {
        self is PunctuationWesternPauseStop || self is PunctuationWesternQuotation
            || self is PunctuationWesternLeftBracket || self is PunctuationWesternRightBracket
            || self is PunctuationWesternOther
    }

    pub fn is_western_punctuation(&self) -> (r: bool)
        ensures
            r == self.spec_is_western_punctuation(),
    {
        matches!(
            self,
            CharKind::PunctuationWesternPauseStop | CharKind::PunctuationWesternQuotation
                | CharKind::PunctuationWesternLeftBracket
                | CharKind::PunctuationWesternRightBracket | CharKind::PunctuationWesternOther
        )
    }

    pub open spec fn spec_is_punctuation(self) -> bool {
        self.spec_is_chinese_punctuation() || self.spec_is_western_punctuation()
    }

    pub fn is_punctuation(&self) -> (r: bool)
        ensures
            r == self.spec_is_punctuation(),
    {
        self.is_chinese_punctuation() || self.is_western_punctuation()
    }

    pub open spec fn spec_is_pause_stop_punctuation(self) -> bool {
        self is PunctuationChinesePauseStop || self is PunctuationWesternPauseStop
    }

    pub fn is_pause_stop_punctuation(&self) -> (r: bool)
        ensures
            r == self.spec_is_pause_stop_punctuation(),
    {
        matches!(
            self,
            CharKind::PunctuationChinesePauseStop | CharKind::PunctuationWesternPauseStop
        )
    }

    pub open spec fn spec_is_quotation_punctuation(self) -> bool {
        self is PunctuationChineseLeftQuotation || self is PunctuationChineseRightQuotation
            || self is PunctuationWesternQuotation
    }

    pub fn is_quotation_punctuation(&self) -> (r: bool)
        ensures
            r == self.spec_is_quotation_punctuation(),
    {
        matches!(
            self,
            CharKind::PunctuationChineseLeftQuotation | CharKind::PunctuationChineseRightQuotation
                | CharKind::PunctuationWesternQuotation
        )
    }

    pub open spec fn spec_is_bracket_punctuation(self) -> bool {
        self is PunctuationChineseLeftBracket || self is PunctuationChineseRightBracket
            || self is PunctuationWesternLeftBracket || self is PunctuationWesternRightBracket
    }

    pub fn is_bracket_punctuation(&self) -> (r: bool)
        ensures
            r == self.spec_is_bracket_punctuation(),
    {
        matches!(
            self,
            CharKind::PunctuationChineseLeftBracket | CharKind::PunctuationChineseRightBracket
                | CharKind::PunctuationWesternLeftBracket
                | CharKind::PunctuationWesternRightBracket
        )
    }

    pub open spec fn spec_is_other_punctuation(self) -> bool {
        self is PunctuationChineseOther || self is PunctuationWesternOther
            || self is PunctuationOther
    }

    pub fn is_other_punctuation(&self) -> (r: bool)
        ensures
            r == self.spec_is_other_punctuation(),
    {
        matches!(
            self,
            CharKind::PunctuationChineseOther | CharKind::PunctuationWesternOther
                | CharKind::PunctuationOther
        )
    }

    pub open spec fn spec_is_left_punctuation(self) -> bool {
        self is PunctuationChineseLeftQuotation || self is PunctuationChineseLeftBracket
            || self is PunctuationWesternLeftBracket
    }

    pub fn is_left_punctuation(&self) -> (r: bool)
        ensures
            r == self.spec_is_left_punctuation(),
    {
        matches!(
            self,
            CharKind::PunctuationChineseLeftQuotation | CharKind::PunctuationChineseLeftBracket
                | CharKind::PunctuationWesternLeftBracket
        )
    }

    pub open spec fn spec_is_right_punctuation(self) -> bool {
        self is PunctuationChineseRightQuotation || self is PunctuationChineseRightBracket
            || self is PunctuationWesternRightBracket
    }

    pub fn is_right_punctuation(&self) -> (r: bool)
        ensures
            r == self.spec_is_right_punctuation(),
    {
        matches!(
            self,
            CharKind::PunctuationChineseRightQuotation | CharKind::PunctuationChineseRightBracket
                | CharKind::PunctuationWesternRightBracket
        )
    }

    pub open spec fn spec_is_single_punctuation(self) -> bool {
        self.spec_is_pause_stop_punctuation() || self.spec_is_other_punctuation()
    }

    pub fn is_single_punctuation(&self) -> (r: bool)
        ensures
            r == self.spec_is_single_punctuation(),
    {
        self.is_pause_stop_punctuation() || self.is_other_punctuation()
    }
}

/// Whether a character is wide or is Chinese punctuation.
pub open spec fn spec_is_wide_or_chinese(c: char) -> bool {
    wide_of(c) || kind_of(c).spec_is_chinese_punctuation()
}

pub fn is_wide_or_chinese(c: char) -> (r: bool)
    ensures
        r == spec_is_wide_or_chinese(c),
{
    char_is_wide(c) || kind(c).is_chinese_punctuation()
}

} // verus!
