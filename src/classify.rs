//! Classification of single characters into the categories that delimit
//! completion words.

use unicode_general_category::GeneralCategory;
use vstd::prelude::*;

verus! {

/// The Unicode general category enum of `unicode_general_category`; its
/// variants carry no data, so verified code may match on them.
#[verifier::external_type_specification]
pub struct ExGeneralCategory(GeneralCategory);

/// The general category that `unicode_general_category` assigns to a character.
pub uninterp spec fn general_category_of(c: char) -> GeneralCategory;

/// Relies on `unicode_general_category::get_general_category`: a table lookup
/// that depends on the character alone.
pub assume_specification[ unicode_general_category::get_general_category ](chr: char) -> (r:
    GeneralCategory)
    ensures
        r == general_category_of(chr),
;

/// Whether std considers a character alphabetic or numeric.
pub uninterp spec fn alphanumeric_of(c: char) -> bool;

/// Relies on `char::is_alphanumeric`: a Unicode property lookup that depends on
/// the character alone.
#[verifier::external_body]
fn is_alphanumeric(c: char) -> (r: bool)
    ensures
        r == alphanumeric_of(c),
{
    c.is_alphanumeric()
}

/// The category of a character; adjacent characters of different categories
/// are separated by a word boundary.
#[derive(Clone, Copy, Debug, PartialEq, Eq, Structural)]
pub enum CharCategory {
    Whitespace,
    Eol,
    Word,
    Punctuation,
    Unknown,
    Hiragana,
    Katakana,
    Kanji,
}

pub open spec fn in_range(c: char, lo: u32, hi: u32) -> bool {
    lo <= (c as u32) && (c as u32) <= hi
}

/// Hiragana, Kana Extended-A/B, Kana Supplement and Small Kana Extension.
pub open spec fn is_hiragana(c: char) -> bool {
    in_range(c, 0x3041, 0x3096) || in_range(c, 0x3099, 0x309F) || in_range(c, 0x1B100, 0x1B12F)
        || in_range(c, 0x1AFF0, 0x1AFFF) || in_range(c, 0x1B000, 0x1B0FF) || in_range(
        c,
        0x1B130,
        0x1B16F,
    )
}

/// The Katakana block.
pub open spec fn is_katakana(c: char) -> bool {
    in_range(c, 0x30A0, 0x30FF)
}

/// CJK Unified Ideographs with extensions A to I, and CJK Compatibility
/// Ideographs with their supplement.
pub open spec fn is_kanji(c: char) -> bool {
    in_range(c, 0x4E00, 0x9FFF) || in_range(c, 0x3400, 0x4DBF) || in_range(c, 0x20000, 0x2A6DF)
        || in_range(c, 0x2A700, 0x2B739) || in_range(c, 0x2B740, 0x2B81D) || in_range(
        c,
        0x2B820,
        0x2CEA1,
    ) || in_range(c, 0x2CEB0, 0x2EBE0) || in_range(c, 0x30000, 0x3134A) || in_range(
        c,
        0x31350,
        0x323AF,
    ) || in_range(c, 0x2EBF0, 0x2EE5D) || in_range(c, 0xF900, 0xFAFF) || in_range(
        c,
        0x2F800,
        0x2FA1F,
    )
}

/// LF, VT, FF, CR, NEL, LINE SEPARATOR and PARAGRAPH SEPARATOR.
pub open spec fn is_line_ending(c: char) -> bool {
    c == '\u{000A}' || c == '\u{000B}' || c == '\u{000C}' || c == '\u{000D}' || c == '\u{0085}'
        || c == '\u{2028}' || c == '\u{2029}'
}

/// Tab, space, the non-breaking, narrow and ideographic spaces, and the range
/// from EN QUAD to ZERO WIDTH SPACE. OGHAM SPACE MARK is left out on purpose:
/// it is usually drawn as a dash.
pub open spec fn is_whitespace(c: char) -> bool {
    c == '\u{0009}' || c == '\u{0020}' || c == '\u{00A0}' || c == '\u{180E}' || c == '\u{202F}'
        || c == '\u{205F}' || c == '\u{3000}' || c == '\u{FEFF}' || in_range(c, 0x2000, 0x200B)
}

pub open spec fn is_word(c: char, alphanumeric: bool) -> bool {
    alphanumeric || c == '_'
}

/// The general categories that count as punctuation: the seven punctuation
/// categories and the math, currency and modifier symbols.
pub open spec fn is_punctuation_spec(g: GeneralCategory) -> bool {
    match g {
        GeneralCategory::OtherPunctuation => true,
        GeneralCategory::OpenPunctuation => true,
        GeneralCategory::ClosePunctuation => true,
        GeneralCategory::InitialPunctuation => true,
        GeneralCategory::FinalPunctuation => true,
        GeneralCategory::ConnectorPunctuation => true,
        GeneralCategory::DashPunctuation => true,
        GeneralCategory::MathSymbol => true,
        GeneralCategory::CurrencySymbol => true,
        GeneralCategory::ModifierSymbol => true,
        _ => false,
    }
}

/// The category of `c`, given whether it is alphanumeric and its general
/// category; the first matching class wins.
#[verifier::opaque]
pub open spec fn category_from(c: char, alphanumeric: bool, general: GeneralCategory) -> CharCategory {
    if is_hiragana(c) {
        CharCategory::Hiragana
    } else if is_katakana(c) {
        CharCategory::Katakana
    } else if is_kanji(c) {
        CharCategory::Kanji
    } else if is_line_ending(c) {
        CharCategory::Eol
    } else if is_whitespace(c) {
        CharCategory::Whitespace
    } else if is_word(c, alphanumeric) {
        CharCategory::Word
    } else if is_punctuation_spec(general) {
        CharCategory::Punctuation
    } else {
        CharCategory::Unknown
    }
}

/// The category of a character.
pub open spec fn category_of(c: char) -> CharCategory {
    category_from(c, alphanumeric_of(c), general_category_of(c))
}

/// Classification is total and exclusive: every character gets exactly one
/// category, and it is in a category exactly when it belongs to that class and
/// to none of the classes that come before it.
pub proof fn lemma_category_precedence(c: char)
    ensures
        (category_of(c) == CharCategory::Hiragana) == is_hiragana(c),
        (category_of(c) == CharCategory::Katakana) == (!is_hiragana(c) && is_katakana(c)),
        (category_of(c) == CharCategory::Kanji) == (!is_hiragana(c) && !is_katakana(c)
            && is_kanji(c)),
        (category_of(c) == CharCategory::Eol) == (!is_hiragana(c) && !is_katakana(c) && !is_kanji(
            c,
        ) && is_line_ending(c)),
        (category_of(c) == CharCategory::Whitespace) == (!is_hiragana(c) && !is_katakana(c)
            && !is_kanji(c) && !is_line_ending(c) && is_whitespace(c)),
        (category_of(c) == CharCategory::Word) == (!is_hiragana(c) && !is_katakana(c) && !is_kanji(
            c,
        ) && !is_line_ending(c) && !is_whitespace(c) && is_word(c, alphanumeric_of(c))),
        (category_of(c) == CharCategory::Punctuation) == (!is_hiragana(c) && !is_katakana(c)
            && !is_kanji(c) && !is_line_ending(c) && !is_whitespace(c) && !is_word(
            c,
            alphanumeric_of(c),
        ) && is_punctuation_spec(general_category_of(c))),
        (category_of(c) == CharCategory::Unknown) == (!is_hiragana(c) && !is_katakana(c)
            && !is_kanji(c) && !is_line_ending(c) && !is_whitespace(c) && !is_word(
            c,
            alphanumeric_of(c),
        ) && !is_punctuation_spec(general_category_of(c))),
{
    reveal(category_from);
}

/// Classification is pure: the category depends on the character alone, so
/// classifying the same character twice gives the same category.
pub proof fn lemma_category_pure(a: char, b: char)
    requires
        a == b,
    ensures
        category_of(a) == category_of(b),
{
}

pub fn char_is_hiragana(ch: char) -> (r: bool)
    ensures
        r == is_hiragana(ch),
{
    let u = ch as u32;
    (0x3041 <= u && u <= 0x3096) || (0x3099 <= u && u <= 0x309F) || (0x1B100 <= u && u
        <= 0x1B12F) || (0x1AFF0 <= u && u <= 0x1AFFF) || (0x1B000 <= u && u <= 0x1B0FF) || (
    0x1B130 <= u && u <= 0x1B16F)
}

pub fn char_is_katakana(ch: char) -> (r: bool)
    ensures
        r == is_katakana(ch),
{
    let u = ch as u32;
    0x30A0 <= u && u <= 0x30FF
}

pub fn char_is_kanji(ch: char) -> (r: bool)
    ensures
        r == is_kanji(ch),
{
    let u = ch as u32;
    (0x4E00 <= u && u <= 0x9FFF) || (0x3400 <= u && u <= 0x4DBF) || (0x20000 <= u && u
        <= 0x2A6DF) || (0x2A700 <= u && u <= 0x2B739) || (0x2B740 <= u && u <= 0x2B81D) || (
    0x2B820 <= u && u <= 0x2CEA1) || (0x2CEB0 <= u && u <= 0x2EBE0) || (0x30000 <= u && u
        <= 0x3134A) || (0x31350 <= u && u <= 0x323AF) || (0x2EBF0 <= u && u <= 0x2EE5D) || (
    0xF900 <= u && u <= 0xFAFF) || (0x2F800 <= u && u <= 0x2FA1F)
}

pub fn char_is_line_ending(ch: char) -> (r: bool)
    ensures
        r == is_line_ending(ch),
{
    ch == '\u{000A}' || ch == '\u{000B}' || ch == '\u{000C}' || ch == '\u{000D}' || ch
        == '\u{0085}' || ch == '\u{2028}' || ch == '\u{2029}'
}

pub fn char_is_whitespace(ch: char) -> (r: bool)
    ensures
        r == is_whitespace(ch),
{
    let u = ch as u32;
    ch == '\u{0009}' || ch == '\u{0020}' || ch == '\u{00A0}' || ch == '\u{180E}' || ch
        == '\u{202F}' || ch == '\u{205F}' || ch == '\u{3000}' || ch == '\u{FEFF}' || (0x2000 <= u
        && u <= 0x200B)
}

pub fn char_is_word(ch: char) -> (r: bool)
    ensures
        r == is_word(ch, alphanumeric_of(ch)),
{
    is_alphanumeric(ch) || ch == '_'
}

/// Whether a general category counts as punctuation.
pub fn is_punctuation_category(g: GeneralCategory) -> (r: bool)
    ensures
        r == is_punctuation_spec(g),
{
    match g {
        GeneralCategory::OtherPunctuation => true,
        GeneralCategory::OpenPunctuation => true,
        GeneralCategory::ClosePunctuation => true,
        GeneralCategory::InitialPunctuation => true,
        GeneralCategory::FinalPunctuation => true,
        GeneralCategory::ConnectorPunctuation => true,
        GeneralCategory::DashPunctuation => true,
        GeneralCategory::MathSymbol => true,
        GeneralCategory::CurrencySymbol => true,
        GeneralCategory::ModifierSymbol => true,
        _ => false,
    }
}

pub fn char_is_punctuation(ch: char) -> (r: bool)
    ensures
        r == is_punctuation_spec(general_category_of(ch)),
{
    is_punctuation_category(unicode_general_category::get_general_category(ch))
}

/// The category of `ch`, given whether it is alphanumeric and its general
/// category.
pub fn categorize_with(ch: char, alphanumeric: bool, general: GeneralCategory) -> (r: CharCategory)
    ensures
        r == category_from(ch, alphanumeric, general),
{
    reveal(category_from);
    if char_is_hiragana(ch) {
        CharCategory::Hiragana
    } else if char_is_katakana(ch) {
        CharCategory::Katakana
    } else if char_is_kanji(ch) {
        CharCategory::Kanji
    } else if char_is_line_ending(ch) {
        CharCategory::Eol
    } else if char_is_whitespace(ch) {
        CharCategory::Whitespace
    } else if alphanumeric || ch == '_' {
        CharCategory::Word
    } else if is_punctuation_category(general) {
        CharCategory::Punctuation
    } else {
        CharCategory::Unknown
    }
}

/// The category of a character.
pub fn categorize_char(ch: char) -> (r: CharCategory)
    ensures
        r == category_of(ch),
{
    categorize_with(ch, is_alphanumeric(ch), unicode_general_category::get_general_category(ch))
}

/// Whether two characters lie in different categories.
pub fn is_boundary(a: char, b: char) -> (r: bool)
    ensures
        r == (category_of(a) != category_of(b)),
{
    categorize_char(a) != categorize_char(b)
}

} // verus!
