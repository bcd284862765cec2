//! Conversion between full-width characters and their half-width
//! counterparts.

use vstd::prelude::*;
use vstd::string::*;
use std::collections::HashMap;
use crate::chars::{read, terminated, valid_seq, CharPool, CharView};
use crate::text::{single_char, string_from_char, string_from_pair};
use crate::transliterator::{
    all_put, apply, closes_with_terminator, edit_views, edits_in_range, lemma_closes,
    lemma_map_outcome_terminated, lemma_outcome_terminated, map_edits, rewrite, Edit, EditView,
    Outcome, TransliterationError, Transliterator, TransliteratorFactory,
    TransliteratorFactoryError,
};
use crate::transliterators::kana_table::{
    index_pairs, lemma_pairs_map, lookup, pairs_map, HALF, HALFWIDTH_SEMI_VOICED_MARK,
    HALFWIDTH_VOICED_MARK, HIRA, HIRA_SEMI, HIRA_VOICED, KANA, KANA_ROWS, KATA, KATA_SEMI,
    KATA_VOICED, NONE, SMALL_KANA, SMALL_KANA_ROWS,
};

verus! {

/// Number of rows of [`GL`].
pub const GL_ROWS: usize = 93;

/// Alphanumerics and symbols: full-width form, half-width form.
pub const GL: [[char; 2]; 93] = [
    ['\u{3000}', '\u{0020}'],  // SPACE
    ['\u{ff01}', '\u{0021}'],  // EXCLAMATION MARK
    ['\u{ff02}', '\u{0022}'],  // QUOTATION MARK
    ['\u{ff03}', '\u{0023}'],  // NUMBER SIGN
    ['\u{ff04}', '\u{0024}'],  // DOLLAR SIGN
    ['\u{ff05}', '\u{0025}'],  // PERCENT SIGN
    ['\u{ff06}', '\u{0026}'],  // AMPERSAND
    ['\u{ff07}', '\u{0027}'],  // APOSTROPHE
    ['\u{ff08}', '\u{0028}'],  // LEFT PARENTHESIS
    ['\u{ff09}', '\u{0029}'],  // RIGHT PARENTHESIS
    ['\u{ff0a}', '\u{002a}'],  // ASTERISK
    ['\u{ff0b}', '\u{002b}'],  // PLUS SIGN
    ['\u{ff0c}', '\u{002c}'],  // COMMA
    ['\u{ff0d}', '\u{002d}'],  // HYPHEN-MINUS
    ['\u{ff0e}', '\u{002e}'],  // FULL STOP
    ['\u{ff0f}', '\u{002f}'],  // SOLIDUS
    ['\u{ff10}', '\u{0030}'],  // DIGIT ZERO
    ['\u{ff11}', '\u{0031}'],  // DIGIT ONE
    ['\u{ff12}', '\u{0032}'],  // DIGIT TWO
    ['\u{ff13}', '\u{0033}'],  // DIGIT THREE
    ['\u{ff14}', '\u{0034}'],  // DIGIT FOUR
    ['\u{ff15}', '\u{0035}'],  // DIGIT FIVE
    ['\u{ff16}', '\u{0036}'],  // DIGIT SIX
    ['\u{ff17}', '\u{0037}'],  // DIGIT SEVEN
    ['\u{ff18}', '\u{0038}'],  // DIGIT EIGHT
    ['\u{ff19}', '\u{0039}'],  // DIGIT NINE
    ['\u{ff1a}', '\u{003a}'],  // COLON
    ['\u{ff1b}', '\u{003b}'],  // SEMICOLON
    ['\u{ff1c}', '\u{003c}'],  // LESS-THAN SIGN
    ['\u{ff1d}', '\u{003d}'],  // EQUALS SIGN
    ['\u{ff1e}', '\u{003e}'],  // GREATER-THAN SIGN
    ['\u{ff1f}', '\u{003f}'],  // QUESTION MARK
    ['\u{ff20}', '\u{0040}'],  // COMMERCIAL AT
    ['\u{ff21}', '\u{0041}'],  // LATIN CAPITAL LETTER A
    ['\u{ff22}', '\u{0042}'],  // LATIN CAPITAL LETTER B
    ['\u{ff23}', '\u{0043}'],  // LATIN CAPITAL LETTER C
    ['\u{ff24}', '\u{0044}'],  // LATIN CAPITAL LETTER D
    ['\u{ff25}', '\u{0045}'],  // LATIN CAPITAL LETTER E
    ['\u{ff26}', '\u{0046}'],  // LATIN CAPITAL LETTER F
    ['\u{ff27}', '\u{0047}'],  // LATIN CAPITAL LETTER G
    ['\u{ff28}', '\u{0048}'],  // LATIN CAPITAL LETTER H
    ['\u{ff29}', '\u{0049}'],  // LATIN CAPITAL LETTER I
    ['\u{ff2a}', '\u{004a}'],  // LATIN CAPITAL LETTER J
    ['\u{ff2b}', '\u{004b}'],  // LATIN CAPITAL LETTER K
    ['\u{ff2c}', '\u{004c}'],  // LATIN CAPITAL LETTER L
    ['\u{ff2d}', '\u{004d}'],  // LATIN CAPITAL LETTER M
    ['\u{ff2e}', '\u{004e}'],  // LATIN CAPITAL LETTER N
    ['\u{ff2f}', '\u{004f}'],  // LATIN CAPITAL LETTER O
    ['\u{ff30}', '\u{0050}'],  // LATIN CAPITAL LETTER P
    ['\u{ff31}', '\u{0051}'],  // LATIN CAPITAL LETTER Q
    ['\u{ff32}', '\u{0052}'],  // LATIN CAPITAL LETTER R
    ['\u{ff33}', '\u{0053}'],  // LATIN CAPITAL LETTER S
    ['\u{ff34}', '\u{0054}'],  // LATIN CAPITAL LETTER T
    ['\u{ff35}', '\u{0055}'],  // LATIN CAPITAL LETTER U
    ['\u{ff36}', '\u{0056}'],  // LATIN CAPITAL LETTER V
    ['\u{ff37}', '\u{0057}'],  // LATIN CAPITAL LETTER W
    ['\u{ff38}', '\u{0058}'],  // LATIN CAPITAL LETTER X
    ['\u{ff39}', '\u{0059}'],  // LATIN CAPITAL LETTER Y
    ['\u{ff3a}', '\u{005a}'],  // LATIN CAPITAL LETTER Z
    ['\u{ff3b}', '\u{005b}'],  // LEFT SQUARE BRACKET
    ['\u{ff3d}', '\u{005d}'],  // RIGHT SQUARE BRACKET
    ['\u{ff3e}', '\u{005e}'],  // CIRCUMFLEX ACCENT
    ['\u{ff3f}', '\u{005f}'],  // LOW LINE
    ['\u{ff40}', '\u{0060}'],  // GRAVE ACCENT
    ['\u{ff41}', '\u{0061}'],  // LATIN SMALL LETTER A
    ['\u{ff42}', '\u{0062}'],  // LATIN SMALL LETTER B
    ['\u{ff43}', '\u{0063}'],  // LATIN SMALL LETTER C
    ['\u{ff44}', '\u{0064}'],  // LATIN SMALL LETTER D
    ['\u{ff45}', '\u{0065}'],  // LATIN SMALL LETTER E
    ['\u{ff46}', '\u{0066}'],  // LATIN SMALL LETTER F
    ['\u{ff47}', '\u{0067}'],  // LATIN SMALL LETTER G
    ['\u{ff48}', '\u{0068}'],  // LATIN SMALL LETTER H
    ['\u{ff49}', '\u{0069}'],  // LATIN SMALL LETTER I
    ['\u{ff4a}', '\u{006a}'],  // LATIN SMALL LETTER J
    ['\u{ff4b}', '\u{006b}'],  // LATIN SMALL LETTER K
    ['\u{ff4c}', '\u{006c}'],  // LATIN SMALL LETTER L
    ['\u{ff4d}', '\u{006d}'],  // LATIN SMALL LETTER M
    ['\u{ff4e}', '\u{006e}'],  // LATIN SMALL LETTER N
    ['\u{ff4f}', '\u{006f}'],  // LATIN SMALL LETTER O
    ['\u{ff50}', '\u{0070}'],  // LATIN SMALL LETTER P
    ['\u{ff51}', '\u{0071}'],  // LATIN SMALL LETTER Q
    ['\u{ff52}', '\u{0072}'],  // LATIN SMALL LETTER R
    ['\u{ff53}', '\u{0073}'],  // LATIN SMALL LETTER S
    ['\u{ff54}', '\u{0074}'],  // LATIN SMALL LETTER T
    ['\u{ff55}', '\u{0075}'],  // LATIN SMALL LETTER U
    ['\u{ff56}', '\u{0076}'],  // LATIN SMALL LETTER V
    ['\u{ff57}', '\u{0077}'],  // LATIN SMALL LETTER W
    ['\u{ff58}', '\u{0078}'],  // LATIN SMALL LETTER X
    ['\u{ff59}', '\u{0079}'],  // LATIN SMALL LETTER Y
    ['\u{ff5a}', '\u{007a}'],  // LATIN SMALL LETTER Z
    ['\u{ff5b}', '\u{007b}'],  // LEFT CURLY BRACKET
    ['\u{ff5c}', '\u{007c}'],  // VERTICAL LINE
    ['\u{ff5d}', '\u{007d}'],  // RIGHT CURLY BRACKET
];

/// Number of rows of [`GR_PUNCTUATION`].
pub const GR_PUNCTUATION_ROWS: usize = 8;

/// Punctuation and marks of the katakana area: full-width form,
/// half-width form.
pub const GR_PUNCTUATION: [[char; 2]; 8] = [
    ['\u{3002}', '\u{ff61}'],  // IDEOGRAPHIC FULL STOP
    ['\u{300c}', '\u{ff62}'],  // LEFT CORNER BRACKET
    ['\u{300d}', '\u{ff63}'],  // RIGHT CORNER BRACKET
    ['\u{3001}', '\u{ff64}'],  // IDEOGRAPHIC COMMA
    ['\u{30fb}', '\u{ff65}'],  // KATAKANA MIDDLE DOT
    ['\u{30fc}', '\u{ff70}'],  // KATAKANA-HIRAGANA PROLONGED SOUND MARK
    ['\u{309b}', '\u{ff9e}'],  // KATAKANA-HIRAGANA VOICED SOUND MARK
    ['\u{309c}', '\u{ff9f}'],  // KATAKANA-HIRAGANA SEMI-VOICED SOUND MARK
];

/// Options shared by the two directions. An option left unset takes the
/// value that suits the direction.
#[derive(Debug, Clone, Copy, PartialEq, Eq, Structural)]
pub struct Jisx0201AndAlikeTransliteratorOptions {
    /// Convert alphanumerics and symbols.
    pub convert_gl: bool,
    /// Convert katakana.
    pub convert_gr: bool,
    /// Convert hiragana as well as katakana.
    pub convert_hiraganas: bool,
    /// Join a half-width kana and the sound mark after it.
    pub combine_voiced_sound_marks: bool,
    /// Convert characters whose conversion cannot be undone.
    pub convert_unsafe_specials: Option<bool>,
    /// Take U+005C for the yen sign.
    pub u005c_as_yen_sign: Option<bool>,
    /// Take U+005C for the backslash.
    pub u005c_as_backslash: Option<bool>,
    /// Convert U+007E to the full-width tilde.
    pub u007e_as_fullwidth_tilde: Option<bool>,
    /// Convert U+007E to the wave dash.
    pub u007e_as_wave_dash: Option<bool>,
    /// Convert U+007E to the overline.
    pub u007e_as_overline: Option<bool>,
    /// Convert U+007E to the full-width macron.
    pub u007e_as_fullwidth_macron: Option<bool>,
    /// Convert U+00A5 to the full-width yen sign.
    pub u00a5_as_yen_sign: Option<bool>,
}

/// The default options: both classes are converted, sound marks are
/// joined, and the rest is left to the direction.
pub open spec fn spec_default_options() -> Jisx0201AndAlikeTransliteratorOptions {
    Jisx0201AndAlikeTransliteratorOptions {
        convert_gl: true,
        convert_gr: true,
        convert_hiraganas: false,
        combine_voiced_sound_marks: true,
        convert_unsafe_specials: None,
        u005c_as_yen_sign: None,
        u005c_as_backslash: None,
        u007e_as_fullwidth_tilde: None,
        u007e_as_wave_dash: None,
        u007e_as_overline: None,
        u007e_as_fullwidth_macron: None,
        u00a5_as_yen_sign: None,
    }
}

impl Default for Jisx0201AndAlikeTransliteratorOptions {
    fn default() -> (r: Self)
        ensures
            r == spec_default_options(),
    {
        Jisx0201AndAlikeTransliteratorOptions {
            convert_gl: true,
            convert_gr: true,
            convert_hiraganas: false,
            combine_voiced_sound_marks: true,
            convert_unsafe_specials: None,
            u005c_as_yen_sign: None,
            u005c_as_backslash: None,
            u007e_as_fullwidth_tilde: None,
            u007e_as_wave_dash: None,
            u007e_as_overline: None,
            u007e_as_fullwidth_macron: None,
            u00a5_as_yen_sign: None,
        }
    }
}

/// How the characters with more than one counterpart are taken. Of two
/// that speak of the same character, the later in this list wins.
#[derive(Debug, Clone, Copy, PartialEq, Eq, Structural)]
pub struct Overrides {
    pub u005c_as_yen_sign: bool,
    pub u005c_as_backslash: bool,
    pub u007e_as_fullwidth_tilde: bool,
    pub u007e_as_wave_dash: bool,
    pub u007e_as_overline: bool,
    pub u007e_as_fullwidth_macron: bool,
    pub u00a5_as_yen_sign: bool,
}

/// Options of the conversion from full-width to half-width.
#[derive(Debug, Clone, Copy, PartialEq, Eq, Structural)]
pub struct Jisx0201AndAlikeFullwidthToHalfwidthTransliteratorOptions {
    pub convert_gl: bool,
    pub convert_gr: bool,
    pub convert_hiraganas: bool,
    pub convert_unsafe_specials: bool,
    pub u005c_as_yen_sign: bool,
    pub u005c_as_backslash: bool,
    pub u007e_as_fullwidth_tilde: bool,
    pub u007e_as_wave_dash: bool,
    pub u007e_as_overline: bool,
    pub u007e_as_fullwidth_macron: bool,
    pub u00a5_as_yen_sign: bool,
}

/// Options of the conversion from half-width to full-width.
#[derive(Debug, Clone, Copy, PartialEq, Eq, Structural)]
pub struct Jisx0201AndAlikeHalfwidthToFullwidthTransliteratorOptions {
    pub convert_gl: bool,
    pub convert_gr: bool,
    pub combine_voiced_sound_marks: bool,
    pub convert_unsafe_specials: bool,
    pub u005c_as_yen_sign: bool,
    pub u005c_as_backslash: bool,
    pub u007e_as_fullwidth_tilde: bool,
    pub u007e_as_wave_dash: bool,
    pub u007e_as_overline: bool,
    pub u007e_as_fullwidth_macron: bool,
    pub u00a5_as_yen_sign: bool,
}

/// `o`, or `d` where `o` is unset.
pub open spec fn or_default(o: Option<bool>, d: bool) -> bool {
    match o {
        Some(b) => b,
        None => d,
    }
}

fn unwrap_or(o: Option<bool>, d: bool) -> (r: bool)
    ensures
        r == or_default(o, d),
{
    match o {
        Some(b) => b,
        None => d,
    }
}

impl Jisx0201AndAlikeTransliteratorOptions {
    /// The options of the conversion to half-width. Unset, U+005C stands
    /// for the yen sign unless U+00A5 is spoken of, and both the full-width
    /// tilde and the wave dash turn into U+007E.
    pub open spec fn spec_fullwidth_to_halfwidth(
        self,
    ) -> Jisx0201AndAlikeFullwidthToHalfwidthTransliteratorOptions {
        Jisx0201AndAlikeFullwidthToHalfwidthTransliteratorOptions {
            convert_gl: self.convert_gl,
            convert_gr: self.convert_gr,
            convert_hiraganas: self.convert_hiraganas,
            convert_unsafe_specials: or_default(self.convert_unsafe_specials, true),
            u005c_as_yen_sign: or_default(self.u005c_as_yen_sign, self.u00a5_as_yen_sign is None),
            u005c_as_backslash: or_default(self.u005c_as_backslash, false),
            u007e_as_fullwidth_tilde: or_default(self.u007e_as_fullwidth_tilde, true),
            u007e_as_wave_dash: or_default(self.u007e_as_wave_dash, true),
            u007e_as_overline: or_default(self.u007e_as_overline, false),
            u007e_as_fullwidth_macron: or_default(self.u007e_as_fullwidth_macron, false),
            u00a5_as_yen_sign: or_default(self.u00a5_as_yen_sign, false),
        }
    }

    /// The options of the conversion to full-width. Unset, U+005C turns
    /// into the yen sign unless the backslash is spoken of, and U+007E into
    /// the full-width tilde unless another counterpart is spoken of.
    pub open spec fn spec_halfwidth_to_fullwidth(
        self,
    ) -> Jisx0201AndAlikeHalfwidthToFullwidthTransliteratorOptions {
        Jisx0201AndAlikeHalfwidthToFullwidthTransliteratorOptions {
            convert_gl: self.convert_gl,
            convert_gr: self.convert_gr,
            combine_voiced_sound_marks: self.combine_voiced_sound_marks,
            convert_unsafe_specials: or_default(self.convert_unsafe_specials, false),
            u005c_as_yen_sign: or_default(self.u005c_as_yen_sign, self.u005c_as_backslash is None),
            u005c_as_backslash: or_default(self.u005c_as_backslash, false),
            u007e_as_fullwidth_tilde: or_default(
                self.u007e_as_fullwidth_tilde,
                self.u007e_as_wave_dash is None && self.u007e_as_overline is None
                    && self.u007e_as_fullwidth_macron is None,
            ),
            u007e_as_wave_dash: or_default(self.u007e_as_wave_dash, false),
            u007e_as_overline: or_default(self.u007e_as_overline, false),
            u007e_as_fullwidth_macron: or_default(self.u007e_as_fullwidth_macron, false),
            u00a5_as_yen_sign: or_default(self.u00a5_as_yen_sign, false),
        }
    }

    /// The options of the conversion to half-width.
    pub fn build_fullwidth_to_halfwidth_options(&self) -> (r:
        Jisx0201AndAlikeFullwidthToHalfwidthTransliteratorOptions)
        ensures
            r == self.spec_fullwidth_to_halfwidth(),
    {
        Jisx0201AndAlikeFullwidthToHalfwidthTransliteratorOptions {
            convert_gl: self.convert_gl,
            convert_gr: self.convert_gr,
            convert_hiraganas: self.convert_hiraganas,
            convert_unsafe_specials: unwrap_or(self.convert_unsafe_specials, true),
            u005c_as_yen_sign: unwrap_or(self.u005c_as_yen_sign, self.u00a5_as_yen_sign.is_none()),
            u005c_as_backslash: unwrap_or(self.u005c_as_backslash, false),
            u007e_as_fullwidth_tilde: unwrap_or(self.u007e_as_fullwidth_tilde, true),
            u007e_as_wave_dash: unwrap_or(self.u007e_as_wave_dash, true),
            u007e_as_overline: unwrap_or(self.u007e_as_overline, false),
            u007e_as_fullwidth_macron: unwrap_or(self.u007e_as_fullwidth_macron, false),
            u00a5_as_yen_sign: unwrap_or(self.u00a5_as_yen_sign, false),
        }
    }

    /// The options of the conversion to full-width.
    pub fn build_halfwidth_to_fullwidth_options(&self) -> (r:
        Jisx0201AndAlikeHalfwidthToFullwidthTransliteratorOptions)
        ensures
            r == self.spec_halfwidth_to_fullwidth(),
    {
        Jisx0201AndAlikeHalfwidthToFullwidthTransliteratorOptions {
            convert_gl: self.convert_gl,
            convert_gr: self.convert_gr,
            combine_voiced_sound_marks: self.combine_voiced_sound_marks,
            convert_unsafe_specials: unwrap_or(self.convert_unsafe_specials, false),
            u005c_as_yen_sign: unwrap_or(self.u005c_as_yen_sign, self.u005c_as_backslash.is_none()),
            u005c_as_backslash: unwrap_or(self.u005c_as_backslash, false),
            u007e_as_fullwidth_tilde: unwrap_or(
                self.u007e_as_fullwidth_tilde,
                self.u007e_as_wave_dash.is_none() && self.u007e_as_overline.is_none()
                    && self.u007e_as_fullwidth_macron.is_none(),
            ),
            u007e_as_wave_dash: unwrap_or(self.u007e_as_wave_dash, false),
            u007e_as_overline: unwrap_or(self.u007e_as_overline, false),
            u007e_as_fullwidth_macron: unwrap_or(self.u007e_as_fullwidth_macron, false),
            u00a5_as_yen_sign: unwrap_or(self.u00a5_as_yen_sign, false),
        }
    }
}

impl Jisx0201AndAlikeFullwidthToHalfwidthTransliteratorOptions {
    /// How the characters with more than one counterpart are taken.
    pub open spec fn overrides(self) -> Overrides {
        Overrides {
            u005c_as_yen_sign: self.u005c_as_yen_sign,
            u005c_as_backslash: self.u005c_as_backslash,
            u007e_as_fullwidth_tilde: self.u007e_as_fullwidth_tilde,
            u007e_as_wave_dash: self.u007e_as_wave_dash,
            u007e_as_overline: self.u007e_as_overline,
            u007e_as_fullwidth_macron: self.u007e_as_fullwidth_macron,
            u00a5_as_yen_sign: self.u00a5_as_yen_sign,
        }
    }
}

impl Jisx0201AndAlikeHalfwidthToFullwidthTransliteratorOptions {
    /// How the characters with more than one counterpart are taken.
    pub open spec fn overrides(self) -> Overrides {
        Overrides {
            u005c_as_yen_sign: self.u005c_as_yen_sign,
            u005c_as_backslash: self.u005c_as_backslash,
            u007e_as_fullwidth_tilde: self.u007e_as_fullwidth_tilde,
            u007e_as_wave_dash: self.u007e_as_wave_dash,
            u007e_as_overline: self.u007e_as_overline,
            u007e_as_fullwidth_macron: self.u007e_as_fullwidth_macron,
            u00a5_as_yen_sign: self.u00a5_as_yen_sign,
        }
    }
}

/// What a character is converted to: one character, or one followed by a
/// sound mark (`second` is [`NONE`] where there is none).
#[derive(Debug, Clone, Copy, PartialEq, Eq, Structural)]
pub struct Target {
    pub first: char,
    pub second: char,
}

impl Target {
    /// The text of the target.
    pub open spec fn text(self) -> Seq<char> {
        if self.second == NONE {
            seq![self.first]
        } else {
            seq![self.first, self.second]
        }
    }
}

/// A pair of a character and the single character it is converted to:
/// full-width to half-width, or the other way round with `swap`.
pub open spec fn single(full: char, half: char, swap: bool) -> (char, Target) {
    if swap {
        (half, Target { first: full, second: NONE })
    } else {
        (full, Target { first: half, second: NONE })
    }
}

fn make_single(full: char, half: char, swap: bool) -> (r: (char, Target))
    ensures
        r == single(full, half, swap),
{
    if swap {
        (half, Target { first: full, second: NONE })
    } else {
        (full, Target { first: half, second: NONE })
    }
}

/// `s` followed by `single(full, half, swap)` where `on` is set.
pub open spec fn with_single(
    s: Seq<(char, Target)>,
    on: bool,
    full: char,
    half: char,
    swap: bool,
) -> Seq<(char, Target)> {
    if on {
        s.push(single(full, half, swap))
    } else {
        s
    }
}

/// `s` followed by the pair of `from` and `half` with the sound mark `mark`
/// after it, where `from` and `exists` both exist.
pub open spec fn with_marked(
    s: Seq<(char, Target)>,
    from: char,
    exists: char,
    half: char,
    mark: char,
) -> Seq<(char, Target)> {
    if from != NONE && exists != NONE {
        s.push((from, Target { first: half, second: mark }))
    } else {
        s
    }
}

/// `s` followed by the pairs of the first `n` rows of a table of
/// full-width and half-width forms.
pub open spec fn with_table<const N: usize>(
    s: Seq<(char, Target)>,
    table: [[char; 2]; N],
    swap: bool,
    n: int,
) -> Seq<(char, Target)>
    decreases n,
{
    if n <= 0 {
        s
    } else {
        with_table(s, table, swap, n - 1).push(single(table@[n - 1]@[0], table@[n - 1]@[1], swap))
    }
}

/// `s` followed by the pairs of the characters with more than one
/// counterpart.
pub open spec fn with_overrides(s: Seq<(char, Target)>, o: Overrides, swap: bool) -> Seq<
    (char, Target),
> {
    let s1 = with_single(s, o.u005c_as_yen_sign, '\u{ffe5}', '\u{005c}', swap);
    let s2 = with_single(s1, o.u005c_as_backslash, '\u{ff3c}', '\u{005c}', swap);
    let s3 = with_single(s2, o.u007e_as_fullwidth_tilde, '\u{ff5e}', '\u{007e}', swap);
    let s4 = with_single(s3, o.u007e_as_wave_dash, '\u{301c}', '\u{007e}', swap);
    let s5 = with_single(s4, o.u007e_as_overline, '\u{203e}', '\u{007e}', swap);
    let s6 = with_single(s5, o.u007e_as_fullwidth_macron, '\u{ffe3}', '\u{007e}', swap);
    with_single(s6, o.u00a5_as_yen_sign, '\u{ffe5}', '\u{00a5}', swap)
}

/// Which pairs a row of the kana table is asked for.
#[derive(Debug, Clone, Copy, PartialEq, Eq, Structural)]
pub enum RowUse {
    /// Katakana, plain, voiced and semi-voiced, to half-width.
    KatakanaToHalf,
    /// Half-width katakana to plain katakana.
    HalfToKatakana,
    /// Hiragana, plain, voiced and semi-voiced, to half-width katakana.
    HiraganaToHalf,
    /// Half-width katakana to voiced katakana.
    HalfToVoiced,
    /// Half-width katakana to semi-voiced katakana.
    HalfToSemiVoiced,
}

/// `s` followed by the pairs that a row of the kana table gives. A row
/// without a half-width form gives none.
pub open spec fn with_row(s: Seq<(char, Target)>, row: [char; 7], usage: RowUse) -> Seq<
    (char, Target),
> {
    if row@[6] == NONE {
        s
    } else {
        match usage {
            RowUse::KatakanaToHalf => with_marked(
                with_marked(
                    s.push(single(row@[3], row@[6], false)),
                    row@[4],
                    row@[4],
                    row@[6],
                    HALFWIDTH_VOICED_MARK,
                ),
                row@[5],
                row@[5],
                row@[6],
                HALFWIDTH_SEMI_VOICED_MARK,
            ),
            RowUse::HalfToKatakana => s.push(single(row@[3], row@[6], true)),
            RowUse::HiraganaToHalf => with_marked(
                with_marked(
                    s.push(single(row@[0], row@[6], false)),
                    row@[1],
                    row@[4],
                    row@[6],
                    HALFWIDTH_VOICED_MARK,
                ),
                row@[2],
                row@[5],
                row@[6],
                HALFWIDTH_SEMI_VOICED_MARK,
            ),
            RowUse::HalfToVoiced => with_single(s, row@[4] != NONE, row@[4], row@[6], true),
            RowUse::HalfToSemiVoiced => with_single(s, row@[5] != NONE, row@[5], row@[6], true),
        }
    }
}

/// `s` followed by the pairs that the first `n` rows of the kana table
/// give.
pub open spec fn with_kana(s: Seq<(char, Target)>, usage: RowUse, n: int) -> Seq<(char, Target)>
    decreases n,
{
    if n <= 0 {
        s
    } else {
        with_row(with_kana(s, usage, n - 1), KANA@[n - 1], usage)
    }
}

/// `s` followed by the pairs that the first `n` rows of the table of small
/// kana give: the kana of column `column` and its half-width form.
pub open spec fn with_small(s: Seq<(char, Target)>, column: int, swap: bool, n: int) -> Seq<
    (char, Target),
>
    decreases n,
{
    if n <= 0 {
        s
    } else {
        with_single(
            with_small(s, column, swap, n - 1),
            SMALL_KANA@[n - 1]@[2] != NONE,
            SMALL_KANA@[n - 1]@[column],
            SMALL_KANA@[n - 1]@[2],
            swap,
        )
    }
}

/// The pairs of a full-width character and what it is converted to, in
/// the order in which a later pair takes the place of an earlier one: the
/// alphanumerics and their overrides, the katakana area with the two
/// combining sound marks, the unsafe specials, the hiragana, each where the
/// options ask for it.
pub open spec fn forward_pairs(
    o: Jisx0201AndAlikeFullwidthToHalfwidthTransliteratorOptions,
) -> Seq<(char, Target)> {
    let s0 = Seq::<(char, Target)>::empty();
    let s1 = if o.convert_gl {
        with_overrides(with_table(s0, GL, false, GL_ROWS as int), o.overrides(), false)
    } else {
        s0
    };
    let s2 = if o.convert_gr {
        with_small(
            with_kana(
                with_table(s1, GR_PUNCTUATION, false, GR_PUNCTUATION_ROWS as int),
                RowUse::KatakanaToHalf,
                KANA_ROWS as int,
            ),
            1,
            false,
            SMALL_KANA_ROWS as int,
        ).push(single('\u{3099}', HALFWIDTH_VOICED_MARK, false)).push(
            single('\u{309a}', HALFWIDTH_SEMI_VOICED_MARK, false),
        )
    } else {
        s1
    };
    let s3 = with_single(s2, o.convert_unsafe_specials, '\u{30a0}', '\u{003d}', false);
    if o.convert_hiraganas {
        with_small(
            with_kana(s3, RowUse::HiraganaToHalf, KANA_ROWS as int),
            0,
            false,
            SMALL_KANA_ROWS as int,
        )
    } else {
        s3
    }
}

/// The pairs of a half-width character and what it is converted to.
pub open spec fn reverse_pairs(
    o: Jisx0201AndAlikeHalfwidthToFullwidthTransliteratorOptions,
) -> Seq<(char, Target)> {
    let s0 = Seq::<(char, Target)>::empty();
    let s1 = if o.convert_gl {
        with_overrides(with_table(s0, GL, true, GL_ROWS as int), o.overrides(), true)
    } else {
        s0
    };
    let s2 = if o.convert_gr {
        with_small(
            with_kana(
                with_table(s1, GR_PUNCTUATION, true, GR_PUNCTUATION_ROWS as int),
                RowUse::HalfToKatakana,
                KANA_ROWS as int,
            ),
            1,
            true,
            SMALL_KANA_ROWS as int,
        )
    } else {
        s1
    };
    with_single(s2, o.convert_unsafe_specials, '\u{30a0}', '\u{003d}', true)
}

/// The pairs of a half-width katakana and the katakana that it and the
/// sound mark of kind `usage` after it are joined into.
pub open spec fn voiced_reverse_pairs(
    o: Jisx0201AndAlikeHalfwidthToFullwidthTransliteratorOptions,
    usage: RowUse,
) -> Seq<(char, Target)> {
    if o.convert_gr && o.combine_voiced_sound_marks {
        with_kana(Seq::<(char, Target)>::empty(), usage, KANA_ROWS as int)
    } else {
        Seq::<(char, Target)>::empty()
    }
}

fn push_single_if(r: &mut Vec<(char, Target)>, on: bool, full: char, half: char, swap: bool)
    ensures
        final(r)@ == with_single(old(r)@, on, full, half, swap),
{
    if on {
        r.push(make_single(full, half, swap));
    }
}

fn push_marked_if(r: &mut Vec<(char, Target)>, from: char, exists: char, half: char, mark: char)
    ensures
        final(r)@ == with_marked(old(r)@, from, exists, half, mark),
{
    if from != NONE && exists != NONE {
        r.push((from, Target { first: half, second: mark }));
    }
}

fn push_table<const N: usize>(r: &mut Vec<(char, Target)>, table: &[[char; 2]; N], swap: bool)
    ensures
        final(r)@ == with_table(old(r)@, *table, swap, N as int),
{
    let ghost before = r@;
    let mut i: usize = 0;
    while i < N
        invariant
            i <= N,
            r@ == with_table(before, *table, swap, i as int),
        decreases N - i,
    {
        r.push(make_single(table[i][0], table[i][1], swap));
        i += 1;
    }
}

fn push_overrides(r: &mut Vec<(char, Target)>, o: Overrides, swap: bool)
    ensures
        final(r)@ == with_overrides(old(r)@, o, swap),
{
    push_single_if(r, o.u005c_as_yen_sign, '\u{ffe5}', '\u{005c}', swap);
    push_single_if(r, o.u005c_as_backslash, '\u{ff3c}', '\u{005c}', swap);
    push_single_if(r, o.u007e_as_fullwidth_tilde, '\u{ff5e}', '\u{007e}', swap);
    push_single_if(r, o.u007e_as_wave_dash, '\u{301c}', '\u{007e}', swap);
    push_single_if(r, o.u007e_as_overline, '\u{203e}', '\u{007e}', swap);
    push_single_if(r, o.u007e_as_fullwidth_macron, '\u{ffe3}', '\u{007e}', swap);
    push_single_if(r, o.u00a5_as_yen_sign, '\u{ffe5}', '\u{00a5}', swap);
}

fn push_row(r: &mut Vec<(char, Target)>, row: &[char; 7], usage: RowUse)
    ensures
        final(r)@ == with_row(old(r)@, *row, usage),
{
    let half = row[HALF];
    if half != NONE {
        match usage {
            RowUse::KatakanaToHalf => {
                r.push(make_single(row[KATA], half, false));
                push_marked_if(r, row[KATA_VOICED], row[KATA_VOICED], half, HALFWIDTH_VOICED_MARK);
                push_marked_if(r, row[KATA_SEMI], row[KATA_SEMI], half, HALFWIDTH_SEMI_VOICED_MARK);
            },
            RowUse::HalfToKatakana => {
                r.push(make_single(row[KATA], half, true));
            },
            RowUse::HiraganaToHalf => {
                r.push(make_single(row[HIRA], half, false));
                push_marked_if(r, row[HIRA_VOICED], row[KATA_VOICED], half, HALFWIDTH_VOICED_MARK);
                push_marked_if(r, row[HIRA_SEMI], row[KATA_SEMI], half, HALFWIDTH_SEMI_VOICED_MARK);
            },
            RowUse::HalfToVoiced => {
                push_single_if(r, row[KATA_VOICED] != NONE, row[KATA_VOICED], half, true);
            },
            RowUse::HalfToSemiVoiced => {
                push_single_if(r, row[KATA_SEMI] != NONE, row[KATA_SEMI], half, true);
            },
        }
    }
}

fn push_kana(r: &mut Vec<(char, Target)>, usage: RowUse)
    ensures
        final(r)@ == with_kana(old(r)@, usage, KANA_ROWS as int),
{
    let ghost before = r@;
    let mut i: usize = 0;
    while i < KANA_ROWS
        invariant
            i <= KANA_ROWS,
            r@ == with_kana(before, usage, i as int),
        decreases KANA_ROWS - i,
    {
        let row = KANA[i];
        push_row(r, &row, usage);
        i += 1;
    }
}

fn push_small(r: &mut Vec<(char, Target)>, column: usize, swap: bool)
    requires
        column < 2,
    ensures
        final(r)@ == with_small(old(r)@, column as int, swap, SMALL_KANA_ROWS as int),
{
    let ghost before = r@;
    let mut i: usize = 0;
    while i < SMALL_KANA_ROWS
        invariant
            i <= SMALL_KANA_ROWS,
            column < 2,
            r@ == with_small(before, column as int, swap, i as int),
        decreases SMALL_KANA_ROWS - i,
    {
        let row = SMALL_KANA[i];
        push_single_if(r, row[2] != NONE, row[column], row[2], swap);
        i += 1;
    }
}

impl Jisx0201AndAlikeFullwidthToHalfwidthTransliteratorOptions {
    /// The table of the conversion to half-width.
    pub fn build_forward_mappings(&self) -> (r: HashMap<u32, Target>)
        ensures
            r@ == pairs_map(forward_pairs(*self)),
    {
        let mut r: Vec<(char, Target)> = Vec::new();
        if self.convert_gl {
            push_table(&mut r, &GL, false);
            push_overrides(
                &mut r,
                Overrides {
                    u005c_as_yen_sign: self.u005c_as_yen_sign,
                    u005c_as_backslash: self.u005c_as_backslash,
                    u007e_as_fullwidth_tilde: self.u007e_as_fullwidth_tilde,
                    u007e_as_wave_dash: self.u007e_as_wave_dash,
                    u007e_as_overline: self.u007e_as_overline,
                    u007e_as_fullwidth_macron: self.u007e_as_fullwidth_macron,
                    u00a5_as_yen_sign: self.u00a5_as_yen_sign,
                },
                false,
            );
        }
        if self.convert_gr {
            push_table(&mut r, &GR_PUNCTUATION, false);
            push_kana(&mut r, RowUse::KatakanaToHalf);
            push_small(&mut r, 1, false);
            r.push(make_single('\u{3099}', HALFWIDTH_VOICED_MARK, false));
            r.push(make_single('\u{309a}', HALFWIDTH_SEMI_VOICED_MARK, false));
        }
        push_single_if(&mut r, self.convert_unsafe_specials, '\u{30a0}', '\u{003d}', false);
        if self.convert_hiraganas {
            push_kana(&mut r, RowUse::HiraganaToHalf);
            push_small(&mut r, 0, false);
        }
        index_pairs(&r)
    }
}

impl Jisx0201AndAlikeHalfwidthToFullwidthTransliteratorOptions {
    /// The table of the conversion to full-width.
    pub fn build_reverse_mappings(&self) -> (r: HashMap<u32, Target>)
        ensures
            r@ == pairs_map(reverse_pairs(*self)),
    {
        let mut r: Vec<(char, Target)> = Vec::new();
        if self.convert_gl {
            push_table(&mut r, &GL, true);
            push_overrides(
                &mut r,
                Overrides {
                    u005c_as_yen_sign: self.u005c_as_yen_sign,
                    u005c_as_backslash: self.u005c_as_backslash,
                    u007e_as_fullwidth_tilde: self.u007e_as_fullwidth_tilde,
                    u007e_as_wave_dash: self.u007e_as_wave_dash,
                    u007e_as_overline: self.u007e_as_overline,
                    u007e_as_fullwidth_macron: self.u007e_as_fullwidth_macron,
                    u00a5_as_yen_sign: self.u00a5_as_yen_sign,
                },
                true,
            );
        }
        if self.convert_gr {
            push_table(&mut r, &GR_PUNCTUATION, true);
            push_kana(&mut r, RowUse::HalfToKatakana);
            push_small(&mut r, 1, true);
        }
        push_single_if(&mut r, self.convert_unsafe_specials, '\u{30a0}', '\u{003d}', true);
        index_pairs(&r)
    }

    /// The tables of the half-width katakana that join with the voiced
    /// and with the semi-voiced sound mark.
    pub fn build_voiced_reverse_mappings(&self) -> (r: (HashMap<u32, Target>, HashMap<u32, Target>))
        ensures
            r.0@ == pairs_map(voiced_reverse_pairs(*self, RowUse::HalfToVoiced)),
            r.1@ == pairs_map(voiced_reverse_pairs(*self, RowUse::HalfToSemiVoiced)),
    {
        let mut voiced: Vec<(char, Target)> = Vec::new();
        let mut semi: Vec<(char, Target)> = Vec::new();
        if self.convert_gr && self.combine_voiced_sound_marks {
            push_kana(&mut voiced, RowUse::HalfToVoiced);
            push_kana(&mut semi, RowUse::HalfToSemiVoiced);
        }
        (index_pairs(&voiced), index_pairs(&semi))
    }
}

/// The keys of a cache after it was asked for `key`: the key is added
/// where it was not there.
pub open spec fn with_key<K>(keys: Seq<K>, key: K) -> Seq<K> {
    if keys.contains(key) {
        keys
    } else {
        keys.push(key)
    }
}

/// Asking a cache twice for the same key adds no more than asking once.
pub proof fn lemma_cache_idempotent<K>(keys: Seq<K>, key: K)
    ensures
        with_key(keys, key).contains(key),
        with_key(with_key(keys, key), key) == with_key(keys, key),
        with_key(keys, key).len() <= keys.len() + 1,
{
    if !keys.contains(key) {
        assert(keys.push(key)[keys.len() as int] == key);
    }
}

/// The options for which a cache holds tables, in the order in which they
/// were first asked for.
pub struct CacheView {
    /// For the tables of the conversion to half-width.
    pub forward: Seq<Jisx0201AndAlikeFullwidthToHalfwidthTransliteratorOptions>,
    /// For the tables of the conversion to full-width.
    pub reverse: Seq<Jisx0201AndAlikeHalfwidthToFullwidthTransliteratorOptions>,
    /// For the tables of the kana that join with a sound mark.
    pub voiced_reverse: Seq<Jisx0201AndAlikeHalfwidthToFullwidthTransliteratorOptions>,
}

/// One table of the conversion to half-width, with the options it is for.
pub struct ForwardEntry {
    options: Jisx0201AndAlikeFullwidthToHalfwidthTransliteratorOptions,
    mappings: HashMap<u32, Target>,
}

impl ForwardEntry {
    #[verifier::type_invariant]
    spec fn wf(&self) -> bool {
        self.mappings@ == pairs_map(forward_pairs(self.options))
    }
}

/// One table of the conversion to full-width, with the options it is for.
pub struct ReverseEntry {
    options: Jisx0201AndAlikeHalfwidthToFullwidthTransliteratorOptions,
    mappings: HashMap<u32, Target>,
}

impl ReverseEntry {
    #[verifier::type_invariant]
    spec fn wf(&self) -> bool {
        self.mappings@ == pairs_map(reverse_pairs(self.options))
    }
}

/// The tables of the half-width katakana that join with a sound mark,
/// with the options they are for.
pub struct VoicedReverseEntry {
    options: Jisx0201AndAlikeHalfwidthToFullwidthTransliteratorOptions,
    voiced: HashMap<u32, Target>,
    semi_voiced: HashMap<u32, Target>,
}

impl VoicedReverseEntry {
    #[verifier::type_invariant]
    spec fn wf(&self) -> bool {
        &&& self.voiced@ == pairs_map(voiced_reverse_pairs(self.options, RowUse::HalfToVoiced))
        &&& self.semi_voiced@ == pairs_map(
            voiced_reverse_pairs(self.options, RowUse::HalfToSemiVoiced),
        )
    }
}

/// The tables of the width conversions that were built so far, one for
/// each set of options that was asked for.
pub struct MappingsCache {
    forward: Vec<ForwardEntry>,
    reverse: Vec<ReverseEntry>,
    voiced_reverse: Vec<VoicedReverseEntry>,
}

impl View for MappingsCache {
    type V = CacheView;

    closed spec fn view(&self) -> CacheView {
        CacheView {
            forward: self.forward@.map_values(|e: ForwardEntry| e.options),
            reverse: self.reverse@.map_values(|e: ReverseEntry| e.options),
            voiced_reverse: self.voiced_reverse@.map_values(|e: VoicedReverseEntry| e.options),
        }
    }
}

impl MappingsCache {
    /// A cache that holds no table.
    pub fn new() -> (r: Self)
        ensures
            r@.forward.len() == 0,
            r@.reverse.len() == 0,
            r@.voiced_reverse.len() == 0,
    {
        MappingsCache { forward: Vec::new(), reverse: Vec::new(), voiced_reverse: Vec::new() }
    }

    /// Number of tables of the conversion to half-width.
    pub fn forward_len(&self) -> (n: usize)
        ensures
            n == self@.forward.len(),
    {
        self.forward.len()
    }

    /// Number of tables of the conversion to full-width.
    pub fn reverse_len(&self) -> (n: usize)
        ensures
            n == self@.reverse.len(),
    {
        self.reverse.len()
    }

    /// Number of tables of the kana that join with a sound mark.
    pub fn voiced_reverse_len(&self) -> (n: usize)
        ensures
            n == self@.voiced_reverse.len(),
    {
        self.voiced_reverse.len()
    }

    /// Forgets every table.
    pub fn clear(&mut self)
        ensures
            final(self)@.forward.len() == 0,
            final(self)@.reverse.len() == 0,
            final(self)@.voiced_reverse.len() == 0,
    {
        self.forward = Vec::new();
        self.reverse = Vec::new();
        self.voiced_reverse = Vec::new();
    }
}

/// The table of the conversion to half-width for `options`, taken from
/// the cache where it holds one and built and kept there where not.
pub fn get_fwd_mappings(
    cache: &mut MappingsCache,
    options: &Jisx0201AndAlikeFullwidthToHalfwidthTransliteratorOptions,
) -> (r: HashMap<u32, Target>)
    ensures
        r@ == pairs_map(forward_pairs(*options)),
        final(cache)@.forward == with_key(old(cache)@.forward, *options),
        final(cache)@.reverse == old(cache)@.reverse,
        final(cache)@.voiced_reverse == old(cache)@.voiced_reverse,
{
    let ghost keys = cache@.forward;
    let mut i: usize = 0;
    while i < cache.forward.len()
        invariant
            i <= cache.forward.len(),
            keys == cache@.forward,
            cache == old(cache),
            forall|j: int| 0 <= j < i ==> keys[j] != *options,
        decreases cache.forward.len() - i,
    {
        assert(keys[i as int] == cache.forward@[i as int].options);
        let entry = &cache.forward[i];
        if entry.options == *options {
            proof {
                use_type_invariant(entry);
            }
            return entry.mappings.clone();
        }
        i += 1;
    }
    let mappings = options.build_forward_mappings();
    let kept = mappings.clone();
    cache.forward.push(ForwardEntry { options: *options, mappings: kept });
    proof {
        assert(!keys.contains(*options));
        assert(cache@.forward =~= keys.push(*options));
        assert(cache@.reverse =~= old(cache)@.reverse);
        assert(cache@.voiced_reverse =~= old(cache)@.voiced_reverse);
    }
    mappings
}

/// The table of the conversion to full-width for `options`, taken from
/// the cache where it holds one and built and kept there where not.
pub fn get_rev_mappings(
    cache: &mut MappingsCache,
    options: &Jisx0201AndAlikeHalfwidthToFullwidthTransliteratorOptions,
) -> (r: HashMap<u32, Target>)
    ensures
        r@ == pairs_map(reverse_pairs(*options)),
        final(cache)@.reverse == with_key(old(cache)@.reverse, *options),
        final(cache)@.forward == old(cache)@.forward,
        final(cache)@.voiced_reverse == old(cache)@.voiced_reverse,
{
    let ghost keys = cache@.reverse;
    let mut i: usize = 0;
    while i < cache.reverse.len()
        invariant
            i <= cache.reverse.len(),
            keys == cache@.reverse,
            cache == old(cache),
            forall|j: int| 0 <= j < i ==> keys[j] != *options,
        decreases cache.reverse.len() - i,
    {
        assert(keys[i as int] == cache.reverse@[i as int].options);
        let entry = &cache.reverse[i];
        if entry.options == *options {
            proof {
                use_type_invariant(entry);
            }
            return entry.mappings.clone();
        }
        i += 1;
    }
    let mappings = options.build_reverse_mappings();
    let kept = mappings.clone();
    cache.reverse.push(ReverseEntry { options: *options, mappings: kept });
    proof {
        assert(!keys.contains(*options));
        assert(cache@.reverse =~= keys.push(*options));
        assert(cache@.forward =~= old(cache)@.forward);
        assert(cache@.voiced_reverse =~= old(cache)@.voiced_reverse);
    }
    mappings
}

/// The tables of the half-width katakana that join with the voiced and
/// with the semi-voiced sound mark for `options`, taken from the cache where
/// it holds them and built and kept there where not.
pub fn get_voiced_rev_mappings(
    cache: &mut MappingsCache,
    options: &Jisx0201AndAlikeHalfwidthToFullwidthTransliteratorOptions,
) -> (r: (HashMap<u32, Target>, HashMap<u32, Target>))
    ensures
        r.0@ == pairs_map(voiced_reverse_pairs(*options, RowUse::HalfToVoiced)),
        r.1@ == pairs_map(voiced_reverse_pairs(*options, RowUse::HalfToSemiVoiced)),
        final(cache)@.voiced_reverse == with_key(old(cache)@.voiced_reverse, *options),
        final(cache)@.forward == old(cache)@.forward,
        final(cache)@.reverse == old(cache)@.reverse,
{
    let ghost keys = cache@.voiced_reverse;
    let mut i: usize = 0;
    while i < cache.voiced_reverse.len()
        invariant
            i <= cache.voiced_reverse.len(),
            keys == cache@.voiced_reverse,
            cache == old(cache),
            forall|j: int| 0 <= j < i ==> keys[j] != *options,
        decreases cache.voiced_reverse.len() - i,
    {
        assert(keys[i as int] == cache.voiced_reverse@[i as int].options);
        let entry = &cache.voiced_reverse[i];
        if entry.options == *options {
            proof {
                use_type_invariant(entry);
            }
            return (entry.voiced.clone(), entry.semi_voiced.clone());
        }
        i += 1;
    }
    let (voiced, semi_voiced) = options.build_voiced_reverse_mappings();
    let kept = VoicedReverseEntry {
        options: *options,
        voiced: voiced.clone(),
        semi_voiced: semi_voiced.clone(),
    };
    cache.voiced_reverse.push(kept);
    proof {
        assert(!keys.contains(*options));
        assert(cache@.voiced_reverse =~= keys.push(*options));
        assert(cache@.forward =~= old(cache)@.forward);
        assert(cache@.reverse =~= old(cache)@.reverse);
    }
    (voiced, semi_voiced)
}

/// The text that takes the place of `text` in the table `pairs`: a single
/// character that the table knows gives way to its target.
pub open spec fn mapped_text(pairs: Seq<(char, Target)>, text: Seq<char>) -> Seq<char> {
    if text.len() == 1 && lookup(pairs, text[0]) is Some {
        lookup(pairs, text[0])->0.text()
    } else {
        text
    }
}

fn target_string(t: Target) -> (s: String)
    ensures
        s@ == t.text(),
{
    if t.second == NONE {
        string_from_char(t.first)
    } else {
        string_from_pair(t.first, t.second)
    }
}

fn mapped_string(table: &HashMap<u32, Target>, text: &String, Ghost(pairs): Ghost<Seq<(char, Target)>>) -> (s:
    String)
    requires
        table@ == pairs_map(pairs),
    ensures
        s@ == mapped_text(pairs, text@),
{
    match single_char(text.as_str()) {
        Some(c) => {
            proof {
                lemma_pairs_map(pairs, c);
            }
            match table.get(&(c as u32)) {
                Some(t) => target_string(*t),
                None => text.clone(),
            }
        },
        None => text.clone(),
    }
}

/// The edits that the conversion to half-width makes on `chars`.
pub open spec fn narrowing_edits(
    options: Jisx0201AndAlikeFullwidthToHalfwidthTransliteratorOptions,
    chars: Seq<CharView>,
) -> Seq<EditView> {
    map_edits(chars, |ch: CharView| mapped_text(forward_pairs(options), ch.c))
}

/// The stage that converts full-width characters to half-width ones.
#[derive(Debug)]
pub struct Jisx0201AndAlikeFullwidthToHalfwidthTransliterator {
    options: Jisx0201AndAlikeFullwidthToHalfwidthTransliteratorOptions,
    mappings: HashMap<u32, Target>,
}

impl View for Jisx0201AndAlikeFullwidthToHalfwidthTransliterator {
    type V = Jisx0201AndAlikeFullwidthToHalfwidthTransliteratorOptions;

    closed spec fn view(&self) -> Jisx0201AndAlikeFullwidthToHalfwidthTransliteratorOptions {
        self.options
    }
}

impl Jisx0201AndAlikeFullwidthToHalfwidthTransliterator {
    #[verifier::type_invariant]
    spec fn wf(&self) -> bool {
        self.mappings@ == pairs_map(forward_pairs(self.options))
    }

    /// The stage for `options`, with its table taken from `cache`.
    pub fn new(
        options: Jisx0201AndAlikeFullwidthToHalfwidthTransliteratorOptions,
        cache: &mut MappingsCache,
    ) -> (r: Self)
        ensures
            r@ == options,
            final(cache)@.forward == with_key(old(cache)@.forward, options),
            final(cache)@.reverse == old(cache)@.reverse,
            final(cache)@.voiced_reverse == old(cache)@.voiced_reverse,
    {
        let mappings = get_fwd_mappings(cache, &options);
        Self { options, mappings }
    }

    /// Computes the edits of the stage for `input`.
    pub fn edits(&self, pool: &CharPool, input: &Vec<usize>) -> (r: Vec<Edit>)
        requires
            valid_seq(pool@, input@),
        ensures
            edit_views(r@) == narrowing_edits(self@, read(pool@, input@)),
            edits_in_range(edit_views(r@), input@.len()),
    {
        proof {
            use_type_invariant(self);
        }
        let ghost chars = read(pool@, input@);
        let ghost all = narrowing_edits(self.options, chars);
        let mut edits: Vec<Edit> = Vec::new();
        let mut k: usize = 0;
        assert(edit_views(edits@) =~= all.take(0));
        while k < input.len()
            invariant
                k <= input.len(),
                self.wf(),
                valid_seq(pool@, input@),
                chars == read(pool@, input@),
                all == narrowing_edits(self.options, chars),
                edit_views(edits@) == all.take(k as int),
                edits_in_range(edit_views(edits@), input@.len()),
            decreases input.len() - k,
        {
            let ghost before = edit_views(edits@);
            let rec = pool.get(input[k]);
            assert(rec@ == chars[k as int]);
            if rec.is_sentinel() {
                edits.push(Edit::Keep { origin: k });
            } else {
                let text = mapped_string(&self.mappings, &rec.c, Ghost(forward_pairs(self.options)));
                edits.push(Edit::Put { text, origin: k });
            }
            proof {
                assert(edit_views(edits@) =~= before.push(all[k as int]));
                assert(all.take(k + 1) =~= all.take(k as int).push(all[k as int]));
            }
            k += 1;
        }
        assert(all.take(k as int) =~= all);
        edits
    }
}

impl Transliterator for Jisx0201AndAlikeFullwidthToHalfwidthTransliterator {
    open spec fn spec_transliterate(&self, pool: Seq<CharView>, input: Seq<usize>) -> Result<Outcome, Seq<char>> {
        rewrite(pool, input, narrowing_edits(self@, read(pool, input)))
    }

    open spec fn keeps_terminator(&self) -> bool {
        true
    }

    fn transliterate(&self, pool: &mut CharPool, input: &Vec<usize>) -> (r: Result<
        Vec<usize>,
        TransliterationError,
    >) {
        // Reading the length tells the proof that it fits a `usize`.
        let n = input.len();
        let edits = self.edits(pool, input);
        let r = apply(pool, input, edits);
        proof {
            if r is Ok && self.keeps_terminator() && terminated(read(old(pool)@, input@)) {
                let f = |ch: CharView| mapped_text(forward_pairs(self@), ch.c);
                lemma_map_outcome_terminated(old(pool)@, input@, f, pool@, r->Ok_0@);
            }
        }
        r
    }
}

/// The katakana that the half-width katakana `base` and the sound mark
/// `mark` after it are joined into.
pub open spec fn joined(
    options: Jisx0201AndAlikeHalfwidthToFullwidthTransliteratorOptions,
    base: Seq<char>,
    mark: Seq<char>,
) -> Option<char> {
    if base.len() != 1 || mark.len() != 1 {
        None
    } else {
        let usage = if mark[0] == HALFWIDTH_VOICED_MARK {
            Some(RowUse::HalfToVoiced)
        } else if mark[0] == HALFWIDTH_SEMI_VOICED_MARK {
            Some(RowUse::HalfToSemiVoiced)
        } else {
            None
        };
        match usage {
            Some(u) => match lookup(voiced_reverse_pairs(options, u), base[0]) {
                Some(t) => Some(t.first),
                None => None,
            },
            None => None,
        }
    }
}

/// What the scan knows after a prefix of the input.
pub struct WidenScan {
    /// The edits made for the prefix.
    pub edits: Seq<EditView>,
    /// Whether the next record went into the record before it.
    pub skip: bool,
}

/// The scan after one more record, the one at position `k`.
///
/// A record that went into the one before it gives nothing. A terminator
/// is kept. A half-width katakana and the sound mark after it, where the
/// two have a joined form, give way to it. Any other record gives way to
/// what the table has for it.
pub open spec fn widen_step(
    options: Jisx0201AndAlikeHalfwidthToFullwidthTransliteratorOptions,
    chars: Seq<CharView>,
    st: WidenScan,
    k: int,
) -> WidenScan {
    let ch = chars[k];
    if st.skip {
        WidenScan { edits: st.edits, skip: false }
    } else if ch.is_sentinel() {
        WidenScan { edits: st.edits.push(EditView::Keep { origin: k as usize }), skip: false }
    } else if k + 1 < chars.len() && joined(options, ch.c, chars[k + 1].c) is Some {
        WidenScan {
            edits: st.edits.push(
                EditView::Put {
                    text: seq![joined(options, ch.c, chars[k + 1].c)->0],
                    origin: k as usize,
                },
            ),
            skip: true,
        }
    } else {
        WidenScan {
            edits: st.edits.push(
                EditView::Put { text: mapped_text(reverse_pairs(options), ch.c), origin: k as usize },
            ),
            skip: false,
        }
    }
}

/// The scan after the first `n` records of `chars`.
pub open spec fn widen_scan(
    options: Jisx0201AndAlikeHalfwidthToFullwidthTransliteratorOptions,
    chars: Seq<CharView>,
    n: int,
) -> WidenScan
    decreases n,
{
    if n <= 0 {
        WidenScan { edits: Seq::<EditView>::empty(), skip: false }
    } else {
        widen_step(options, chars, widen_scan(options, chars, n - 1), n - 1)
    }
}

/// Before the terminator the scan makes nothing but records with text,
/// and it skips a record only where that record has text.
pub proof fn lemma_widen_scan(
    options: Jisx0201AndAlikeHalfwidthToFullwidthTransliteratorOptions,
    chars: Seq<CharView>,
    n: int,
)
    requires
        terminated(chars),
        0 <= n < chars.len() <= usize::MAX,
    ensures
        all_put(widen_scan(options, chars, n).edits),
        edits_in_range(widen_scan(options, chars, n).edits, chars.len()),
        widen_scan(options, chars, n).skip ==> !chars[n].is_sentinel(),
    decreases n,
{
    if n > 0 {
        lemma_widen_scan(options, chars, n - 1);
        let st = widen_scan(options, chars, n - 1);
        let next = widen_scan(options, chars, n);
        assert(next == widen_step(options, chars, st, n - 1));
        assert(!chars[n - 1].is_sentinel());
        assert forall|k: int| 0 <= k < next.edits.len() implies ((#[trigger] next.edits[k]) matches EditView::Put {
            text,
            ..
        } && text.len() > 0) by {
            if k < st.edits.len() {
                assert(next.edits[k] == st.edits[k]);
            }
        }
        assert forall|k: int| 0 <= k < next.edits.len() implies (#[trigger] next.edits[k]).origin()
            < chars.len() by {
            if k < st.edits.len() {
                assert(next.edits[k] == st.edits[k]);
            }
        }
    }
}

/// On a sequence that ends with its only terminator, the edits of the
/// conversion to full-width close with the terminator.
pub proof fn lemma_widening_closes(
    options: Jisx0201AndAlikeHalfwidthToFullwidthTransliteratorOptions,
    chars: Seq<CharView>,
)
    requires
        terminated(chars),
        chars.len() <= usize::MAX,
    ensures
        closes_with_terminator(chars.len(), widening_edits(options, chars)),
        edits_in_range(widening_edits(options, chars), chars.len()),
{
    let n = chars.len() as int;
    lemma_widen_scan(options, chars, n - 1);
    let st = widen_scan(options, chars, n - 1);
    assert(widen_scan(options, chars, n) == widen_step(options, chars, st, n - 1));
    lemma_closes(chars.len(), st.edits);
    let edits = widening_edits(options, chars);
    assert forall|k: int| 0 <= k < edits.len() implies (#[trigger] edits[k]).origin()
        < chars.len() by {
        if k < st.edits.len() {
            assert(edits[k] == st.edits[k]);
        }
    }
}

/// The edits that the conversion to full-width makes on `chars`.
pub open spec fn widening_edits(
    options: Jisx0201AndAlikeHalfwidthToFullwidthTransliteratorOptions,
    chars: Seq<CharView>,
) -> Seq<EditView> {
    widen_scan(options, chars, chars.len() as int).edits
}

/// The stage that converts half-width characters to full-width ones.
#[derive(Debug)]
pub struct Jisx0201AndAlikeHalfwidthToFullwidthTransliterator {
    options: Jisx0201AndAlikeHalfwidthToFullwidthTransliteratorOptions,
    mappings: HashMap<u32, Target>,
    voiced: HashMap<u32, Target>,
    semi_voiced: HashMap<u32, Target>,
}

impl View for Jisx0201AndAlikeHalfwidthToFullwidthTransliterator {
    type V = Jisx0201AndAlikeHalfwidthToFullwidthTransliteratorOptions;

    closed spec fn view(&self) -> Jisx0201AndAlikeHalfwidthToFullwidthTransliteratorOptions {
        self.options
    }
}

impl Jisx0201AndAlikeHalfwidthToFullwidthTransliterator {
    #[verifier::type_invariant]
    spec fn wf(&self) -> bool {
        &&& self.mappings@ == pairs_map(reverse_pairs(self.options))
        &&& self.voiced@ == pairs_map(voiced_reverse_pairs(self.options, RowUse::HalfToVoiced))
        &&& self.semi_voiced@ == pairs_map(
            voiced_reverse_pairs(self.options, RowUse::HalfToSemiVoiced),
        )
    }

    /// The stage for `options`, with its table taken from `cache`.
    pub fn new(
        options: Jisx0201AndAlikeHalfwidthToFullwidthTransliteratorOptions,
        cache: &mut MappingsCache,
    ) -> (r: Self)
        ensures
            r@ == options,
            final(cache)@.reverse == with_key(old(cache)@.reverse, options),
            final(cache)@.voiced_reverse == with_key(old(cache)@.voiced_reverse, options),
            final(cache)@.forward == old(cache)@.forward,
    {
        let mappings = get_rev_mappings(cache, &options);
        let (voiced, semi_voiced) = get_voiced_rev_mappings(cache, &options);
        Self { options, mappings, voiced, semi_voiced }
    }

    fn join(&self, base: &str, mark: &str) -> (r: Option<char>)
        requires
            self.wf(),
        ensures
            r == joined(self.options, base@, mark@),
    {
        match (single_char(base), single_char(mark)) {
            (Some(b), Some(m)) => {
                proof {
                    lemma_pairs_map(voiced_reverse_pairs(self.options, RowUse::HalfToVoiced), b);
                    lemma_pairs_map(
                        voiced_reverse_pairs(self.options, RowUse::HalfToSemiVoiced),
                        b,
                    );
                }
                let found = if m == HALFWIDTH_VOICED_MARK {
                    self.voiced.get(&(b as u32))
                } else if m == HALFWIDTH_SEMI_VOICED_MARK {
                    self.semi_voiced.get(&(b as u32))
                } else {
                    None
                };
                match found {
                    Some(t) => Some(t.first),
                    None => None,
                }
            },
            _ => None,
        }
    }

    /// Computes the edits of the stage for `input`.
    pub fn edits(&self, pool: &CharPool, input: &Vec<usize>) -> (r: Vec<Edit>)
        requires
            valid_seq(pool@, input@),
        ensures
            edit_views(r@) == widening_edits(self@, read(pool@, input@)),
            edits_in_range(edit_views(r@), input@.len()),
    {
        proof {
            use_type_invariant(self);
        }
        let ghost chars = read(pool@, input@);
        let mut edits: Vec<Edit> = Vec::new();
        let mut skip = false;
        let mut k: usize = 0;
        assert(edit_views(edits@) =~= Seq::<EditView>::empty());
        while k < input.len()
            invariant
                k <= input.len(),
                self.wf(),
                valid_seq(pool@, input@),
                chars == read(pool@, input@),
                widen_scan(self.options, chars, k as int) == (WidenScan {
                    edits: edit_views(edits@),
                    skip,
                }),
                edits_in_range(edit_views(edits@), input@.len()),
            decreases input.len() - k,
        {
            let ghost st = widen_scan(self.options, chars, k as int);
            let ghost before = edit_views(edits@);
            let rec = pool.get(input[k]);
            assert(rec@ == chars[k as int]);
            assert(widen_scan(self.options, chars, k + 1) == widen_step(
                self.options,
                chars,
                st,
                k as int,
            ));
            if skip {
                skip = false;
            } else if rec.is_sentinel() {
                edits.push(Edit::Keep { origin: k });
                proof {
                    assert(edit_views(edits@) =~= before.push(EditView::Keep { origin: k }));
                }
            } else {
                let combined = if k + 1 < input.len() {
                    let next = pool.get(input[k + 1]);
                    assert(next@ == chars[k + 1]);
                    self.join(rec.c.as_str(), next.c.as_str())
                } else {
                    None
                };
                match combined {
                    Some(c) => {
                        edits.push(Edit::Put { text: string_from_char(c), origin: k });
                        skip = true;
                        proof {
                            assert(edit_views(edits@) =~= before.push(
                                EditView::Put { text: seq![c], origin: k },
                            ));
                        }
                    },
                    None => {
                        let text = mapped_string(
                            &self.mappings,
                            &rec.c,
                            Ghost(reverse_pairs(self.options)),
                        );
                        edits.push(Edit::Put { text, origin: k });
                        proof {
                            assert(edit_views(edits@) =~= before.push(
                                EditView::Put {
                                    text: mapped_text(reverse_pairs(self.options), rec.c@),
                                    origin: k,
                                },
                            ));
                        }
                    },
                }
            }
            k += 1;
        }
        edits
    }
}

impl Transliterator for Jisx0201AndAlikeHalfwidthToFullwidthTransliterator {
    open spec fn spec_transliterate(&self, pool: Seq<CharView>, input: Seq<usize>) -> Result<Outcome, Seq<char>> {
        rewrite(pool, input, widening_edits(self@, read(pool, input)))
    }

    open spec fn keeps_terminator(&self) -> bool {
        true
    }

    fn transliterate(&self, pool: &mut CharPool, input: &Vec<usize>) -> (r: Result<
        Vec<usize>,
        TransliterationError,
    >) {
        // Reading the length tells the proof that it fits a `usize`.
        let n = input.len();
        let edits = self.edits(pool, input);
        let r = apply(pool, input, edits);
        proof {
            if r is Ok && self.keeps_terminator() && terminated(read(old(pool)@, input@)) {
                lemma_widening_closes(self@, read(old(pool)@, input@));
                lemma_outcome_terminated(
                    old(pool)@,
                    input@,
                    widening_edits(self@, read(old(pool)@, input@)),
                    pool@,
                    r->Ok_0@,
                );
            }
        }
        r
    }
}

/// Makes the conversion to full-width for the options it holds, with a
/// table of its own.
pub struct Jisx0201AndAlikeHalfwidthToFullwidthTransliteratorFactory(
    pub Jisx0201AndAlikeHalfwidthToFullwidthTransliteratorOptions,
);

impl TransliteratorFactory for Jisx0201AndAlikeHalfwidthToFullwidthTransliteratorFactory {
    type Output = Jisx0201AndAlikeHalfwidthToFullwidthTransliterator;

    open spec fn makes(&self, stage: Jisx0201AndAlikeHalfwidthToFullwidthTransliterator) -> bool {
        stage@ == self.0
    }

    fn new_transliterator(&self) -> (r: Result<
        Jisx0201AndAlikeHalfwidthToFullwidthTransliterator,
        TransliteratorFactoryError,
    >) {
        let mut cache = MappingsCache::new();
        Ok(Jisx0201AndAlikeHalfwidthToFullwidthTransliterator::new(self.0, &mut cache))
    }
}

/// Makes the conversion to half-width for the options it holds, with a
/// table of its own.
pub struct Jisx0201AndAlikeFullwidthToHalfwidthTransliteratorFactory(
    pub Jisx0201AndAlikeFullwidthToHalfwidthTransliteratorOptions,
);

impl TransliteratorFactory for Jisx0201AndAlikeFullwidthToHalfwidthTransliteratorFactory {
    type Output = Jisx0201AndAlikeFullwidthToHalfwidthTransliterator;

    open spec fn makes(&self, stage: Jisx0201AndAlikeFullwidthToHalfwidthTransliterator) -> bool {
        stage@ == self.0
    }

    fn new_transliterator(&self) -> (r: Result<
        Jisx0201AndAlikeFullwidthToHalfwidthTransliterator,
        TransliteratorFactoryError,
    >) {
        let mut cache = MappingsCache::new();
        Ok(Jisx0201AndAlikeFullwidthToHalfwidthTransliterator::new(self.0, &mut cache))
    }
}

} // verus!
