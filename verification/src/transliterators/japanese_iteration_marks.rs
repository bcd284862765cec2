//! Expansion of iteration marks into a copy of the character before them.

use vstd::prelude::*;
use vstd::string::*;
use crate::chars::{origins_precede, read, terminated, valid_seq, CharPool, CharView};
use crate::text::{first_char, string_from_char};
use crate::transliterator::{
    apply, edit_text, edit_views, edits_in_range, lemma_outcome_terminated, lemma_outcome_texts,
    rewrite, Edit, EditView, Outcome, TransliterationError, Transliterator,
    TransliteratorFactory, TransliteratorFactoryError,
};

verus! {

/// HIRAGANA ITERATION MARK
pub const HIRAGANA_ITERATION_MARK: char = '\u{309d}';

/// HIRAGANA VOICED ITERATION MARK
pub const HIRAGANA_VOICED_ITERATION_MARK: char = '\u{309e}';

/// KATAKANA ITERATION MARK
pub const KATAKANA_ITERATION_MARK: char = '\u{30fd}';

/// KATAKANA VOICED ITERATION MARK
pub const KATAKANA_VOICED_ITERATION_MARK: char = '\u{30fe}';

/// IDEOGRAPHIC ITERATION MARK
pub const KANJI_ITERATION_MARK: char = '\u{3005}';

/// VERTICAL KANA REPEAT MARK
pub const VERTICAL_HIRAGANA_ITERATION_MARK: char = '\u{3031}';

/// VERTICAL KANA REPEAT WITH VOICED SOUND MARK
pub const VERTICAL_HIRAGANA_VOICED_ITERATION_MARK: char = '\u{3032}';

/// VERTICAL KANA REPEAT MARK UPPER HALF
pub const VERTICAL_KATAKANA_ITERATION_MARK: char = '\u{3033}';

/// VERTICAL KANA REPEAT WITH VOICED SOUND MARK UPPER HALF
pub const VERTICAL_KATAKANA_VOICED_ITERATION_MARK: char = '\u{3034}';

/// The class of a character, as far as repetition goes.
#[derive(Debug, Clone, Copy, PartialEq, Eq, Structural)]
pub enum CharType {
    Other,
    Hiragana,
    Katakana,
    Kanji,
    Voiced,
    SemiVoiced,
    Hatsuon,
    Sokuon,
}

/// Whether `c` is one of the nine iteration marks.
pub open spec fn spec_is_iteration_mark(c: char) -> bool {
    c == HIRAGANA_ITERATION_MARK || c == HIRAGANA_VOICED_ITERATION_MARK || c
        == KATAKANA_ITERATION_MARK || c == KATAKANA_VOICED_ITERATION_MARK || c
        == KANJI_ITERATION_MARK || c == VERTICAL_HIRAGANA_ITERATION_MARK || c
        == VERTICAL_HIRAGANA_VOICED_ITERATION_MARK || c == VERTICAL_KATAKANA_ITERATION_MARK || c
        == VERTICAL_KATAKANA_VOICED_ITERATION_MARK
}

/// Whether `c` is one of the nine iteration marks.
pub fn is_iteration_mark(c: char) -> (r: bool)
    ensures
        r == spec_is_iteration_mark(c),
{
    c == HIRAGANA_ITERATION_MARK || c == HIRAGANA_VOICED_ITERATION_MARK || c
        == KATAKANA_ITERATION_MARK || c == KATAKANA_VOICED_ITERATION_MARK || c
        == KANJI_ITERATION_MARK || c == VERTICAL_HIRAGANA_ITERATION_MARK || c
        == VERTICAL_HIRAGANA_VOICED_ITERATION_MARK || c == VERTICAL_KATAKANA_ITERATION_MARK || c
        == VERTICAL_KATAKANA_VOICED_ITERATION_MARK
}

/// Whether `c` is a kana that carries a voiced sound mark.
pub open spec fn spec_is_voiced_char(c: char) -> bool {
    match c {
        '\u{304c}' | '\u{304e}' | '\u{3050}' | '\u{3052}' | '\u{3054}'
        | '\u{3056}' | '\u{3058}' | '\u{305a}' | '\u{305c}' | '\u{305e}'
        | '\u{3060}' | '\u{3062}' | '\u{3065}' | '\u{3067}' | '\u{3069}'
        | '\u{3070}' | '\u{3073}' | '\u{3076}' | '\u{3079}' | '\u{307c}'
        | '\u{30ac}' | '\u{30ae}' | '\u{30b0}' | '\u{30b2}' | '\u{30b4}'
        | '\u{30b6}' | '\u{30b8}' | '\u{30ba}' | '\u{30bc}' | '\u{30be}'
        | '\u{30c0}' | '\u{30c2}' | '\u{30c5}' | '\u{30c7}' | '\u{30c9}'
        | '\u{30d0}' | '\u{30d3}' | '\u{30d6}' | '\u{30d9}' | '\u{30dc}'
        | '\u{30f4}' => true,
        _ => false,
    }
}

/// Whether `c` is a kana that carries a voiced sound mark.
pub fn is_voiced_char(c: char) -> (r: bool)
    ensures
        r == spec_is_voiced_char(c),
{
    match c {
        '\u{304c}' | '\u{304e}' | '\u{3050}' | '\u{3052}' | '\u{3054}'
        | '\u{3056}' | '\u{3058}' | '\u{305a}' | '\u{305c}' | '\u{305e}'
        | '\u{3060}' | '\u{3062}' | '\u{3065}' | '\u{3067}' | '\u{3069}'
        | '\u{3070}' | '\u{3073}' | '\u{3076}' | '\u{3079}' | '\u{307c}'
        | '\u{30ac}' | '\u{30ae}' | '\u{30b0}' | '\u{30b2}' | '\u{30b4}'
        | '\u{30b6}' | '\u{30b8}' | '\u{30ba}' | '\u{30bc}' | '\u{30be}'
        | '\u{30c0}' | '\u{30c2}' | '\u{30c5}' | '\u{30c7}' | '\u{30c9}'
        | '\u{30d0}' | '\u{30d3}' | '\u{30d6}' | '\u{30d9}' | '\u{30dc}'
        | '\u{30f4}' => true,
        _ => false,
    }
}

/// Whether `c` is a kana that carries a semi-voiced sound mark.
pub open spec fn spec_is_semi_voiced_char(c: char) -> bool {
    match c {
        '\u{3071}' | '\u{3074}' | '\u{3077}' | '\u{307a}' | '\u{307d}'
        | '\u{30d1}' | '\u{30d4}' | '\u{30d7}' | '\u{30da}' | '\u{30dd}' => true,
        _ => false,
    }
}

/// Whether `c` is a kana that carries a semi-voiced sound mark.
pub fn is_semi_voiced_char(c: char) -> (r: bool)
    ensures
        r == spec_is_semi_voiced_char(c),
{
    match c {
        '\u{3071}' | '\u{3074}' | '\u{3077}' | '\u{307a}' | '\u{307d}'
        | '\u{30d1}' | '\u{30d4}' | '\u{30d7}' | '\u{30da}' | '\u{30dd}' => true,
        _ => false,
    }
}

/// The voiced form of hiragana `c`, if it has one.
pub open spec fn spec_voice_hiragana(c: char) -> Option<char> {
    match c {
        '\u{304b}' => Some('\u{304c}'),  // か -> が
        '\u{304d}' => Some('\u{304e}'),  // き -> ぎ
        '\u{304f}' => Some('\u{3050}'),  // く -> ぐ
        '\u{3051}' => Some('\u{3052}'),  // け -> げ
        '\u{3053}' => Some('\u{3054}'),  // こ -> ご
        '\u{3055}' => Some('\u{3056}'),  // さ -> ざ
        '\u{3057}' => Some('\u{3058}'),  // し -> じ
        '\u{3059}' => Some('\u{305a}'),  // す -> ず
        '\u{305b}' => Some('\u{305c}'),  // せ -> ぜ
        '\u{305d}' => Some('\u{305e}'),  // そ -> ぞ
        '\u{305f}' => Some('\u{3060}'),  // た -> だ
        '\u{3061}' => Some('\u{3062}'),  // ち -> ぢ
        '\u{3064}' => Some('\u{3065}'),  // つ -> づ
        '\u{3066}' => Some('\u{3067}'),  // て -> で
        '\u{3068}' => Some('\u{3069}'),  // と -> ど
        '\u{306f}' => Some('\u{3070}'),  // は -> ば
        '\u{3072}' => Some('\u{3073}'),  // ひ -> び
        '\u{3075}' => Some('\u{3076}'),  // ふ -> ぶ
        '\u{3078}' => Some('\u{3079}'),  // へ -> べ
        '\u{307b}' => Some('\u{307c}'),  // ほ -> ぼ
        _ => None,
    }
}

/// The voiced form of hiragana `c`, if it has one.
pub fn voice_hiragana(c: char) -> (r: Option<char>)
    ensures
        r == spec_voice_hiragana(c),
{
    match c {
        '\u{304b}' => Some('\u{304c}'),  // か -> が
        '\u{304d}' => Some('\u{304e}'),  // き -> ぎ
        '\u{304f}' => Some('\u{3050}'),  // く -> ぐ
        '\u{3051}' => Some('\u{3052}'),  // け -> げ
        '\u{3053}' => Some('\u{3054}'),  // こ -> ご
        '\u{3055}' => Some('\u{3056}'),  // さ -> ざ
        '\u{3057}' => Some('\u{3058}'),  // し -> じ
        '\u{3059}' => Some('\u{305a}'),  // す -> ず
        '\u{305b}' => Some('\u{305c}'),  // せ -> ぜ
        '\u{305d}' => Some('\u{305e}'),  // そ -> ぞ
        '\u{305f}' => Some('\u{3060}'),  // た -> だ
        '\u{3061}' => Some('\u{3062}'),  // ち -> ぢ
        '\u{3064}' => Some('\u{3065}'),  // つ -> づ
        '\u{3066}' => Some('\u{3067}'),  // て -> で
        '\u{3068}' => Some('\u{3069}'),  // と -> ど
        '\u{306f}' => Some('\u{3070}'),  // は -> ば
        '\u{3072}' => Some('\u{3073}'),  // ひ -> び
        '\u{3075}' => Some('\u{3076}'),  // ふ -> ぶ
        '\u{3078}' => Some('\u{3079}'),  // へ -> べ
        '\u{307b}' => Some('\u{307c}'),  // ほ -> ぼ
        _ => None,
    }
}

/// The voiced form of katakana `c`, if it has one.
pub open spec fn spec_voice_katakana(c: char) -> Option<char> {
    match c {
        '\u{30ab}' => Some('\u{30ac}'),  // カ -> ガ
        '\u{30ad}' => Some('\u{30ae}'),  // キ -> ギ
        '\u{30af}' => Some('\u{30b0}'),  // ク -> グ
        '\u{30b1}' => Some('\u{30b2}'),  // ケ -> ゲ
        '\u{30b3}' => Some('\u{30b4}'),  // コ -> ゴ
        '\u{30b5}' => Some('\u{30b6}'),  // サ -> ザ
        '\u{30b7}' => Some('\u{30b8}'),  // シ -> ジ
        '\u{30b9}' => Some('\u{30ba}'),  // ス -> ズ
        '\u{30bb}' => Some('\u{30bc}'),  // セ -> ゼ
        '\u{30bd}' => Some('\u{30be}'),  // ソ -> ゾ
        '\u{30bf}' => Some('\u{30c0}'),  // タ -> ダ
        '\u{30c1}' => Some('\u{30c2}'),  // チ -> ヂ
        '\u{30c4}' => Some('\u{30c5}'),  // ツ -> ヅ
        '\u{30c6}' => Some('\u{30c7}'),  // テ -> デ
        '\u{30c8}' => Some('\u{30c9}'),  // ト -> ド
        '\u{30cf}' => Some('\u{30d0}'),  // ハ -> バ
        '\u{30d2}' => Some('\u{30d3}'),  // ヒ -> ビ
        '\u{30d5}' => Some('\u{30d6}'),  // フ -> ブ
        '\u{30d8}' => Some('\u{30d9}'),  // ヘ -> ベ
        '\u{30db}' => Some('\u{30dc}'),  // ホ -> ボ
        '\u{30a6}' => Some('\u{30f4}'),  // ウ -> ヴ
        _ => None,
    }
}

/// The voiced form of katakana `c`, if it has one.
pub fn voice_katakana(c: char) -> (r: Option<char>)
    ensures
        r == spec_voice_katakana(c),
{
    match c {
        '\u{30ab}' => Some('\u{30ac}'),  // カ -> ガ
        '\u{30ad}' => Some('\u{30ae}'),  // キ -> ギ
        '\u{30af}' => Some('\u{30b0}'),  // ク -> グ
        '\u{30b1}' => Some('\u{30b2}'),  // ケ -> ゲ
        '\u{30b3}' => Some('\u{30b4}'),  // コ -> ゴ
        '\u{30b5}' => Some('\u{30b6}'),  // サ -> ザ
        '\u{30b7}' => Some('\u{30b8}'),  // シ -> ジ
        '\u{30b9}' => Some('\u{30ba}'),  // ス -> ズ
        '\u{30bb}' => Some('\u{30bc}'),  // セ -> ゼ
        '\u{30bd}' => Some('\u{30be}'),  // ソ -> ゾ
        '\u{30bf}' => Some('\u{30c0}'),  // タ -> ダ
        '\u{30c1}' => Some('\u{30c2}'),  // チ -> ヂ
        '\u{30c4}' => Some('\u{30c5}'),  // ツ -> ヅ
        '\u{30c6}' => Some('\u{30c7}'),  // テ -> デ
        '\u{30c8}' => Some('\u{30c9}'),  // ト -> ド
        '\u{30cf}' => Some('\u{30d0}'),  // ハ -> バ
        '\u{30d2}' => Some('\u{30d3}'),  // ヒ -> ビ
        '\u{30d5}' => Some('\u{30d6}'),  // フ -> ブ
        '\u{30d8}' => Some('\u{30d9}'),  // ヘ -> ベ
        '\u{30db}' => Some('\u{30dc}'),  // ホ -> ボ
        '\u{30a6}' => Some('\u{30f4}'),  // ウ -> ヴ
        _ => None,
    }
}

/// The hiragana that voiced hiragana `c` is the voiced form of.
pub open spec fn spec_unvoice_hiragana(c: char) -> Option<char> {
    match c {
        '\u{304c}' => Some('\u{304b}'),  // が -> か
        '\u{304e}' => Some('\u{304d}'),  // ぎ -> き
        '\u{3050}' => Some('\u{304f}'),  // ぐ -> く
        '\u{3052}' => Some('\u{3051}'),  // げ -> け
        '\u{3054}' => Some('\u{3053}'),  // ご -> こ
        '\u{3056}' => Some('\u{3055}'),  // ざ -> さ
        '\u{3058}' => Some('\u{3057}'),  // じ -> し
        '\u{305a}' => Some('\u{3059}'),  // ず -> す
        '\u{305c}' => Some('\u{305b}'),  // ぜ -> せ
        '\u{305e}' => Some('\u{305d}'),  // ぞ -> そ
        '\u{3060}' => Some('\u{305f}'),  // だ -> た
        '\u{3062}' => Some('\u{3061}'),  // ぢ -> ち
        '\u{3065}' => Some('\u{3064}'),  // づ -> つ
        '\u{3067}' => Some('\u{3066}'),  // で -> て
        '\u{3069}' => Some('\u{3068}'),  // ど -> と
        '\u{3070}' => Some('\u{306f}'),  // ば -> は
        '\u{3073}' => Some('\u{3072}'),  // び -> ひ
        '\u{3076}' => Some('\u{3075}'),  // ぶ -> ふ
        '\u{3079}' => Some('\u{3078}'),  // べ -> へ
        '\u{307c}' => Some('\u{307b}'),  // ぼ -> ほ
        _ => None,
    }
}

/// The hiragana that voiced hiragana `c` is the voiced form of.
pub fn unvoice_hiragana(c: char) -> (r: Option<char>)
    ensures
        r == spec_unvoice_hiragana(c),
{
    match c {
        '\u{304c}' => Some('\u{304b}'),  // が -> か
        '\u{304e}' => Some('\u{304d}'),  // ぎ -> き
        '\u{3050}' => Some('\u{304f}'),  // ぐ -> く
        '\u{3052}' => Some('\u{3051}'),  // げ -> け
        '\u{3054}' => Some('\u{3053}'),  // ご -> こ
        '\u{3056}' => Some('\u{3055}'),  // ざ -> さ
        '\u{3058}' => Some('\u{3057}'),  // じ -> し
        '\u{305a}' => Some('\u{3059}'),  // ず -> す
        '\u{305c}' => Some('\u{305b}'),  // ぜ -> せ
        '\u{305e}' => Some('\u{305d}'),  // ぞ -> そ
        '\u{3060}' => Some('\u{305f}'),  // だ -> た
        '\u{3062}' => Some('\u{3061}'),  // ぢ -> ち
        '\u{3065}' => Some('\u{3064}'),  // づ -> つ
        '\u{3067}' => Some('\u{3066}'),  // で -> て
        '\u{3069}' => Some('\u{3068}'),  // ど -> と
        '\u{3070}' => Some('\u{306f}'),  // ば -> は
        '\u{3073}' => Some('\u{3072}'),  // び -> ひ
        '\u{3076}' => Some('\u{3075}'),  // ぶ -> ふ
        '\u{3079}' => Some('\u{3078}'),  // べ -> へ
        '\u{307c}' => Some('\u{307b}'),  // ぼ -> ほ
        _ => None,
    }
}

/// The katakana that voiced katakana `c` is the voiced form of.
pub open spec fn spec_unvoice_katakana(c: char) -> Option<char> {
    match c {
        '\u{30ac}' => Some('\u{30ab}'),  // ガ -> カ
        '\u{30ae}' => Some('\u{30ad}'),  // ギ -> キ
        '\u{30b0}' => Some('\u{30af}'),  // グ -> ク
        '\u{30b2}' => Some('\u{30b1}'),  // ゲ -> ケ
        '\u{30b4}' => Some('\u{30b3}'),  // ゴ -> コ
        '\u{30b6}' => Some('\u{30b5}'),  // ザ -> サ
        '\u{30b8}' => Some('\u{30b7}'),  // ジ -> シ
        '\u{30ba}' => Some('\u{30b9}'),  // ズ -> ス
        '\u{30bc}' => Some('\u{30bb}'),  // ゼ -> セ
        '\u{30be}' => Some('\u{30bd}'),  // ゾ -> ソ
        '\u{30c0}' => Some('\u{30bf}'),  // ダ -> タ
        '\u{30c2}' => Some('\u{30c1}'),  // ヂ -> チ
        '\u{30c5}' => Some('\u{30c4}'),  // ヅ -> ツ
        '\u{30c7}' => Some('\u{30c6}'),  // デ -> テ
        '\u{30c9}' => Some('\u{30c8}'),  // ド -> ト
        '\u{30d0}' => Some('\u{30cf}'),  // バ -> ハ
        '\u{30d3}' => Some('\u{30d2}'),  // ビ -> ヒ
        '\u{30d6}' => Some('\u{30d5}'),  // ブ -> フ
        '\u{30d9}' => Some('\u{30d8}'),  // ベ -> ヘ
        '\u{30dc}' => Some('\u{30db}'),  // ボ -> ホ
        '\u{30f4}' => Some('\u{30a6}'),  // ヴ -> ウ
        _ => None,
    }
}

/// The katakana that voiced katakana `c` is the voiced form of.
pub fn unvoice_katakana(c: char) -> (r: Option<char>)
    ensures
        r == spec_unvoice_katakana(c),
{
    match c {
        '\u{30ac}' => Some('\u{30ab}'),  // ガ -> カ
        '\u{30ae}' => Some('\u{30ad}'),  // ギ -> キ
        '\u{30b0}' => Some('\u{30af}'),  // グ -> ク
        '\u{30b2}' => Some('\u{30b1}'),  // ゲ -> ケ
        '\u{30b4}' => Some('\u{30b3}'),  // ゴ -> コ
        '\u{30b6}' => Some('\u{30b5}'),  // ザ -> サ
        '\u{30b8}' => Some('\u{30b7}'),  // ジ -> シ
        '\u{30ba}' => Some('\u{30b9}'),  // ズ -> ス
        '\u{30bc}' => Some('\u{30bb}'),  // ゼ -> セ
        '\u{30be}' => Some('\u{30bd}'),  // ゾ -> ソ
        '\u{30c0}' => Some('\u{30bf}'),  // ダ -> タ
        '\u{30c2}' => Some('\u{30c1}'),  // ヂ -> チ
        '\u{30c5}' => Some('\u{30c4}'),  // ヅ -> ツ
        '\u{30c7}' => Some('\u{30c6}'),  // デ -> テ
        '\u{30c9}' => Some('\u{30c8}'),  // ド -> ト
        '\u{30d0}' => Some('\u{30cf}'),  // バ -> ハ
        '\u{30d3}' => Some('\u{30d2}'),  // ビ -> ヒ
        '\u{30d6}' => Some('\u{30d5}'),  // ブ -> フ
        '\u{30d9}' => Some('\u{30d8}'),  // ベ -> ヘ
        '\u{30dc}' => Some('\u{30db}'),  // ボ -> ホ
        '\u{30f4}' => Some('\u{30a6}'),  // ヴ -> ウ
        _ => None,
    }
}

/// Whether `c` is a CJK ideograph.
pub open spec fn spec_is_kanji(c: char) -> bool {
    ('\u{4e00}' <= c <= '\u{9fff}') || ('\u{3400}' <= c <= '\u{4dbf}') || ('\u{20000}' <= c
        <= '\u{2a6df}') || ('\u{2a700}' <= c <= '\u{2b73f}') || ('\u{2b740}' <= c <= '\u{2b81f}')
        || ('\u{2b820}' <= c <= '\u{2ceaf}') || ('\u{2ceb0}' <= c <= '\u{2ebef}') || ('\u{30000}'
        <= c <= '\u{3134f}')
}

/// The class of `c`: hatsuon and sokuon first, then voiced and semi-voiced
/// kana, then plain hiragana, katakana (half-width too) and ideographs.
pub open spec fn spec_get_char_type(c: char) -> CharType {
    if c == '\u{3093}' || c == '\u{30f3}' {
        CharType::Hatsuon
    } else if c == '\u{3063}' || c == '\u{30c3}' {
        CharType::Sokuon
    } else if spec_is_voiced_char(c) {
        CharType::Voiced
    } else if spec_is_semi_voiced_char(c) {
        CharType::SemiVoiced
    } else if '\u{3041}' <= c <= '\u{3096}' {
        CharType::Hiragana
    } else if '\u{30a1}' <= c <= '\u{30fa}' {
        CharType::Katakana
    } else if '\u{ff66}' <= c <= '\u{ff9f}' {
        CharType::Katakana
    } else if spec_is_kanji(c) {
        CharType::Kanji
    } else {
        CharType::Other
    }
}

/// The class of `c`.
pub fn get_char_type(c: char) -> (r: CharType)
    ensures
        r == spec_get_char_type(c),
{
    if c == '\u{3093}' || c == '\u{30f3}' {
        return CharType::Hatsuon;
    }
    if c == '\u{3063}' || c == '\u{30c3}' {
        return CharType::Sokuon;
    }
    if is_voiced_char(c) {
        return CharType::Voiced;
    }
    if is_semi_voiced_char(c) {
        return CharType::SemiVoiced;
    }
    if '\u{3041}' <= c && c <= '\u{3096}' {
        return CharType::Hiragana;
    }
    if '\u{30a1}' <= c && c <= '\u{30fa}' {
        return CharType::Katakana;
    }
    if '\u{ff66}' <= c && c <= '\u{ff9f}' {
        return CharType::Katakana;
    }
    if ('\u{4e00}' <= c && c <= '\u{9fff}') || ('\u{3400}' <= c && c <= '\u{4dbf}') || ('\u{20000}'
        <= c && c <= '\u{2a6df}') || ('\u{2a700}' <= c && c <= '\u{2b73f}') || ('\u{2b740}' <= c
        && c <= '\u{2b81f}') || ('\u{2b820}' <= c && c <= '\u{2ceaf}') || ('\u{2ceb0}' <= c && c
        <= '\u{2ebef}') || ('\u{30000}' <= c && c <= '\u{3134f}') {
        return CharType::Kanji;
    }
    CharType::Other
}

/// What iteration mark `mark` stands for after character `prev` of class
/// `prev_type`, or `None` where it cannot repeat that character.
///
/// A plain mark repeats a plain character of its own script and takes the
/// voicing off a voiced one; a voiced mark voices a plain character that has
/// a voiced form and repeats a voiced one; the ideographic mark repeats an
/// ideograph. Hatsuon, sokuon and semi-voiced kana are never repeated.
pub open spec fn spec_expand_mark(mark: char, prev: char, prev_type: CharType) -> Option<char> {
    if mark == HIRAGANA_ITERATION_MARK || mark == VERTICAL_HIRAGANA_ITERATION_MARK {
        match prev_type {
            CharType::Hiragana => Some(prev),
            CharType::Voiced => spec_unvoice_hiragana(prev),
            _ => None,
        }
    } else if mark == HIRAGANA_VOICED_ITERATION_MARK || mark
        == VERTICAL_HIRAGANA_VOICED_ITERATION_MARK {
        match prev_type {
            CharType::Hiragana => spec_voice_hiragana(prev),
            CharType::Voiced => Some(prev),
            _ => None,
        }
    } else if mark == KATAKANA_ITERATION_MARK || mark == VERTICAL_KATAKANA_ITERATION_MARK {
        match prev_type {
            CharType::Katakana => Some(prev),
            CharType::Voiced => spec_unvoice_katakana(prev),
            _ => None,
        }
    } else if mark == KATAKANA_VOICED_ITERATION_MARK || mark
        == VERTICAL_KATAKANA_VOICED_ITERATION_MARK {
        match prev_type {
            CharType::Katakana => spec_voice_katakana(prev),
            CharType::Voiced => Some(prev),
            _ => None,
        }
    } else if mark == KANJI_ITERATION_MARK {
        if prev_type == CharType::Kanji {
            Some(prev)
        } else {
            None
        }
    } else {
        None
    }
}

/// What iteration mark `mark` stands for after `prev`.
pub fn expand_mark(mark: char, prev: char, prev_type: CharType) -> (r: Option<char>)
    ensures
        r == spec_expand_mark(mark, prev, prev_type),
{
    if mark == HIRAGANA_ITERATION_MARK || mark == VERTICAL_HIRAGANA_ITERATION_MARK {
        match prev_type {
            CharType::Hiragana => Some(prev),
            CharType::Voiced => unvoice_hiragana(prev),
            _ => None,
        }
    } else if mark == HIRAGANA_VOICED_ITERATION_MARK || mark
        == VERTICAL_HIRAGANA_VOICED_ITERATION_MARK {
        match prev_type {
            CharType::Hiragana => voice_hiragana(prev),
            CharType::Voiced => Some(prev),
            _ => None,
        }
    } else if mark == KATAKANA_ITERATION_MARK || mark == VERTICAL_KATAKANA_ITERATION_MARK {
        match prev_type {
            CharType::Katakana => Some(prev),
            CharType::Voiced => unvoice_katakana(prev),
            _ => None,
        }
    } else if mark == KATAKANA_VOICED_ITERATION_MARK || mark
        == VERTICAL_KATAKANA_VOICED_ITERATION_MARK {
        match prev_type {
            CharType::Katakana => voice_katakana(prev),
            CharType::Voiced => Some(prev),
            _ => None,
        }
    } else if mark == KANJI_ITERATION_MARK {
        match prev_type {
            CharType::Kanji => Some(prev),
            _ => None,
        }
    } else {
        None
    }
}

/// A character that a mark may repeat, with its class.
#[derive(Debug, Clone, Copy)]
pub struct Repeatable {
    pub c: char,
    pub char_type: CharType,
}

/// What the scan knows after a prefix of the input.
pub struct MarkScan {
    /// The edits made for the prefix.
    pub edits: Seq<EditView>,
    /// First character and class of the last record that was no mark.
    pub prev: Option<Repeatable>,
    /// Whether the last record was an iteration mark.
    pub after_mark: bool,
}

/// The text that takes the place of the record with text `text`, given what
/// the scan knows.
pub open spec fn mark_text(st: MarkScan, text: Seq<char>) -> Seq<char> {
    if spec_is_iteration_mark(text[0]) && !st.after_mark && st.prev is Some && spec_expand_mark(
        text[0],
        st.prev->0.c,
        st.prev->0.char_type,
    ) is Some {
        seq![spec_expand_mark(text[0], st.prev->0.c, st.prev->0.char_type)->0]
    } else {
        text
    }
}

/// The scan after one more record, the one at position `k`.
///
/// A terminator is kept and changes nothing. A mark sets the flag and
/// leaves the remembered character alone, so that of several marks in a row
/// only the first is expanded. Any other record is remembered and clears
/// the flag.
pub open spec fn mark_step(st: MarkScan, ch: CharView, k: int) -> MarkScan {
    if ch.is_sentinel() {
        MarkScan { edits: st.edits.push(EditView::Keep { origin: k as usize }), ..st }
    } else {
        let edit = EditView::Put { text: mark_text(st, ch.c), origin: k as usize };
        if spec_is_iteration_mark(ch.c[0]) {
            MarkScan { edits: st.edits.push(edit), prev: st.prev, after_mark: true }
        } else {
            MarkScan {
                edits: st.edits.push(edit),
                prev: Some(Repeatable { c: ch.c[0], char_type: spec_get_char_type(ch.c[0]) }),
                after_mark: false,
            }
        }
    }
}

/// The scan after the first `n` records of `chars`.
pub open spec fn mark_scan(chars: Seq<CharView>, n: int) -> MarkScan
    decreases n,
{
    if n <= 0 {
        MarkScan { edits: Seq::<EditView>::empty(), prev: None, after_mark: false }
    } else {
        mark_step(mark_scan(chars, n - 1), chars[n - 1], n - 1)
    }
}

/// Whether the record begins with an iteration mark. The stage changes no
/// other record.
pub open spec fn begins_with_mark(ch: CharView) -> bool {
    !ch.is_sentinel() && spec_is_iteration_mark(ch.c[0])
}

/// Options of the stage. There are none.
#[derive(Debug, Default, Clone, PartialEq, Eq)]
pub struct JapaneseIterationMarksTransliteratorOptions {}

/// The stage that replaces iteration marks by the character they repeat.
#[derive(Debug, Clone)]
pub struct JapaneseIterationMarksTransliterator {
    _options: JapaneseIterationMarksTransliteratorOptions,
}

impl JapaneseIterationMarksTransliterator {
    /// The stage. It has no options to heed.
    pub fn new(options: JapaneseIterationMarksTransliteratorOptions) -> (r: Self) {
        Self { _options: options }
    }

    /// The edits that the stage makes on `chars`: one for each record, in
    /// order.
    pub open spec fn spec_edits(chars: Seq<CharView>) -> Seq<EditView> {
        mark_scan(chars, chars.len() as int).edits
    }

    /// The scan makes one edit for each record, at its own position; it
    /// keeps terminators and gives every other record a text.
    pub proof fn lemma_scan_shape(chars: Seq<CharView>, n: int)
        requires
            0 <= n <= chars.len() <= usize::MAX,
        ensures
            mark_scan(chars, n).edits.len() == n,
            forall|k: int|
                0 <= k < n ==> (#[trigger] mark_scan(chars, n).edits[k]).origin() == k,
            forall|k: int|
                0 <= k < n ==> (chars[k].is_sentinel() <==> (#[trigger] mark_scan(
                    chars,
                    n,
                ).edits[k]) is Keep),
            forall|k: int|
                0 <= k < n ==> ((#[trigger] mark_scan(chars, n).edits[k]) matches EditView::Put {
                    text,
                    ..
                } ==> text.len() > 0),
        decreases n,
    {
        if n > 0 {
            Self::lemma_scan_shape(chars, n - 1);
            let st = mark_scan(chars, n - 1);
            let next = mark_scan(chars, n);
            assert(next == mark_step(st, chars[n - 1], n - 1));
            assert forall|k: int| 0 <= k < n implies (#[trigger] next.edits[k]).origin() == k by {
                if k < n - 1 {
                    assert(next.edits[k] == st.edits[k]);
                }
            }
            assert forall|k: int| 0 <= k < n implies (chars[k].is_sentinel() <==> (
            #[trigger] next.edits[k]) is Keep) by {
                if k < n - 1 {
                    assert(next.edits[k] == st.edits[k]);
                }
            }
            assert forall|k: int| 0 <= k < n implies ((#[trigger] next.edits[k]) matches EditView::Put {
                text,
                ..
            } ==> text.len() > 0) by {
                if k < n - 1 {
                    assert(next.edits[k] == st.edits[k]);
                }
            }
        }
    }

    /// The scan gives a record that has text and begins with no iteration
    /// mark its own text, and a record that begins with one its own text or
    /// a single character.
    pub proof fn lemma_scan_texts(chars: Seq<CharView>, n: int)
        requires
            0 <= n <= chars.len() <= usize::MAX,
        ensures
            forall|k: int|
                0 <= k < n && !chars[k].is_sentinel() ==> ((#[trigger] mark_scan(
                    chars,
                    n,
                ).edits[k]) matches EditView::Put { text, .. } && (text == chars[k].c
                    || begins_with_mark(chars[k]) && text.len() == 1)),
        decreases n,
    {
        if n > 0 {
            Self::lemma_scan_texts(chars, n - 1);
            Self::lemma_scan_shape(chars, n - 1);
            let st = mark_scan(chars, n - 1);
            let next = mark_scan(chars, n);
            assert(next == mark_step(st, chars[n - 1], n - 1));
            assert forall|k: int| 0 <= k < n && !chars[k].is_sentinel() implies ((
            #[trigger] next.edits[k]) matches EditView::Put { text, .. } && (text == chars[k].c
                || begins_with_mark(chars[k]) && text.len() == 1)) by {
                if k < n - 1 {
                    assert(next.edits[k] == st.edits[k]);
                }
            }
        }
    }

    /// Nothing but iteration marks changes: where the stage succeeds it
    /// puts out one record for each record of the input, in order. A
    /// record that begins with no iteration mark keeps its text, the
    /// terminator among them; one that begins with an iteration mark keeps
    /// its text or gives way to a single character.
    pub proof fn lemma_only_marks_change(
        self,
        pool: Seq<CharView>,
        input: Seq<usize>,
        after: Seq<CharView>,
        out: Seq<usize>,
    )
        requires
            origins_precede(pool),
            valid_seq(pool, input),
            input.len() <= usize::MAX,
            after.len() <= usize::MAX,
            self.spec_transliterate(pool, input) == Ok::<Outcome, Seq<char>>(
                Outcome { pool: after, out },
            ),
        ensures
            out.len() == input.len(),
            forall|k: int|
                0 <= k < input.len() && !begins_with_mark(read(pool, input)[k]) ==> (
                #[trigger] read(after, out)[k]).c == read(pool, input)[k].c,
            forall|k: int|
                0 <= k < input.len() && begins_with_mark(read(pool, input)[k]) ==> (
                #[trigger] read(after, out)[k]).c == read(pool, input)[k].c || read(
                    after,
                    out,
                )[k].c.len() == 1,
    {
        let chars = read(pool, input);
        let edits = Self::spec_edits(chars);
        Self::lemma_scan_shape(chars, chars.len() as int);
        Self::lemma_scan_texts(chars, chars.len() as int);
        assert(edits_in_range(edits, input.len()));
        lemma_outcome_texts(pool, input, edits, after, out);
        assert forall|k: int| 0 <= k < input.len() implies (#[trigger] read(after, out)[k]).c
            == read(pool, input)[k].c || (begins_with_mark(read(pool, input)[k]) && read(
            after,
            out,
        )[k].c.len() == 1) by {
            assert(edits[k].origin() == k);
            assert(read(after, out)[k].c == edit_text(pool, input, edits[k]));
        }
    }

    /// Computes the edits of the stage for `input`.
    pub fn edits(&self, pool: &CharPool, input: &Vec<usize>) -> (r: Vec<Edit>)
        requires
            valid_seq(pool@, input@),
        ensures
            edit_views(r@) == Self::spec_edits(read(pool@, input@)),
            edits_in_range(edit_views(r@), input@.len()),
    {
        let ghost chars = read(pool@, input@);
        let mut edits: Vec<Edit> = Vec::new();
        let mut prev: Option<Repeatable> = None;
        let mut after_mark = false;
        let mut k: usize = 0;
        proof {
            assert(edit_views(edits@) =~= Seq::<EditView>::empty());
        }
        while k < input.len()
            invariant
                k <= input.len(),
                edits@.len() == k,
                valid_seq(pool@, input@),
                chars == read(pool@, input@),
                mark_scan(chars, k as int) == (MarkScan {
                    edits: edit_views(edits@),
                    prev,
                    after_mark,
                }),
                edits_in_range(edit_views(edits@), input@.len()),
            decreases input.len() - k,
        {
            let ghost st = mark_scan(chars, k as int);
            let ghost before = edit_views(edits@);
            let rec = pool.get(input[k]);
            assert(rec@ == chars[k as int]);
            match first_char(rec.c.as_str()) {
                None => {
                    edits.push(Edit::Keep { origin: k });
                },
                Some(c) => {
                    if is_iteration_mark(c) {
                        let expanded = if after_mark {
                            None
                        } else {
                            match prev {
                                Some(p) => expand_mark(c, p.c, p.char_type),
                                None => None,
                            }
                        };
                        let text = match expanded {
                            Some(e) => string_from_char(e),
                            None => rec.c.clone(),
                        };
                        edits.push(Edit::Put { text, origin: k });
                        after_mark = true;
                    } else {
                        edits.push(Edit::Put { text: rec.c.clone(), origin: k });
                        prev = Some(Repeatable { c, char_type: get_char_type(c) });
                        after_mark = false;
                    }
                },
            }
            proof {
                let e = edits@[k as int]@;
                assert(edit_views(edits@) =~= before.push(e));
                assert(mark_scan(chars, k + 1) == mark_step(st, chars[k as int], k as int));
            }
            k += 1;
        }
        edits
    }
}

impl Transliterator for JapaneseIterationMarksTransliterator {
    open spec fn spec_transliterate(&self, pool: Seq<CharView>, input: Seq<usize>) -> Result<Outcome, Seq<char>> {
        rewrite(pool, input, Self::spec_edits(read(pool, input)))
    }

    open spec fn keeps_terminator(&self) -> bool {
        true
    }

    /// Replaces each iteration mark that follows a character it can repeat
    /// by that character, voiced or unvoiced as the mark says. Nothing
    /// else changes: the output has one record for each record of the
    /// input, and a record that begins with no iteration mark keeps its
    /// text.
    fn transliterate(&self, pool: &mut CharPool, input: &Vec<usize>) -> (r: Result<
        Vec<usize>,
        TransliterationError,
    >)
        ensures
            r matches Ok(out) ==> out@.len() == input@.len(),
            r matches Ok(out) ==> forall|k: int|
                0 <= k < input@.len() && !begins_with_mark(read(old(pool)@, input@)[k]) ==> (
                #[trigger] read(final(pool)@, out@)[k]).c == read(old(pool)@, input@)[k].c,
    {
        // Reading the length tells the proof that it fits a `usize`.
        let n = input.len();
        let edits = self.edits(pool, input);
        let r = apply(pool, input, edits);
        proof {
            if r is Ok {
                self.lemma_only_marks_change(old(pool)@, input@, pool@, r->Ok_0@);
            }
            if r is Ok && self.keeps_terminator() && terminated(read(old(pool)@, input@)) {
                let chars = read(old(pool)@, input@);
                Self::lemma_scan_shape(chars, chars.len() as int);
                let edits = Self::spec_edits(chars);
                let last = chars.len() - 1;
                assert(edits[last].origin() == last);
                assert(edits[last] is Keep);
                assert(edits.last() == EditView::Keep { origin: last as usize });
                assert forall|k: int| 0 <= k < edits.len() - 1 implies ((#[trigger] edits[k]) matches EditView::Put {
                    text,
                    ..
                } && text.len() > 0) by {
                    assert(!chars[k].is_sentinel());
                    assert(!(edits[k] is Keep));
                }
                lemma_outcome_terminated(old(pool)@, input@, edits, pool@, r->Ok_0@);
            }
        }
        r
    }
}

impl TransliteratorFactory for JapaneseIterationMarksTransliteratorOptions {
    type Output = JapaneseIterationMarksTransliterator;

    fn new_transliterator(&self) -> (r: Result<
        JapaneseIterationMarksTransliterator,
        TransliteratorFactoryError,
    >) {
        Ok(
            JapaneseIterationMarksTransliterator::new(
                JapaneseIterationMarksTransliteratorOptions {  },
            ),
        )
    }
}

} // verus!
