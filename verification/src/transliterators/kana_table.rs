//! The table of kana that the stages share: for each kana its hiragana,
//! its katakana and its half-width katakana, each plain, voiced and
//! semi-voiced.

use vstd::prelude::*;
use std::collections::HashMap;

verus! {

/// Stands in a table for a form that does not exist.
pub const NONE: char = '\0';

/// Number of rows of [`KANA`].
pub const KANA_ROWS: usize = 48;

/// Number of rows of [`SMALL_KANA`].
pub const SMALL_KANA_ROWS: usize = 12;

/// Column of [`KANA`]: plain hiragana.
pub const HIRA: usize = 0;

/// Column of [`KANA`]: voiced hiragana.
pub const HIRA_VOICED: usize = 1;

/// Column of [`KANA`]: semi-voiced hiragana.
pub const HIRA_SEMI: usize = 2;

/// Column of [`KANA`]: plain katakana.
pub const KATA: usize = 3;

/// Column of [`KANA`]: voiced katakana.
pub const KATA_VOICED: usize = 4;

/// Column of [`KANA`]: semi-voiced katakana.
pub const KATA_SEMI: usize = 5;

/// Column of [`KANA`]: plain half-width katakana. Its voiced form is the
/// plain one followed by U+FF9E and its semi-voiced form the plain one
/// followed by U+FF9F, each where the katakana has that form.
pub const HALF: usize = 6;

/// One row for each kana.
pub const KANA: [[char; 7]; 48] = [
    ['\u{3042}', '\0', '\0', '\u{30a2}', '\0', '\0', '\u{ff71}'],  // あ ア
    ['\u{3044}', '\0', '\0', '\u{30a4}', '\0', '\0', '\u{ff72}'],  // い イ
    ['\u{3046}', '\u{3094}', '\0', '\u{30a6}', '\u{30f4}', '\0', '\u{ff73}'],  // う ウ
    ['\u{3048}', '\0', '\0', '\u{30a8}', '\0', '\0', '\u{ff74}'],  // え エ
    ['\u{304a}', '\0', '\0', '\u{30aa}', '\0', '\0', '\u{ff75}'],  // お オ
    ['\u{304b}', '\u{304c}', '\0', '\u{30ab}', '\u{30ac}', '\0', '\u{ff76}'],  // か カ
    ['\u{304d}', '\u{304e}', '\0', '\u{30ad}', '\u{30ae}', '\0', '\u{ff77}'],  // き キ
    ['\u{304f}', '\u{3050}', '\0', '\u{30af}', '\u{30b0}', '\0', '\u{ff78}'],  // く ク
    ['\u{3051}', '\u{3052}', '\0', '\u{30b1}', '\u{30b2}', '\0', '\u{ff79}'],  // け ケ
    ['\u{3053}', '\u{3054}', '\0', '\u{30b3}', '\u{30b4}', '\0', '\u{ff7a}'],  // こ コ
    ['\u{3055}', '\u{3056}', '\0', '\u{30b5}', '\u{30b6}', '\0', '\u{ff7b}'],  // さ サ
    ['\u{3057}', '\u{3058}', '\0', '\u{30b7}', '\u{30b8}', '\0', '\u{ff7c}'],  // し シ
    ['\u{3059}', '\u{305a}', '\0', '\u{30b9}', '\u{30ba}', '\0', '\u{ff7d}'],  // す ス
    ['\u{305b}', '\u{305c}', '\0', '\u{30bb}', '\u{30bc}', '\0', '\u{ff7e}'],  // せ セ
    ['\u{305d}', '\u{305e}', '\0', '\u{30bd}', '\u{30be}', '\0', '\u{ff7f}'],  // そ ソ
    ['\u{305f}', '\u{3060}', '\0', '\u{30bf}', '\u{30c0}', '\0', '\u{ff80}'],  // た タ
    ['\u{3061}', '\u{3062}', '\0', '\u{30c1}', '\u{30c2}', '\0', '\u{ff81}'],  // ち チ
    ['\u{3064}', '\u{3065}', '\0', '\u{30c4}', '\u{30c5}', '\0', '\u{ff82}'],  // つ ツ
    ['\u{3066}', '\u{3067}', '\0', '\u{30c6}', '\u{30c7}', '\0', '\u{ff83}'],  // て テ
    ['\u{3068}', '\u{3069}', '\0', '\u{30c8}', '\u{30c9}', '\0', '\u{ff84}'],  // と ト
    ['\u{306a}', '\0', '\0', '\u{30ca}', '\0', '\0', '\u{ff85}'],  // な ナ
    ['\u{306b}', '\0', '\0', '\u{30cb}', '\0', '\0', '\u{ff86}'],  // に ニ
    ['\u{306c}', '\0', '\0', '\u{30cc}', '\0', '\0', '\u{ff87}'],  // ぬ ヌ
    ['\u{306d}', '\0', '\0', '\u{30cd}', '\0', '\0', '\u{ff88}'],  // ね ネ
    ['\u{306e}', '\0', '\0', '\u{30ce}', '\0', '\0', '\u{ff89}'],  // の ノ
    ['\u{306f}', '\u{3070}', '\u{3071}', '\u{30cf}', '\u{30d0}', '\u{30d1}', '\u{ff8a}'],  // は ハ
    ['\u{3072}', '\u{3073}', '\u{3074}', '\u{30d2}', '\u{30d3}', '\u{30d4}', '\u{ff8b}'],  // ひ ヒ
    ['\u{3075}', '\u{3076}', '\u{3077}', '\u{30d5}', '\u{30d6}', '\u{30d7}', '\u{ff8c}'],  // ふ フ
    ['\u{3078}', '\u{3079}', '\u{307a}', '\u{30d8}', '\u{30d9}', '\u{30da}', '\u{ff8d}'],  // へ ヘ
    ['\u{307b}', '\u{307c}', '\u{307d}', '\u{30db}', '\u{30dc}', '\u{30dd}', '\u{ff8e}'],  // ほ ホ
    ['\u{307e}', '\0', '\0', '\u{30de}', '\0', '\0', '\u{ff8f}'],  // ま マ
    ['\u{307f}', '\0', '\0', '\u{30df}', '\0', '\0', '\u{ff90}'],  // み ミ
    ['\u{3080}', '\0', '\0', '\u{30e0}', '\0', '\0', '\u{ff91}'],  // む ム
    ['\u{3081}', '\0', '\0', '\u{30e1}', '\0', '\0', '\u{ff92}'],  // め メ
    ['\u{3082}', '\0', '\0', '\u{30e2}', '\0', '\0', '\u{ff93}'],  // も モ
    ['\u{3084}', '\0', '\0', '\u{30e4}', '\0', '\0', '\u{ff94}'],  // や ヤ
    ['\u{3086}', '\0', '\0', '\u{30e6}', '\0', '\0', '\u{ff95}'],  // ゆ ユ
    ['\u{3088}', '\0', '\0', '\u{30e8}', '\0', '\0', '\u{ff96}'],  // よ ヨ
    ['\u{3089}', '\0', '\0', '\u{30e9}', '\0', '\0', '\u{ff97}'],  // ら ラ
    ['\u{308a}', '\0', '\0', '\u{30ea}', '\0', '\0', '\u{ff98}'],  // り リ
    ['\u{308b}', '\0', '\0', '\u{30eb}', '\0', '\0', '\u{ff99}'],  // る ル
    ['\u{308c}', '\0', '\0', '\u{30ec}', '\0', '\0', '\u{ff9a}'],  // れ レ
    ['\u{308d}', '\0', '\0', '\u{30ed}', '\0', '\0', '\u{ff9b}'],  // ろ ロ
    ['\u{308f}', '\0', '\0', '\u{30ef}', '\u{30f7}', '\0', '\u{ff9c}'],  // わ ワ
    ['\u{3090}', '\0', '\0', '\u{30f0}', '\u{30f8}', '\0', '\0'],  // ゐ ヰ
    ['\u{3091}', '\0', '\0', '\u{30f1}', '\u{30f9}', '\0', '\0'],  // ゑ ヱ
    ['\u{3092}', '\0', '\0', '\u{30f2}', '\u{30fa}', '\0', '\u{ff66}'],  // を ヲ
    ['\u{3093}', '\0', '\0', '\u{30f3}', '\0', '\0', '\u{ff9d}'],  // ん ン
];

/// One row for each small kana: hiragana, katakana, half-width katakana.
pub const SMALL_KANA: [[char; 3]; 12] = [
    ['\u{3041}', '\u{30a1}', '\u{ff67}'],  // ぁ ァ
    ['\u{3043}', '\u{30a3}', '\u{ff68}'],  // ぃ ィ
    ['\u{3045}', '\u{30a5}', '\u{ff69}'],  // ぅ ゥ
    ['\u{3047}', '\u{30a7}', '\u{ff6a}'],  // ぇ ェ
    ['\u{3049}', '\u{30a9}', '\u{ff6b}'],  // ぉ ォ
    ['\u{3063}', '\u{30c3}', '\u{ff6f}'],  // っ ッ
    ['\u{3083}', '\u{30e3}', '\u{ff6c}'],  // ゃ ャ
    ['\u{3085}', '\u{30e5}', '\u{ff6d}'],  // ゅ ュ
    ['\u{3087}', '\u{30e7}', '\u{ff6e}'],  // ょ ョ
    ['\u{308e}', '\u{30ee}', '\0'],  // ゎ ヮ
    ['\u{3095}', '\u{30f5}', '\0'],  // ゕ ヵ
    ['\u{3096}', '\u{30f6}', '\0'],  // ゖ ヶ
];

/// HALFWIDTH KATAKANA VOICED SOUND MARK
pub const HALFWIDTH_VOICED_MARK: char = '\u{ff9e}';

/// HALFWIDTH KATAKANA SEMI-VOICED SOUND MARK
pub const HALFWIDTH_SEMI_VOICED_MARK: char = '\u{ff9f}';

/// The value that `pairs` gives for `key`: that of the last pair with the
/// key, as a map filled pair by pair would hold it.
pub open spec fn lookup<V>(pairs: Seq<(char, V)>, key: char) -> Option<V>
    decreases pairs.len(),
{
    if pairs.len() == 0 {
        None
    } else if pairs.last().0 == key {
        Some(pairs.last().1)
    } else {
        lookup(pairs.drop_last(), key)
    }
}

/// The map that holds, for each key of `pairs`, what [`lookup`] gives.
pub open spec fn pairs_map<V>(pairs: Seq<(char, V)>) -> Map<u32, V>
    decreases pairs.len(),
{
    if pairs.len() == 0 {
        Map::<u32, V>::empty()
    } else {
        pairs_map(pairs.drop_last()).insert(pairs.last().0 as u32, pairs.last().1)
    }
}

/// [`pairs_map`] holds what [`lookup`] gives.
pub proof fn lemma_pairs_map<V>(pairs: Seq<(char, V)>, key: char)
    ensures
        match lookup(pairs, key) {
            Some(v) => pairs_map(pairs).contains_key(key as u32) && pairs_map(pairs)[key as u32]
                == v,
            None => !pairs_map(pairs).contains_key(key as u32),
        },
    decreases pairs.len(),
{
    if pairs.len() > 0 {
        lemma_pairs_map(pairs.drop_last(), key);
        vstd::utf8::char_u32_cast(pairs.last().0, pairs.last().0 as u32);
        vstd::utf8::char_u32_cast(key, key as u32);
    }
}

/// Fills a map with `pairs`, a later pair taking the place of an earlier
/// one with the same key.
pub fn index_pairs<V: Copy>(pairs: &Vec<(char, V)>) -> (m: HashMap<u32, V>)
    ensures
        m@ == pairs_map(pairs@),
{
    let mut m: HashMap<u32, V> = HashMap::new();
    let mut i: usize = 0;
    assert(pairs@.take(0) =~= Seq::<(char, V)>::empty());
    while i < pairs.len()
        invariant
            i <= pairs.len(),
            m@ == pairs_map(pairs@.take(i as int)),
        decreases pairs.len() - i,
    {
        assert(pairs@.take(i + 1).drop_last() =~= pairs@.take(i as int));
        m.insert(pairs[i].0 as u32, pairs[i].1);
        i += 1;
    }
    assert(pairs@.take(i as int) =~= pairs@);
    m
}

/// What row `row` adds to the pairs of a plain kana and its voiced form.
pub open spec fn voiced_of_row(row: [char; 7]) -> Seq<(char, char)> {
    (if row@[1] != NONE {
        seq![(row@[0], row@[1])]
    } else {
        Seq::<(char, char)>::empty()
    }) + (if row@[4] != NONE {
        seq![(row@[3], row@[4])]
    } else {
        Seq::<(char, char)>::empty()
    })
}

/// What row `row` adds to the pairs of a plain kana and its semi-voiced
/// form.
pub open spec fn semi_voiced_of_row(row: [char; 7]) -> Seq<(char, char)> {
    (if row@[2] != NONE {
        seq![(row@[0], row@[2])]
    } else {
        Seq::<(char, char)>::empty()
    }) + (if row@[5] != NONE {
        seq![(row@[3], row@[5])]
    } else {
        Seq::<(char, char)>::empty()
    })
}

/// The pairs that the first `n` rows of [`KANA`] add, each row adding
/// what `of_row` says.
pub open spec fn rows_pairs(of_row: spec_fn([char; 7]) -> Seq<(char, char)>, n: int) -> Seq<
    (char, char),
>
    decreases n,
{
    if n <= 0 {
        Seq::<(char, char)>::empty()
    } else {
        rows_pairs(of_row, n - 1) + of_row(KANA@[n - 1])
    }
}

/// The pairs of an iteration mark and its voiced form.
pub open spec fn voiced_iteration_marks() -> Seq<(char, char)> {
    seq![
        ('\u{309d}', '\u{309e}'),
        ('\u{30fd}', '\u{30fe}'),
        ('\u{3031}', '\u{3032}'),
        ('\u{3033}', '\u{3034}'),
    ]
}

/// The pairs of a character and its voiced form: hiragana and katakana
/// row by row, then the iteration marks.
pub open spec fn spec_voiced_characters() -> Seq<(char, char)> {
    rows_pairs(|row: [char; 7]| voiced_of_row(row), KANA_ROWS as int) + voiced_iteration_marks()
}

/// The pairs of a character and its semi-voiced form, row by row.
pub open spec fn spec_semi_voiced_characters() -> Seq<(char, char)> {
    rows_pairs(|row: [char; 7]| semi_voiced_of_row(row), KANA_ROWS as int)
}

/// The pairs of a character and its voiced form.
pub fn generate_voiced_characters() -> (r: Vec<(char, char)>)
    ensures
        r@ == spec_voiced_characters(),
{
    let mut r: Vec<(char, char)> = Vec::new();
    let ghost of_row = |row: [char; 7]| voiced_of_row(row);
    let mut i: usize = 0;
    while i < KANA_ROWS
        invariant
            i <= KANA_ROWS,
            of_row == |row: [char; 7]| voiced_of_row(row),
            r@ == rows_pairs(of_row, i as int),
        decreases KANA_ROWS - i,
    {
        let ghost before = r@;
        let row = KANA[i];
        if row[HIRA_VOICED] != NONE {
            r.push((row[HIRA], row[HIRA_VOICED]));
        }
        if row[KATA_VOICED] != NONE {
            r.push((row[KATA], row[KATA_VOICED]));
        }
        assert(r@ =~= before + voiced_of_row(KANA@[i as int]));
        i += 1;
    }
    let ghost before = r@;
    r.push(('\u{309d}', '\u{309e}'));
    r.push(('\u{30fd}', '\u{30fe}'));
    r.push(('\u{3031}', '\u{3032}'));
    r.push(('\u{3033}', '\u{3034}'));
    assert(r@ =~= before + voiced_iteration_marks());
    r
}

/// The pairs of a character and its semi-voiced form.
pub fn generate_semi_voiced_characters() -> (r: Vec<(char, char)>)
    ensures
        r@ == spec_semi_voiced_characters(),
{
    let mut r: Vec<(char, char)> = Vec::new();
    let ghost of_row = |row: [char; 7]| semi_voiced_of_row(row);
    let mut i: usize = 0;
    while i < KANA_ROWS
        invariant
            i <= KANA_ROWS,
            of_row == |row: [char; 7]| semi_voiced_of_row(row),
            r@ == rows_pairs(of_row, i as int),
        decreases KANA_ROWS - i,
    {
        let ghost before = r@;
        let row = KANA[i];
        if row[HIRA_SEMI] != NONE {
            r.push((row[HIRA], row[HIRA_SEMI]));
        }
        if row[KATA_SEMI] != NONE {
            r.push((row[KATA], row[KATA_SEMI]));
        }
        assert(r@ =~= before + semi_voiced_of_row(KANA@[i as int]));
        i += 1;
    }
    r
}

} // verus!
