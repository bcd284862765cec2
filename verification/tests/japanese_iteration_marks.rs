use yosina::chars::{from_chars, CharPool};
use yosina::dataset::Dataset;
use yosina::transliterator::Transliterator;
use yosina::transliterators::{
    JapaneseIterationMarksTransliterator, JapaneseIterationMarksTransliteratorOptions,
    MappingsCache, TransliteratorConfig,
};

fn empty_table() -> &'static phf::Map<&'static str, &'static str> {
    Box::leak(Box::new(phf::Map::new()))
}

fn empty_dataset() -> Dataset {
    Dataset {
        spaces: empty_table(),
        radicals: empty_table(),
        mathematical_alphanumerics: empty_table(),
        ideographic_annotations: empty_table(),
        kanji_old_new: empty_table(),
        combined: empty_table(),
        roman_numerals: empty_table(),
        hyphens: Vec::new(),
        ivs_svs_base: Vec::new(),
        circled_or_squared: Vec::new(),
    }
}

#[test]
fn test_hiragana_repetition_basic() {
    let options = JapaneseIterationMarksTransliteratorOptions::default();
    let transliterator = JapaneseIterationMarksTransliterator::new(options);
    let mut pool = CharPool::new();

    let input_chars = pool.build_char_array("さゝ");
    let result = transliterator
        .transliterate(&mut pool, &input_chars)
        .unwrap();
    let result_string = from_chars(&pool, &result);

    assert_eq!(result_string, "ささ");
}
#[test]
fn test_hiragana_voiced_repetition() {
    let options = JapaneseIterationMarksTransliteratorOptions::default();
    let transliterator = JapaneseIterationMarksTransliterator::new(options);
    let mut pool = CharPool::new();

    let input_chars = pool.build_char_array("はゞ");
    let result = transliterator
        .transliterate(&mut pool, &input_chars)
        .unwrap();
    let result_string = from_chars(&pool, &result);

    assert_eq!(result_string, "はば");
}
#[test]
fn test_hiragana_repetition_multiple() {
    let options = JapaneseIterationMarksTransliteratorOptions::default();
    let transliterator = JapaneseIterationMarksTransliterator::new(options);
    let mut pool = CharPool::new();

    let input_chars = pool.build_char_array("みゝこゝろ");
    let result = transliterator
        .transliterate(&mut pool, &input_chars)
        .unwrap();
    let result_string = from_chars(&pool, &result);

    assert_eq!(result_string, "みみこころ");
}
#[test]
fn test_katakana_repetition_basic() {
    let options = JapaneseIterationMarksTransliteratorOptions::default();
    let transliterator = JapaneseIterationMarksTransliterator::new(options);
    let mut pool = CharPool::new();

    let input_chars = pool.build_char_array("サヽ");
    let result = transliterator
        .transliterate(&mut pool, &input_chars)
        .unwrap();
    let result_string = from_chars(&pool, &result);

    assert_eq!(result_string, "ササ");
}
#[test]
fn test_katakana_voiced_repetition() {
    let options = JapaneseIterationMarksTransliteratorOptions::default();
    let transliterator = JapaneseIterationMarksTransliterator::new(options);
    let mut pool = CharPool::new();

    let input_chars = pool.build_char_array("ハヾ");
    let result = transliterator
        .transliterate(&mut pool, &input_chars)
        .unwrap();
    let result_string = from_chars(&pool, &result);

    assert_eq!(result_string, "ハバ");
}
#[test]
fn test_katakana_u_voicing() {
    let options = JapaneseIterationMarksTransliteratorOptions::default();
    let transliterator = JapaneseIterationMarksTransliterator::new(options);
    let mut pool = CharPool::new();

    let input_chars = pool.build_char_array("ウヾ");
    let result = transliterator
        .transliterate(&mut pool, &input_chars)
        .unwrap();
    let result_string = from_chars(&pool, &result);

    assert_eq!(result_string, "ウヴ");
}
#[test]
fn test_kanji_repetition_basic() {
    let options = JapaneseIterationMarksTransliteratorOptions::default();
    let transliterator = JapaneseIterationMarksTransliterator::new(options);
    let mut pool = CharPool::new();

    let input_chars = pool.build_char_array("人々");
    let result = transliterator
        .transliterate(&mut pool, &input_chars)
        .unwrap();
    let result_string = from_chars(&pool, &result);

    assert_eq!(result_string, "人人");
}
#[test]
fn test_kanji_repetition_multiple() {
    let options = JapaneseIterationMarksTransliteratorOptions::default();
    let transliterator = JapaneseIterationMarksTransliterator::new(options);
    let mut pool = CharPool::new();

    let input_chars = pool.build_char_array("日々月々年々");
    let result = transliterator
        .transliterate(&mut pool, &input_chars)
        .unwrap();
    let result_string = from_chars(&pool, &result);

    assert_eq!(result_string, "日日月月年年");
}
#[test]
fn test_invalid_hiragana_mark_after_katakana() {
    let options = JapaneseIterationMarksTransliteratorOptions::default();
    let transliterator = JapaneseIterationMarksTransliterator::new(options);
    let mut pool = CharPool::new();

    let input_chars = pool.build_char_array("カゝ");
    let result = transliterator
        .transliterate(&mut pool, &input_chars)
        .unwrap();
    let result_string = from_chars(&pool, &result);

    assert_eq!(result_string, "カゝ");
}
#[test]
fn test_invalid_katakana_mark_after_hiragana() {
    let options = JapaneseIterationMarksTransliteratorOptions::default();
    let transliterator = JapaneseIterationMarksTransliterator::new(options);
    let mut pool = CharPool::new();

    let input_chars = pool.build_char_array("かヽ");
    let result = transliterator
        .transliterate(&mut pool, &input_chars)
        .unwrap();
    let result_string = from_chars(&pool, &result);

    assert_eq!(result_string, "かヽ");
}
#[test]
fn test_iteration_mark_at_start() {
    let options = JapaneseIterationMarksTransliteratorOptions::default();
    let transliterator = JapaneseIterationMarksTransliterator::new(options);
    let mut pool = CharPool::new();

    let input_chars = pool.build_char_array("ゝあ");
    let result = transliterator
        .transliterate(&mut pool, &input_chars)
        .unwrap();
    let result_string = from_chars(&pool, &result);

    assert_eq!(result_string, "ゝあ");
}
#[test]
fn test_consecutive_iteration_marks() {
    let options = JapaneseIterationMarksTransliteratorOptions::default();
    let transliterator = JapaneseIterationMarksTransliterator::new(options);
    let mut pool = CharPool::new();

    let input_chars = pool.build_char_array("さゝゝ");
    let result = transliterator
        .transliterate(&mut pool, &input_chars)
        .unwrap();
    let result_string = from_chars(&pool, &result);

    assert_eq!(result_string, "ささゝ");
}
#[test]
fn test_hatsuon_cannot_repeat() {
    let options = JapaneseIterationMarksTransliteratorOptions::default();
    let transliterator = JapaneseIterationMarksTransliterator::new(options);
    let mut pool = CharPool::new();

    // Hiragana hatsuon
    let input_chars = pool.build_char_array("んゝ");
    let result = transliterator
        .transliterate(&mut pool, &input_chars)
        .unwrap();
    let result_string = from_chars(&pool, &result);
    assert_eq!(result_string, "んゝ");

    // Katakana hatsuon
    let input_chars = pool.build_char_array("ンヽ");
    let result = transliterator
        .transliterate(&mut pool, &input_chars)
        .unwrap();
    let result_string = from_chars(&pool, &result);
    assert_eq!(result_string, "ンヽ");
}
#[test]
fn test_sokuon_cannot_repeat() {
    let options = JapaneseIterationMarksTransliteratorOptions::default();
    let transliterator = JapaneseIterationMarksTransliterator::new(options);
    let mut pool = CharPool::new();

    // Hiragana sokuon
    let input_chars = pool.build_char_array("っゝ");
    let result = transliterator
        .transliterate(&mut pool, &input_chars)
        .unwrap();
    let result_string = from_chars(&pool, &result);
    assert_eq!(result_string, "っゝ");

    // Katakana sokuon
    let input_chars = pool.build_char_array("ッヽ");
    let result = transliterator
        .transliterate(&mut pool, &input_chars)
        .unwrap();
    let result_string = from_chars(&pool, &result);
    assert_eq!(result_string, "ッヽ");
}
#[test]
fn test_voiced_character_cannot_voice_again() {
    let options = JapaneseIterationMarksTransliteratorOptions::default();
    let transliterator = JapaneseIterationMarksTransliterator::new(options);
    let mut pool = CharPool::new();

    let input_chars = pool.build_char_array("がゞ");
    let result = transliterator
        .transliterate(&mut pool, &input_chars)
        .unwrap();
    let result_string = from_chars(&pool, &result);

    // This behavior was changed - voiced character with voiced iteration mark now repeats
    assert_eq!(result_string, "がが");
}
#[test]
fn test_semi_voiced_character_cannot_voice() {
    let options = JapaneseIterationMarksTransliteratorOptions::default();
    let transliterator = JapaneseIterationMarksTransliterator::new(options);
    let mut pool = CharPool::new();

    let input_chars = pool.build_char_array("ぱゞ");
    let result = transliterator
        .transliterate(&mut pool, &input_chars)
        .unwrap();
    let result_string = from_chars(&pool, &result);

    assert_eq!(result_string, "ぱゞ");
}
#[test]
fn japanese_iteration_marks_test_mixed_text() {
    let options = JapaneseIterationMarksTransliteratorOptions::default();
    let transliterator = JapaneseIterationMarksTransliterator::new(options);
    let mut pool = CharPool::new();

    let input_chars = pool.build_char_array("こゝろ、コヽロ、其々");
    let result = transliterator
        .transliterate(&mut pool, &input_chars)
        .unwrap();
    let result_string = from_chars(&pool, &result);

    assert_eq!(result_string, "こころ、ココロ、其其");
}
#[test]
fn test_iteration_marks_in_sentence() {
    let options = JapaneseIterationMarksTransliteratorOptions::default();
    let transliterator = JapaneseIterationMarksTransliterator::new(options);
    let mut pool = CharPool::new();

    let input_chars = pool.build_char_array("日々の暮らしはさゝやかだがウヾしい");
    let result = transliterator
        .transliterate(&mut pool, &input_chars)
        .unwrap();
    let result_string = from_chars(&pool, &result);

    assert_eq!(result_string, "日日の暮らしはささやかだがウヴしい");
}
#[test]
fn test_halfwidth_katakana() {
    let options = JapaneseIterationMarksTransliteratorOptions::default();
    let transliterator = JapaneseIterationMarksTransliterator::new(options);
    let mut pool = CharPool::new();

    let input_chars = pool.build_char_array("ｻヽ");
    let result = transliterator
        .transliterate(&mut pool, &input_chars)
        .unwrap();
    let result_string = from_chars(&pool, &result);

    assert_eq!(result_string, "ｻｻ");
}
#[test]
fn test_no_voicing_possible() {
    let options = JapaneseIterationMarksTransliteratorOptions::default();
    let transliterator = JapaneseIterationMarksTransliterator::new(options);
    let mut pool = CharPool::new();

    let input_chars = pool.build_char_array("あゞ");
    let result = transliterator
        .transliterate(&mut pool, &input_chars)
        .unwrap();
    let result_string = from_chars(&pool, &result);

    assert_eq!(result_string, "あゞ");
}
#[test]
fn test_voicing_all_consonants() {
    let options = JapaneseIterationMarksTransliteratorOptions::default();
    let transliterator = JapaneseIterationMarksTransliterator::new(options);
    let mut pool = CharPool::new();

    let input_chars = pool.build_char_array("かゞたゞはゞさゞ");
    let result = transliterator
        .transliterate(&mut pool, &input_chars)
        .unwrap();
    let result_string = from_chars(&pool, &result);

    assert_eq!(result_string, "かがただはばさざ");
}
#[test]
fn japanese_iteration_marks_test_empty_string() {
    let options = JapaneseIterationMarksTransliteratorOptions::default();
    let transliterator = JapaneseIterationMarksTransliterator::new(options);
    let mut pool = CharPool::new();

    let input_chars = pool.build_char_array("");
    let result = transliterator
        .transliterate(&mut pool, &input_chars)
        .unwrap();
    let non_sentinel_chars: Vec<_> = result
        .iter()
        .filter(|&&c| !pool.get(c).c.is_empty())
        .collect();

    assert!(non_sentinel_chars.is_empty());
}
#[test]
fn test_sentinel_handling() {
    let options = JapaneseIterationMarksTransliteratorOptions::default();
    let transliterator = JapaneseIterationMarksTransliterator::new(options);
    let mut pool = CharPool::new();

    let sentinel = pool.new_sentinel(0);
    let input = vec![sentinel];
    let result = transliterator.transliterate(&mut pool, &input).unwrap();

    assert_eq!(result.len(), 1);
    assert!(
        pool.get(result[0]).c.is_empty(),
        "Sentinel character should be preserved"
    );
}
#[test]
fn japanese_iteration_marks_test_factory() {
    let options = JapaneseIterationMarksTransliteratorOptions::default();
    let data = empty_dataset();
    let mut cache = MappingsCache::new();
    let factory_result =
        TransliteratorConfig::JapaneseIterationMarks(options).new_transliterator(&data, &mut cache);
    assert!(factory_result.is_ok());

    let transliterator = factory_result.unwrap();
    let mut pool = CharPool::new();

    let input_chars = pool.build_char_array("人々");
    let result = transliterator
        .transliterate(&mut pool, &input_chars)
        .unwrap();
    let result_string = from_chars(&pool, &result);

    assert_eq!(result_string, "人人");
}
