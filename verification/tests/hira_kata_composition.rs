use yosina::chars::{from_chars, CharPool};
use yosina::transliterator::Transliterator;
use yosina::dataset::Dataset;
use yosina::transliterators::{
    HiraKataCompositionTransliterator, HiraKataCompositionTransliteratorOptions, MappingsCache,
    TransliteratorConfig,
};

fn empty_table() -> &'static phf::Map<&'static str, &'static str> {
    Box::leak(Box::new(phf::Map::new()))
}

fn empty_dataset() -> Dataset {
    Dataset {
        spaces: empty_table(),
        radicals: empty_table(),
        mathematical_alphanumerics: empty_table(),
        ideographic_annotations: empty_table(),
        kanji_old_new: empty_table(),
        combined: empty_table(),
        roman_numerals: empty_table(),
        hyphens: Vec::new(),
        ivs_svs_base: Vec::new(),
        circled_or_squared: Vec::new(),
    }
}

#[test]
fn test_hiragana_composition() {
    let options = HiraKataCompositionTransliteratorOptions::default();
    let transliterator = HiraKataCompositionTransliterator::new(options);
    let mut pool = CharPool::new();

    // Test か + ゛-> が
    let input_chars = pool.build_char_array("か\u{3099}");
    let result = transliterator
        .transliterate(&mut pool, &input_chars)
        .unwrap();

    // Should have composed character + sentinel
    assert_eq!(result.len(), 2);
    assert_eq!(pool.get(result[0]).c, "が");
    assert!(pool.get(result[1]).is_sentinel());
}
#[test]
fn test_katakana_composition() {
    let options = HiraKataCompositionTransliteratorOptions::default();
    let transliterator = HiraKataCompositionTransliterator::new(options);
    let mut pool = CharPool::new();

    // Test カ + ゛-> ガ
    let input_chars = pool.build_char_array("カ\u{3099}");
    let result = transliterator
        .transliterate(&mut pool, &input_chars)
        .unwrap();

    assert_eq!(result.len(), 2);
    assert_eq!(pool.get(result[0]).c, "ガ");
    assert!(pool.get(result[1]).is_sentinel());
}
#[test]
fn test_semi_voiced_composition() {
    let options = HiraKataCompositionTransliteratorOptions::default();
    let transliterator = HiraKataCompositionTransliterator::new(options);
    let mut pool = CharPool::new();

    // Test は + ゜-> ぱ
    let input_chars = pool.build_char_array("は\u{309a}");
    let result = transliterator
        .transliterate(&mut pool, &input_chars)
        .unwrap();

    assert_eq!(result.len(), 2);
    assert_eq!(pool.get(result[0]).c, "ぱ");
    assert!(pool.get(result[1]).is_sentinel());
}
#[test]
fn test_no_composition() {
    let options = HiraKataCompositionTransliteratorOptions::default();
    let transliterator = HiraKataCompositionTransliterator::new(options);
    let mut pool = CharPool::new();

    // Test regular characters that shouldn't compose
    let input_chars = pool.build_char_array("あい");
    let result = transliterator
        .transliterate(&mut pool, &input_chars)
        .unwrap();

    // Should have 3 characters: あ, い, sentinel
    assert_eq!(result.len(), 3);
    assert_eq!(pool.get(result[0]).c, "あ");
    assert_eq!(pool.get(result[1]).c, "い");
    assert!(pool.get(result[2]).is_sentinel());
}
#[test]
fn test_mixed_composition() {
    let options = HiraKataCompositionTransliteratorOptions::default();
    let transliterator = HiraKataCompositionTransliterator::new(options);
    let mut pool = CharPool::new();

    // Test mixed composable and non-composable characters
    let input_chars = pool.build_char_array("あか\u{3099}い");
    let result = transliterator
        .transliterate(&mut pool, &input_chars)
        .unwrap();

    // Should have: あ, が (composed), い, sentinel
    assert_eq!(result.len(), 4);
    assert_eq!(pool.get(result[0]).c, "あ");
    assert_eq!(pool.get(result[1]).c, "が");
    assert_eq!(pool.get(result[2]).c, "い");
    assert!(pool.get(result[3]).is_sentinel());
}
#[test]
fn test_non_combining_marks_option() {
    let options = HiraKataCompositionTransliteratorOptions {
        compose_non_combining_marks: true,
    };
    let transliterator = HiraKataCompositionTransliterator::new(options);
    let mut pool = CharPool::new();

    // Test with non-combining voiced mark (\u{309b})
    let input_chars = pool.build_char_array("か\u{309b}");
    let result = transliterator
        .transliterate(&mut pool, &input_chars)
        .unwrap();

    assert_eq!(result.len(), 2);
    assert_eq!(pool.get(result[0]).c, "が");
    assert!(pool.get(result[1]).is_sentinel());
}
#[test]
fn test_hiragana_iteration_mark() {
    let options = HiraKataCompositionTransliteratorOptions::default();
    let transliterator = HiraKataCompositionTransliterator::new(options);
    let mut pool = CharPool::new();

    // Test ゝ + ゛-> ゞ
    let input_chars = pool.build_char_array("\u{309d}\u{3099}");
    let result = transliterator
        .transliterate(&mut pool, &input_chars)
        .unwrap();

    assert_eq!(result.len(), 2);
    assert_eq!(pool.get(result[0]).c, "\u{309e}");
    assert!(pool.get(result[1]).is_sentinel());
}
#[test]
fn test_katakana_iteration_mark() {
    let options = HiraKataCompositionTransliteratorOptions::default();
    let transliterator = HiraKataCompositionTransliterator::new(options);
    let mut pool = CharPool::new();

    // Test ヽ + ゛-> ヾ
    let input_chars = pool.build_char_array("\u{30fd}\u{3099}");
    let result = transliterator
        .transliterate(&mut pool, &input_chars)
        .unwrap();

    assert_eq!(result.len(), 2);
    assert_eq!(pool.get(result[0]).c, "\u{30fe}");
    assert!(pool.get(result[1]).is_sentinel());
}
#[test]
fn test_vertical_iteration_marks() {
    let options = HiraKataCompositionTransliteratorOptions::default();
    let transliterator = HiraKataCompositionTransliterator::new(options);
    let mut pool = CharPool::new();

    // Test 〱 + ゛-> 〲 (vertical hiragana)
    let input_chars1 = pool.build_char_array("\u{3031}\u{3099}");
    let result1 = transliterator
        .transliterate(&mut pool, &input_chars1)
        .unwrap();

    assert_eq!(result1.len(), 2);
    assert_eq!(pool.get(result1[0]).c, "\u{3032}");
    assert!(pool.get(result1[1]).is_sentinel());

    // Test 〳 + ゛-> 〴 (vertical katakana)
    let input_chars2 = pool.build_char_array("\u{3033}\u{3099}");
    let result2 = transliterator
        .transliterate(&mut pool, &input_chars2)
        .unwrap();

    assert_eq!(result2.len(), 2);
    assert_eq!(pool.get(result2[0]).c, "\u{3034}");
    assert!(pool.get(result2[1]).is_sentinel());
}
#[test]
fn test_special_katakana_composition() {
    let options = HiraKataCompositionTransliteratorOptions::default();
    let transliterator = HiraKataCompositionTransliterator::new(options);
    let mut pool = CharPool::new();

    // Test various special katakana compositions
    let test_cases = vec![
        ("\u{30ef}\u{3099}", "\u{30f7}"), // ワ + ゛-> ヷ
        ("\u{30f0}\u{3099}", "\u{30f8}"), // ヰ + ゛-> ヸ
        ("\u{30f1}\u{3099}", "\u{30f9}"), // ヱ + ゛-> ヹ
        ("\u{30f2}\u{3099}", "\u{30fa}"), // ヲ + ゛-> ヺ
    ];

    for (input, expected) in test_cases {
        let input_chars = pool.build_char_array(input);
        let result = transliterator
            .transliterate(&mut pool, &input_chars)
            .unwrap();

        assert_eq!(result.len(), 2);
        assert_eq!(pool.get(result[0]).c, expected);
        assert!(pool.get(result[1]).is_sentinel());
    }
}
#[test]
fn test_iteration_marks_with_non_combining() {
    let options = HiraKataCompositionTransliteratorOptions {
        compose_non_combining_marks: true,
    };
    let transliterator = HiraKataCompositionTransliterator::new(options);
    let mut pool = CharPool::new();

    // Test hiragana iteration mark with non-combining voiced mark
    let input_chars1 = pool.build_char_array("\u{309d}\u{309b}"); // ゝ + ゛
    let result1 = transliterator
        .transliterate(&mut pool, &input_chars1)
        .unwrap();

    assert_eq!(result1.len(), 2);
    assert_eq!(pool.get(result1[0]).c, "\u{309e}"); // ゞ
    assert!(pool.get(result1[1]).is_sentinel());

    // Test katakana iteration mark with non-combining voiced mark
    let input_chars2 = pool.build_char_array("\u{30fd}\u{309b}"); // ヽ + ゛
    let result2 = transliterator
        .transliterate(&mut pool, &input_chars2)
        .unwrap();

    assert_eq!(result2.len(), 2);
    assert_eq!(pool.get(result2[0]).c, "\u{30fe}"); // ヾ
    assert!(pool.get(result2[1]).is_sentinel());

    // Test vertical hiragana iteration mark with non-combining voiced mark
    let input_chars3 = pool.build_char_array("\u{3031}\u{309b}"); // 〱 + ゛
    let result3 = transliterator
        .transliterate(&mut pool, &input_chars3)
        .unwrap();

    assert_eq!(result3.len(), 2);
    assert_eq!(pool.get(result3[0]).c, "\u{3032}"); // 〲
    assert!(pool.get(result3[1]).is_sentinel());

    // Test vertical katakana iteration mark with non-combining voiced mark
    let input_chars4 = pool.build_char_array("\u{3033}\u{309b}"); // 〳 + ゛
    let result4 = transliterator
        .transliterate(&mut pool, &input_chars4)
        .unwrap();

    assert_eq!(result4.len(), 2);
    assert_eq!(pool.get(result4[0]).c, "\u{3034}"); // 〴
    assert!(pool.get(result4[1]).is_sentinel());
}
#[test]
fn test_various_characters_preserved() {
    let options = HiraKataCompositionTransliteratorOptions::default();
    let data = empty_dataset();
    let mut cache = MappingsCache::new();
    let factory_result =
        TransliteratorConfig::HiraKataComposition(options).new_transliterator(&data, &mut cache);
    assert!(factory_result.is_ok());

    let transliterator = factory_result.unwrap();

    let test_cases = &[
        ("ひらがな", "ひらがな"),
        ("カタカナ", "カタカナ"),
        ("hello", "hello"),
        ("", ""),
    ];

    // Test each case
    for (input, expected) in test_cases {
        let mut pool = CharPool::new();
        let input_chars = pool.build_char_array(input);
        let result = transliterator
            .transliterate(&mut pool, &input_chars)
            .unwrap();
        let result_string = from_chars(&pool, &result);
        assert_eq!(result_string, *expected, "Failed for input '{input}'");
    }
}
#[test]
fn test_multiple_consecutive_compositions() {
    let options = HiraKataCompositionTransliteratorOptions::default();
    let transliterator = HiraKataCompositionTransliterator::new(options);
    let mut pool = CharPool::new();

    // Test multiple consecutive compositions
    let input_chars = pool.build_char_array("か\u{3099}き\u{3099}");
    let result = transliterator
        .transliterate(&mut pool, &input_chars)
        .unwrap();

    assert_eq!(result.len(), 3);
    assert_eq!(pool.get(result[0]).c, "が");
    assert_eq!(pool.get(result[1]).c, "ぎ");
    assert!(pool.get(result[2]).is_sentinel());
}
#[test]
fn test_efficiency_with_complex_input() {
    let options = HiraKataCompositionTransliteratorOptions::default();
    let transliterator = HiraKataCompositionTransliterator::new(options);
    let mut pool = CharPool::new();

    // Test with complex input containing multiple compositions
    let input = "あか\u{3099}き\u{3099}す\u{3099}せ\u{3099}そ\u{3099}た\u{3099}ち\u{3099}つ\u{3099}て\u{3099}と\u{3099}";
    let input_chars = pool.build_char_array(input);
    let result = transliterator
        .transliterate(&mut pool, &input_chars)
        .unwrap();

    // Should efficiently compose all pairs
    let expected = "あがぎずぜぞだぢづでど";
    let result_string = from_chars(&pool, &result);
    assert_eq!(result_string, expected);
}
