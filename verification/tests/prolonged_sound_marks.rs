use yosina::chars::{from_chars, CharPool};
use yosina::dataset::Dataset;
use yosina::transliterator::Transliterator;
use yosina::transliterators::prolonged_sound_marks::{
    CharType, EITHER, HALFWIDTH, HATSUON, HIRAGANA, KATAKANA, PROLONGED_SOUND_MARK, SOKUON,
};
use yosina::transliterators::{
    MappingsCache, ProlongedSoundMarksTransliterator, ProlongedSoundMarksTransliteratorOptions,
    TransliteratorConfig,
};

fn empty_table() -> &'static phf::Map<&'static str, &'static str> {
    Box::leak(Box::new(phf::Map::new()))
}

fn empty_dataset() -> Dataset {
    Dataset {
        spaces: empty_table(),
        radicals: empty_table(),
        mathematical_alphanumerics: empty_table(),
        ideographic_annotations: empty_table(),
        kanji_old_new: empty_table(),
        combined: empty_table(),
        roman_numerals: empty_table(),
        hyphens: Vec::new(),
        ivs_svs_base: Vec::new(),
        circled_or_squared: Vec::new(),
    }
}

#[test]
fn test_basic_prolonged_sound_replacement() {
    let options = ProlongedSoundMarksTransliteratorOptions::default();
    let transliterator = ProlongedSoundMarksTransliterator::new(options);
    let mut pool = CharPool::new();

    // Test basic hiragana prolonged sound replacement
    let input_chars = pool.build_char_array("かー");
    let result = transliterator
        .transliterate(&mut pool, &input_chars)
        .unwrap();

    // Should replace ー with ー (normalized prolonged sound mark)
    assert_eq!(result.len(), 3); // か + ー + sentinel
    assert_eq!(pool.get(result[0]).c, "か");
    assert_eq!(pool.get(result[1]).c, "\u{30FC}"); // KATAKANA PROLONGED SOUND MARK
    assert!(pool.get(result[2]).c.is_empty()); // sentinel
}
#[test]
fn test_katakana_prolonged_sound_replacement() {
    let options = ProlongedSoundMarksTransliteratorOptions::default();
    let transliterator = ProlongedSoundMarksTransliterator::new(options);
    let mut pool = CharPool::new();

    // Test katakana prolonged sound replacement
    let input_chars = pool.build_char_array("カー");
    let result = transliterator
        .transliterate(&mut pool, &input_chars)
        .unwrap();

    assert_eq!(result.len(), 3);
    assert_eq!(pool.get(result[0]).c, "カ");
    assert_eq!(pool.get(result[1]).c, "\u{30FC}"); // KATAKANA PROLONGED SOUND MARK
    assert!(pool.get(result[2]).c.is_empty()); // sentinel
}
#[test]
fn test_halfwidth_katakana_prolonged_sound() {
    let options = ProlongedSoundMarksTransliteratorOptions::default();
    let transliterator = ProlongedSoundMarksTransliterator::new(options);
    let mut pool = CharPool::new();

    // Test halfwidth katakana - should use halfwidth prolonged mark
    let input_chars = pool.build_char_array("ｶｰ");
    let result = transliterator
        .transliterate(&mut pool, &input_chars)
        .unwrap();

    assert_eq!(result.len(), 3);
    assert_eq!(pool.get(result[0]).c, "ｶ");
    assert_eq!(pool.get(result[1]).c, "\u{FF70}"); // HALFWIDTH KATAKANA PROLONGED SOUND MARK
    assert!(pool.get(result[2]).c.is_empty()); // sentinel
}
#[test]
fn test_hyphen_replacement_between_alphabet() {
    let options = ProlongedSoundMarksTransliteratorOptions {
        replace_prolonged_marks_following_alnums: true,
        ..Default::default()
    };
    let transliterator = ProlongedSoundMarksTransliterator::new(options);
    let mut pool = CharPool::new();

    // Test hyphen between alphabetic characters
    let input_chars = pool.build_char_array("a-b");
    let result = transliterator
        .transliterate(&mut pool, &input_chars)
        .unwrap();

    assert_eq!(result.len(), 4);
    assert_eq!(pool.get(result[0]).c, "a");
    assert_eq!(pool.get(result[1]).c, "\u{002D}"); // HYPHEN-MINUS (halfwidth)
    assert_eq!(pool.get(result[2]).c, "b");
    assert!(pool.get(result[3]).c.is_empty()); // sentinel
}
#[test]
fn test_em_dash_replacement_between_fullwidth() {
    let options = ProlongedSoundMarksTransliteratorOptions {
        replace_prolonged_marks_following_alnums: true,
        ..Default::default()
    };
    let transliterator = ProlongedSoundMarksTransliterator::new(options);
    let mut pool = CharPool::new();

    // Test em dash between fullwidth characters
    let input_chars = pool.build_char_array("ａ—ｂ");
    let result = transliterator
        .transliterate(&mut pool, &input_chars)
        .unwrap();

    assert_eq!(result.len(), 4);
    assert_eq!(pool.get(result[0]).c, "ａ");
    assert_eq!(pool.get(result[1]).c, "\u{FF0D}"); // FULLWIDTH HYPHEN-MINUS
    assert_eq!(pool.get(result[2]).c, "ｂ");
    assert!(pool.get(result[3]).c.is_empty()); // sentinel
}
#[test]
fn test_allow_prolonged_hatsuon() {
    let options = ProlongedSoundMarksTransliteratorOptions {
        allow_prolonged_hatsuon: true,
        ..Default::default()
    };
    let transliterator = ProlongedSoundMarksTransliterator::new(options);
    let mut pool = CharPool::new();

    // Test prolonged hatsuon (ん)
    let input_chars = pool.build_char_array("んー");
    let result = transliterator
        .transliterate(&mut pool, &input_chars)
        .unwrap();

    assert_eq!(result.len(), 3);
    assert_eq!(pool.get(result[0]).c, "ん");
    assert_eq!(pool.get(result[1]).c, "\u{30FC}"); // Should be replaced
    assert!(pool.get(result[2]).c.is_empty()); // sentinel
}
#[test]
fn test_allow_prolonged_sokuon() {
    let options = ProlongedSoundMarksTransliteratorOptions {
        allow_prolonged_sokuon: true,
        ..Default::default()
    };
    let transliterator = ProlongedSoundMarksTransliterator::new(options);
    let mut pool = CharPool::new();

    // Test prolonged sokuon (っ)
    let input_chars = pool.build_char_array("っー");
    let result = transliterator
        .transliterate(&mut pool, &input_chars)
        .unwrap();

    assert_eq!(result.len(), 3);
    assert_eq!(pool.get(result[0]).c, "っ");
    assert_eq!(pool.get(result[1]).c, "\u{30FC}"); // Should be replaced
    assert!(pool.get(result[2]).c.is_empty()); // sentinel
}
#[test]
fn test_no_replacement_for_non_japanese() {
    let options = ProlongedSoundMarksTransliteratorOptions::default();
    let transliterator = ProlongedSoundMarksTransliterator::new(options);
    let mut pool = CharPool::new();

    // Test that non-Japanese characters don't trigger replacement
    let input_chars = pool.build_char_array("x-y");
    let result = transliterator
        .transliterate(&mut pool, &input_chars)
        .unwrap();

    // Should preserve original hyphen
    assert_eq!(result.len(), 4);
    assert_eq!(pool.get(result[0]).c, "x");
    assert_eq!(pool.get(result[1]).c, "-"); // Original hyphen preserved
    assert_eq!(pool.get(result[2]).c, "y");
    assert!(pool.get(result[3]).c.is_empty()); // sentinel
}
#[test]
fn test_multiple_dashes_replacement() {
    let options = ProlongedSoundMarksTransliteratorOptions {
        replace_prolonged_marks_following_alnums: true,
        ..Default::default()
    };
    let transliterator = ProlongedSoundMarksTransliterator::new(options);
    let mut pool = CharPool::new();

    // Test multiple consecutive dashes
    let input_chars = pool.build_char_array("a--b");
    let result = transliterator
        .transliterate(&mut pool, &input_chars)
        .unwrap();

    assert_eq!(result.len(), 5);
    assert_eq!(pool.get(result[0]).c, "a");
    assert_eq!(pool.get(result[1]).c, "\u{002D}"); // Both dashes should be replaced
    assert_eq!(pool.get(result[2]).c, "\u{002D}");
    assert_eq!(pool.get(result[3]).c, "b");
    assert!(pool.get(result[4]).c.is_empty()); // sentinel
}
#[test]
fn test_skip_already_transliterated() {
    let options = ProlongedSoundMarksTransliteratorOptions {
        skip_already_transliterated_chars: true,
        ..Default::default()
    };
    let transliterator = ProlongedSoundMarksTransliterator::new(options);
    let mut pool = CharPool::new();

    // Create a character that has a source (already transliterated)
    let input_chars = pool.build_char_array("か");
    let source_char = input_chars[0];

    // Create a new character with a dash that has source tracking
    let dash_char = pool.new_char_from("-".to_string(), 1, source_char);

    let chars_with_source = vec![source_char, dash_char, input_chars[1]]; // include sentinel
    let result = transliterator
        .transliterate(&mut pool, &chars_with_source)
        .unwrap();

    // The dash should not be processed because it has source tracking
    assert_eq!(result.len(), 3);
    assert_eq!(pool.get(result[0]).c, "か");
    assert_eq!(pool.get(result[1]).c, "-"); // Should be preserved
    assert!(pool.get(result[2]).c.is_empty()); // sentinel
}
#[test]
fn test_mixed_script_text() {
    let options = ProlongedSoundMarksTransliteratorOptions::default();
    let transliterator = ProlongedSoundMarksTransliterator::new(options);
    let mut pool = CharPool::new();

    // Test mixed Japanese and non-Japanese text
    let input_chars = pool.build_char_array("コーヒー");
    let result = transliterator
        .transliterate(&mut pool, &input_chars)
        .unwrap();

    assert_eq!(result.len(), 5); // コ + ー + ヒ + ー + sentinel
    assert_eq!(pool.get(result[0]).c, "コ");
    assert_eq!(pool.get(result[1]).c, "\u{30FC}"); // First prolonged mark
    assert_eq!(pool.get(result[2]).c, "ヒ");
    assert_eq!(pool.get(result[3]).c, "\u{30FC}"); // Second prolonged mark
    assert!(pool.get(result[4]).c.is_empty()); // sentinel
}
#[test]
fn test_no_replacement_without_preceding_char() {
    let options = ProlongedSoundMarksTransliteratorOptions::default();
    let transliterator = ProlongedSoundMarksTransliterator::new(options);
    let mut pool = CharPool::new();

    // Test dash at beginning - should not be replaced
    let input_chars = pool.build_char_array("-か");
    let result = transliterator
        .transliterate(&mut pool, &input_chars)
        .unwrap();

    assert_eq!(result.len(), 3);
    assert_eq!(pool.get(result[0]).c, "-"); // Should be preserved
    assert_eq!(pool.get(result[1]).c, "か");
    assert!(pool.get(result[2]).c.is_empty()); // sentinel
}
#[test]
fn test_character_type_detection() {
    // Test various character type detections
    assert_eq!(
        CharType::from_codepoint('a' as u32),
        CharType { bits: 0x61 }
    );
    assert_eq!(
        CharType::from_codepoint('ａ' as u32),
        CharType { bits: 0x60 }
    );
    assert_eq!(
        CharType::from_codepoint('1' as u32),
        CharType { bits: 0x81 }
    );
    assert_eq!(
        CharType::from_codepoint('１' as u32),
        CharType { bits: 0x80 }
    );
    assert_eq!(
        CharType::from_codepoint('あ' as u32),
        CharType { bits: 0x20 | 0x02 }
    );
    assert_eq!(
        CharType::from_codepoint('ア' as u32),
        CharType { bits: 0x40 | 0x02 }
    );
    assert_eq!(
        CharType::from_codepoint('ｱ' as u32),
        CharType { bits: 0x40 | 0x02 | 0x01 }
    );

    // Test special characters
    assert_eq!(
        CharType::from_codepoint(0x30fc),
        CharType { bits: EITHER | PROLONGED_SOUND_MARK }
    );
    assert_eq!(
        CharType::from_codepoint(0xff70),
        CharType { bits: KATAKANA | PROLONGED_SOUND_MARK | HALFWIDTH }
    );
    assert_eq!(
        CharType::from_codepoint(0x3093),
        CharType { bits: HIRAGANA | HATSUON }
    );
    assert_eq!(
        CharType::from_codepoint(0x3063),
        CharType { bits: HIRAGANA | SOKUON }
    );
}
#[test]
fn test_fullwidth_hyphen_replacement_in_katakana() {
    let options = ProlongedSoundMarksTransliteratorOptions::default();
    let transliterator = ProlongedSoundMarksTransliterator::new(options);
    let mut pool = CharPool::new();

    // Test case 1: イ－ハト－ヴォ with fullwidth hyphen-minus
    let input_chars = pool.build_char_array("イ\u{FF0D}ハト\u{FF0D}ヴォ");
    let result = transliterator
        .transliterate(&mut pool, &input_chars)
        .unwrap();

    assert_eq!(result.len(), 8); // イ + ー + ハ + ト + ー + ヴ + ォ + sentinel
    assert_eq!(pool.get(result[0]).c, "イ");
    assert_eq!(pool.get(result[1]).c, "\u{30FC}"); // Should be replaced with prolonged sound mark
    assert_eq!(pool.get(result[2]).c, "ハ");
    assert_eq!(pool.get(result[3]).c, "ト");
    assert_eq!(pool.get(result[4]).c, "\u{30FC}"); // Should be replaced with prolonged sound mark
    assert_eq!(pool.get(result[5]).c, "ヴ");
    assert_eq!(pool.get(result[6]).c, "ォ");
    assert!(pool.get(result[7]).c.is_empty()); // sentinel

    // Test case 2: カトラリ－ with fullwidth hyphen-minus at end
    let input_chars2 = pool.build_char_array("カトラリ\u{FF0D}");
    let result2 = transliterator
        .transliterate(&mut pool, &input_chars2)
        .unwrap();

    assert_eq!(result2.len(), 6); // カ + ト + ラ + リ + ー + sentinel
    assert_eq!(pool.get(result2[0]).c, "カ");
    assert_eq!(pool.get(result2[1]).c, "ト");
    assert_eq!(pool.get(result2[2]).c, "ラ");
    assert_eq!(pool.get(result2[3]).c, "リ");
    assert_eq!(pool.get(result2[4]).c, "\u{30FC}"); // Should be replaced with prolonged sound mark
    assert!(pool.get(result2[5]).c.is_empty()); // sentinel
}
#[test]
fn test_hyphen_minus_replacement_in_katakana() {
    let options = ProlongedSoundMarksTransliteratorOptions::default();
    let transliterator = ProlongedSoundMarksTransliterator::new(options);
    let mut pool = CharPool::new();

    // Test case 1: イ-ハト-ヴォ with regular hyphen-minus
    let input_chars = pool.build_char_array("イ\u{002D}ハト\u{002D}ヴォ");
    let result = transliterator
        .transliterate(&mut pool, &input_chars)
        .unwrap();

    assert_eq!(result.len(), 8);
    assert_eq!(pool.get(result[0]).c, "イ");
    assert_eq!(pool.get(result[1]).c, "\u{30FC}"); // Should be replaced with prolonged sound mark
    assert_eq!(pool.get(result[2]).c, "ハ");
    assert_eq!(pool.get(result[3]).c, "ト");
    assert_eq!(pool.get(result[4]).c, "\u{30FC}"); // Should be replaced with prolonged sound mark
    assert_eq!(pool.get(result[5]).c, "ヴ");
    assert_eq!(pool.get(result[6]).c, "ォ");
    assert!(pool.get(result[7]).c.is_empty()); // sentinel

    // Test case 2: カトラリ- with regular hyphen-minus at end
    let input_chars2 = pool.build_char_array("カトラリ\u{002D}");
    let result2 = transliterator
        .transliterate(&mut pool, &input_chars2)
        .unwrap();

    assert_eq!(result2.len(), 6);
    assert_eq!(pool.get(result2[0]).c, "カ");
    assert_eq!(pool.get(result2[1]).c, "ト");
    assert_eq!(pool.get(result2[2]).c, "ラ");
    assert_eq!(pool.get(result2[3]).c, "リ");
    assert_eq!(pool.get(result2[4]).c, "\u{30FC}"); // Should be replaced with prolonged sound mark
    assert!(pool.get(result2[5]).c.is_empty()); // sentinel
}
#[test]
fn test_prolonged_marks_following_digits_no_replacement() {
    let options = ProlongedSoundMarksTransliteratorOptions::default();
    let transliterator = ProlongedSoundMarksTransliterator::new(options);
    let mut pool = CharPool::new();

    // Test with replace_prolonged_marks_following_alnums disabled (default)
    let input_chars = pool.build_char_array("1\u{30FC}\u{FF0D}2\u{30FC}3");
    let result = transliterator
        .transliterate(&mut pool, &input_chars)
        .unwrap();

    // Should preserve all characters as-is
    assert_eq!(result.len(), 7);
    assert_eq!(pool.get(result[0]).c, "1");
    assert_eq!(pool.get(result[1]).c, "\u{30FC}");
    assert_eq!(pool.get(result[2]).c, "\u{FF0D}");
    assert_eq!(pool.get(result[3]).c, "2");
    assert_eq!(pool.get(result[4]).c, "\u{30FC}");
    assert_eq!(pool.get(result[5]).c, "3");
    assert!(pool.get(result[6]).c.is_empty()); // sentinel
}
#[test]
fn test_prolonged_marks_following_digits_with_replacement() {
    let options = ProlongedSoundMarksTransliteratorOptions {
        replace_prolonged_marks_following_alnums: true,
        ..Default::default()
    };
    let transliterator = ProlongedSoundMarksTransliterator::new(options);
    let mut pool = CharPool::new();

    // Test with replace_prolonged_marks_following_alnums enabled
    let input_chars = pool.build_char_array("1\u{30FC}\u{FF0D}2\u{30FC}3");
    let result = transliterator
        .transliterate(&mut pool, &input_chars)
        .unwrap();

    // Should replace prolonged marks with hyphens between digits
    assert_eq!(result.len(), 7);
    assert_eq!(pool.get(result[0]).c, "1");
    assert_eq!(pool.get(result[1]).c, "\u{002D}"); // Replaced with halfwidth hyphen
    assert_eq!(pool.get(result[2]).c, "\u{002D}"); // Replaced with halfwidth hyphen
    assert_eq!(pool.get(result[3]).c, "2");
    assert_eq!(pool.get(result[4]).c, "\u{002D}"); // Replaced with halfwidth hyphen
    assert_eq!(pool.get(result[5]).c, "3");
    assert!(pool.get(result[6]).c.is_empty()); // sentinel
}
#[test]
fn test_prolonged_marks_following_fullwidth_digits_with_replacement() {
    let options = ProlongedSoundMarksTransliteratorOptions {
        replace_prolonged_marks_following_alnums: true,
        ..Default::default()
    };
    let transliterator = ProlongedSoundMarksTransliterator::new(options);
    let mut pool = CharPool::new();

    // Test with fullwidth digits
    let input_chars = pool.build_char_array("\u{FF11}\u{30FC}\u{FF0D}\u{FF12}\u{30FC}\u{FF13}");
    let result = transliterator
        .transliterate(&mut pool, &input_chars)
        .unwrap();

    // Should replace prolonged marks with fullwidth hyphens between fullwidth digits
    assert_eq!(result.len(), 7);
    assert_eq!(pool.get(result[0]).c, "\u{FF11}"); // Fullwidth 1
    assert_eq!(pool.get(result[1]).c, "\u{FF0D}"); // Replaced with fullwidth hyphen
    assert_eq!(pool.get(result[2]).c, "\u{FF0D}"); // Already fullwidth hyphen
    assert_eq!(pool.get(result[3]).c, "\u{FF12}"); // Fullwidth 2
    assert_eq!(pool.get(result[4]).c, "\u{FF0D}"); // Replaced with fullwidth hyphen
    assert_eq!(pool.get(result[5]).c, "\u{FF13}"); // Fullwidth 3
    assert!(pool.get(result[6]).c.is_empty()); // sentinel
}
#[test]
fn test_sokuon_without_allow_prolonged() {
    let options = ProlongedSoundMarksTransliteratorOptions::default();
    let transliterator = ProlongedSoundMarksTransliterator::new(options);
    let mut pool = CharPool::new();

    // Test sokuon (っ) without allow_prolonged_sokuon
    let input_chars = pool.build_char_array("ウッ\u{FF0D}ウン\u{FF0D}");
    let result = transliterator
        .transliterate(&mut pool, &input_chars)
        .unwrap();

    // Should not replace after sokuon
    assert_eq!(result.len(), 7);
    assert_eq!(pool.get(result[0]).c, "ウ");
    assert_eq!(pool.get(result[1]).c, "ッ");
    assert_eq!(pool.get(result[2]).c, "\u{FF0D}"); // Should remain as fullwidth hyphen
    assert_eq!(pool.get(result[3]).c, "ウ");
    assert_eq!(pool.get(result[4]).c, "ン");
    assert_eq!(pool.get(result[5]).c, "\u{FF0D}"); // Should remain as fullwidth hyphen
}
#[test]
fn test_sokuon_with_allow_prolonged() {
    let options = ProlongedSoundMarksTransliteratorOptions {
        allow_prolonged_sokuon: true,
        ..Default::default()
    };
    let transliterator = ProlongedSoundMarksTransliterator::new(options);
    let mut pool = CharPool::new();

    // Test sokuon (っ) with allow_prolonged_sokuon
    let input_chars = pool.build_char_array("ウッ\u{FF0D}ウン\u{FF0D}");
    let result = transliterator
        .transliterate(&mut pool, &input_chars)
        .unwrap();

    // Should replace after sokuon but not after hatsuon
    assert_eq!(result.len(), 7);
    assert_eq!(pool.get(result[0]).c, "ウ");
    assert_eq!(pool.get(result[1]).c, "ッ");
    assert_eq!(pool.get(result[2]).c, "\u{30FC}"); // Should be replaced with prolonged mark
    assert_eq!(pool.get(result[3]).c, "ウ");
    assert_eq!(pool.get(result[4]).c, "ン");
    assert_eq!(pool.get(result[5]).c, "\u{FF0D}"); // Should remain as fullwidth hyphen
}
#[test]
fn test_hatsuon_with_allow_prolonged() {
    let options = ProlongedSoundMarksTransliteratorOptions {
        allow_prolonged_hatsuon: true,
        ..Default::default()
    };
    let transliterator = ProlongedSoundMarksTransliterator::new(options);
    let mut pool = CharPool::new();

    // Test hatsuon (ン) with allow_prolonged_hatsuon
    let input_chars = pool.build_char_array("ウッ\u{FF0D}ウン\u{FF0D}");
    let result = transliterator
        .transliterate(&mut pool, &input_chars)
        .unwrap();

    // Should not replace after sokuon but should replace after hatsuon
    assert_eq!(result.len(), 7);
    assert_eq!(pool.get(result[0]).c, "ウ");
    assert_eq!(pool.get(result[1]).c, "ッ");
    assert_eq!(pool.get(result[2]).c, "\u{FF0D}"); // Should remain as fullwidth hyphen
    assert_eq!(pool.get(result[3]).c, "ウ");
    assert_eq!(pool.get(result[4]).c, "ン");
    assert_eq!(pool.get(result[5]).c, "\u{30FC}"); // Should be replaced with prolonged mark
}
#[test]
fn test_both_sokuon_and_hatsuon_allowed() {
    let options = ProlongedSoundMarksTransliteratorOptions {
        allow_prolonged_sokuon: true,
        allow_prolonged_hatsuon: true,
        ..Default::default()
    };
    let transliterator = ProlongedSoundMarksTransliterator::new(options);
    let mut pool = CharPool::new();

    // Test with both options enabled
    let input_chars = pool.build_char_array("ウッ\u{FF0D}ウン\u{FF0D}");
    let result = transliterator
        .transliterate(&mut pool, &input_chars)
        .unwrap();

    // Should replace after both sokuon and hatsuon
    assert_eq!(result.len(), 7);
    assert_eq!(pool.get(result[0]).c, "ウ");
    assert_eq!(pool.get(result[1]).c, "ッ");
    assert_eq!(pool.get(result[2]).c, "\u{30FC}"); // Should be replaced with prolonged mark
    assert_eq!(pool.get(result[3]).c, "ウ");
    assert_eq!(pool.get(result[4]).c, "ン");
    assert_eq!(pool.get(result[5]).c, "\u{30FC}"); // Should be replaced with prolonged mark
}
#[test]
fn test_prolonged_sound_marks_factory() {
    let options = ProlongedSoundMarksTransliteratorOptions::default();
    let data = empty_dataset();
    let mut cache = MappingsCache::new();
    let factory_result =
        TransliteratorConfig::ProlongedSoundMarks(options).new_transliterator(&data, &mut cache);
    assert!(factory_result.is_ok());

    let transliterator = factory_result.unwrap();

    // Test that it preserves input (since it's a stub implementation)
    let test_cases = &[
        ("おかあさん", "おかあさん"),
        ("ラーメン", "ラーメン"),
        ("スーパー", "スーパー"),
        ("", ""),
    ];

    // Test each case
    for (input, expected) in test_cases {
        let mut pool = CharPool::new();
        let input_chars = pool.build_char_array(input);
        let result = transliterator
            .transliterate(&mut pool, &input_chars)
            .unwrap();
        let result_string = from_chars(&pool, &result);
        assert_eq!(result_string, *expected, "Failed for input '{input}'");
    }
}
