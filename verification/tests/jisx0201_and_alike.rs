use yosina::chars::{from_chars, CharPool};
use yosina::dataset::Dataset;
use yosina::transliterator::Transliterator;
use yosina::transliterators::jisx0201_and_alike::{get_fwd_mappings, get_rev_mappings};
use yosina::transliterators::{
    Jisx0201AndAlikeFullwidthToHalfwidthTransliterator,
    Jisx0201AndAlikeHalfwidthToFullwidthTransliterator, Jisx0201AndAlikeTransliteratorOptions,
    MappingsCache, TransliteratorConfig,
};

fn empty_table() -> &'static phf::Map<&'static str, &'static str> {
    Box::leak(Box::new(phf::Map::new()))
}

fn empty_dataset() -> Dataset {
    Dataset {
        spaces: empty_table(),
        radicals: empty_table(),
        mathematical_alphanumerics: empty_table(),
        ideographic_annotations: empty_table(),
        kanji_old_new: empty_table(),
        combined: empty_table(),
        roman_numerals: empty_table(),
        hyphens: Vec::new(),
        ivs_svs_base: Vec::new(),
        circled_or_squared: Vec::new(),
    }
}

#[test]
fn test_fullwidth_to_halfwidth_basic() {
    let mut cache = MappingsCache::new();
    let options =
        Jisx0201AndAlikeTransliteratorOptions::default().build_fullwidth_to_halfwidth_options();
    let transliterator = Jisx0201AndAlikeFullwidthToHalfwidthTransliterator::new(
        options,
        &mut cache,
    );
    let mut pool = CharPool::new();

    let test_cases = &[
        ("Ａ", "A"), // FULLWIDTH A -> A
        ("１", "1"), // FULLWIDTH 1 -> 1
        ("！", "!"), // FULLWIDTH ! -> !
        ("カ", "ｶ"), // KATAKANA KA -> HALFWIDTH KATAKANA KA
    ];

    for (input, expected) in test_cases {
        let input_chars = pool.build_char_array(input);
        let result = transliterator
            .transliterate(&mut pool, &input_chars)
            .unwrap();
        let result_string = from_chars(&pool, &result);
        assert_eq!(result_string, *expected, "Failed for input '{input}'");
    }
}
#[test]
fn test_halfwidth_to_fullwidth_basic() {
    let mut cache = MappingsCache::new();
    let options = Jisx0201AndAlikeTransliteratorOptions::default();
    let transliterator = Jisx0201AndAlikeHalfwidthToFullwidthTransliterator::new(
        options.build_halfwidth_to_fullwidth_options(),
        &mut cache,
    );
    let mut pool = CharPool::new();

    let test_cases = &[
        ("A", "Ａ"), // A -> FULLWIDTH A
        ("1", "１"), // 1 -> FULLWIDTH 1
        ("!", "！"), // ! -> FULLWIDTH !
        ("ｶ", "カ"), // HALFWIDTH KATAKANA KA -> KATAKANA KA
    ];

    for (input, expected) in test_cases {
        let input_chars = pool.build_char_array(input);
        let result = transliterator
            .transliterate(&mut pool, &input_chars)
            .unwrap();
        let result_string = from_chars(&pool, &result);
        assert_eq!(result_string, *expected, "Failed for input '{input}'");
    }
}
#[test]
fn test_voiced_sound_marks() {
    let mut cache = MappingsCache::new();
    let options = Jisx0201AndAlikeTransliteratorOptions {
        combine_voiced_sound_marks: true,
        ..Default::default()
    };
    let transliterator = Jisx0201AndAlikeFullwidthToHalfwidthTransliterator::new(
        options.build_fullwidth_to_halfwidth_options(),
        &mut cache,
    );
    let mut pool = CharPool::new();

    let test_cases = &[
        ("ガ", "ｶﾞ"), // GA -> KA + VOICED MARK
        ("パ", "ﾊﾟ"), // PA -> HA + SEMI-VOICED MARK
    ];

    for (input, expected) in test_cases {
        let input_chars = pool.build_char_array(input);
        let result = transliterator
            .transliterate(&mut pool, &input_chars)
            .unwrap();
        let result_string = from_chars(&pool, &result);
        assert_eq!(result_string, *expected, "Failed for input '{input}'");
    }
}
#[test]
fn test_hiragana_conversion() {
    let mut cache = MappingsCache::new();
    let options = Jisx0201AndAlikeTransliteratorOptions {
        convert_hiraganas: true,
        ..Default::default()
    };
    let transliterator = Jisx0201AndAlikeFullwidthToHalfwidthTransliterator::new(
        options.build_fullwidth_to_halfwidth_options(),
        &mut cache,
    );
    let mut pool = CharPool::new();

    let test_cases = &[
        ("あ", "ｱ"), // HIRAGANA A -> HALFWIDTH KATAKANA A
        ("が", "ｶﾞ"), // HIRAGANA GA -> KA + VOICED MARK
    ];

    for (input, expected) in test_cases {
        let input_chars = pool.build_char_array(input);
        let result = transliterator
            .transliterate(&mut pool, &input_chars)
            .unwrap();
        let result_string = from_chars(&pool, &result);
        assert_eq!(result_string, *expected, "Failed for input '{input}'");
    }
}
#[test]
fn test_preserves_unmapped_characters() {
    let mut cache = MappingsCache::new();
    let options = Jisx0201AndAlikeTransliteratorOptions::default();
    let transliterator = Jisx0201AndAlikeFullwidthToHalfwidthTransliterator::new(
        options.build_fullwidth_to_halfwidth_options(),
        &mut cache,
    );
    let mut pool = CharPool::new();

    let test_cases = &[
        ("漢", "漢"), // KANJI should be preserved
        ("🎌", "🎌"), // EMOJI should be preserved
    ];

    for (input, expected) in test_cases {
        let input_chars = pool.build_char_array(input);
        let result = transliterator
            .transliterate(&mut pool, &input_chars)
            .unwrap();
        let result_string = from_chars(&pool, &result);
        assert_eq!(result_string, *expected, "Failed for input '{input}'");
    }
}
#[test]
fn test_caching_functionality() {
    // Start from a cache that holds nothing
    let mut cache = MappingsCache::new();
    cache.clear();

    // Create first instance with default options
    let options1 = Jisx0201AndAlikeTransliteratorOptions::default();
    let _mappings1 = get_fwd_mappings(&mut cache, &options1.build_fullwidth_to_halfwidth_options());
    let _rev_mappings1 =
        get_rev_mappings(&mut cache, &options1.build_halfwidth_to_fullwidth_options());

    let cache_sizes_1 = (cache.forward_len(), cache.reverse_len());

    // Create second instance with same options - should use cache
    let options2 = Jisx0201AndAlikeTransliteratorOptions::default();
    let _mappings2 = get_fwd_mappings(&mut cache, &options2.build_fullwidth_to_halfwidth_options());
    let _rev_mappings2 =
        get_rev_mappings(&mut cache, &options2.build_halfwidth_to_fullwidth_options());

    let cache_sizes_2 = (cache.forward_len(), cache.reverse_len());

    // Cache sizes should be the same for identical options
    assert_eq!(
        cache_sizes_1, cache_sizes_2,
        "Cache should not grow for identical options"
    );

    // Create third instance with different options - should create new cache entry
    let options3 = Jisx0201AndAlikeTransliteratorOptions {
        convert_hiraganas: true,
        ..Default::default()
    };
    let _mappings3 = get_fwd_mappings(&mut cache, &options3.build_fullwidth_to_halfwidth_options());
    let _rev_mappings3 =
        get_rev_mappings(&mut cache, &options3.build_halfwidth_to_fullwidth_options());

    let cache_sizes_3 = (cache.forward_len(), cache.reverse_len());

    // Create third instance with different options - should create new cache entry
    let options4 = Jisx0201AndAlikeTransliteratorOptions {
        combine_voiced_sound_marks: true,
        ..Default::default()
    };
    let _mappings4 = get_fwd_mappings(&mut cache, &options4.build_fullwidth_to_halfwidth_options());
    let _rev_mappings4 =
        get_rev_mappings(&mut cache, &options4.build_halfwidth_to_fullwidth_options());

    let cache_sizes_4 = (cache.forward_len(), cache.reverse_len());

    // Cache should grow for different options
    assert!(
        cache_sizes_3.0 > cache_sizes_2.0,
        "Forward cache should grow for different options"
    );
    assert!(
        cache_sizes_3.1 == cache_sizes_2.1,
        "Reverse cache shouldn't grow"
    );
    assert!(
        cache_sizes_4.0 == cache_sizes_3.0,
        "Forward cache shouldn't grow"
    );
    assert!(
        cache_sizes_4.1 == cache_sizes_3.1,
        "Reverse cache should grow for different options"
    );
}
#[test]
fn test_jisx0201_halfwidth_to_fullwidth_factory() {
    let options = Jisx0201AndAlikeTransliteratorOptions::default();
    let data = empty_dataset();
    let mut cache = MappingsCache::new();
    let factory_result = TransliteratorConfig::Jisx0201AndAlike {
        fullwidth_to_halfwidth: false,
        options,
    }
    .new_transliterator(&data, &mut cache);
    assert!(factory_result.is_ok());

    let transliterator = factory_result.unwrap();

    // Test that it converts halfwidth to fullwidth
    let test_cases = &[("123", "１２３"), ("abc", "ａｂｃ"), ("!", "！"), ("", "")];

    // Test each case
    for (input, expected) in test_cases {
        let mut pool = CharPool::new();
        let input_chars = pool.build_char_array(input);
        let result = transliterator
            .transliterate(&mut pool, &input_chars)
            .unwrap();
        let result_string = from_chars(&pool, &result);
        assert_eq!(result_string, *expected, "Failed for input '{input}'");
    }
}
#[test]
fn test_jisx0201_fullwidth_to_halfwidth_factory() {
    let options = Jisx0201AndAlikeTransliteratorOptions::default();
    let data = empty_dataset();
    let mut cache = MappingsCache::new();
    let factory_result = TransliteratorConfig::Jisx0201AndAlike {
        fullwidth_to_halfwidth: true,
        options,
    }
    .new_transliterator(&data, &mut cache);
    assert!(factory_result.is_ok());

    let transliterator = factory_result.unwrap();

    // Test that it converts fullwidth to halfwidth
    let test_cases = &[("１２３", "123"), ("ａｂｃ", "abc"), ("！", "!"), ("", "")];

    // Test each case
    for (input, expected) in test_cases {
        let mut pool = CharPool::new();
        let input_chars = pool.build_char_array(input);
        let result = transliterator
            .transliterate(&mut pool, &input_chars)
            .unwrap();
        let result_string = from_chars(&pool, &result);
        assert_eq!(result_string, *expected, "Failed for input '{input}'");
    }
}
