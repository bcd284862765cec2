use yosina::chars::{from_chars, CharPool};
use yosina::transliterator::Transliterator;
use yosina::transliterators::SimpleTransliterator;

/// A table with the given entries.
fn table(entries: &[(&'static str, &'static str)]) -> &'static phf::Map<&'static str, &'static str> {
    if entries.is_empty() {
        return Box::leak(Box::new(phf::Map::new()));
    }
    let keys: Vec<&str> = entries.iter().map(|e| e.0).collect();
    let state = phf_generator::generate_hash(&keys);
    let ordered: Vec<(&'static str, &'static str)> = state.map.iter().map(|&i| entries[i]).collect();
    Box::leak(Box::new(phf::Map {
        key: state.key,
        disps: Box::leak(state.disps.into_boxed_slice()),
        entries: Box::leak(ordered.into_boxed_slice()),
    }))
}

/// Create a test SimpleTransliterator with basic mappings
fn create_basic_test_transliterator() -> SimpleTransliterator {
    SimpleTransliterator::new(table(&[
        ("a", "α"),
        ("b", "β"),
        ("c", "γ"),
        ("h", "こんにちは"),
    ]))
}

/// Create a test SimpleTransliterator with Unicode mappings
fn create_unicode_test_transliterator() -> SimpleTransliterator {
    SimpleTransliterator::new(table(&[
        ("α", "a"),
        ("β", "b"),
        ("こ", "ko"),
        ("ん", "n"),
        ("ば", "ba"),
        ("は", "wa"),
    ]))
}

#[test]
fn test_simple_transliterator_basic_mappings() {
    let transliterator = create_basic_test_transliterator();

    let test_cases = &[
        ("a", "α"),
        ("b", "β"),
        ("c", "γ"),
        ("ab", "αβ"),
        ("abc", "αβγ"),
        ("h", "こんにちは"),
    ];

    // Test each case
    for (input, expected) in test_cases {
        let mut pool = CharPool::new();
        let input_chars = pool.build_char_array(input);
        let result = transliterator
            .transliterate(&mut pool, &input_chars)
            .unwrap();
        let result_string = from_chars(&pool, &result);
        assert_eq!(
            result_string, *expected,
            "Failed for input '{input}', result: '{result_string}'"
        );
    }
}
#[test]
fn test_simple_transliterator_no_mapping() {
    let transliterator = create_basic_test_transliterator();

    // Characters without mappings should be preserved
    let test_cases = &[
        ("d", "d"),
        ("x", "x"),
        ("xyz", "xyz"),
        ("1", "1"),
        ("!", "!"),
        (" ", " "),
    ];

    // Test each case
    for (input, expected) in test_cases {
        let mut pool = CharPool::new();
        let input_chars = pool.build_char_array(input);
        let result = transliterator
            .transliterate(&mut pool, &input_chars)
            .unwrap();
        let result_string = from_chars(&pool, &result);
        assert_eq!(result_string, *expected, "Failed for input '{input}'");
    }
}
#[test]
fn test_simple_transliterator_mixed_input() {
    let transliterator = create_basic_test_transliterator();

    // Mix of mapped and unmapped characters
    let test_cases = &[
        ("ax", "αx"),
        ("bz", "βz"),
        ("h world", "こんにちは world"),
        ("a1b2c3", "α1β2γ3"),
        ("test_a_test", "test_α_test"),
    ];

    // Test each case
    for (input, expected) in test_cases {
        let mut pool = CharPool::new();
        let input_chars = pool.build_char_array(input);
        let result = transliterator
            .transliterate(&mut pool, &input_chars)
            .unwrap();
        let result_string = from_chars(&pool, &result);
        assert_eq!(result_string, *expected, "Failed for input '{input}'");
    }
}
#[test]
fn test_simple_transliterator_unicode_input() {
    let transliterator = create_unicode_test_transliterator();

    let test_cases = &[
        ("α", "a"),
        ("β", "b"),
        ("こ", "ko"),
        ("ん", "n"),
        ("こんばんは", "konbanwa"),
        ("αβγ", "abγ"), // γ not mapped, should be preserved
    ];

    // Test each case
    for (input, expected) in test_cases {
        let mut pool = CharPool::new();
        let input_chars = pool.build_char_array(input);
        let result = transliterator
            .transliterate(&mut pool, &input_chars)
            .unwrap();
        let result_string = from_chars(&pool, &result);
        assert_eq!(result_string, *expected, "Failed for input '{input}'");
    }
}
#[test]
fn test_simple_transliterator_empty_input() {
    let transliterator = create_basic_test_transliterator();

    // Test empty input
    let mut pool = CharPool::new();
    let input_chars = pool.build_char_array("");
    let result = transliterator
        .transliterate(&mut pool, &input_chars)
        .unwrap();
    let non_sentinel_chars: Vec<_> = result
        .iter()
        .filter(|&&c| !pool.get(c).c.is_empty())
        .collect();
    assert!(
        non_sentinel_chars.is_empty(),
        "Expected empty result for empty input"
    );
}
#[test]
fn test_simple_transliterator_sentinel_handling() {
    let transliterator = create_basic_test_transliterator();

    // Test sentinel handling
    let mut pool = CharPool::new();
    let sentinel = pool.new_sentinel(0);
    let input = vec![sentinel];
    let result = transliterator.transliterate(&mut pool, &input).unwrap();
    assert_eq!(result.len(), 1);
    assert!(
        pool.get(result[0]).c.is_empty(),
        "Sentinel character should be preserved"
    );
}
#[test]
fn test_simple_transliterator_direct_usage() {
    let transliterator = create_basic_test_transliterator();

    // Test direct usage of the transliterator
    let mut pool = CharPool::new();
    let input_chars = pool.build_char_array("abc");
    let result = transliterator.transliterate(&mut pool, &input_chars);

    assert!(result.is_ok());
    let result_chars = result.unwrap();
    let result_string = from_chars(&pool, &result_chars);
    assert_eq!(result_string, "αβγ");
}
#[test]
fn test_simple_transliterator_character_offsets() {
    let transliterator = create_basic_test_transliterator();
    let mut pool = CharPool::new();
    let input_chars = pool.build_char_array("abc");

    let result = transliterator.transliterate(&mut pool, &input_chars);
    assert!(result.is_ok());

    let result_chars = result.unwrap();

    // Check that offsets are preserved from original characters
    assert_eq!(pool.get(result_chars[0]).offset, 0); // 'a' -> 'α'
    assert_eq!(pool.get(result_chars[1]).offset, 2); // 'b' -> 'β'
    assert_eq!(pool.get(result_chars[2]).offset, 4); // 'c' -> 'γ'

    // Check that source tracking works
    assert!(pool.get(result_chars[0]).source.is_some());
    assert!(pool.get(result_chars[1]).source.is_some());
    assert!(pool.get(result_chars[2]).source.is_some());
}
#[test]
fn test_simple_transliterator_variation_selectors() {
    let transliterator = create_basic_test_transliterator();

    // Test input with variation selectors (these should be handled by CharPool)
    let input_with_vs = "a\u{FE00}b"; // 'a' with variation selector-1
    let mut pool = CharPool::new();
    let input_chars = pool.build_char_array(input_with_vs);

    let result = transliterator.transliterate(&mut pool, &input_chars);
    assert!(result.is_ok());

    // The variation selector should be preserved with the character
    let result_chars = result.unwrap();
    let result_string = from_chars(&pool, &result_chars);

    // First character should be the combined sequence, second should be 'β'
    assert!(result_string.contains("β"));
}
#[test]
fn test_simple_transliterator_multibyte_unicode() {
    let transliterator = create_basic_test_transliterator();

    // Test with multibyte Unicode characters
    let input = "a🎌b"; // Japanese flag emoji between mapped characters
    let mut pool = CharPool::new();
    let input_chars = pool.build_char_array(input);

    let result = transliterator.transliterate(&mut pool, &input_chars);
    assert!(result.is_ok());

    let result_chars = result.unwrap();
    let result_string = from_chars(&pool, &result_chars);
    assert_eq!(result_string, "α🎌β");
}
