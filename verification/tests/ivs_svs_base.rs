use yosina::chars::{is_selector, CharPool};
use yosina::transliterator::Transliterator;
use yosina::transliterators::{
    Charset, IvsSvsBaseMode, IvsSvsBaseRecord, IvsSvsBaseTransliterator,
    IvsSvsBaseTransliteratorOptions,
};

fn ivs_record(ivs: &str, svs: Option<&str>, base90: Option<&str>, base2004: Option<&str>) -> IvsSvsBaseRecord {
    IvsSvsBaseRecord {
        ivs: ivs.to_string(),
        svs: svs.map(|s| s.to_string()),
        base90: base90.map(|s| s.to_string()),
        base2004: base2004.map(|s| s.to_string()),
    }
}

/// The records for the characters that the tests use.
fn ivs_records() -> Vec<IvsSvsBaseRecord> {
    vec![
        ivs_record("\u{4EDD}\u{E0100}", None, Some("\u{4EDD}"), Some("\u{4EDD}")),
        ivs_record("\u{8FBB}\u{E0100}", None, Some("\u{8FBB}"), None),
        ivs_record("\u{8FBB}\u{E0101}", None, None, Some("\u{8FBB}")),
        ivs_record("\u{9038}\u{E0100}", Some("\u{9038}\u{FE00}"), Some("\u{FA67}"), Some("\u{FA67}")),
    ]
}

#[test]
fn test_basic_ivs_replacement() {
    let records = ivs_records();
    let test_cases = vec![
        (Charset::Unijis90, "\u{8FBB}\u{E0100}", "\u{8FBB}"),
        (
            Charset::Unijis2004,
            "\u{8FBB}\u{E0100}",
            "\u{8FBB}\u{E0100}",
        ),
        (Charset::Unijis90, "\u{8FBB}\u{E0101}", "\u{8FBB}\u{E0101}"),
        (Charset::Unijis2004, "\u{8FBB}\u{E0101}", "\u{8FBB}"),
        (Charset::Unijis2004, "\u{4EDD}\u{E0100}", "\u{4EDD}"),
    ];
    for (charset, input, expected) in test_cases {
        let options = IvsSvsBaseTransliteratorOptions {
            mode: IvsSvsBaseMode::Base,
            charset,
            drop_selectors_altogether: false,
        };
        let transliterator = IvsSvsBaseTransliterator::new(options, &records);
        let mut pool = CharPool::new();

        // Test basic IVS sequence replacement
        // Using a known IVS sequence from the data
        let input_chars = pool.build_char_array(input);
        let result = transliterator
            .transliterate(&mut pool, &input_chars)
            .unwrap();

        // Should replace IVS with base90 variant (default)
        assert_eq!(result.len(), 2); // replacement + sentinel
        assert_eq!(pool.get(result[0]).c, expected); // Base90 replacement
        assert!(pool.get(result[1]).c.is_empty()); // sentinel
    }
}
#[test]
fn test_different_variants() {
    let records = ivs_records();
    let mut pool = CharPool::new();

    // Test base90 charset (default)
    let base90_options = IvsSvsBaseTransliteratorOptions {
        mode: IvsSvsBaseMode::Base,
        charset: Charset::Unijis90,
        ..Default::default()
    };
    let base90_transliterator = IvsSvsBaseTransliterator::new(base90_options, &records);

    let input_chars = pool.build_char_array("\u{4EDD}\u{E0100}");
    let result = base90_transliterator
        .transliterate(&mut pool, &input_chars)
        .unwrap();
    assert_eq!(pool.get(result[0]).c, "\u{4EDD}");

    // Test base2004 charset
    let base2004_options = IvsSvsBaseTransliteratorOptions {
        mode: IvsSvsBaseMode::Base,
        charset: Charset::Unijis2004,
        ..Default::default()
    };
    let base2004_transliterator = IvsSvsBaseTransliterator::new(base2004_options, &records);

    let input_chars2 = pool.build_char_array("\u{4EDD}\u{E0100}");
    let result2 = base2004_transliterator
        .transliterate(&mut pool, &input_chars2)
        .unwrap();
    assert_eq!(pool.get(result2[0]).c, "\u{4EDD}");
}
#[test]
fn test_no_replacement_for_non_ivs() {
    let records = ivs_records();
    let options = IvsSvsBaseTransliteratorOptions::default();
    let transliterator = IvsSvsBaseTransliterator::new(options, &records);
    let mut pool = CharPool::new();

    // Test that non-IVS characters are preserved
    let input_chars = pool.build_char_array("普通の文字");
    let result = transliterator
        .transliterate(&mut pool, &input_chars)
        .unwrap();

    // Should preserve all original characters
    assert_eq!(result.len(), 6); // 5 characters + sentinel
    assert_eq!(pool.get(result[0]).c, "普");
    assert_eq!(pool.get(result[1]).c, "通");
    assert_eq!(pool.get(result[2]).c, "の");
    assert_eq!(pool.get(result[3]).c, "文");
    assert_eq!(pool.get(result[4]).c, "字");
    assert!(pool.get(result[5]).c.is_empty()); // sentinel
}
#[test]
fn test_drop_selectors() {
    let records = ivs_records();
    let options = IvsSvsBaseTransliteratorOptions {
        mode: IvsSvsBaseMode::Base,
        charset: Charset::Unijis90,
        drop_selectors_altogether: true,
    };
    let transliterator = IvsSvsBaseTransliterator::new(options, &records);
    let mut pool = CharPool::new();

    // Test with selectors that should be dropped
    let input_chars = pool.build_char_array("字\u{E0100}文\u{FE00}");
    let result = transliterator
        .transliterate(&mut pool, &input_chars)
        .unwrap();

    // With drop_selectors_altogether=true, selectors should be removed
    assert_eq!(result.len(), 3); // "字", "文", sentinel
    assert_eq!(pool.get(result[0]).c, "字");
    assert_eq!(pool.get(result[1]).c, "文");
    assert!(pool.get(result[2]).c.is_empty()); // sentinel
}
#[test]
fn test_is_selector() {
    // Test IVS selectors (U+E0100 to U+E01EF)
    assert!(is_selector('\u{E0100}'));
    assert!(is_selector('\u{E0150}'));
    assert!(is_selector('\u{E01EF}'));

    // Test SVS selectors (U+FE00 to U+FE0F)
    assert!(is_selector('\u{FE00}'));
    assert!(is_selector('\u{FE05}'));
    assert!(is_selector('\u{FE0F}'));

    // Test non-selectors
    assert!(!is_selector('a'));
    assert!(!is_selector('字'));
    assert!(!is_selector('\u{E0099}')); // Just before IVS range
    assert!(!is_selector('\u{E01F0}')); // Just after IVS range
    assert!(!is_selector('\u{FDFF}')); // Just before SVS range
    assert!(!is_selector('\u{FE10}')); // Just after SVS range
}
#[test]
fn test_ivs_svs_base_record_creation() {
    // Test creating records with different combinations of fields
    let record1 = IvsSvsBaseRecord {
        ivs: "test_ivs".to_string(),
        svs: Some("test_svs".to_string()),
        base90: Some("test_base90".to_string()),
        base2004: Some("test_base2004".to_string()),
    };
    assert_eq!(record1.ivs, "test_ivs");
    assert_eq!(record1.svs.as_deref(), Some("test_svs"));
    assert_eq!(record1.base90.as_deref(), Some("test_base90"));
    assert_eq!(record1.base2004.as_deref(), Some("test_base2004"));

    let record2 = IvsSvsBaseRecord {
        ivs: "ivs_only".to_string(),
        svs: None,
        base90: None,
        base2004: None,
    };
    assert_eq!(record2.ivs, "ivs_only");
    assert_eq!(record2.svs, None);
    assert_eq!(record2.base90, None);
    assert_eq!(record2.base2004, None);
}
#[test]
fn test_ivs_or_svs_mode() {
    let records = ivs_records();
    let mut pool = CharPool::new();

    // Test IvsOrSvs mode with prefer_svs = false (default to IVS)
    let ivs_options = IvsSvsBaseTransliteratorOptions {
        mode: IvsSvsBaseMode::IvsOrSvs(false),
        charset: Charset::Unijis90,
        drop_selectors_altogether: false,
    };
    let ivs_transliterator = IvsSvsBaseTransliterator::new(ivs_options, &records);

    // Test IvsOrSvs mode with prefer_svs = true
    let svs_options = IvsSvsBaseTransliteratorOptions {
        mode: IvsSvsBaseMode::IvsOrSvs(true),
        charset: Charset::Unijis90,
        drop_selectors_altogether: false,
    };
    let svs_transliterator = IvsSvsBaseTransliterator::new(svs_options, &records);

    // Test with known character from mapping data
    let input_chars = pool.build_char_array("\u{8FBB}");

    let ivs_result = ivs_transliterator
        .transliterate(&mut pool, &input_chars)
        .unwrap();
    assert_eq!(ivs_result.len(), 2); // character + sentinel

    let svs_result = svs_transliterator
        .transliterate(&mut pool, &input_chars)
        .unwrap();
    assert_eq!(svs_result.len(), 2); // character + sentinel
}
#[test]
fn test_svs_sequences() {
    let records = ivs_records();
    let mut pool = CharPool::new();

    // Test Base mode with SVS sequences
    let options = IvsSvsBaseTransliteratorOptions {
        mode: IvsSvsBaseMode::Base,
        charset: Charset::Unijis2004,
        drop_selectors_altogether: false,
    };
    let transliterator = IvsSvsBaseTransliterator::new(options, &records);

    // Test various SVS sequences
    let test_cases = vec![
        ("字\u{FE00}", 2), // SVS selector FE00
        ("文\u{FE01}", 2), // SVS selector FE01
        ("本\u{FE0F}", 2), // SVS selector FE0F
    ];

    for (input, expected_len) in test_cases {
        let input_chars = pool.build_char_array(input);
        let result = transliterator
            .transliterate(&mut pool, &input_chars)
            .unwrap();
        assert_eq!(result.len(), expected_len);
    }
}
#[test]
fn ivs_svs_base_test_edge_cases() {
    let records = ivs_records();
    let mut pool = CharPool::new();
    let options = IvsSvsBaseTransliteratorOptions::default();
    let transliterator = IvsSvsBaseTransliterator::new(options, &records);

    // Test empty input
    let empty_input = pool.build_char_array("");
    let empty_result = transliterator
        .transliterate(&mut pool, &empty_input)
        .unwrap();
    assert_eq!(empty_result.len(), 1); // Just sentinel
    assert!(pool.get(empty_result[0]).c.is_empty());

    // Test single character
    let single_char = pool.build_char_array("a");
    let single_result = transliterator
        .transliterate(&mut pool, &single_char)
        .unwrap();
    assert_eq!(single_result.len(), 2); // character + sentinel
    assert_eq!(pool.get(single_result[0]).c, "a");

    // Test invalid sequences (selector without base)
    let invalid_ivs = pool.build_char_array("\u{E0100}");
    let invalid_result = transliterator
        .transliterate(&mut pool, &invalid_ivs)
        .unwrap();
    assert_eq!(invalid_result.len(), 2); // selector + sentinel
    assert_eq!(pool.get(invalid_result[0]).c, "\u{E0100}");
}
#[test]
fn ivs_svs_base_test_mixed_content() {
    let records = ivs_records();
    let mut pool = CharPool::new();

    // Test with drop_selectors_altogether enabled
    let options = IvsSvsBaseTransliteratorOptions {
        mode: IvsSvsBaseMode::Base,
        charset: Charset::Unijis90,
        drop_selectors_altogether: true,
    };
    let transliterator = IvsSvsBaseTransliterator::new(options, &records);

    // Mixed content with IVS, SVS, and regular characters
    let mixed_input = pool.build_char_array("漢\u{E0100}字\u{FE00}文化");
    let result = transliterator
        .transliterate(&mut pool, &mixed_input)
        .unwrap();

    // Should have: "漢", "字", "文", "化", sentinel
    assert_eq!(result.len(), 5);
    assert_eq!(pool.get(result[0]).c, "漢");
    assert_eq!(pool.get(result[1]).c, "字");
    assert_eq!(pool.get(result[2]).c, "文");
    assert_eq!(pool.get(result[3]).c, "化");
    assert!(pool.get(result[4]).c.is_empty()); // sentinel
}
#[test]
fn test_mappings_initialization() {
    // Test that the records answer in both directions and for both editions
    let records = ivs_records();
    assert!(!records.is_empty());

    let key = "\u{8FBB}".to_string();
    for charset in [Charset::Unijis90, Charset::Unijis2004] {
        let to_selector = IvsSvsBaseTransliterator::new(
            IvsSvsBaseTransliteratorOptions {
                mode: IvsSvsBaseMode::IvsOrSvs(false),
                charset,
                drop_selectors_altogether: false,
            },
            &records,
        );
        let selector = to_selector.lookup(&key);
        assert!(selector.is_some());

        let to_base = IvsSvsBaseTransliterator::new(
            IvsSvsBaseTransliteratorOptions {
                mode: IvsSvsBaseMode::Base,
                charset,
                drop_selectors_altogether: false,
            },
            &records,
        );
        assert_eq!(to_base.lookup(&selector.unwrap()), Some(key.clone()));
    }
}
#[test]
fn test_multiple_selectors_in_sequence() {
    let records = ivs_records();
    let mut pool = CharPool::new();

    // Test handling of multiple consecutive selectors
    let options = IvsSvsBaseTransliteratorOptions {
        mode: IvsSvsBaseMode::Base,
        charset: Charset::Unijis2004,
        drop_selectors_altogether: true,
    };
    let transliterator = IvsSvsBaseTransliterator::new(options, &records);

    // Multiple selectors on same character
    let input = pool.build_char_array("字\u{E0100}\u{FE00}");
    let result = transliterator.transliterate(&mut pool, &input).unwrap();

    // Should handle gracefully
    assert!(!result.is_empty());
}
