use yosina::chars::CharPool;
use yosina::dataset::{Dataset, HyphensRecord};
use yosina::transliterator::Transliterator;
use yosina::transliterators::{
    HyphensTransliterationVariant, HyphensTransliterator, HyphensTransliteratorOptions,
    MappingsCache, TransliteratorConfig,
};

fn empty_table() -> &'static phf::Map<&'static str, &'static str> {
    Box::leak(Box::new(phf::Map::new()))
}

fn record(
    code: &str,
    ascii: Option<&str>,
    jisx0201: Option<&str>,
    jisx0208_90: Option<&str>,
    jisx0208_90_windows: Option<&str>,
    jisx0208_verbatim: Option<&str>,
) -> (String, HyphensRecord) {
    (
        code.to_string(),
        HyphensRecord {
            ascii: ascii.map(|s| s.to_string()),
            jisx0201: jisx0201.map(|s| s.to_string()),
            jisx0208_90: jisx0208_90.map(|s| s.to_string()),
            jisx0208_90_windows: jisx0208_90_windows.map(|s| s.to_string()),
            jisx0208_verbatim: jisx0208_verbatim.map(|s| s.to_string()),
        },
    )
}

/// The entries for the characters that the tests use.
fn hyphens() -> Vec<(String, HyphensRecord)> {
    vec![
        record("\u{002d}", Some("-"), Some("-"), Some("\u{2212}"), Some("\u{2212}"), None),
        record("\u{2012}", Some("-"), Some("-"), Some("\u{2015}"), Some("\u{2015}"), None),
        record("\u{2014}", Some("-"), Some("-"), Some("\u{2014}"), Some("\u{2015}"), Some("\u{2014}")),
        record("\u{301c}", Some("~"), Some("~"), Some("\u{301c}"), Some("\u{ff5e}"), Some("\u{301c}")),
        record("\u{ff0d}", Some("-"), Some("-"), Some("\u{2212}"), Some("\u{ff0d}"), None),
        record("\u{ff5c}", Some("|"), Some("|"), Some("\u{ff5c}"), Some("\u{ff5c}"), None),
    ]
}

fn dataset() -> Dataset {
    Dataset {
        spaces: empty_table(),
        radicals: empty_table(),
        mathematical_alphanumerics: empty_table(),
        ideographic_annotations: empty_table(),
        kanji_old_new: empty_table(),
        combined: empty_table(),
        roman_numerals: empty_table(),
        hyphens: hyphens(),
        ivs_svs_base: Vec::new(),
        circled_or_squared: Vec::new(),
    }
}

#[test]
fn test_ascii_variant() {
    let entries = hyphens();
    let transliterator = HyphensTransliterator::new(vec![HyphensTransliterationVariant::Ascii], &entries);
    let mut pool = CharPool::new();

    let input_chars = pool.build_char_array("—");
    let result = transliterator
        .transliterate(&mut pool, &input_chars)
        .unwrap();

    assert_eq!(result.len(), 2);
    assert_eq!(pool.get(result[0]).c(), Some("-"));
}
#[test]
fn test_jisx0201_variant() {
    let entries = hyphens();
    let transliterator = HyphensTransliterator::new(vec![HyphensTransliterationVariant::Jisx0201], &entries);
    let mut pool = CharPool::new();

    let input_chars = pool.build_char_array("－");
    let result = transliterator
        .transliterate(&mut pool, &input_chars)
        .unwrap();

    assert_eq!(result.len(), 2);
    assert_eq!(pool.get(result[0]).c(), Some("-"));
}
#[test]
fn test_jisx0208_90_variant() {
    let entries = hyphens();
    let transliterator =
        HyphensTransliterator::new(vec![HyphensTransliterationVariant::Jisx0208_90], &entries);
    let mut pool = CharPool::new();

    let input_chars = pool.build_char_array("－");
    let result = transliterator
        .transliterate(&mut pool, &input_chars)
        .unwrap();

    assert_eq!(result.len(), 2);
    assert_eq!(pool.get(result[0]).c(), Some("−"));
}
#[test]
fn test_jisx0208_90_windows_variant() {
    let entries = hyphens();
    let transliterator =
        HyphensTransliterator::new(vec![HyphensTransliterationVariant::Jisx0208_90Windows], &entries);
    let mut pool = CharPool::new();

    let input_chars = pool.build_char_array("－");
    let result = transliterator
        .transliterate(&mut pool, &input_chars)
        .unwrap();

    assert_eq!(result.len(), 2);
    assert_eq!(pool.get(result[0]).c(), Some("－"));
}
#[test]
fn test_precedence_order() {
    let entries = hyphens();
    let transliterator = HyphensTransliterator::new(vec![
        HyphensTransliterationVariant::Ascii,
        HyphensTransliterationVariant::Jisx0208_90,
    ], &entries);
    let mut pool = CharPool::new();

    let input_chars = pool.build_char_array("－");
    let result = transliterator
        .transliterate(&mut pool, &input_chars)
        .unwrap();

    assert_eq!(result.len(), 2);
    assert_eq!(pool.get(result[0]).c(), Some("-"));
}
#[test]
fn test_no_mapping_leaves_unchanged() {
    let entries = hyphens();
    let transliterator = HyphensTransliterator::new(vec![HyphensTransliterationVariant::Ascii], &entries);
    let mut pool = CharPool::new();

    let input_chars = pool.build_char_array("abc");
    let result = transliterator
        .transliterate(&mut pool, &input_chars)
        .unwrap();

    assert_eq!(result.len(), 4);
    assert_eq!(pool.get(result[0]).c(), Some("a"));
    assert_eq!(pool.get(result[1]).c(), Some("b"));
    assert_eq!(pool.get(result[2]).c(), Some("c"));
}
#[test]
fn test_mixed_input() {
    let entries = hyphens();
    let transliterator = HyphensTransliterator::new(vec![HyphensTransliterationVariant::Ascii], &entries);
    let mut pool = CharPool::new();

    let input_chars = pool.build_char_array("hello—world");
    let result = transliterator
        .transliterate(&mut pool, &input_chars)
        .unwrap();

    assert_eq!(result.len(), 12);
    assert_eq!(pool.get(result[5]).c(), Some("-"));
}
#[test]
fn test_vertical_lines() {
    let entries = hyphens();
    let transliterator =
        HyphensTransliterator::new(vec![HyphensTransliterationVariant::Jisx0208_90], &entries);
    let mut pool = CharPool::new();

    let input_chars = pool.build_char_array("｜");
    let result = transliterator
        .transliterate(&mut pool, &input_chars)
        .unwrap();

    assert_eq!(result.len(), 2);
    assert_eq!(pool.get(result[0]).c(), Some("｜"));
}
#[test]
fn test_wave_dash() {
    let entries = hyphens();
    let transliterator = HyphensTransliterator::new(vec![HyphensTransliterationVariant::Ascii], &entries);
    let mut pool = CharPool::new();

    let input_chars = pool.build_char_array("〜");
    let result = transliterator
        .transliterate(&mut pool, &input_chars)
        .unwrap();

    assert_eq!(result.len(), 2);
    assert_eq!(pool.get(result[0]).c(), Some("~"));
}
#[test]
fn test_multiple_variants_fallback() {
    let entries = hyphens();
    let transliterator = HyphensTransliterator::new(vec![
        HyphensTransliterationVariant::Jisx0208Verbatim,
        HyphensTransliterationVariant::Ascii,
    ], &entries);
    let mut pool = CharPool::new();

    let input_chars = pool.build_char_array("‒");
    let result = transliterator
        .transliterate(&mut pool, &input_chars)
        .unwrap();

    assert_eq!(result.len(), 2);
    assert_eq!(pool.get(result[0]).c(), Some("-"));
}
#[test]
fn hyphens_test_factory() {
    let options = HyphensTransliteratorOptions {
        precedence: vec![HyphensTransliterationVariant::Ascii],
    };
    let data = dataset();
    let mut cache = MappingsCache::new();
    let transliterator = TransliteratorConfig::Hyphens(options)
        .new_transliterator(&data, &mut cache)
        .unwrap();
    let mut pool = CharPool::new();

    let input_chars = pool.build_char_array("—");
    let result = transliterator
        .transliterate(&mut pool, &input_chars)
        .unwrap();

    assert_eq!(result.len(), 2);
    assert_eq!(pool.get(result[0]).c(), Some("-"));
}
