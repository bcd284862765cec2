use yosina::chars::CharPool;
use yosina::transliterator::Transliterator;
use yosina::transliterators::{
    AnyTransliterator, HiraKataCompositionTransliterator,
    HiraKataCompositionTransliteratorOptions, JapaneseIterationMarksTransliterator,
    JapaneseIterationMarksTransliteratorOptions,
    Jisx0201AndAlikeFullwidthToHalfwidthTransliterator,
    Jisx0201AndAlikeHalfwidthToFullwidthTransliterator, Jisx0201AndAlikeTransliteratorOptions,
    MappingsCache, ProlongedSoundMarksTransliterator, ProlongedSoundMarksTransliteratorOptions,
};

/// The stages that need no table
fn manual_transliterators() -> Vec<AnyTransliterator<'static>> {
    let mut cache = MappingsCache::new();
    vec![
        AnyTransliterator::HiraKataComposition(HiraKataCompositionTransliterator::new(
            HiraKataCompositionTransliteratorOptions::default(),
        )),
        AnyTransliterator::JapaneseIterationMarks(JapaneseIterationMarksTransliterator::new(
            JapaneseIterationMarksTransliteratorOptions::default(),
        )),
        AnyTransliterator::HalfwidthToFullwidth(
            Jisx0201AndAlikeHalfwidthToFullwidthTransliterator::new(
                Jisx0201AndAlikeTransliteratorOptions::default()
                    .build_halfwidth_to_fullwidth_options(),
                &mut cache,
            ),
        ),
        AnyTransliterator::FullwidthToHalfwidth(
            Jisx0201AndAlikeFullwidthToHalfwidthTransliterator::new(
                Jisx0201AndAlikeTransliteratorOptions::default()
                    .build_fullwidth_to_halfwidth_options(),
                &mut cache,
            ),
        ),
        AnyTransliterator::ProlongedSoundMarks(ProlongedSoundMarksTransliterator::new(
            ProlongedSoundMarksTransliteratorOptions::default(),
        )),
    ]
}

#[test]
fn test_all_manual_transliterators_handle_sentinels() {
    let transliterators = manual_transliterators();

    for transliterator in transliterators {
        // Test sentinel handling
        let mut pool = CharPool::new();
        let sentinel = pool.new_sentinel(0);
        let input = vec![sentinel];
        let result = transliterator.transliterate(&mut pool, &input).unwrap();
        assert_eq!(result.len(), 1);
        assert!(
            pool.get(result[0]).c.is_empty(),
            "Sentinel character should be preserved"
        );
    }
}
#[test]
fn test_all_manual_transliterators_handle_empty_input() {
    let transliterators = manual_transliterators();

    for transliterator in transliterators {
        // Test empty input
        let mut pool = CharPool::new();
        let input_chars = pool.build_char_array("");
        let result = transliterator
            .transliterate(&mut pool, &input_chars)
            .unwrap();
        let non_sentinel_chars: Vec<_> = result
        .iter()
        .filter(|&&c| !pool.get(c).c.is_empty())
        .collect();
        assert!(
            non_sentinel_chars.is_empty(),
            "Expected empty result for empty input"
        );
    }
}
