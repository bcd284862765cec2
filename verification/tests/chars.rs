use yosina::chars::{from_chars, CharPool};

#[test]
fn test_build_char_array_basic() {
    let input = "Hello";
    let mut pool = CharPool::new();
    let chars = pool.build_char_array(input);

    assert_eq!(chars.len(), 6); // 5 characters + sentinel
    assert_eq!(pool.get(chars[0]).c, "H");
    assert_eq!(pool.get(chars[0]).offset, 0);
    assert_eq!(pool.get(chars[1]).c, "e");
    assert_eq!(pool.get(chars[1]).offset, 1);
    assert_eq!(pool.get(chars[4]).c, "o");
    assert_eq!(pool.get(chars[4]).offset, 4);
    assert_eq!(pool.get(chars[5]).c, ""); // sentinel
    assert_eq!(pool.get(chars[5]).offset, 5);
}
#[test]
fn test_build_char_array_empty() {
    let input = "";
    let mut pool = CharPool::new();
    let chars = pool.build_char_array(input);

    assert_eq!(chars.len(), 1); // Just sentinel
    assert_eq!(pool.get(chars[0]).c, "");
    assert_eq!(pool.get(chars[0]).offset, 0);
}
#[test]
fn test_build_char_array_unicode() {
    let input = "こんにちは"; // Japanese hiragana
    let mut pool = CharPool::new();
    let chars = pool.build_char_array(input);

    assert_eq!(chars.len(), 6); // 5 characters + sentinel
    assert_eq!(pool.get(chars[0]).c, "こ");
    assert_eq!(pool.get(chars[1]).c, "ん");
    assert_eq!(pool.get(chars[2]).c, "に");
    assert_eq!(pool.get(chars[3]).c, "ち");
    assert_eq!(pool.get(chars[4]).c, "は");
    assert_eq!(pool.get(chars[5]).c, ""); // sentinel
}
#[test]
fn test_build_char_array_offsets() {
    let input = "A𝓣"; // 'A' (1 byte) + Mathematical Script Capital T (4 bytes UTF-8)
    let mut pool = CharPool::new();
    let chars = pool.build_char_array(input);

    assert_eq!(chars.len(), 3); // 2 characters + sentinel
    assert_eq!(pool.get(chars[0]).c, "A");
    assert_eq!(pool.get(chars[0]).offset, 0);
    assert_eq!(pool.get(chars[1]).c, "𝓣");
    assert_eq!(pool.get(chars[1]).offset, 1); // Offset in UTF-8 bytes
    assert_eq!(pool.get(chars[2]).offset, 5); // Should be after both characters
}
#[test]
fn test_from_chars_basic() {
    let mut pool = CharPool::new();
    let chars = [
        pool.new_char("H".to_string(), 0),
        pool.new_char("e".to_string(), 1),
        pool.new_char("l".to_string(), 2),
        pool.new_char("l".to_string(), 3),
        pool.new_char("o".to_string(), 4),
        pool.new_sentinel(5), // sentinel
    ];
    let result = from_chars(&pool, &chars.to_vec());
    assert_eq!(result, "Hello");
}
#[test]
fn test_char_iterator_dyn_compatibility() {
    let mut pool = CharPool::new();
    let chars = pool.build_char_array("Hello");
    let iter: Box<dyn Iterator<Item = usize>> = Box::new(chars.iter().cloned());

    let collected: Vec<_> = iter.collect();
    assert_eq!(collected.len(), 6); // 5 characters + sentinel
    assert_eq!(pool.get(collected[0]).c, "H");
    assert_eq!(pool.get(collected[1]).c, "e");
    assert_eq!(pool.get(collected[5]).c, ""); // sentinel
}
