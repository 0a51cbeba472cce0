use gen_id::{NanoIdGenerator, DEFAULT_LENGTH};
use std::collections::HashSet;

#[test]
fn test_default_length() {
    let generator = NanoIdGenerator::new();
    let id = generator.generate(None, None);
    assert_eq!(id.len(), DEFAULT_LENGTH);
}

#[test]
fn test_custom_length() {
    let generator = NanoIdGenerator::new();
    let id = generator.generate(None, Some(20));
    assert_eq!(id.len(), 20);
}

#[test]
fn generator_test_with_prefix() {
    let generator = NanoIdGenerator::new();
    let id = generator.generate(Some("test_"), None);
    assert!(id.starts_with("test_"));
    assert_eq!(id.len(), 5 + DEFAULT_LENGTH);
}

#[test]
fn test_alphanumeric_characters() {
    let generator = NanoIdGenerator::new();
    let id = generator.generate(None, None);

    for ch in id.chars() {
        assert!(ch.is_ascii_alphanumeric());
    }
}

#[test]
fn generator_test_batch_generation() {
    let generator = NanoIdGenerator::new();
    let batch_size = 10;
    let ids = generator.generate_batch(batch_size, None, None);

    assert_eq!(ids.len(), batch_size);

    for id in &ids {
        assert_eq!(id.len(), DEFAULT_LENGTH);
    }
}

#[test]
fn test_batch_uniqueness() {
    let generator = NanoIdGenerator::new();
    let ids = generator.generate_batch(100, None, None);

    let unique_ids: HashSet<_> = ids.iter().collect();
    assert_eq!(
        unique_ids.len(),
        ids.len(),
        "Generated IDs should be unique"
    );
}

#[test]
fn test_batch_with_prefix() {
    let generator = NanoIdGenerator::new();
    let ids = generator.generate_batch(5, Some("item_"), Some(8));

    assert_eq!(ids.len(), 5);
    for id in ids {
        assert!(id.starts_with("item_"));
        assert_eq!(id.len(), 5 + 8);
    }
}

#[test]
fn test_randomness() {
    let generator = NanoIdGenerator::new();
    let id1 = generator.generate(None, None);
    let id2 = generator.generate(None, None);

    assert_ne!(id1, id2);
}

#[test]
fn test_runtime_prefix_and_length() {
    let generator = NanoIdGenerator::new();

    let user_id = generator.generate(Some("user_"), None);
    let order_id = generator.generate(Some("order_"), None);
    assert!(user_id.starts_with("user_"));
    assert!(order_id.starts_with("order_"));

    let short_id = generator.generate(None, Some(8));
    let long_id = generator.generate(None, Some(20));
    assert_eq!(short_id.len(), 8);
    assert_eq!(long_id.len(), 20);

    let custom_id = generator.generate(Some("item_"), Some(16));
    assert!(custom_id.starts_with("item_"));
    assert_eq!(custom_id.len(), 5 + 16);
}

#[test]
fn nanoid_length_one() {
    let id = NanoIdGenerator::default().generate(None, Some(1));
    assert_eq!(id.len(), 1);
    assert!(id.chars().all(|c| c.is_ascii_alphanumeric()));
}

#[test]
fn nanoid_empty_batch() {
    let ids = NanoIdGenerator::new().generate_batch(0, Some("x_"), None);
    assert!(ids.is_empty());
}
