use gen_id::{
    parse_uuid, parse_uuid_with_metadata, ClientMetadata, OsType, UuidFormat, UuidGenerator,
    UuidVersion,
};

fn wait_ms(ms: u64) {
    let start = std::time::Instant::now();
    while start.elapsed() < std::time::Duration::from_millis(ms) {}
}

#[test]
fn lib_test_v4_generation() {
    let generator = UuidGenerator::v4();
    let uuid = generator.generate();

    assert_eq!(uuid.len(), 36);
    assert_eq!(uuid.chars().filter(|&c| c == '-').count(), 4);
    assert!(parse_uuid(&uuid).is_ok());
}

#[test]
fn lib_test_v7_generation() {
    let generator = UuidGenerator::v7();
    let uuid = generator.generate();

    assert_eq!(uuid.len(), 36);
    assert_eq!(uuid.chars().filter(|&c| c == '-').count(), 4);
    assert!(parse_uuid(&uuid).is_ok());
}

#[test]
fn lib_test_v7_sortability() {
    let generator = UuidGenerator::v7();

    let mut uuids = Vec::new();
    for _ in 0..5 {
        uuids.push(generator.generate());
        wait_ms(1);
    }

    let mut sorted = uuids.clone();
    sorted.sort();
    assert_eq!(
        uuids, sorted,
        "UUID v7 should be sortable lexicographically"
    );
}

#[test]
fn lib_test_simple_format() {
    let generator = UuidGenerator::v4().with_format(UuidFormat::Simple);
    let uuid = generator.generate();

    assert_eq!(uuid.len(), 32);
    assert!(!uuid.contains('-'));
    assert!(uuid.chars().all(|c| c.is_ascii_hexdigit()));
}

#[test]
fn lib_test_standard_uppercase_format() {
    let generator = UuidGenerator::v4().with_format(UuidFormat::StandardUppercase);
    let uuid = generator.generate();

    assert_eq!(uuid.len(), 36);
    assert_eq!(uuid.chars().filter(|&c| c == '-').count(), 4);
    assert!(
        uuid.chars()
            .filter(|c| c.is_alphabetic())
            .all(|c| c.is_uppercase())
    );
}

#[test]
fn lib_test_simple_uppercase_format() {
    let generator = UuidGenerator::v4().with_format(UuidFormat::SimpleUppercase);
    let uuid = generator.generate();

    assert_eq!(uuid.len(), 32);
    assert!(!uuid.contains('-'));
    assert!(
        uuid.chars()
            .filter(|c| c.is_alphabetic())
            .all(|c| c.is_uppercase())
    );
}

#[test]
fn lib_test_with_prefix() {
    let generator = UuidGenerator::v4().with_prefix("user_");
    let uuid = generator.generate();

    assert!(uuid.starts_with("user_"));
    assert_eq!(uuid.len(), 41);

    let uuid_part = &uuid[5..];
    assert!(parse_uuid(uuid_part).is_ok());
}

#[test]
fn lib_test_with_prefix_simple_format() {
    let generator = UuidGenerator::v4()
        .with_format(UuidFormat::Simple)
        .with_prefix("id_");
    let uuid = generator.generate();

    assert!(uuid.starts_with("id_"));
    assert_eq!(uuid.len(), 35);
}

#[test]
fn lib_test_without_prefix() {
    let generator = UuidGenerator::v4().with_prefix("test_").without_prefix();
    let uuid = generator.generate();

    assert!(!uuid.starts_with("test_"));
    assert_eq!(uuid.len(), 36);
}

#[test]
fn lib_test_batch_generation() {
    let generator = UuidGenerator::v4();
    let batch = generator.generate_batch(10);

    assert_eq!(batch.len(), 10);

    for uuid in &batch {
        assert!(parse_uuid(uuid).is_ok());
    }

    let unique: std::collections::HashSet<_> = batch.iter().collect();
    assert_eq!(unique.len(), 10);
}

#[test]
fn lib_test_batch_generation_v7() {
    let generator = UuidGenerator::v7();
    let batch = generator.generate_batch(10);

    assert_eq!(batch.len(), 10);

    for uuid in &batch {
        assert!(parse_uuid(uuid).is_ok());
    }
}

#[test]
fn lib_test_batch_with_prefix_and_format() {
    let generator = UuidGenerator::v7()
        .with_format(UuidFormat::SimpleUppercase)
        .with_prefix("ORDER_");
    let batch = generator.generate_batch(5);

    assert_eq!(batch.len(), 5);

    for uuid in &batch {
        assert!(uuid.starts_with("ORDER_"));
        assert_eq!(uuid.len(), 38);

        let uuid_part = &uuid[6..];
        assert!(
            uuid_part
                .chars()
                .filter(|c| c.is_alphabetic())
                .all(|c| c.is_uppercase())
        );
    }
}

#[test]
fn lib_test_default_generator() {
    let generator = UuidGenerator::default();
    let uuid = generator.generate();

    assert_eq!(uuid.len(), 36);
    assert!(parse_uuid(&uuid).is_ok());
}

#[test]
fn lib_test_all_format_combinations() {
    let formats = [
        UuidFormat::Standard,
        UuidFormat::Simple,
        UuidFormat::StandardUppercase,
        UuidFormat::SimpleUppercase,
    ];

    let versions = [UuidVersion::V4, UuidVersion::V7];

    for version in &versions {
        for format in &formats {
            let generator = UuidGenerator::new(*version, *format);
            let uuid = generator.generate();

            match format {
                UuidFormat::Standard => {
                    assert_eq!(uuid.len(), 36);
                    assert_eq!(uuid.chars().filter(|&c| c == '-').count(), 4);
                }
                UuidFormat::Simple => {
                    assert_eq!(uuid.len(), 32);
                    assert!(!uuid.contains('-'));
                }
                UuidFormat::StandardUppercase => {
                    assert_eq!(uuid.len(), 36);
                    assert!(
                        uuid.chars()
                            .filter(|c| c.is_alphabetic())
                            .all(|c| c.is_uppercase())
                    );
                }
                UuidFormat::SimpleUppercase => {
                    assert_eq!(uuid.len(), 32);
                    assert!(
                        uuid.chars()
                            .filter(|c| c.is_alphabetic())
                            .all(|c| c.is_uppercase())
                    );
                }
            }
        }
    }
}

#[test]
fn lib_test_metadata_generation() {
    let metadata = ClientMetadata::new(OsType::MacOS, (14, 5), "test-machine");
    let generator = UuidGenerator::v7();

    let uuid = generator.generate_with_metadata(&metadata);

    assert_eq!(uuid.len(), 36);
    assert!(parse_uuid(&uuid).is_ok());

    let (_, extracted) = parse_uuid_with_metadata(&uuid).unwrap();
    assert!(extracted.is_some());

    let extracted = extracted.unwrap();
    assert_eq!(extracted.os_type, OsType::MacOS);
    assert_eq!(extracted.os_version, (14, 5));
}

#[test]
fn lib_test_metadata_with_prefix() {
    let metadata = ClientMetadata::new(OsType::Linux, (6, 1), "server-01");
    let generator = UuidGenerator::v7().with_prefix("trade_");

    let uuid = generator.generate_with_metadata(&metadata);

    assert!(uuid.starts_with("trade_"));
    assert_eq!(uuid.len(), 42);

    let uuid_part = &uuid[6..];
    let (_, extracted) = parse_uuid_with_metadata(uuid_part).unwrap();
    assert!(extracted.is_some());

    let extracted = extracted.unwrap();
    assert_eq!(extracted.os_type, OsType::Linux);
    assert_eq!(extracted.os_version, (6, 1));
}

#[test]
fn lib_test_metadata_batch_generation() {
    let metadata = ClientMetadata::new(OsType::Windows, (10, 0), "workstation");
    let generator = UuidGenerator::v7();

    let batch = generator.generate_batch_with_metadata(5, &metadata);

    assert_eq!(batch.len(), 5);

    for uuid in &batch {
        assert!(parse_uuid(uuid).is_ok());

        let (_, extracted) = parse_uuid_with_metadata(uuid).unwrap();
        assert!(extracted.is_some());

        let extracted = extracted.unwrap();
        assert_eq!(extracted.os_type, OsType::Windows);
        assert_eq!(extracted.os_version, (10, 0));
    }

    let unique: std::collections::HashSet<_> = batch.iter().collect();
    assert_eq!(unique.len(), 5);
}

#[test]
fn lib_test_metadata_sortability() {
    let metadata = ClientMetadata::new(OsType::MacOS, (14, 0), "test");
    let generator = UuidGenerator::v7();

    let mut uuids = Vec::new();
    for _ in 0..5 {
        uuids.push(generator.generate_with_metadata(&metadata));
        wait_ms(2);
    }

    let mut sorted = uuids.clone();
    sorted.sort();
    assert_eq!(uuids, sorted, "Metadata UUIDs should maintain sortability");
}

#[test]
fn lib_test_metadata_with_user_agent() {
    let metadata = ClientMetadata::new(OsType::Linux, (5, 15), "dev-machine")
        .with_user_agent("TradingApp/1.0");
    let generator = UuidGenerator::v7();

    let uuid1 = generator.generate_with_metadata(&metadata);
    let uuid2 = generator.generate_with_metadata(&metadata);

    assert!(parse_uuid(&uuid1).is_ok());
    assert!(parse_uuid(&uuid2).is_ok());
    assert_ne!(uuid1, uuid2);
}

#[test]
fn lib_test_extract_metadata_from_standard_v7() {
    let generator = UuidGenerator::v7();
    let uuid = generator.generate();

    let (_, extracted) = parse_uuid_with_metadata(&uuid).unwrap();
    assert!(extracted.is_some());
}

#[test]
fn lib_test_extract_metadata_from_v4() {
    let generator = UuidGenerator::v4();
    let uuid = generator.generate();

    let (_, extracted) = parse_uuid_with_metadata(&uuid).unwrap();
    assert!(extracted.is_none(), "v4 UUID should not have metadata");
}

#[test]
fn lib_test_client_metadata_from_system() {
    let metadata = ClientMetadata::from_system();
    let generator = UuidGenerator::v7();

    let uuid = generator.generate_with_metadata(&metadata);
    assert!(parse_uuid(&uuid).is_ok());

    let (_, extracted) = parse_uuid_with_metadata(&uuid).unwrap();
    assert!(extracted.is_some());

    let extracted = extracted.unwrap();
    assert_eq!(extracted.os_type, OsType::current());
}

#[test]
fn lib_test_os_type_encoding_decoding() {
    let test_cases = [
        OsType::Linux,
        OsType::Windows,
        OsType::MacOS,
        OsType::Android,
        OsType::IOS,
    ];

    for os_type in &test_cases {
        let encoded = os_type.encode();
        let decoded = OsType::decode(encoded);
        assert_eq!(*os_type, decoded);
    }
}

#[test]
fn lib_test_metadata_different_hostnames() {
    let generator = UuidGenerator::v7();

    let metadata1 = ClientMetadata::new(OsType::Linux, (5, 0), "host-001");
    let metadata2 = ClientMetadata::new(OsType::Linux, (5, 0), "host-002");

    let uuid1 = generator.generate_with_metadata(&metadata1);
    let uuid2 = generator.generate_with_metadata(&metadata2);

    let (_, ext1) = parse_uuid_with_metadata(&uuid1).unwrap();
    let (_, ext2) = parse_uuid_with_metadata(&uuid2).unwrap();

    assert_ne!(ext1.unwrap().extended_hash, ext2.unwrap().extended_hash);
}

#[test]
fn generator_test_v4_generation() {
    let generator = UuidGenerator::v4();
    let uuid = generator.generate();

    assert_eq!(uuid.len(), 36);
    assert_eq!(uuid.chars().filter(|&c| c == '-').count(), 4);
    assert!(parse_uuid(&uuid).is_ok());
}

#[test]
fn generator_test_v7_generation() {
    let generator = UuidGenerator::v7();
    let uuid = generator.generate();

    assert_eq!(uuid.len(), 36);
    assert_eq!(uuid.chars().filter(|&c| c == '-').count(), 4);
    assert!(parse_uuid(&uuid).is_ok());
}

#[test]
fn generator_test_v7_sortability() {
    let generator = UuidGenerator::v7();

    let mut uuids = Vec::new();
    for _ in 0..5 {
        uuids.push(generator.generate());
        wait_ms(1);
    }

    let mut sorted = uuids.clone();
    sorted.sort();
    assert_eq!(
        uuids, sorted,
        "UUID v7 should be sortable lexicographically"
    );
}

#[test]
fn generator_test_simple_format() {
    let generator = UuidGenerator::v4().with_format(UuidFormat::Simple);
    let uuid = generator.generate();

    assert_eq!(uuid.len(), 32);
    assert!(!uuid.contains('-'));
    assert!(uuid.chars().all(|c| c.is_ascii_hexdigit()));
}

#[test]
fn generator_test_standard_uppercase_format() {
    let generator = UuidGenerator::v4().with_format(UuidFormat::StandardUppercase);
    let uuid = generator.generate();

    assert_eq!(uuid.len(), 36);
    assert_eq!(uuid.chars().filter(|&c| c == '-').count(), 4);
    assert!(
        uuid.chars()
            .filter(|c| c.is_alphabetic())
            .all(|c| c.is_uppercase())
    );
}

#[test]
fn generator_test_simple_uppercase_format() {
    let generator = UuidGenerator::v4().with_format(UuidFormat::SimpleUppercase);
    let uuid = generator.generate();

    assert_eq!(uuid.len(), 32);
    assert!(!uuid.contains('-'));
    assert!(
        uuid.chars()
            .filter(|c| c.is_alphabetic())
            .all(|c| c.is_uppercase())
    );
}

#[test]
fn uuid_generator_test_with_prefix() {
    let generator = UuidGenerator::v4().with_prefix("user_");
    let uuid = generator.generate();

    assert!(uuid.starts_with("user_"));
    assert_eq!(uuid.len(), 41);

    let uuid_part = &uuid[5..];
    assert!(parse_uuid(uuid_part).is_ok());
}

#[test]
fn generator_test_with_prefix_simple_format() {
    let generator = UuidGenerator::v4()
        .with_format(UuidFormat::Simple)
        .with_prefix("id_");
    let uuid = generator.generate();

    assert!(uuid.starts_with("id_"));
    assert_eq!(uuid.len(), 35);
}

#[test]
fn generator_test_without_prefix() {
    let generator = UuidGenerator::v4().with_prefix("test_").without_prefix();
    let uuid = generator.generate();

    assert!(!uuid.starts_with("test_"));
    assert_eq!(uuid.len(), 36);
}

#[test]
fn uuid_generator_test_batch_generation() {
    let generator = UuidGenerator::v4();
    let batch = generator.generate_batch(10);

    assert_eq!(batch.len(), 10);

    for uuid in &batch {
        assert!(parse_uuid(uuid).is_ok());
    }

    let unique: std::collections::HashSet<_> = batch.iter().collect();
    assert_eq!(unique.len(), 10);
}

#[test]
fn generator_test_batch_generation_v7() {
    let generator = UuidGenerator::v7();
    let batch = generator.generate_batch(10);

    assert_eq!(batch.len(), 10);

    for uuid in &batch {
        assert!(parse_uuid(uuid).is_ok());
    }
}

#[test]
fn generator_test_batch_with_prefix_and_format() {
    let generator = UuidGenerator::v7()
        .with_format(UuidFormat::SimpleUppercase)
        .with_prefix("ORDER_");
    let batch = generator.generate_batch(5);

    assert_eq!(batch.len(), 5);

    for uuid in &batch {
        assert!(uuid.starts_with("ORDER_"));
        assert_eq!(uuid.len(), 38);

        let uuid_part = &uuid[6..];
        assert!(
            uuid_part
                .chars()
                .filter(|c| c.is_alphabetic())
                .all(|c| c.is_uppercase())
        );
    }
}

#[test]
fn generator_test_default_generator() {
    let generator = UuidGenerator::default();
    let uuid = generator.generate();

    assert_eq!(uuid.len(), 36);
    assert!(parse_uuid(&uuid).is_ok());
}

#[test]
fn generator_test_all_format_combinations() {
    let formats = [
        UuidFormat::Standard,
        UuidFormat::Simple,
        UuidFormat::StandardUppercase,
        UuidFormat::SimpleUppercase,
    ];

    let versions = [UuidVersion::V4, UuidVersion::V7];

    for version in &versions {
        for format in &formats {
            let generator = UuidGenerator::new(*version, *format);
            let uuid = generator.generate();

            match format {
                UuidFormat::Standard => {
                    assert_eq!(uuid.len(), 36);
                    assert_eq!(uuid.chars().filter(|&c| c == '-').count(), 4);
                }
                UuidFormat::Simple => {
                    assert_eq!(uuid.len(), 32);
                    assert!(!uuid.contains('-'));
                }
                UuidFormat::StandardUppercase => {
                    assert_eq!(uuid.len(), 36);
                    assert!(
                        uuid.chars()
                            .filter(|c| c.is_alphabetic())
                            .all(|c| c.is_uppercase())
                    );
                }
                UuidFormat::SimpleUppercase => {
                    assert_eq!(uuid.len(), 32);
                    assert!(
                        uuid.chars()
                            .filter(|c| c.is_alphabetic())
                            .all(|c| c.is_uppercase())
                    );
                }
            }
        }
    }
}

#[test]
fn generator_test_metadata_generation() {
    let metadata = ClientMetadata::new(OsType::MacOS, (14, 5), "test-machine");
    let generator = UuidGenerator::v7();

    let uuid = generator.generate_with_metadata(&metadata);

    assert_eq!(uuid.len(), 36);
    assert!(parse_uuid(&uuid).is_ok());

    let (_, extracted) = parse_uuid_with_metadata(&uuid).unwrap();
    assert!(extracted.is_some());

    let extracted = extracted.unwrap();
    assert_eq!(extracted.os_type, OsType::MacOS);
    assert_eq!(extracted.os_version, (14, 5));
}

#[test]
fn generator_test_metadata_with_prefix() {
    let metadata = ClientMetadata::new(OsType::Linux, (6, 1), "server-01");
    let generator = UuidGenerator::v7().with_prefix("trade_");

    let uuid = generator.generate_with_metadata(&metadata);

    assert!(uuid.starts_with("trade_"));
    assert_eq!(uuid.len(), 42);

    let uuid_part = &uuid[6..];
    let (_, extracted) = parse_uuid_with_metadata(uuid_part).unwrap();
    assert!(extracted.is_some());

    let extracted = extracted.unwrap();
    assert_eq!(extracted.os_type, OsType::Linux);
    assert_eq!(extracted.os_version, (6, 1));
}

#[test]
fn generator_test_metadata_batch_generation() {
    let metadata = ClientMetadata::new(OsType::Windows, (10, 0), "workstation");
    let generator = UuidGenerator::v7();

    let batch = generator.generate_batch_with_metadata(5, &metadata);

    assert_eq!(batch.len(), 5);

    for uuid in &batch {
        assert!(parse_uuid(uuid).is_ok());

        let (_, extracted) = parse_uuid_with_metadata(uuid).unwrap();
        assert!(extracted.is_some());

        let extracted = extracted.unwrap();
        assert_eq!(extracted.os_type, OsType::Windows);
        assert_eq!(extracted.os_version, (10, 0));
    }

    let unique: std::collections::HashSet<_> = batch.iter().collect();
    assert_eq!(unique.len(), 5);
}

#[test]
fn generator_test_metadata_sortability() {
    let metadata = ClientMetadata::new(OsType::MacOS, (14, 0), "test");
    let generator = UuidGenerator::v7();

    let mut uuids = Vec::new();
    for _ in 0..5 {
        uuids.push(generator.generate_with_metadata(&metadata));
        wait_ms(2);
    }

    let mut sorted = uuids.clone();
    sorted.sort();
    assert_eq!(uuids, sorted, "Metadata UUIDs should maintain sortability");
}

#[test]
fn generator_test_metadata_with_user_agent() {
    let metadata = ClientMetadata::new(OsType::Linux, (5, 15), "dev-machine")
        .with_user_agent("TradingApp/1.0");
    let generator = UuidGenerator::v7();

    let uuid1 = generator.generate_with_metadata(&metadata);
    let uuid2 = generator.generate_with_metadata(&metadata);

    assert!(parse_uuid(&uuid1).is_ok());
    assert!(parse_uuid(&uuid2).is_ok());
    assert_ne!(uuid1, uuid2);
}
