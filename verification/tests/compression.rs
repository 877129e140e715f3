use nohuman::compression::CompressionFormat;

#[test]
fn test_compression_format_from_str() {
    let format = "b".parse::<CompressionFormat>().unwrap();
    assert_eq!(format, CompressionFormat::Bzip2);

    let format = "g".parse::<CompressionFormat>().unwrap();
    assert_eq!(format, CompressionFormat::Gzip);

    let format = "x".parse::<CompressionFormat>().unwrap();
    assert_eq!(format, CompressionFormat::Xz);

    let format = "z".parse::<CompressionFormat>().unwrap();
    assert_eq!(format, CompressionFormat::Zstd);

    let format = "Z".parse::<CompressionFormat>().unwrap();
    assert_eq!(format, CompressionFormat::Zstd);

    let format = "u".parse::<CompressionFormat>().unwrap();
    assert_eq!(format, CompressionFormat::Uncompressed);

    let format = "J".parse::<CompressionFormat>();
    assert!(format.is_err());
}

#[test]
fn test_compression_format_from_path() {
    let format = CompressionFormat::from_path("file.txt").unwrap();
    assert_eq!(format, CompressionFormat::Uncompressed);

    let format = CompressionFormat::from_path("file.txt.gz").unwrap();
    assert_eq!(format, CompressionFormat::Gzip);

    let format = CompressionFormat::from_path("file.txt.bz2").unwrap();
    assert_eq!(format, CompressionFormat::Bzip2);

    let format = CompressionFormat::from_path("file.txt.xz").unwrap();
    assert_eq!(format, CompressionFormat::Xz);

    let format = CompressionFormat::from_path("file.txt.zst").unwrap();
    assert_eq!(format, CompressionFormat::Zstd);

    let format = CompressionFormat::from_path("file.txt.zstd").unwrap();
    assert_eq!(format, CompressionFormat::Zstd);
}

#[test]
fn test_compression_format_display() {
    let format = CompressionFormat::Bzip2;
    assert_eq!(format.extension(), "bz2");

    let format = CompressionFormat::Gzip;
    assert_eq!(format.extension(), "gz");

    let format = CompressionFormat::Uncompressed;
    assert_eq!(format.extension(), "");

    let format = CompressionFormat::Xz;
    assert_eq!(format.extension(), "xz");

    let format = CompressionFormat::Zstd;
    assert_eq!(format.extension(), "zst");
}

#[test]
fn test_compression_format_is_compressed() {
    let format = CompressionFormat::Bzip2;
    assert!(format.is_compressed());

    let format = CompressionFormat::Gzip;
    assert!(format.is_compressed());

    let format = CompressionFormat::Uncompressed;
    assert!(!format.is_compressed());

    let format = CompressionFormat::Xz;
    assert!(format.is_compressed());

    let format = CompressionFormat::Zstd;
    assert!(format.is_compressed());
}

#[test]
fn test_compression_format_add_extension() {
    let format = CompressionFormat::Bzip2;
    let new_path = format.add_extension("file.txt");
    assert_eq!(new_path, String::from("file.txt.bz2"));

    let format = CompressionFormat::Gzip;
    let new_path = format.add_extension("file.txt");
    assert_eq!(new_path, String::from("file.txt.gz"));

    let format = CompressionFormat::Uncompressed;
    let new_path = format.add_extension("file.txt");
    assert_eq!(new_path, String::from("file.txt"));

    let format = CompressionFormat::Xz;
    let new_path = format.add_extension("file.txt");
    assert_eq!(new_path, String::from("file.txt.xz"));

    let format = CompressionFormat::Zstd;
    let new_path = format.add_extension("file.txt");
    assert_eq!(new_path, String::from("file.txt.zst"));
}

#[test]
fn test_detect_gzip_format() {
    let data = vec![
        0x1f, 0x8b, 0x08, 0x08, 0x1c, 0x6b, 0xe2, 0x66, 0x00, 0x03, 0x74, 0x65, 0x78, 0x74, 0x2e,
        0x74, 0x78, 0x74, 0x00, 0x4b, 0xcb, 0xcf, 0x57, 0x48, 0x4a, 0x2c, 0xe2, 0x02, 0x00, 0x27,
        0xb4, 0xdd, 0x13, 0x08, 0x00, 0x00, 0x00,
    ];
    let format = nohuman::compression::detect_format(&data);
    assert_eq!(format, CompressionFormat::Gzip);
}

#[test]
fn test_detect_bzip2_format() {
    let data = vec![
        0x42, 0x5a, 0x68, 0x39, 0x31, 0x41, 0x59, 0x26, 0x53, 0x59, 0x7b, 0x6e, 0xa8, 0x38, 0x00,
        0x00, 0x02, 0x51, 0x80, 0x00, 0x10, 0x40, 0x00, 0x31, 0x00, 0x90, 0x00, 0x20, 0x00, 0x22,
        0x1a, 0x63, 0x50, 0x86, 0x00, 0x2c, 0x8c, 0x3c, 0x5d, 0xc9, 0x14, 0xe1, 0x42, 0x41, 0xed,
        0xba, 0xa0, 0xe0,
    ];
    let format = nohuman::compression::detect_format(&data);
    assert_eq!(format, CompressionFormat::Bzip2);
}

#[test]
fn test_detect_zstd_format() {
    let data = vec![
        0x28, 0xb5, 0x2f, 0xfd, 0x24, 0x08, 0x41, 0x00, 0x00, 0x66, 0x6f, 0x6f, 0x20, 0x62, 0x61,
        0x72, 0x0a, 0x37, 0x17, 0xa5, 0xec,
    ];
    let format = nohuman::compression::detect_format(&data);
    assert_eq!(format, CompressionFormat::Zstd);
}

#[test]
fn test_detect_xz_format() {
    let data = vec![
        0xfd, 0x37, 0x7a, 0x58, 0x5a, 0x00, 0x00, 0x04, 0xe6, 0xd6, 0xb4, 0x46, 0x02, 0x00, 0x21,
        0x01, 0x16, 0x00, 0x00, 0x00, 0x74, 0x2f, 0xe5, 0xa3, 0x01, 0x00, 0x07, 0x66, 0x6f, 0x6f,
        0x20, 0x62, 0x61, 0x72, 0x0a, 0x00, 0xfd, 0xbb, 0xfb, 0x3b, 0x8e, 0xcc, 0x32, 0x13, 0x00,
        0x01, 0x20, 0x08, 0xbb, 0x19, 0xd9, 0xbb, 0x1f, 0xb6, 0xf3, 0x7d, 0x01, 0x00, 0x00, 0x00,
        0x00, 0x04, 0x59, 0x5a,
    ];
    let format = nohuman::compression::detect_format(&data);
    assert_eq!(format, CompressionFormat::Xz);
}

#[test]
fn test_detect_none_format() {
    let data = b"I'm not compressed";
    let format = nohuman::compression::detect_format(data);
    assert_eq!(format, CompressionFormat::Uncompressed);
}

#[test]
fn from_reader_takes_the_magic_bytes() {
    let format = CompressionFormat::from_reader(&[0x1f, 0x8b, 0x00, 0x00, 0x00]).unwrap();
    assert_eq!(format, CompressionFormat::Gzip);
    let format = CompressionFormat::from_reader(&[0x00, 0x01]).unwrap();
    assert_eq!(format, CompressionFormat::Uncompressed);
}

#[test]
fn format_for_code_takes_only_the_folded_codes() {
    assert_eq!(CompressionFormat::format_for_code("b"), Some(CompressionFormat::Bzip2));
    assert_eq!(CompressionFormat::format_for_code("g"), Some(CompressionFormat::Gzip));
    assert_eq!(CompressionFormat::format_for_code("x"), Some(CompressionFormat::Xz));
    assert_eq!(CompressionFormat::format_for_code("z"), Some(CompressionFormat::Zstd));
    assert_eq!(CompressionFormat::format_for_code("u"), Some(CompressionFormat::Uncompressed));
    // an unfolded code is not taken here; from_code folds it first
    assert_eq!(CompressionFormat::format_for_code("B"), None);
    assert_eq!(CompressionFormat::format_for_code("bz2"), None);
}

#[test]
fn add_extension_without_existing_extension() {
    let format = CompressionFormat::Zstd;
    assert_eq!(format.add_extension("file"), String::from("file.zst"));
}

#[test]
fn from_path_ignores_dot_in_directory_name() {
    let format = CompressionFormat::from_path("dir.gz/file").unwrap();
    assert_eq!(format, CompressionFormat::Uncompressed);
    let format = CompressionFormat::from_path("dir.tar/file.gz").unwrap();
    assert_eq!(format, CompressionFormat::Gzip);
    let format = CompressionFormat::from_path(".gz").unwrap();
    assert_eq!(format, CompressionFormat::Uncompressed);
}
