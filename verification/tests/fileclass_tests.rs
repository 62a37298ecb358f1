use diskpulse::fileclass::{category_for_extension, category_id, classify_by_extension, classify_magic, classify_path, ClassifierModel, FileCategory};

#[test]
fn classifies_extended_signatures() {
    assert_eq!(classify_magic(b"SQLite format 3\0"), FileCategory::SystemDb);
    assert_eq!(classify_magic(b"ID3\x04\x00\x00"), FileCategory::MediaAudio);
    assert_eq!(classify_magic(b"\0\0\0\x18ftypmp42"), FileCategory::MediaVideo);
}

#[test]
fn magic_classifies_header_when_extension_missing() {
    assert_eq!(classify_magic(b"%PDF-1.7"), FileCategory::Pdf);
    assert_eq!(classify_magic(&[0x89, b'P', b'N', b'G', 0x0d, 0x0a]), FileCategory::MediaImage);
}

#[test]
fn exposes_v085_synthetic_training_count() {
    assert!(ClassifierModel::default().synthetic_training_sample_count() >= 5_000);
}

#[test]
fn magic_covers_archives_installers_and_unknown() {
    assert_eq!(classify_magic(b"PK\x03\x04rest"), FileCategory::ArchiveCompressed);
    assert_eq!(classify_magic(&[0x1f, 0x8b, 0]), FileCategory::ArchiveCompressed);
    assert_eq!(classify_magic(b"MZ\x90\x00"), FileCategory::Installer);
    assert_eq!(classify_magic(&[0xff, 0xd8, 0xff, 0xe0]), FileCategory::MediaImage);
    assert_eq!(classify_magic(b"fLaC"), FileCategory::MediaAudio);
    assert_eq!(classify_magic(b"hello"), FileCategory::Unknown);
    assert_eq!(classify_magic(b""), FileCategory::Unknown);
}

#[test]
fn extension_classifies_common_files() {
    assert_eq!(classify_path("report.pdf", FileCategory::Unknown), FileCategory::Pdf);
    assert_eq!(classify_path("cache.tmp", FileCategory::Unknown), FileCategory::Temp);
    assert_eq!(classify_path("movie.mp4", FileCategory::Unknown), FileCategory::MediaVideo);
    assert_eq!(classify_path("README", FileCategory::Build), FileCategory::Build);
    assert_eq!(category_for_extension("JPEG"), Some(FileCategory::MediaImage));
    assert_eq!(category_for_extension("xyz"), None);
}

#[test]
fn category_ids_are_snake_case() {
    assert_eq!(category_id(&FileCategory::DocumentText), "document_text");
    assert_eq!(category_id(&FileCategory::SystemDb), "system_db");
    assert_eq!(category_id(&FileCategory::Unknown), "unknown");
}

#[test]
fn classify_by_extension_falls_back_to_model() {
    assert_eq!(classify_by_extension(Some("PDF"), FileCategory::Unknown), FileCategory::Pdf);
    assert_eq!(classify_by_extension(Some("weird"), FileCategory::Build), FileCategory::Build);
    assert_eq!(classify_by_extension(None, FileCategory::DevCache), FileCategory::DevCache);
}

#[test]
fn classify_path_uses_last_extension_of_file_name() {
    assert_eq!(classify_path("backup.tar.GZ", FileCategory::Unknown), FileCategory::ArchiveCompressed);
    assert_eq!(classify_path("/home/me/notes.md", FileCategory::Unknown), FileCategory::DocumentText);
    assert_eq!(classify_path(".bashrc", FileCategory::Config), FileCategory::Config);
}

#[test]
fn every_category_has_its_own_id() {
    let all = [
        FileCategory::DocumentText,
        FileCategory::Office,
        FileCategory::Pdf,
        FileCategory::ArchiveCompressed,
        FileCategory::Installer,
        FileCategory::MediaImage,
        FileCategory::MediaAudio,
        FileCategory::MediaVideo,
        FileCategory::DevCache,
        FileCategory::Build,
        FileCategory::Dependency,
        FileCategory::SystemDb,
        FileCategory::Config,
        FileCategory::Temp,
        FileCategory::Unknown,
    ];
    let ids: Vec<&str> = all.iter().map(|c| category_id(c)).collect();
    for i in 0..ids.len() {
        for j in 0..ids.len() {
            if i != j {
                assert_ne!(ids[i], ids[j]);
            }
        }
    }
    assert_eq!(category_id(&FileCategory::DevCache), "dev_cache");
    assert_eq!(category_id(&FileCategory::ArchiveCompressed), "archive_compressed");
}

#[test]
fn trimming_drops_exactly_unicode_white_space() {
    for code in 0u32..0x3100 {
        let Some(c) = char::from_u32(code) else { continue };
        let text: Vec<char> = vec![c, 'x', c];
        let expected: Vec<char> = text.iter().collect::<String>().trim().chars().collect();
        assert_eq!(diskpulse::text::trim(&text), expected, "code point {:#x}", code);
    }
}
