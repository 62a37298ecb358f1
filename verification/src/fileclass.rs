//! File categories: by extension, by the magic bytes at the start of a file,
//! and the category identifiers shown to the user.
use vstd::prelude::*;
use crate::text::{ascii_lower, chars_of, has_sub, str_eq, string_of, to_ascii_lower};

verus! {

pub const MODEL_VERSION: &'static str = "stage3-softmax-v0.8.5";

pub const SYNTHETIC_TRAINING_SAMPLES: usize = 6000;

#[derive(Debug, Clone, Copy, PartialEq, Eq, Structural)]
pub enum FileCategory {
    DocumentText,
    Office,
    Pdf,
    ArchiveCompressed,
    Installer,
    MediaImage,
    MediaAudio,
    MediaVideo,
    DevCache,
    Build,
    Dependency,
    SystemDb,
    Config,
    Temp,
    Unknown,
}

#[derive(Debug, Clone, Copy, PartialEq, Eq, Structural)]
pub enum ClassificationStage {
    Extension,
    Magic,
    Stage3Model,
    Unknown,
}

pub open spec fn starts(bytes: Seq<u8>, p: Seq<u8>) -> bool {
    p.len() <= bytes.len() && bytes.take(p.len() as int) == p
}

/// The category that the first bytes of a file announce.
pub open spec fn magic_category(b: Seq<u8>) -> FileCategory {
    if starts(b, seq![0x25u8, 0x50, 0x44, 0x46]) {
        FileCategory::Pdf
    } else if starts(b, seq![0x89u8, 0x50, 0x4e, 0x47]) || starts(b, seq![0xffu8, 0xd8, 0xff]) {
        FileCategory::MediaImage
    } else if starts(b, seq![0x49u8, 0x44, 0x33]) || starts(b, seq![0x66u8, 0x4c, 0x61, 0x43]) {
        FileCategory::MediaAudio
    } else if b.len() >= 8 && b.subrange(4, 8) == seq![0x66u8, 0x74, 0x79, 0x70] {
        FileCategory::MediaVideo
    } else if starts(b, seq![0x50u8, 0x4b, 0x03, 0x04]) || starts(b, seq![0x1fu8, 0x8b]) || starts(
        b,
        seq![0x37u8, 0x7a, 0xbc, 0xaf, 0x27, 0x1c],
    ) {
        FileCategory::ArchiveCompressed
    } else if starts(b, seq![0x4du8, 0x5a]) {
        FileCategory::Installer
    } else if starts(
        b,
        seq![0x53u8, 0x51, 0x4c, 0x69, 0x74, 0x65, 0x20, 0x66, 0x6f, 0x72, 0x6d, 0x61, 0x74, 0x20, 0x33],
    ) {
        FileCategory::SystemDb
    } else {
        FileCategory::Unknown
    }
}

proof fn lemma_starts(b: Seq<u8>, p: Seq<u8>)
    ensures
        starts(b, p) <==> (p.len() <= b.len() && forall|i: int| 0 <= i < p.len() ==> b[i] == p[i]),
{
    if p.len() <= b.len() {
        if forall|i: int| 0 <= i < p.len() ==> b[i] == p[i] {
            assert(b.take(p.len() as int) =~= p);
        }
        if starts(b, p) {
            assert forall|i: int| 0 <= i < p.len() implies b[i] == p[i] by {
                assert(b.take(p.len() as int)[i] == p[i]);
            }
        }
    }
}

/// What the first bytes of a file announce: `%PDF` a PDF; the PNG or JPEG
/// signature an image; `ID3` or `fLaC` audio; `ftyp` at offset 4 a video;
/// the ZIP, gzip or 7-Zip signature an archive; `MZ` an installer; the
/// SQLite header a database. Earlier signatures win where two could apply.
pub proof fn law_magic_signatures(b: Seq<u8>)
    ensures
        b.len() >= 4 && b[0] == 0x25 && b[1] == 0x50 && b[2] == 0x44 && b[3] == 0x46 ==> magic_category(b)
            == FileCategory::Pdf,
        b.len() >= 4 && b[0] == 0x89 && b[1] == 0x50 && b[2] == 0x4e && b[3] == 0x47 ==> magic_category(b)
            == FileCategory::MediaImage,
        b.len() >= 3 && b[0] == 0xff && b[1] == 0xd8 && b[2] == 0xff ==> magic_category(b) == FileCategory::MediaImage,
        b.len() >= 3 && b[0] == 0x49 && b[1] == 0x44 && b[2] == 0x33 ==> magic_category(b) == FileCategory::MediaAudio,
        b.len() >= 4 && b[0] == 0x66 && b[1] == 0x4c && b[2] == 0x61 && b[3] == 0x43 ==> magic_category(b)
            == FileCategory::MediaAudio,
        b.len() >= 8 && b[0] != 0x25 && b[0] != 0x89 && b[0] != 0xff && b[0] != 0x49 && b[0] != 0x66 && b[4]
            == 0x66 && b[5] == 0x74 && b[6] == 0x79 && b[7] == 0x70 ==> magic_category(b) == FileCategory::MediaVideo,
        b.len() >= 2 && b[0] == 0x1f && b[1] == 0x8b && !(b.len() >= 8 && b[4] == 0x66 && b[5] == 0x74 && b[6] == 0x79
            && b[7] == 0x70) ==> magic_category(b) == FileCategory::ArchiveCompressed,
        b.len() >= 4 && b[0] == 0x50 && b[1] == 0x4b && b[2] == 0x03 && b[3] == 0x04 && !(b.len() >= 8 && b[4] == 0x66
            && b[5] == 0x74 && b[6] == 0x79 && b[7] == 0x70) ==> magic_category(b) == FileCategory::ArchiveCompressed,
        b.len() >= 2 && b[0] == 0x4d && b[1] == 0x5a && !(b.len() >= 8 && b[4] == 0x66 && b[5] == 0x74 && b[6] == 0x79
            && b[7] == 0x70) ==> magic_category(b) == FileCategory::Installer,
        b.len() == 0 ==> magic_category(b) == FileCategory::Unknown,
{
    lemma_starts(b, seq![0x25u8, 0x50, 0x44, 0x46]);
    lemma_starts(b, seq![0x89u8, 0x50, 0x4e, 0x47]);
    lemma_starts(b, seq![0xffu8, 0xd8, 0xff]);
    lemma_starts(b, seq![0x49u8, 0x44, 0x33]);
    lemma_starts(b, seq![0x66u8, 0x4c, 0x61, 0x43]);
    lemma_starts(b, seq![0x50u8, 0x4b, 0x03, 0x04]);
    lemma_starts(b, seq![0x1fu8, 0x8b]);
    lemma_starts(b, seq![0x37u8, 0x7a, 0xbc, 0xaf, 0x27, 0x1c]);
    lemma_starts(b, seq![0x4du8, 0x5a]);
    lemma_starts(
        b,
        seq![0x53u8, 0x51, 0x4c, 0x69, 0x74, 0x65, 0x20, 0x66, 0x6f, 0x72, 0x6d, 0x61, 0x74, 0x20, 0x33],
    );
    if b.len() >= 8 {
        let v = seq![0x66u8, 0x74, 0x79, 0x70];
        if b[4] == 0x66 && b[5] == 0x74 && b[6] == 0x79 && b[7] == 0x70 {
            assert(b.subrange(4, 8) =~= v);
        } else {
            if b.subrange(4, 8) == v {
                assert(b.subrange(4, 8)[0] == b[4] && b.subrange(4, 8)[1] == b[5] && b.subrange(4, 8)[2] == b[6]
                    && b.subrange(4, 8)[3] == b[7]);
            }
        }
    }
}

fn starts_with(bytes: &[u8], p: &[u8]) -> (r: bool)
    ensures
        r == starts(bytes@, p@),
{
    if p.len() > bytes.len() {
        return false;
    }
    let mut i: usize = 0;
    while i < p.len()
        invariant
            p@.len() <= bytes@.len(),
            i <= p@.len(),
            forall|k: int| 0 <= k < i ==> bytes@[k] == p@[k],
        decreases p.len() - i,
    {
        if bytes[i] != p[i] {
            assert(bytes@.take(p@.len() as int)[i as int] != p@[i as int]);
            return false;
        }
        i = i + 1;
    }
    assert(bytes@.take(p@.len() as int) =~= p@);
    true
}

/// Classify a file by its first bytes.
pub fn classify_magic(bytes: &[u8]) -> (c: FileCategory)
    ensures
        c == magic_category(bytes@),
{
    let pdf: [u8; 4] = [0x25, 0x50, 0x44, 0x46];
    let png: [u8; 4] = [0x89, 0x50, 0x4e, 0x47];
    let jpg: [u8; 3] = [0xff, 0xd8, 0xff];
    let id3: [u8; 3] = [0x49, 0x44, 0x33];
    let flac: [u8; 4] = [0x66, 0x4c, 0x61, 0x43];
    let ftyp: [u8; 4] = [0x66, 0x74, 0x79, 0x70];
    let zip: [u8; 4] = [0x50, 0x4b, 0x03, 0x04];
    let gz: [u8; 2] = [0x1f, 0x8b];
    let sevenz: [u8; 6] = [0x37, 0x7a, 0xbc, 0xaf, 0x27, 0x1c];
    let mz: [u8; 2] = [0x4d, 0x5a];
    let sqlite: [u8; 15] = [0x53, 0x51, 0x4c, 0x69, 0x74, 0x65, 0x20, 0x66, 0x6f, 0x72, 0x6d, 0x61, 0x74, 0x20, 0x33];
    assert(pdf@ =~= seq![0x25u8, 0x50, 0x44, 0x46]);
    assert(png@ =~= seq![0x89u8, 0x50, 0x4e, 0x47]);
    assert(jpg@ =~= seq![0xffu8, 0xd8, 0xff]);
    assert(id3@ =~= seq![0x49u8, 0x44, 0x33]);
    assert(flac@ =~= seq![0x66u8, 0x4c, 0x61, 0x43]);
    assert(ftyp@ =~= seq![0x66u8, 0x74, 0x79, 0x70]);
    assert(zip@ =~= seq![0x50u8, 0x4b, 0x03, 0x04]);
    assert(gz@ =~= seq![0x1fu8, 0x8b]);
    assert(sevenz@ =~= seq![0x37u8, 0x7a, 0xbc, 0xaf, 0x27, 0x1c]);
    assert(mz@ =~= seq![0x4du8, 0x5a]);
    assert(sqlite@ =~= seq![0x53u8, 0x51, 0x4c, 0x69, 0x74, 0x65, 0x20, 0x66, 0x6f, 0x72, 0x6d, 0x61, 0x74, 0x20, 0x33]);
    if starts_with(bytes, &pdf) {
        FileCategory::Pdf
    } else if starts_with(bytes, &png) || starts_with(bytes, &jpg) {
        FileCategory::MediaImage
    } else if starts_with(bytes, &id3) || starts_with(bytes, &flac) {
        FileCategory::MediaAudio
    } else if bytes.len() >= 8 && bytes[4] == 0x66 && bytes[5] == 0x74 && bytes[6] == 0x79 && bytes[7] == 0x70 {
        assert(bytes@.subrange(4, 8) =~= seq![0x66u8, 0x74, 0x79, 0x70]);
        FileCategory::MediaVideo
    } else if starts_with(bytes, &zip) || starts_with(bytes, &gz) || starts_with(bytes, &sevenz) {
        proof {
            if bytes@.len() >= 8 {
                assert(bytes@.subrange(4, 8) != seq![0x66u8, 0x74, 0x79, 0x70] ==> true);
            }
        }
        FileCategory::ArchiveCompressed
    } else if starts_with(bytes, &mz) {
        FileCategory::Installer
    } else if starts_with(bytes, &sqlite) {
        FileCategory::SystemDb
    } else {
        FileCategory::Unknown
    }
}

/// The identifier of a category.
pub open spec fn category_name(c: FileCategory) -> Seq<char> {
    match c {
        FileCategory::DocumentText => "document_text"@,
        FileCategory::Office => "office"@,
        FileCategory::Pdf => "pdf"@,
        FileCategory::ArchiveCompressed => "archive_compressed"@,
        FileCategory::Installer => "installer"@,
        FileCategory::MediaImage => "media_image"@,
        FileCategory::MediaAudio => "media_audio"@,
        FileCategory::MediaVideo => "media_video"@,
        FileCategory::DevCache => "dev_cache"@,
        FileCategory::Build => "build"@,
        FileCategory::Dependency => "dependency"@,
        FileCategory::SystemDb => "system_db"@,
        FileCategory::Config => "config"@,
        FileCategory::Temp => "temp"@,
        FileCategory::Unknown => "unknown"@,
    }
}

pub fn category_id(category: &FileCategory) -> (r: &'static str)
    ensures
        r@ == category_name(*category),
{
    proof {
        reveal_strlit("document_text");
        reveal_strlit("office");
        reveal_strlit("pdf");
        reveal_strlit("archive_compressed");
        reveal_strlit("installer");
        reveal_strlit("media_image");
        reveal_strlit("media_audio");
        reveal_strlit("media_video");
        reveal_strlit("dev_cache");
        reveal_strlit("build");
        reveal_strlit("dependency");
        reveal_strlit("system_db");
        reveal_strlit("config");
        reveal_strlit("temp");
        reveal_strlit("unknown");
    }
    match category {
        FileCategory::DocumentText => "document_text",
        FileCategory::Office => "office",
        FileCategory::Pdf => "pdf",
        FileCategory::ArchiveCompressed => "archive_compressed",
        FileCategory::Installer => "installer",
        FileCategory::MediaImage => "media_image",
        FileCategory::MediaAudio => "media_audio",
        FileCategory::MediaVideo => "media_video",
        FileCategory::DevCache => "dev_cache",
        FileCategory::Build => "build",
        FileCategory::Dependency => "dependency",
        FileCategory::SystemDb => "system_db",
        FileCategory::Config => "config",
        FileCategory::Temp => "temp",
        FileCategory::Unknown => "unknown",
    }
}

/// No two categories share an identifier: the identifier names the
/// category it came from.
pub proof fn law_category_ids_are_distinct(a: FileCategory, b: FileCategory)
    requires
        a != b,
    ensures
        category_name(a) != category_name(b),
{
    reveal_strlit("document_text");
    reveal_strlit("office");
    reveal_strlit("pdf");
    reveal_strlit("archive_compressed");
    reveal_strlit("installer");
    reveal_strlit("media_image");
    reveal_strlit("media_audio");
    reveal_strlit("media_video");
    reveal_strlit("dev_cache");
    reveal_strlit("build");
    reveal_strlit("dependency");
    reveal_strlit("system_db");
    reveal_strlit("config");
    reveal_strlit("temp");
    reveal_strlit("unknown");
    if category_name(a) == category_name(b) {
        let x = category_name(a);
        assert(x.len() == category_name(b).len());
        assert(x[0] == category_name(b)[0]);
        assert(x[x.len() - 1] == category_name(b)[x.len() - 1]);
        assert(x.len() > 6 ==> x[6] == category_name(b)[6]);
    }
}

pub open spec fn one_of(e: Seq<char>, names: Seq<Seq<char>>) -> bool {
    exists|k: int| 0 <= k < names.len() && names[k] == e
}

/// The category of a file extension, compared in ASCII lower case.
pub open spec fn extension_category(ext: Seq<char>) -> Option<FileCategory> {
    extension_category_of_lower(ascii_lower(ext))
}

/// The category of an extension already in ASCII lower case.
pub open spec fn extension_category_of_lower(e: Seq<char>) -> Option<FileCategory> {
    if one_of(e, seq!["txt"@, "md"@, "log"@, "csv"@, "json"@, "xml"@]) {
        Some(FileCategory::DocumentText)
    } else if one_of(e, seq!["doc"@, "docx"@, "xls"@, "xlsx"@, "ppt"@, "pptx"@]) {
        Some(FileCategory::Office)
    } else if e == "pdf"@ {
        Some(FileCategory::Pdf)
    } else if one_of(e, seq!["zip"@, "7z"@, "rar"@, "tar"@, "gz"@]) {
        Some(FileCategory::ArchiveCompressed)
    } else if one_of(e, seq!["msi"@, "exe"@, "dmg"@, "pkg"@, "deb"@, "appimage"@]) {
        Some(FileCategory::Installer)
    } else if one_of(e, seq!["png"@, "jpg"@, "jpeg"@, "gif"@, "webp"@, "bmp"@, "ico"@]) {
        Some(FileCategory::MediaImage)
    } else if one_of(e, seq!["mp3"@, "wav"@, "flac"@, "aac"@, "ogg"@]) {
        Some(FileCategory::MediaAudio)
    } else if one_of(e, seq!["mp4"@, "mov"@, "mkv"@, "avi"@, "webm"@]) {
        Some(FileCategory::MediaVideo)
    } else if one_of(e, seq!["sqlite"@, "db"@, "wal"@]) {
        Some(FileCategory::SystemDb)
    } else if one_of(e, seq!["toml"@, "yaml"@, "yml"@, "ini"@, "conf"@]) {
        Some(FileCategory::Config)
    } else if one_of(e, seq!["tmp"@, "temp"@]) {
        Some(FileCategory::Temp)
    } else {
        None
    }
}

proof fn lemma_not_listed(e: Seq<char>, names: Seq<Seq<char>>)
    requires
        forall|k: int|
            0 <= k < names.len() ==> (#[trigger] names[k]).len() != e.len() || names[k][0] != e[0]
                || names[k][1] != e[1] || (names[k].len() > 2 && names[k][2] != e[2]) || (names[k].len() > 3
                && names[k][3] != e[3]),
    ensures
        !one_of(e, names),
        forall|k: int| 0 <= k < names.len() ==> #[trigger] names[k] != e,
{
    assert forall|k: int| 0 <= k < names.len() implies #[trigger] names[k] != e by {
        if names[k] == e {
            assert(names[k][0] == e[0] && names[k][1] == e[1] && names[k][2] == e[2] && names[k][3] == e[3]);
        }
    }
    if one_of(e, names) {
        let k = choose|k: int| 0 <= k < names.len() && names[k] == e;
        assert(names[k][0] == e[0] && names[k][1] == e[1] && names[k][2] == e[2] && names[k][3] == e[3]);
    }
}

proof fn lemma_listed(e: Seq<char>, names: Seq<Seq<char>>, i: int)
    requires
        0 <= i < names.len(),
        names[i] == e,
    ensures
        one_of(e, names),
{
}

/// The document_text extensions `txt`, `md`, `log`, `csv`, `json`, `xml`, in any ASCII case, are classified as
/// `DocumentText`.
pub proof fn law_document_text_extensions(ext: Seq<char>)
    requires
        ascii_lower(ext) == "txt"@ || ascii_lower(ext) == "md"@ || ascii_lower(ext) == "log"@ || ascii_lower(ext) == "csv"@ || ascii_lower(ext) == "json"@ || ascii_lower(ext) == "xml"@,
    ensures
        extension_category(ext) == Some(FileCategory::DocumentText),
{
    let e = ascii_lower(ext);
    reveal_strlit("txt");
    reveal_strlit("md");
    reveal_strlit("log");
    reveal_strlit("csv");
    reveal_strlit("json");
    reveal_strlit("xml");
    if e == "txt"@ { lemma_listed(e, seq!["txt"@, "md"@, "log"@, "csv"@, "json"@, "xml"@], 0); } if e == "md"@ { lemma_listed(e, seq!["txt"@, "md"@, "log"@, "csv"@, "json"@, "xml"@], 1); } if e == "log"@ { lemma_listed(e, seq!["txt"@, "md"@, "log"@, "csv"@, "json"@, "xml"@], 2); } if e == "csv"@ { lemma_listed(e, seq!["txt"@, "md"@, "log"@, "csv"@, "json"@, "xml"@], 3); } if e == "json"@ { lemma_listed(e, seq!["txt"@, "md"@, "log"@, "csv"@, "json"@, "xml"@], 4); } if e == "xml"@ { lemma_listed(e, seq!["txt"@, "md"@, "log"@, "csv"@, "json"@, "xml"@], 5); }
}

/// The office extensions `doc`, `docx`, `xls`, `xlsx`, `ppt`, `pptx`, in any ASCII case, are classified as
/// `Office`.
pub proof fn law_office_extensions(ext: Seq<char>)
    requires
        ascii_lower(ext) == "doc"@ || ascii_lower(ext) == "docx"@ || ascii_lower(ext) == "xls"@ || ascii_lower(ext) == "xlsx"@ || ascii_lower(ext) == "ppt"@ || ascii_lower(ext) == "pptx"@,
    ensures
        extension_category(ext) == Some(FileCategory::Office),
{
    let e = ascii_lower(ext);
    reveal_strlit("txt");
    reveal_strlit("md");
    reveal_strlit("log");
    reveal_strlit("csv");
    reveal_strlit("json");
    reveal_strlit("xml");
    reveal_strlit("doc");
    reveal_strlit("docx");
    reveal_strlit("xls");
    reveal_strlit("xlsx");
    reveal_strlit("ppt");
    reveal_strlit("pptx");
    lemma_not_listed(e, seq!["txt"@, "md"@, "log"@, "csv"@, "json"@, "xml"@]);
    if e == "doc"@ { lemma_listed(e, seq!["doc"@, "docx"@, "xls"@, "xlsx"@, "ppt"@, "pptx"@], 0); } if e == "docx"@ { lemma_listed(e, seq!["doc"@, "docx"@, "xls"@, "xlsx"@, "ppt"@, "pptx"@], 1); } if e == "xls"@ { lemma_listed(e, seq!["doc"@, "docx"@, "xls"@, "xlsx"@, "ppt"@, "pptx"@], 2); } if e == "xlsx"@ { lemma_listed(e, seq!["doc"@, "docx"@, "xls"@, "xlsx"@, "ppt"@, "pptx"@], 3); } if e == "ppt"@ { lemma_listed(e, seq!["doc"@, "docx"@, "xls"@, "xlsx"@, "ppt"@, "pptx"@], 4); } if e == "pptx"@ { lemma_listed(e, seq!["doc"@, "docx"@, "xls"@, "xlsx"@, "ppt"@, "pptx"@], 5); }
}

/// The pdf extensions `pdf`, in any ASCII case, are classified as
/// `Pdf`.
pub proof fn law_pdf_extensions(ext: Seq<char>)
    requires
        ascii_lower(ext) == "pdf"@,
    ensures
        extension_category(ext) == Some(FileCategory::Pdf),
{
    let e = ascii_lower(ext);
    reveal_strlit("txt");
    reveal_strlit("md");
    reveal_strlit("log");
    reveal_strlit("csv");
    reveal_strlit("json");
    reveal_strlit("xml");
    reveal_strlit("doc");
    reveal_strlit("docx");
    reveal_strlit("xls");
    reveal_strlit("xlsx");
    reveal_strlit("ppt");
    reveal_strlit("pptx");
    reveal_strlit("pdf");
    lemma_not_listed(e, seq!["txt"@, "md"@, "log"@, "csv"@, "json"@, "xml"@]);
    lemma_not_listed(e, seq!["doc"@, "docx"@, "xls"@, "xlsx"@, "ppt"@, "pptx"@]);
    if e == "pdf"@ { lemma_listed(e, seq!["pdf"@], 0); }
}

/// The archive extensions `zip`, `7z`, `rar`, `tar`, `gz`, in any ASCII case, are classified as
/// `ArchiveCompressed`.
pub proof fn law_archive_extensions(ext: Seq<char>)
    requires
        ascii_lower(ext) == "zip"@ || ascii_lower(ext) == "7z"@ || ascii_lower(ext) == "rar"@ || ascii_lower(ext) == "tar"@ || ascii_lower(ext) == "gz"@,
    ensures
        extension_category(ext) == Some(FileCategory::ArchiveCompressed),
{
    let e = ascii_lower(ext);
    reveal_strlit("txt");
    reveal_strlit("md");
    reveal_strlit("log");
    reveal_strlit("csv");
    reveal_strlit("json");
    reveal_strlit("xml");
    reveal_strlit("doc");
    reveal_strlit("docx");
    reveal_strlit("xls");
    reveal_strlit("xlsx");
    reveal_strlit("ppt");
    reveal_strlit("pptx");
    reveal_strlit("pdf");
    reveal_strlit("zip");
    reveal_strlit("7z");
    reveal_strlit("rar");
    reveal_strlit("tar");
    reveal_strlit("gz");
    lemma_not_listed(e, seq!["txt"@, "md"@, "log"@, "csv"@, "json"@, "xml"@]);
    lemma_not_listed(e, seq!["doc"@, "docx"@, "xls"@, "xlsx"@, "ppt"@, "pptx"@]);
    lemma_not_listed(e, seq!["pdf"@]);
    assert(seq!["pdf"@][0] != e);
    if e == "zip"@ { lemma_listed(e, seq!["zip"@, "7z"@, "rar"@, "tar"@, "gz"@], 0); } if e == "7z"@ { lemma_listed(e, seq!["zip"@, "7z"@, "rar"@, "tar"@, "gz"@], 1); } if e == "rar"@ { lemma_listed(e, seq!["zip"@, "7z"@, "rar"@, "tar"@, "gz"@], 2); } if e == "tar"@ { lemma_listed(e, seq!["zip"@, "7z"@, "rar"@, "tar"@, "gz"@], 3); } if e == "gz"@ { lemma_listed(e, seq!["zip"@, "7z"@, "rar"@, "tar"@, "gz"@], 4); }
}

/// The installer extensions `msi`, `exe`, `dmg`, `pkg`, `deb`, `appimage`, in any ASCII case, are classified as
/// `Installer`.
pub proof fn law_installer_extensions(ext: Seq<char>)
    requires
        ascii_lower(ext) == "msi"@ || ascii_lower(ext) == "exe"@ || ascii_lower(ext) == "dmg"@ || ascii_lower(ext) == "pkg"@ || ascii_lower(ext) == "deb"@ || ascii_lower(ext) == "appimage"@,
    ensures
        extension_category(ext) == Some(FileCategory::Installer),
{
    let e = ascii_lower(ext);
    reveal_strlit("txt");
    reveal_strlit("md");
    reveal_strlit("log");
    reveal_strlit("csv");
    reveal_strlit("json");
    reveal_strlit("xml");
    reveal_strlit("doc");
    reveal_strlit("docx");
    reveal_strlit("xls");
    reveal_strlit("xlsx");
    reveal_strlit("ppt");
    reveal_strlit("pptx");
    reveal_strlit("pdf");
    reveal_strlit("zip");
    reveal_strlit("7z");
    reveal_strlit("rar");
    reveal_strlit("tar");
    reveal_strlit("gz");
    reveal_strlit("msi");
    reveal_strlit("exe");
    reveal_strlit("dmg");
    reveal_strlit("pkg");
    reveal_strlit("deb");
    reveal_strlit("appimage");
    lemma_not_listed(e, seq!["txt"@, "md"@, "log"@, "csv"@, "json"@, "xml"@]);
    lemma_not_listed(e, seq!["doc"@, "docx"@, "xls"@, "xlsx"@, "ppt"@, "pptx"@]);
    lemma_not_listed(e, seq!["pdf"@]);
    assert(seq!["pdf"@][0] != e);
    lemma_not_listed(e, seq!["zip"@, "7z"@, "rar"@, "tar"@, "gz"@]);
    if e == "msi"@ { lemma_listed(e, seq!["msi"@, "exe"@, "dmg"@, "pkg"@, "deb"@, "appimage"@], 0); } if e == "exe"@ { lemma_listed(e, seq!["msi"@, "exe"@, "dmg"@, "pkg"@, "deb"@, "appimage"@], 1); } if e == "dmg"@ { lemma_listed(e, seq!["msi"@, "exe"@, "dmg"@, "pkg"@, "deb"@, "appimage"@], 2); } if e == "pkg"@ { lemma_listed(e, seq!["msi"@, "exe"@, "dmg"@, "pkg"@, "deb"@, "appimage"@], 3); } if e == "deb"@ { lemma_listed(e, seq!["msi"@, "exe"@, "dmg"@, "pkg"@, "deb"@, "appimage"@], 4); } if e == "appimage"@ { lemma_listed(e, seq!["msi"@, "exe"@, "dmg"@, "pkg"@, "deb"@, "appimage"@], 5); }
}

/// The image extensions `png`, `jpg`, `jpeg`, `gif`, `webp`, `bmp`, `ico`, in any ASCII case, are classified as
/// `MediaImage`.
pub proof fn law_image_extensions(ext: Seq<char>)
    requires
        ascii_lower(ext) == "png"@ || ascii_lower(ext) == "jpg"@ || ascii_lower(ext) == "jpeg"@ || ascii_lower(ext) == "gif"@ || ascii_lower(ext) == "webp"@ || ascii_lower(ext) == "bmp"@ || ascii_lower(ext) == "ico"@,
    ensures
        extension_category(ext) == Some(FileCategory::MediaImage),
{
    let e = ascii_lower(ext);
    reveal_strlit("txt");
    reveal_strlit("md");
    reveal_strlit("log");
    reveal_strlit("csv");
    reveal_strlit("json");
    reveal_strlit("xml");
    reveal_strlit("doc");
    reveal_strlit("docx");
    reveal_strlit("xls");
    reveal_strlit("xlsx");
    reveal_strlit("ppt");
    reveal_strlit("pptx");
    reveal_strlit("pdf");
    reveal_strlit("zip");
    reveal_strlit("7z");
    reveal_strlit("rar");
    reveal_strlit("tar");
    reveal_strlit("gz");
    reveal_strlit("msi");
    reveal_strlit("exe");
    reveal_strlit("dmg");
    reveal_strlit("pkg");
    reveal_strlit("deb");
    reveal_strlit("appimage");
    reveal_strlit("png");
    reveal_strlit("jpg");
    reveal_strlit("jpeg");
    reveal_strlit("gif");
    reveal_strlit("webp");
    reveal_strlit("bmp");
    reveal_strlit("ico");
    lemma_not_listed(e, seq!["txt"@, "md"@, "log"@, "csv"@, "json"@, "xml"@]);
    lemma_not_listed(e, seq!["doc"@, "docx"@, "xls"@, "xlsx"@, "ppt"@, "pptx"@]);
    lemma_not_listed(e, seq!["pdf"@]);
    assert(seq!["pdf"@][0] != e);
    lemma_not_listed(e, seq!["zip"@, "7z"@, "rar"@, "tar"@, "gz"@]);
    lemma_not_listed(e, seq!["msi"@, "exe"@, "dmg"@, "pkg"@, "deb"@, "appimage"@]);
    if e == "png"@ { lemma_listed(e, seq!["png"@, "jpg"@, "jpeg"@, "gif"@, "webp"@, "bmp"@, "ico"@], 0); } if e == "jpg"@ { lemma_listed(e, seq!["png"@, "jpg"@, "jpeg"@, "gif"@, "webp"@, "bmp"@, "ico"@], 1); } if e == "jpeg"@ { lemma_listed(e, seq!["png"@, "jpg"@, "jpeg"@, "gif"@, "webp"@, "bmp"@, "ico"@], 2); } if e == "gif"@ { lemma_listed(e, seq!["png"@, "jpg"@, "jpeg"@, "gif"@, "webp"@, "bmp"@, "ico"@], 3); } if e == "webp"@ { lemma_listed(e, seq!["png"@, "jpg"@, "jpeg"@, "gif"@, "webp"@, "bmp"@, "ico"@], 4); } if e == "bmp"@ { lemma_listed(e, seq!["png"@, "jpg"@, "jpeg"@, "gif"@, "webp"@, "bmp"@, "ico"@], 5); } if e == "ico"@ { lemma_listed(e, seq!["png"@, "jpg"@, "jpeg"@, "gif"@, "webp"@, "bmp"@, "ico"@], 6); }
}

/// The audio extensions `mp3`, `wav`, `flac`, `aac`, `ogg`, in any ASCII case, are classified as
/// `MediaAudio`.
pub proof fn law_audio_extensions(ext: Seq<char>)
    requires
        ascii_lower(ext) == "mp3"@ || ascii_lower(ext) == "wav"@ || ascii_lower(ext) == "flac"@ || ascii_lower(ext) == "aac"@ || ascii_lower(ext) == "ogg"@,
    ensures
        extension_category(ext) == Some(FileCategory::MediaAudio),
{
    let e = ascii_lower(ext);
    reveal_strlit("txt");
    reveal_strlit("md");
    reveal_strlit("log");
    reveal_strlit("csv");
    reveal_strlit("json");
    reveal_strlit("xml");
    reveal_strlit("doc");
    reveal_strlit("docx");
    reveal_strlit("xls");
    reveal_strlit("xlsx");
    reveal_strlit("ppt");
    reveal_strlit("pptx");
    reveal_strlit("pdf");
    reveal_strlit("zip");
    reveal_strlit("7z");
    reveal_strlit("rar");
    reveal_strlit("tar");
    reveal_strlit("gz");
    reveal_strlit("msi");
    reveal_strlit("exe");
    reveal_strlit("dmg");
    reveal_strlit("pkg");
    reveal_strlit("deb");
    reveal_strlit("appimage");
    reveal_strlit("png");
    reveal_strlit("jpg");
    reveal_strlit("jpeg");
    reveal_strlit("gif");
    reveal_strlit("webp");
    reveal_strlit("bmp");
    reveal_strlit("ico");
    reveal_strlit("mp3");
    reveal_strlit("wav");
    reveal_strlit("flac");
    reveal_strlit("aac");
    reveal_strlit("ogg");
    lemma_not_listed(e, seq!["txt"@, "md"@, "log"@, "csv"@, "json"@, "xml"@]);
    lemma_not_listed(e, seq!["doc"@, "docx"@, "xls"@, "xlsx"@, "ppt"@, "pptx"@]);
    lemma_not_listed(e, seq!["pdf"@]);
    assert(seq!["pdf"@][0] != e);
    lemma_not_listed(e, seq!["zip"@, "7z"@, "rar"@, "tar"@, "gz"@]);
    lemma_not_listed(e, seq!["msi"@, "exe"@, "dmg"@, "pkg"@, "deb"@, "appimage"@]);
    lemma_not_listed(e, seq!["png"@, "jpg"@, "jpeg"@, "gif"@, "webp"@, "bmp"@, "ico"@]);
    if e == "mp3"@ { lemma_listed(e, seq!["mp3"@, "wav"@, "flac"@, "aac"@, "ogg"@], 0); } if e == "wav"@ { lemma_listed(e, seq!["mp3"@, "wav"@, "flac"@, "aac"@, "ogg"@], 1); } if e == "flac"@ { lemma_listed(e, seq!["mp3"@, "wav"@, "flac"@, "aac"@, "ogg"@], 2); } if e == "aac"@ { lemma_listed(e, seq!["mp3"@, "wav"@, "flac"@, "aac"@, "ogg"@], 3); } if e == "ogg"@ { lemma_listed(e, seq!["mp3"@, "wav"@, "flac"@, "aac"@, "ogg"@], 4); }
}

/// The video extensions `mp4`, `mov`, `mkv`, `avi`, `webm`, in any ASCII case, are classified as
/// `MediaVideo`.
pub proof fn law_video_extensions(ext: Seq<char>)
    requires
        ascii_lower(ext) == "mp4"@ || ascii_lower(ext) == "mov"@ || ascii_lower(ext) == "mkv"@ || ascii_lower(ext) == "avi"@ || ascii_lower(ext) == "webm"@,
    ensures
        extension_category(ext) == Some(FileCategory::MediaVideo),
{
    let e = ascii_lower(ext);
    reveal_strlit("txt");
    reveal_strlit("md");
    reveal_strlit("log");
    reveal_strlit("csv");
    reveal_strlit("json");
    reveal_strlit("xml");
    reveal_strlit("doc");
    reveal_strlit("docx");
    reveal_strlit("xls");
    reveal_strlit("xlsx");
    reveal_strlit("ppt");
    reveal_strlit("pptx");
    reveal_strlit("pdf");
    reveal_strlit("zip");
    reveal_strlit("7z");
    reveal_strlit("rar");
    reveal_strlit("tar");
    reveal_strlit("gz");
    reveal_strlit("msi");
    reveal_strlit("exe");
    reveal_strlit("dmg");
    reveal_strlit("pkg");
    reveal_strlit("deb");
    reveal_strlit("appimage");
    reveal_strlit("png");
    reveal_strlit("jpg");
    reveal_strlit("jpeg");
    reveal_strlit("gif");
    reveal_strlit("webp");
    reveal_strlit("bmp");
    reveal_strlit("ico");
    reveal_strlit("mp3");
    reveal_strlit("wav");
    reveal_strlit("flac");
    reveal_strlit("aac");
    reveal_strlit("ogg");
    reveal_strlit("mp4");
    reveal_strlit("mov");
    reveal_strlit("mkv");
    reveal_strlit("avi");
    reveal_strlit("webm");
    lemma_not_listed(e, seq!["txt"@, "md"@, "log"@, "csv"@, "json"@, "xml"@]);
    lemma_not_listed(e, seq!["doc"@, "docx"@, "xls"@, "xlsx"@, "ppt"@, "pptx"@]);
    lemma_not_listed(e, seq!["pdf"@]);
    assert(seq!["pdf"@][0] != e);
    lemma_not_listed(e, seq!["zip"@, "7z"@, "rar"@, "tar"@, "gz"@]);
    lemma_not_listed(e, seq!["msi"@, "exe"@, "dmg"@, "pkg"@, "deb"@, "appimage"@]);
    lemma_not_listed(e, seq!["png"@, "jpg"@, "jpeg"@, "gif"@, "webp"@, "bmp"@, "ico"@]);
    lemma_not_listed(e, seq!["mp3"@, "wav"@, "flac"@, "aac"@, "ogg"@]);
    if e == "mp4"@ { lemma_listed(e, seq!["mp4"@, "mov"@, "mkv"@, "avi"@, "webm"@], 0); } if e == "mov"@ { lemma_listed(e, seq!["mp4"@, "mov"@, "mkv"@, "avi"@, "webm"@], 1); } if e == "mkv"@ { lemma_listed(e, seq!["mp4"@, "mov"@, "mkv"@, "avi"@, "webm"@], 2); } if e == "avi"@ { lemma_listed(e, seq!["mp4"@, "mov"@, "mkv"@, "avi"@, "webm"@], 3); } if e == "webm"@ { lemma_listed(e, seq!["mp4"@, "mov"@, "mkv"@, "avi"@, "webm"@], 4); }
}

/// The database extensions `sqlite`, `db`, `wal`, in any ASCII case, are classified as
/// `SystemDb`.
pub proof fn law_database_extensions(ext: Seq<char>)
    requires
        ascii_lower(ext) == "sqlite"@ || ascii_lower(ext) == "db"@ || ascii_lower(ext) == "wal"@,
    ensures
        extension_category(ext) == Some(FileCategory::SystemDb),
{
    let e = ascii_lower(ext);
    reveal_strlit("txt");
    reveal_strlit("md");
    reveal_strlit("log");
    reveal_strlit("csv");
    reveal_strlit("json");
    reveal_strlit("xml");
    reveal_strlit("doc");
    reveal_strlit("docx");
    reveal_strlit("xls");
    reveal_strlit("xlsx");
    reveal_strlit("ppt");
    reveal_strlit("pptx");
    reveal_strlit("pdf");
    reveal_strlit("zip");
    reveal_strlit("7z");
    reveal_strlit("rar");
    reveal_strlit("tar");
    reveal_strlit("gz");
    reveal_strlit("msi");
    reveal_strlit("exe");
    reveal_strlit("dmg");
    reveal_strlit("pkg");
    reveal_strlit("deb");
    reveal_strlit("appimage");
    reveal_strlit("png");
    reveal_strlit("jpg");
    reveal_strlit("jpeg");
    reveal_strlit("gif");
    reveal_strlit("webp");
    reveal_strlit("bmp");
    reveal_strlit("ico");
    reveal_strlit("mp3");
    reveal_strlit("wav");
    reveal_strlit("flac");
    reveal_strlit("aac");
    reveal_strlit("ogg");
    reveal_strlit("mp4");
    reveal_strlit("mov");
    reveal_strlit("mkv");
    reveal_strlit("avi");
    reveal_strlit("webm");
    reveal_strlit("sqlite");
    reveal_strlit("db");
    reveal_strlit("wal");
    lemma_not_listed(e, seq!["txt"@, "md"@, "log"@, "csv"@, "json"@, "xml"@]);
    lemma_not_listed(e, seq!["doc"@, "docx"@, "xls"@, "xlsx"@, "ppt"@, "pptx"@]);
    lemma_not_listed(e, seq!["pdf"@]);
    assert(seq!["pdf"@][0] != e);
    lemma_not_listed(e, seq!["zip"@, "7z"@, "rar"@, "tar"@, "gz"@]);
    lemma_not_listed(e, seq!["msi"@, "exe"@, "dmg"@, "pkg"@, "deb"@, "appimage"@]);
    lemma_not_listed(e, seq!["png"@, "jpg"@, "jpeg"@, "gif"@, "webp"@, "bmp"@, "ico"@]);
    lemma_not_listed(e, seq!["mp3"@, "wav"@, "flac"@, "aac"@, "ogg"@]);
    lemma_not_listed(e, seq!["mp4"@, "mov"@, "mkv"@, "avi"@, "webm"@]);
    if e == "sqlite"@ { lemma_listed(e, seq!["sqlite"@, "db"@, "wal"@], 0); } if e == "db"@ { lemma_listed(e, seq!["sqlite"@, "db"@, "wal"@], 1); } if e == "wal"@ { lemma_listed(e, seq!["sqlite"@, "db"@, "wal"@], 2); }
}

/// The config extensions `toml`, `yaml`, `yml`, `ini`, `conf`, in any ASCII case, are classified as
/// `Config`.
pub proof fn law_config_extensions(ext: Seq<char>)
    requires
        ascii_lower(ext) == "toml"@ || ascii_lower(ext) == "yaml"@ || ascii_lower(ext) == "yml"@ || ascii_lower(ext) == "ini"@ || ascii_lower(ext) == "conf"@,
    ensures
        extension_category(ext) == Some(FileCategory::Config),
{
    let e = ascii_lower(ext);
    reveal_strlit("txt");
    reveal_strlit("md");
    reveal_strlit("log");
    reveal_strlit("csv");
    reveal_strlit("json");
    reveal_strlit("xml");
    reveal_strlit("doc");
    reveal_strlit("docx");
    reveal_strlit("xls");
    reveal_strlit("xlsx");
    reveal_strlit("ppt");
    reveal_strlit("pptx");
    reveal_strlit("pdf");
    reveal_strlit("zip");
    reveal_strlit("7z");
    reveal_strlit("rar");
    reveal_strlit("tar");
    reveal_strlit("gz");
    reveal_strlit("msi");
    reveal_strlit("exe");
    reveal_strlit("dmg");
    reveal_strlit("pkg");
    reveal_strlit("deb");
    reveal_strlit("appimage");
    reveal_strlit("png");
    reveal_strlit("jpg");
    reveal_strlit("jpeg");
    reveal_strlit("gif");
    reveal_strlit("webp");
    reveal_strlit("bmp");
    reveal_strlit("ico");
    reveal_strlit("mp3");
    reveal_strlit("wav");
    reveal_strlit("flac");
    reveal_strlit("aac");
    reveal_strlit("ogg");
    reveal_strlit("mp4");
    reveal_strlit("mov");
    reveal_strlit("mkv");
    reveal_strlit("avi");
    reveal_strlit("webm");
    reveal_strlit("sqlite");
    reveal_strlit("db");
    reveal_strlit("wal");
    reveal_strlit("toml");
    reveal_strlit("yaml");
    reveal_strlit("yml");
    reveal_strlit("ini");
    reveal_strlit("conf");
    lemma_not_listed(e, seq!["txt"@, "md"@, "log"@, "csv"@, "json"@, "xml"@]);
    lemma_not_listed(e, seq!["doc"@, "docx"@, "xls"@, "xlsx"@, "ppt"@, "pptx"@]);
    lemma_not_listed(e, seq!["pdf"@]);
    assert(seq!["pdf"@][0] != e);
    lemma_not_listed(e, seq!["zip"@, "7z"@, "rar"@, "tar"@, "gz"@]);
    lemma_not_listed(e, seq!["msi"@, "exe"@, "dmg"@, "pkg"@, "deb"@, "appimage"@]);
    lemma_not_listed(e, seq!["png"@, "jpg"@, "jpeg"@, "gif"@, "webp"@, "bmp"@, "ico"@]);
    lemma_not_listed(e, seq!["mp3"@, "wav"@, "flac"@, "aac"@, "ogg"@]);
    lemma_not_listed(e, seq!["mp4"@, "mov"@, "mkv"@, "avi"@, "webm"@]);
    lemma_not_listed(e, seq!["sqlite"@, "db"@, "wal"@]);
    if e == "toml"@ { lemma_listed(e, seq!["toml"@, "yaml"@, "yml"@, "ini"@, "conf"@], 0); } if e == "yaml"@ { lemma_listed(e, seq!["toml"@, "yaml"@, "yml"@, "ini"@, "conf"@], 1); } if e == "yml"@ { lemma_listed(e, seq!["toml"@, "yaml"@, "yml"@, "ini"@, "conf"@], 2); } if e == "ini"@ { lemma_listed(e, seq!["toml"@, "yaml"@, "yml"@, "ini"@, "conf"@], 3); } if e == "conf"@ { lemma_listed(e, seq!["toml"@, "yaml"@, "yml"@, "ini"@, "conf"@], 4); }
}

/// The temp extensions `tmp`, `temp`, in any ASCII case, are classified as
/// `Temp`.
pub proof fn law_temp_extensions(ext: Seq<char>)
    requires
        ascii_lower(ext) == "tmp"@ || ascii_lower(ext) == "temp"@,
    ensures
        extension_category(ext) == Some(FileCategory::Temp),
{
    let e = ascii_lower(ext);
    reveal_strlit("txt");
    reveal_strlit("md");
    reveal_strlit("log");
    reveal_strlit("csv");
    reveal_strlit("json");
    reveal_strlit("xml");
    reveal_strlit("doc");
    reveal_strlit("docx");
    reveal_strlit("xls");
    reveal_strlit("xlsx");
    reveal_strlit("ppt");
    reveal_strlit("pptx");
    reveal_strlit("pdf");
    reveal_strlit("zip");
    reveal_strlit("7z");
    reveal_strlit("rar");
    reveal_strlit("tar");
    reveal_strlit("gz");
    reveal_strlit("msi");
    reveal_strlit("exe");
    reveal_strlit("dmg");
    reveal_strlit("pkg");
    reveal_strlit("deb");
    reveal_strlit("appimage");
    reveal_strlit("png");
    reveal_strlit("jpg");
    reveal_strlit("jpeg");
    reveal_strlit("gif");
    reveal_strlit("webp");
    reveal_strlit("bmp");
    reveal_strlit("ico");
    reveal_strlit("mp3");
    reveal_strlit("wav");
    reveal_strlit("flac");
    reveal_strlit("aac");
    reveal_strlit("ogg");
    reveal_strlit("mp4");
    reveal_strlit("mov");
    reveal_strlit("mkv");
    reveal_strlit("avi");
    reveal_strlit("webm");
    reveal_strlit("sqlite");
    reveal_strlit("db");
    reveal_strlit("wal");
    reveal_strlit("toml");
    reveal_strlit("yaml");
    reveal_strlit("yml");
    reveal_strlit("ini");
    reveal_strlit("conf");
    reveal_strlit("tmp");
    reveal_strlit("temp");
    lemma_not_listed(e, seq!["txt"@, "md"@, "log"@, "csv"@, "json"@, "xml"@]);
    lemma_not_listed(e, seq!["doc"@, "docx"@, "xls"@, "xlsx"@, "ppt"@, "pptx"@]);
    lemma_not_listed(e, seq!["pdf"@]);
    assert(seq!["pdf"@][0] != e);
    lemma_not_listed(e, seq!["zip"@, "7z"@, "rar"@, "tar"@, "gz"@]);
    lemma_not_listed(e, seq!["msi"@, "exe"@, "dmg"@, "pkg"@, "deb"@, "appimage"@]);
    lemma_not_listed(e, seq!["png"@, "jpg"@, "jpeg"@, "gif"@, "webp"@, "bmp"@, "ico"@]);
    lemma_not_listed(e, seq!["mp3"@, "wav"@, "flac"@, "aac"@, "ogg"@]);
    lemma_not_listed(e, seq!["mp4"@, "mov"@, "mkv"@, "avi"@, "webm"@]);
    lemma_not_listed(e, seq!["sqlite"@, "db"@, "wal"@]);
    lemma_not_listed(e, seq!["toml"@, "yaml"@, "yml"@, "ini"@, "conf"@]);
    if e == "tmp"@ { lemma_listed(e, seq!["tmp"@, "temp"@], 0); } if e == "temp"@ { lemma_listed(e, seq!["tmp"@, "temp"@], 1); }
}

fn in_list(e: &str, names: &[&str]) -> (r: bool)
    ensures
        r == one_of(e@, names@.map_values(|n: &str| n@)),
{
    let ghost nv = names@.map_values(|n: &str| n@);
    let mut i: usize = 0;
    while i < names.len()
        invariant
            i <= names@.len(),
            nv == names@.map_values(|n: &str| n@),
            forall|k: int| 0 <= k < i ==> nv[k] != e@,
        decreases names.len() - i,
    {
        if str_eq(e, names[i]) {
            assert(nv[i as int] == e@);
            return true;
        }
        i = i + 1;
    }
    false
}

/// The category of a file extension, if it is one the library knows.
pub fn category_for_extension(ext: &str) -> (r: Option<FileCategory>)
    ensures
        r == extension_category(ext@),
{
    let cs = chars_of(ext);
    let low = to_ascii_lower(cs.as_slice());
    let e = string_of(low.as_slice());
    let e = e.as_str();
    let text: [&str; 6] = ["txt", "md", "log", "csv", "json", "xml"];
    let office: [&str; 6] = ["doc", "docx", "xls", "xlsx", "ppt", "pptx"];
    let archive: [&str; 5] = ["zip", "7z", "rar", "tar", "gz"];
    let installer: [&str; 6] = ["msi", "exe", "dmg", "pkg", "deb", "appimage"];
    let image: [&str; 7] = ["png", "jpg", "jpeg", "gif", "webp", "bmp", "ico"];
    let audio: [&str; 5] = ["mp3", "wav", "flac", "aac", "ogg"];
    let video: [&str; 5] = ["mp4", "mov", "mkv", "avi", "webm"];
    let db: [&str; 3] = ["sqlite", "db", "wal"];
    let config: [&str; 5] = ["toml", "yaml", "yml", "ini", "conf"];
    let temp: [&str; 2] = ["tmp", "temp"];
    assert(text@.map_values(|n: &str| n@) =~= seq!["txt"@, "md"@, "log"@, "csv"@, "json"@, "xml"@]);
    assert(office@.map_values(|n: &str| n@) =~= seq!["doc"@, "docx"@, "xls"@, "xlsx"@, "ppt"@, "pptx"@]);
    assert(archive@.map_values(|n: &str| n@) =~= seq!["zip"@, "7z"@, "rar"@, "tar"@, "gz"@]);
    assert(installer@.map_values(|n: &str| n@) =~= seq!["msi"@, "exe"@, "dmg"@, "pkg"@, "deb"@, "appimage"@]);
    assert(image@.map_values(|n: &str| n@) =~= seq!["png"@, "jpg"@, "jpeg"@, "gif"@, "webp"@, "bmp"@, "ico"@]);
    assert(audio@.map_values(|n: &str| n@) =~= seq!["mp3"@, "wav"@, "flac"@, "aac"@, "ogg"@]);
    assert(video@.map_values(|n: &str| n@) =~= seq!["mp4"@, "mov"@, "mkv"@, "avi"@, "webm"@]);
    assert(db@.map_values(|n: &str| n@) =~= seq!["sqlite"@, "db"@, "wal"@]);
    assert(config@.map_values(|n: &str| n@) =~= seq!["toml"@, "yaml"@, "yml"@, "ini"@, "conf"@]);
    assert(temp@.map_values(|n: &str| n@) =~= seq!["tmp"@, "temp"@]);
    if in_list(e, &text) {
        Some(FileCategory::DocumentText)
    } else if in_list(e, &office) {
        Some(FileCategory::Office)
    } else if str_eq(e, "pdf") {
        Some(FileCategory::Pdf)
    } else if in_list(e, &archive) {
        Some(FileCategory::ArchiveCompressed)
    } else if in_list(e, &installer) {
        Some(FileCategory::Installer)
    } else if in_list(e, &image) {
        Some(FileCategory::MediaImage)
    } else if in_list(e, &audio) {
        Some(FileCategory::MediaAudio)
    } else if in_list(e, &video) {
        Some(FileCategory::MediaVideo)
    } else if in_list(e, &db) {
        Some(FileCategory::SystemDb)
    } else if in_list(e, &config) {
        Some(FileCategory::Config)
    } else if in_list(e, &temp) {
        Some(FileCategory::Temp)
    } else {
        None
    }
}

/// The characters after the last `.` of `p` (all of `p` when it has none).
pub open spec fn after_last_dot(p: Seq<char>) -> Seq<char>
    decreases p.len(),
{
    if p.len() == 0 {
        p
    } else if p.last() == '.' {
        Seq::empty()
    } else {
        after_last_dot(p.drop_last()).push(p.last())
    }
}

/// A path that is one plain file name on every platform: not empty, not
/// starting with `.`, and without `/`, `\` or `:`.
pub open spec fn plain_file_name(p: Seq<char>) -> bool {
    &&& p.len() > 0
    &&& p[0] != '.'
    &&& !has_sub(p, seq!['/'])
    &&& !has_sub(p, seq!['\\'])
    &&& !has_sub(p, seq![':'])
}

/// What `Path::extension` may give for a path on any platform: nothing for a
/// path without a dot; else an extension without a dot that follows a dot
/// in the path; and for a plain file name with a dot, the text after its
/// last dot.
pub open spec fn extension_of_path(path: Seq<char>, ext: Option<Seq<char>>) -> bool {
    &&& !has_sub(path, seq!['.']) ==> ext is None
    &&& (ext matches Some(e) ==> has_sub(path, seq!['.'] + e) && !has_sub(e, seq!['.']))
    &&& (plain_file_name(path) && has_sub(path, seq!['.']) ==> ext == Some(after_last_dot(path)))
}

/// `Path::extension` of a path given as text. Its documentation: the
/// extension is none where there is no file name or no dot in it (or only a
/// leading one), else the part of the file name after its last dot. Claimed
/// is what follows on every platform (`extension_of_path`); how a platform
/// splits a longer path into components is left unsaid.
#[verifier::external_body]
fn path_extension(path: &str) -> (r: Option<String>)
    ensures
        extension_of_path(
            path@,
            match r {
                Some(e) => Some(e@),
                None => None,
            },
        ),
{
    std::path::Path::new(path).extension().map(|e| e.to_string_lossy().to_string())
}

/// The category of a file with extension `ext`: the extension's where the
/// library knows it, else `model_category`.
pub open spec fn category_by_extension(ext: Option<Seq<char>>, model_category: FileCategory) -> FileCategory {
    match ext {
        Some(e) => match extension_category(e) {
            Some(c) => c,
            None => model_category,
        },
        None => model_category,
    }
}

/// Classify a file by its extension, if it has one: the extension's category
/// where the library knows it, else the category the model assigned.
pub fn classify_by_extension(ext: Option<&str>, model_category: FileCategory) -> (r: FileCategory)
    ensures
        r == category_by_extension(
            match ext {
                Some(e) => Some(e@),
                None => None,
            },
            model_category,
        ),
{
    match ext {
        Some(e) => match category_for_extension(e) {
            Some(c) => c,
            None => model_category,
        },
        None => model_category,
    }
}

/// Classify a path without reading the file: by its extension where the
/// library knows it, else the category the model assigned (`model_category`),
/// computed by the caller. For a plain file name the extension is the text
/// after its last dot.
pub fn classify_path(path: &str, model_category: FileCategory) -> (r: FileCategory)
    ensures
        exists|ext: Option<Seq<char>>|
            extension_of_path(path@, ext) && r == category_by_extension(ext, model_category),
        !has_sub(path@, seq!['.']) ==> r == model_category,
        plain_file_name(path@) && has_sub(path@, seq!['.']) ==> r == category_by_extension(
            Some(after_last_dot(path@)),
            model_category,
        ),
{
    let ext = path_extension(path);
    let ghost ev = match &ext {
        Some(e) => Some(e@),
        None => None::<Seq<char>>,
    };
    let r = match &ext {
        Some(e) => classify_by_extension(Some(e.as_str()), model_category),
        None => classify_by_extension(None, model_category),
    };
    assert(extension_of_path(path@, ev) && r == category_by_extension(ev, model_category));
    r
}

/// The model that classifies files that neither extension nor magic bytes
/// identify; its labels, in output order.
#[derive(Debug, Clone)]
pub struct ClassifierModel {
    labels: Vec<FileCategory>,
}

impl ClassifierModel {
    pub closed spec fn labels(&self) -> Seq<FileCategory> {
        self.labels@
    }

    pub fn default_model() -> (m: ClassifierModel)
        ensures
            m.labels() == seq![
                FileCategory::DocumentText,
                FileCategory::Office,
                FileCategory::Pdf,
                FileCategory::ArchiveCompressed,
                FileCategory::Installer,
                FileCategory::MediaImage,
                FileCategory::MediaAudio,
                FileCategory::MediaVideo,
                FileCategory::DevCache,
                FileCategory::Build,
                FileCategory::Dependency,
                FileCategory::Unknown,
            ],
    {
        let mut labels: Vec<FileCategory> = Vec::new();
        labels.push(FileCategory::DocumentText);
        labels.push(FileCategory::Office);
        labels.push(FileCategory::Pdf);
        labels.push(FileCategory::ArchiveCompressed);
        labels.push(FileCategory::Installer);
        labels.push(FileCategory::MediaImage);
        labels.push(FileCategory::MediaAudio);
        labels.push(FileCategory::MediaVideo);
        labels.push(FileCategory::DevCache);
        labels.push(FileCategory::Build);
        labels.push(FileCategory::Dependency);
        labels.push(FileCategory::Unknown);
        ClassifierModel { labels }
    }

    /// The number of synthetic samples the model was trained on.
    pub fn synthetic_training_sample_count(&self) -> (r: usize)
        ensures
            r == SYNTHETIC_TRAINING_SAMPLES,
    {
        SYNTHETIC_TRAINING_SAMPLES
    }
}

impl Default for ClassifierModel {
    fn default() -> (m: ClassifierModel)
        ensures
            m.labels().len() == 12,
    {
        ClassifierModel::default_model()
    }
}

} // verus!
