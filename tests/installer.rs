use std::io::Write;

use rlpm::archive::{
    classify, extract_archive, parse_format, plan_extraction, ArchiveEntry, ArchiveFormat,
    EntryClass, EntryKind, Extraction, Step,
};
use rlpm::cli::{parse_args, Mode};
use rlpm::config::{payload_name, scratch_dir, script_file, script_url, Config, ScriptExt};
use rlpm::error::InstallError;
use rlpm::install::{Action, Event, Outcome, Phase, Session};
use rlpm::paths::{entry_path_is_safe, parent_len};
use rlpm::script::parse_script;

fn tar_gz(files: &[(&str, &[u8])]) -> Vec<u8> {
    let enc = flate2::write::GzEncoder::new(Vec::new(), flate2::Compression::default());
    let mut b = tar::Builder::new(enc);
    for (path, data) in files {
        let mut h = tar::Header::new_gnu();
        h.set_size(data.len() as u64);
        h.set_mode(0o644);
        h.set_entry_type(tar::EntryType::Regular);
        h.set_cksum();
        b.append_data(&mut h, path, *data).unwrap();
    }
    b.into_inner().unwrap().finish().unwrap()
}

fn zip_bytes(dirs: &[&str], files: &[(&str, &[u8])]) -> Vec<u8> {
    let mut w = zip::ZipWriter::new(std::io::Cursor::new(Vec::new()));
    let opts = zip::write::SimpleFileOptions::default()
        .compression_method(zip::CompressionMethod::Deflated);
    for d in dirs {
        w.add_directory(*d, opts).unwrap();
    }
    for (name, data) in files {
        w.start_file(*name, opts).unwrap();
        w.write_all(data).unwrap();
    }
    w.finish().unwrap().into_inner()
}

fn written(x: &Extraction) -> Vec<(String, Vec<u8>)> {
    let mut out = Vec::new();
    for s in &x.steps {
        if let Step::WriteFile(p, i) = s {
            out.push((p.clone(), x.entries[*i].data.clone()));
        }
    }
    out
}

fn dirs(x: &Extraction) -> Vec<String> {
    let mut out = Vec::new();
    for s in &x.steps {
        if let Step::CreateDir(p) = s {
            out.push(p.clone());
        }
    }
    out
}

fn entry(path: &str, kind: EntryKind) -> ArchiveEntry {
    ArchiveEntry { path: path.to_string(), kind, data: b"data".to_vec() }
}

#[test]
fn script_last_line_wins() {
    let d = parse_script("source=http://a/one.zip\nformat=tar\nsource=http://b/two.zip\nformat= zip \n")
        .unwrap();
    assert_eq!(d.source, "http://b/two.zip");
    assert_eq!(d.format, "zip");
}

#[test]
fn script_ignores_other_lines_and_trims() {
    let d = parse_script("# comment\nname=foo\r\nsource=  http://h/p.tar.gz \r\nformat=tar\r\n").unwrap();
    assert_eq!(d.source, "http://h/p.tar.gz");
    assert_eq!(d.format, "tar");
}

#[test]
fn script_missing_key_is_invalid() {
    assert_eq!(parse_script("source=http://h/p.zip\n").unwrap_err(), InstallError::InvalidScript);
    assert_eq!(parse_script("format=zip").unwrap_err(), InstallError::InvalidScript);
    assert_eq!(parse_script("").unwrap_err(), InstallError::InvalidScript);
}

#[test]
fn script_empty_last_value_is_invalid() {
    let r = parse_script("source=http://h/p.zip\nformat=zip\nsource=   \n");
    assert_eq!(r.unwrap_err(), InstallError::InvalidScript);
}

#[test]
fn script_key_must_start_the_line() {
    let r = parse_script(" source=http://h/p.zip\nformat=zip");
    assert_eq!(r.unwrap_err(), InstallError::InvalidScript);
}

#[test]
fn formats_recognised() {
    assert_eq!(parse_format("tar").unwrap(), ArchiveFormat::TarGz);
    assert_eq!(parse_format("zip").unwrap(), ArchiveFormat::Zip);
    assert_eq!(parse_format("rar").unwrap_err(), InstallError::UnsupportedFormat);
    assert_eq!(parse_format("TAR").unwrap_err(), InstallError::UnsupportedFormat);
}

#[test]
fn unknown_format_is_an_error() {
    let data = tar_gz(&[("a.txt", b"a")]);
    assert_eq!(extract_archive("7z", &data).unwrap_err(), InstallError::UnsupportedFormat);
}

#[test]
fn tar_gz_round_trip() {
    let files: Vec<(&str, &[u8])> = vec![
        ("x/y.txt", b"hello\n"),
        ("top.bin", &[0u8, 1, 2, 255]),
        ("x/z/deep.txt", b"deep"),
    ];
    let data = tar_gz(&files);
    let x = extract_archive("tar", &data).unwrap();
    let got = written(&x);
    let want: Vec<(String, Vec<u8>)> =
        files.iter().map(|(p, d)| (p.to_string(), d.to_vec())).collect();
    assert_eq!(got, want);
    assert_eq!(dirs(&x), vec!["x".to_string(), "x/z".to_string()]);
}

#[test]
fn zip_nested_directories_created_first() {
    let data = zip_bytes(&["a/"], &[("a/b/c.txt", b"contents"), ("root.txt", b"r")]);
    let x = extract_archive("zip", &data).unwrap();
    let names: Vec<String> = x
        .steps
        .iter()
        .map(|s| match s {
            Step::CreateDir(p) => format!("mkdir {}", p),
            Step::WriteFile(p, _) => format!("write {}", p),
        })
        .collect();
    assert_eq!(names, vec!["mkdir a/", "mkdir a/b", "write a/b/c.txt", "write root.txt"]);
    assert_eq!(
        written(&x),
        vec![
            ("a/b/c.txt".to_string(), b"contents".to_vec()),
            ("root.txt".to_string(), b"r".to_vec())
        ]
    );
}

#[test]
fn traversal_entry_rejected() {
    let entries = vec![entry("ok.txt", EntryKind::File), entry("a/../../evil", EntryKind::File)];
    assert_eq!(plan_extraction(&entries).unwrap_err(), InstallError::UnsafeEntryPath);
    let data = zip_bytes(&[], &[("../evil.txt", b"x")]);
    assert_eq!(extract_archive("zip", &data).unwrap_err(), InstallError::UnsafeEntryPath);
}

#[test]
fn entry_path_safety() {
    assert!(entry_path_is_safe("a/b.txt"));
    assert!(entry_path_is_safe("a/..b/c"));
    assert!(entry_path_is_safe("..."));
    assert!(!entry_path_is_safe(".."));
    assert!(!entry_path_is_safe("a/.."));
    assert!(!entry_path_is_safe("a\\..\\b"));
    assert!(!entry_path_is_safe("/etc/passwd"));
    assert!(!entry_path_is_safe("C:/x"));
    assert!(!entry_path_is_safe(""));
}

#[test]
fn parent_lengths() {
    assert_eq!(parent_len("x/y.txt"), 1);
    assert_eq!(parent_len("a/b/c"), 3);
    assert_eq!(parent_len("file"), 0);
}

#[test]
fn metadata_entries_skipped() {
    let entries = vec![entry("pax_global_header", EntryKind::Tar(b'g')), entry("d", EntryKind::Directory)];
    let steps = plan_extraction(&entries).unwrap();
    assert_eq!(steps.len(), 1);
    assert!(matches!(&steps[0], Step::CreateDir(p) if p == "d"));
}

#[test]
fn links_and_special_entries_rejected() {
    for b in [b'1', b'2', b'3', b'4', b'6', b'Z'] {
        let entries = vec![entry("f", EntryKind::File), entry("l", EntryKind::Tar(b))];
        assert_eq!(plan_extraction(&entries).unwrap_err(), InstallError::UnsupportedEntry);
    }
    let entries = vec![entry("../l", EntryKind::Tar(b'2'))];
    assert_eq!(plan_extraction(&entries).unwrap_err(), InstallError::UnsafeEntryPath);
}

#[test]
fn tar_type_bytes_classified() {
    assert_eq!(classify(EntryKind::Tar(b'0')), EntryClass::Regular);
    assert_eq!(classify(EntryKind::Tar(0)), EntryClass::Regular);
    assert_eq!(classify(EntryKind::Tar(b'7')), EntryClass::Regular);
    assert_eq!(classify(EntryKind::Tar(b'S')), EntryClass::Regular);
    assert_eq!(classify(EntryKind::Tar(b'5')), EntryClass::Dir);
    assert_eq!(classify(EntryKind::Tar(b'g')), EntryClass::Metadata);
    assert_eq!(classify(EntryKind::Tar(b'1')), EntryClass::Unsupported);
    assert_eq!(classify(EntryKind::File), EntryClass::Regular);
    assert_eq!(classify(EntryKind::Directory), EntryClass::Dir);
}

#[test]
fn tar_with_symlink_rejected() {
    let enc = flate2::write::GzEncoder::new(Vec::new(), flate2::Compression::default());
    let mut b = tar::Builder::new(enc);
    let mut h = tar::Header::new_gnu();
    h.set_size(0);
    h.set_entry_type(tar::EntryType::Symlink);
    b.append_link(&mut h, "link", "target").unwrap();
    let data = b.into_inner().unwrap().finish().unwrap();
    assert_eq!(extract_archive("tar", &data).unwrap_err(), InstallError::UnsupportedEntry);
}

#[test]
fn tar_directory_entries_created() {
    let enc = flate2::write::GzEncoder::new(Vec::new(), flate2::Compression::default());
    let mut b = tar::Builder::new(enc);
    let mut h = tar::Header::new_gnu();
    h.set_size(0);
    h.set_mode(0o755);
    h.set_entry_type(tar::EntryType::Directory);
    h.set_cksum();
    b.append_data(&mut h, "empty/", std::io::empty()).unwrap();
    let data = b.into_inner().unwrap().finish().unwrap();
    let x = extract_archive("tar", &data).unwrap();
    assert_eq!(dirs(&x), vec!["empty/".to_string()]);
    assert!(written(&x).is_empty());
}

#[test]
fn corrupt_archives_rejected() {
    let junk = b"not an archive".to_vec();
    assert_eq!(extract_archive("tar", &junk).unwrap_err(), InstallError::CorruptArchive);
    assert_eq!(extract_archive("zip", &junk).unwrap_err(), InstallError::CorruptArchive);
}

#[test]
fn names_derived_from_package() {
    assert_eq!(script_url("https://r.test/pkgs///", "foo", ScriptExt::Sspm), "https://r.test/pkgs/foo.sspm");
    assert_eq!(script_url("https://r.test", "foo", ScriptExt::Rlpm), "https://r.test/foo.rlpm");
    assert_eq!(script_file("/stage", "foo", ScriptExt::Rlpm), "/stage/foo.rlpm");
    assert_eq!(scratch_dir("/stage", "foo"), "/stage/foo-src");
}

#[test]
fn payload_names() {
    assert_eq!(payload_name("http://host/a.tar.gz"), "a.tar.gz");
    assert_eq!(payload_name("noslash"), "downloaded");
    assert_eq!(payload_name("http://host/dir/"), "downloaded");
}

#[test]
fn repo_override_used() {
    let cfg = Config::new(Some("https://example.test/pkgs/\n"), "/stage");
    assert_eq!(cfg.repo_base, "https://example.test/pkgs/");
    let mut s = Session::new("foo".to_string());
    s.step(&cfg, Event::Begin);
    match s.step(&cfg, Event::LocalScript(None)) {
        Action::FetchScript { url, dest } => {
            assert_eq!(url, "https://example.test/pkgs/foo.sspm");
            assert_eq!(dest, "/stage/foo.sspm");
        }
        a => panic!("unexpected {:?}", a),
    }
}

#[test]
fn default_repo_without_override() {
    let cfg = Config::new(None, "/stage");
    assert_eq!(cfg.repo_base, "https://raw.githubusercontent.com/irfancahhyo11/packages/main/");
}

#[test]
fn args_split_into_mode_and_packages() {
    let args: Vec<String> = ["install", "foo", "remove", "bar"].iter().map(|s| s.to_string()).collect();
    let (mode, pkgs) = parse_args(&args);
    assert_eq!(mode, Mode::Remove);
    assert_eq!(pkgs, vec!["foo".to_string(), "bar".to_string()]);
    let (mode, pkgs) = parse_args(&vec!["baz".to_string()]);
    assert_eq!(mode, Mode::Unset);
    assert_eq!(pkgs, vec!["baz".to_string()]);
    assert_eq!(Mode::Install.label(), "INSTALL");
}

#[test]
fn local_script_is_copied_not_fetched() {
    let cfg = Config::new(None, "/stage");
    let mut s = Session::new("foo".to_string());
    assert!(matches!(s.step(&cfg, Event::Begin), Action::CheckLocalScripts { .. }));
    match s.step(&cfg, Event::LocalScript(Some(ScriptExt::Rlpm))) {
        Action::CopyScript { from, to } => {
            assert_eq!(from, "foo.rlpm");
            assert_eq!(to, "/stage/foo.rlpm");
        }
        a => panic!("unexpected {:?}", a),
    }
    match s.step(&cfg, Event::Copied(true)) {
        Action::ReadScript { path } => assert_eq!(path, "/stage/foo.rlpm"),
        a => panic!("unexpected {:?}", a),
    }
}

#[test]
fn second_extension_tried_then_not_found() {
    let cfg = Config::new(Some("http://r"), "/stage");
    let mut s = Session::new("foo".to_string());
    s.step(&cfg, Event::Begin);
    s.step(&cfg, Event::LocalScript(None));
    match s.step(&cfg, Event::Fetched(false)) {
        Action::FetchScript { url, .. } => assert_eq!(url, "http://r/foo.rlpm"),
        a => panic!("unexpected {:?}", a),
    }
    let a = s.step(&cfg, Event::Fetched(false));
    assert!(matches!(a, Action::Finish(Outcome::Failed(InstallError::ScriptNotFound))));
}

#[test]
fn invalid_script_never_extracts() {
    let cfg = Config::new(None, "/stage");
    let mut s = Session::new("foo".to_string());
    s.step(&cfg, Event::Begin);
    s.step(&cfg, Event::LocalScript(Some(ScriptExt::Sspm)));
    s.step(&cfg, Event::Copied(true));
    let a = s.step(&cfg, Event::ScriptRead(Some("format=zip\n".to_string())));
    assert!(matches!(a, Action::Finish(Outcome::Failed(InstallError::InvalidScript))));
    assert!(matches!(s.step(&cfg, Event::Fetched(true)), Action::Wait));
}

#[test]
fn unknown_script_format_reported() {
    let cfg = Config::new(None, "/stage");
    let mut s = Session::new("foo".to_string());
    s.step(&cfg, Event::Begin);
    s.step(&cfg, Event::LocalScript(Some(ScriptExt::Sspm)));
    s.step(&cfg, Event::Copied(true));
    let a = s.step(&cfg, Event::ScriptRead(Some("source=http://h/a.rar\nformat=rar".to_string())));
    assert!(matches!(a, Action::Finish(Outcome::Failed(InstallError::UnsupportedFormat))));
}

#[test]
fn failed_download_still_cleans_up() {
    let cfg = Config::new(None, "/stage");
    let mut s = Session::new("foo".to_string());
    s.step(&cfg, Event::Begin);
    s.step(&cfg, Event::LocalScript(Some(ScriptExt::Sspm)));
    s.step(&cfg, Event::Copied(true));
    s.step(&cfg, Event::ScriptRead(Some("source=http://h/p.zip\nformat=zip".to_string())));
    match s.step(&cfg, Event::Fetched(false)) {
        Action::Cleanup { payload, scratch } => {
            assert_eq!(payload, "/stage/foo-src/p.zip");
            assert_eq!(scratch, "/stage/foo-src");
        }
        a => panic!("unexpected {:?}", a),
    }
    let a = s.step(&cfg, Event::CleanedUp);
    assert!(matches!(a, Action::Finish(Outcome::Failed(InstallError::TransportError))));
    assert!(matches!(s.phase, Phase::Done(_)));
}

#[test]
fn end_to_end_remote_install() {
    let cfg = Config::new(Some("http://repo.test/"), "/stage");
    let mut s = Session::new("foo".to_string());
    s.step(&cfg, Event::Begin);
    match s.step(&cfg, Event::LocalScript(None)) {
        Action::FetchScript { url, dest } => {
            assert_eq!(url, "http://repo.test/foo.sspm");
            assert_eq!(dest, "/stage/foo.sspm");
        }
        a => panic!("unexpected {:?}", a),
    }
    assert!(matches!(s.step(&cfg, Event::Fetched(true)), Action::ReadScript { .. }));
    let text = "source=http://host/a.tar.gz\nformat=tar\n".to_string();
    match s.step(&cfg, Event::ScriptRead(Some(text))) {
        Action::FetchPayload { url, scratch, dest } => {
            assert_eq!(url, "http://host/a.tar.gz");
            assert_eq!(scratch, "/stage/foo-src");
            assert_eq!(dest, "/stage/foo-src/a.tar.gz");
        }
        a => panic!("unexpected {:?}", a),
    }
    let payload = tar_gz(&[("x/y.txt", b"y")]);
    let format = match s.step(&cfg, Event::Fetched(true)) {
        Action::Extract { archive, format, target } => {
            assert_eq!(archive, "/stage/foo-src/a.tar.gz");
            assert_eq!(target, "/stage/foo-src");
            format
        }
        a => panic!("unexpected {:?}", a),
    };
    assert_eq!(format, ArchiveFormat::TarGz);
    let x = extract_archive("tar", &payload).unwrap();
    assert_eq!(written(&x), vec![("x/y.txt".to_string(), b"y".to_vec())]);
    assert!(matches!(s.step(&cfg, Event::Extracted(Ok(()))), Action::Cleanup { .. }));
    assert!(matches!(s.step(&cfg, Event::CleanedUp), Action::Finish(Outcome::Installed)));
}

#[test]
fn error_messages_non_empty() {
    assert_eq!(InstallError::CorruptArchive.message(), "corrupt archive");
    assert_eq!(InstallError::UnsupportedEntry.message(), "archive entry is a link or special file");
    assert_eq!(InstallError::UnsupportedFormat.message(), "unsupported archive format");
}

#[test]
fn copy_and_read_failures_reported() {
    let cfg = Config::new(None, "/stage");
    let mut s = Session::new("foo".to_string());
    s.step(&cfg, Event::Begin);
    s.step(&cfg, Event::LocalScript(Some(ScriptExt::Sspm)));
    let a = s.step(&cfg, Event::Copied(false));
    assert!(matches!(a, Action::Finish(Outcome::Failed(InstallError::ScriptCopyFailed))));

    let mut s = Session::new("bar".to_string());
    s.step(&cfg, Event::Begin);
    s.step(&cfg, Event::LocalScript(None));
    s.step(&cfg, Event::Fetched(true));
    let a = s.step(&cfg, Event::ScriptRead(None));
    assert!(matches!(a, Action::Finish(Outcome::Failed(InstallError::ScriptUnreadable))));
}

#[test]
fn failed_extraction_cleans_up_and_reports() {
    let cfg = Config::new(None, "/stage");
    let mut s = Session::new("foo".to_string());
    s.step(&cfg, Event::Begin);
    s.step(&cfg, Event::LocalScript(Some(ScriptExt::Sspm)));
    s.step(&cfg, Event::Copied(true));
    s.step(&cfg, Event::ScriptRead(Some("source=http://h/p.zip\nformat=zip".to_string())));
    s.step(&cfg, Event::Fetched(true));
    match s.step(&cfg, Event::Extracted(Err(InstallError::UnsafeEntryPath))) {
        Action::Cleanup { payload, scratch } => {
            assert_eq!(payload, "/stage/foo-src/p.zip");
            assert_eq!(scratch, "/stage/foo-src");
        }
        a => panic!("unexpected {:?}", a),
    }
    let a = s.step(&cfg, Event::CleanedUp);
    assert!(matches!(a, Action::Finish(Outcome::Failed(InstallError::UnsafeEntryPath))));
}

#[test]
fn out_of_order_event_ignored() {
    let cfg = Config::new(None, "/stage");
    let mut s = Session::new("foo".to_string());
    assert!(matches!(s.step(&cfg, Event::CleanedUp), Action::Wait));
    assert!(matches!(s.phase, Phase::Start));
}

#[test]
fn mode_labels_exact() {
    assert_eq!(Mode::Install.label(), "INSTALL");
    assert_eq!(Mode::Remove.label(), "REMOVE");
    assert_eq!(Mode::Unset.label(), "NONE");
}

#[test]
fn well_formed_archives_decode() {
    assert!(rlpm::archive::decode_archive(ArchiveFormat::TarGz, &tar_gz(&[("a", b"1")])).is_ok());
    assert!(rlpm::archive::extract_as(ArchiveFormat::Zip, &zip_bytes(&[], &[("a", b"1")])).is_ok());
}
