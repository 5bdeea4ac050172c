use abz::archive::{Archive, Conversion};
use abz::format::Format;
use abz::status::Status;
use std::path::PathBuf;

fn archive(name: &str, format: Format, size: u64) -> Archive {
    Archive { path: PathBuf::from(format!("/data/{}", name)), format, size, status: Status::Pending }
}

#[test]
fn parse_regular_archive_file() {
    let a = Archive::parse(PathBuf::from("/d/a.tar.gz"), true, Some("a.tar.gz"), 1234).unwrap();
    assert_eq!(a.path, PathBuf::from("/d/a.tar.gz"));
    assert_eq!(a.format, Format::TarGz);
    assert_eq!(a.size, 1234);
    assert!(matches!(a.status, Status::Pending));
}

#[test]
fn parse_skips_folders_and_unknown_names() {
    assert!(Archive::parse(PathBuf::from("/d/a.zip"), false, Some("a.zip"), 0).is_none());
    assert!(Archive::parse(PathBuf::from("/d/a.txt"), true, Some("a.txt"), 5).is_none());
    assert!(Archive::parse(PathBuf::from("/d/x"), true, None, 5).is_none());
}

#[test]
fn plan_each_conversion() {
    let cases = [
        (Format::Zip, "a.zip", Format::TarGz, Conversion::ZipToTarGz, "a.tar.gz"),
        (Format::TarGz, "a.tar.gz", Format::Zip, Conversion::TarGzToZip, "a.zip"),
        (Format::Zip, "a.zip", Format::SevenZ, Conversion::ZipToSevenZ, "a.7z"),
        (Format::SevenZ, "a.7z", Format::Zip, Conversion::SevenZToZip, "a.zip"),
        (Format::SevenZ, "a.7z", Format::TarGz, Conversion::SevenZToTarGz, "a.tar.gz"),
        (Format::TarGz, "a.tar.gz", Format::SevenZ, Conversion::TarGzToSevenZ, "a.7z"),
    ];
    for (from, name, to, conversion, target) in cases {
        let (c, n) = archive(name, from, 1).plan(name, to);
        assert_eq!(c, conversion);
        assert_eq!(n, target);
    }
}

#[test]
fn plan_same_format_copies() {
    for format in Format::all() {
        let name = format!("数据.{}", format.extension());
        let (c, n) = archive(&name, format, 1).plan(&name, format);
        assert_eq!(c, Conversion::Copy);
        assert_eq!(n, name);
    }
}

#[test]
fn plan_keeps_base_name_with_dots() {
    let (c, n) = archive("v1.2.tar.gz", Format::TarGz, 1).plan("v1.2.tar.gz", Format::Zip);
    assert_eq!(c, Conversion::TarGzToZip);
    assert_eq!(n, "v1.2.zip");
    let (_, n) = archive("x.tar.zip", Format::Zip, 1).plan("x.tar.zip", Format::TarGz);
    assert_eq!(n, "x.tar.tar.gz");
}

#[test]
fn converted_name_reads_back_as_target() {
    for from in Format::all() {
        for to in Format::all() {
            let name = format!("file.{}", from.extension());
            let (_, target) = archive(&name, from, 1).plan(&name, to);
            assert_eq!(Format::parse(&target), Some(to));
            assert!(target.starts_with("file."));
        }
    }
}

#[test]
fn clone_keeps_every_field() {
    let mut a = archive("a.zip", Format::Zip, 77);
    a.status = Status::Failed("bad".to_string());
    let b = a.clone();
    assert_eq!(b.path, a.path);
    assert_eq!(b.format, a.format);
    assert_eq!(b.size, 77);
    assert_eq!(b.status.to_string(), "处理失败: bad");
}
