use abz::format::Format;

#[test]
fn parse_known_suffixes() {
    assert_eq!(Format::parse("a.zip"), Some(Format::Zip));
    assert_eq!(Format::parse("backup.tar.gz"), Some(Format::TarGz));
    assert_eq!(Format::parse("x.7z"), Some(Format::SevenZ));
    assert_eq!(Format::parse("文件.zip"), Some(Format::Zip));
}

#[test]
fn parse_rejects_other_names() {
    assert_eq!(Format::parse(""), None);
    assert_eq!(Format::parse("zip"), None);
    assert_eq!(Format::parse("a.gz"), None);
    assert_eq!(Format::parse("a.tar"), None);
    assert_eq!(Format::parse("a.ZIP"), None);
    assert_eq!(Format::parse("a.zip.txt"), None);
    assert_eq!(Format::parse("a.z"), None);
}

#[test]
fn parse_bare_suffix() {
    assert_eq!(Format::parse(".zip"), Some(Format::Zip));
    assert_eq!(Format::parse(".tar.gz"), Some(Format::TarGz));
    assert_eq!(Format::parse(".7z"), Some(Format::SevenZ));
}

#[test]
fn extension_of_each_format() {
    assert_eq!(Format::Zip.extension(), "zip");
    assert_eq!(Format::TarGz.extension(), "tar.gz");
    assert_eq!(Format::SevenZ.extension(), "7z");
}

#[test]
fn extensions_follow_all() {
    let all = Format::all();
    let exts = Format::extensions();
    assert_eq!(all, [Format::Zip, Format::SevenZ, Format::TarGz]);
    assert_eq!(exts, ["zip", "7z", "tar.gz"]);
    for i in 0..3 {
        assert_eq!(exts[i], all[i].extension());
    }
}

#[test]
fn display_text_is_extension() {
    assert_eq!(Format::Zip.to_string(), "zip");
    assert_eq!(Format::TarGz.to_string(), "tar.gz");
    assert_eq!(Format::SevenZ.to_string(), "7z");
}

#[test]
fn default_format_is_zip() {
    assert_eq!(Format::default(), Format::Zip);
}

#[test]
fn suffixed_names_read_back() {
    for base in ["", "a", "report.2024", "x.zip", "y.7z.tar"] {
        for format in Format::all() {
            let name = format!("{}.{}", base, format.extension());
            assert_eq!(Format::parse(&name), Some(format), "{}", name);
        }
    }
}

#[test]
fn extensions_are_distinct() {
    let all = Format::all();
    for a in all {
        for b in all {
            if a != b {
                assert_ne!(a.extension(), b.extension());
            }
        }
    }
}
