use crate::format::{ends_with, format_of_name, lemma_suffix_names_format, suffix_of, Format};
use crate::status::Status;
use std::path::PathBuf;
use vstd::prelude::*;

verus! {

/// A file system path, carried through the library unread.
#[verifier::external_type_specification]
#[verifier::external_body]
pub struct ExPathBuf(PathBuf);

/// `PathBuf::clone`: the std documentation gives a copy of the same path;
/// this states that the copy equals the original.
pub assume_specification[ <PathBuf as Clone>::clone ](path: &PathBuf) -> (r: PathBuf)
    ensures
        r == *path,
;

/// An archive file chosen for conversion.
#[derive(Debug)]
pub struct Archive {
    pub path: PathBuf,
    pub format: Format,
    pub size: u64,
    pub status: Status,
}

impl Clone for Archive {
    fn clone(&self) -> (r: Archive)
        ensures
            r == *self,
    {
        Archive {
            path: self.path.clone(),
            format: self.format,
            size: self.size,
            status: self.status.clone(),
        }
    }
}

/// The archive a file system entry stands for: a regular file whose name is
/// valid text and carries the suffix of a known format, pending conversion.
pub open spec fn archive_of(path: PathBuf, is_file: bool, file_name: Option<Seq<char>>, size: u64)
    -> Option<Archive> {
    if is_file {
        match file_name {
            Some(name) => match format_of_name(name) {
                Some(format) => Some(Archive { path, format, size, status: Status::Pending }),
                None => None,
            },
            None => None,
        }
    } else {
        None
    }
}

/// The view of an optional string slice.
pub open spec fn opt_str_view(s: Option<&str>) -> Option<Seq<char>> {
    match s {
        Some(t) => Some(t@),
        None => None,
    }
}

/// How an archive is turned into the target format.
#[derive(Debug, Clone, Copy, PartialEq, Eq, Structural)]
pub enum Conversion {
    /// The archive already has the target format: its bytes are copied.
    Copy,
    ZipToTarGz,
    TarGzToZip,
    ZipToSevenZ,
    SevenZToZip,
    SevenZToTarGz,
    TarGzToSevenZ,
}

/// The conversion from one format to another.
pub open spec fn conversion_between(from: Format, to: Format) -> Conversion {
    match (from, to) {
        (Format::Zip, Format::TarGz) => Conversion::ZipToTarGz,
        (Format::TarGz, Format::Zip) => Conversion::TarGzToZip,
        (Format::Zip, Format::SevenZ) => Conversion::ZipToSevenZ,
        (Format::SevenZ, Format::Zip) => Conversion::SevenZToZip,
        (Format::SevenZ, Format::TarGz) => Conversion::SevenZToTarGz,
        (Format::TarGz, Format::SevenZ) => Conversion::TarGzToSevenZ,
        _ => Conversion::Copy,
    }
}

/// A file name without the suffix of its format.
pub open spec fn base_name(name: Seq<char>, from: Format) -> Seq<char> {
    name.subrange(0, name.len() - suffix_of(from).len())
}

/// The file name a converted archive gets: the same name when the format
/// stays, else the base name with the target format's suffix.
pub open spec fn converted_name(name: Seq<char>, from: Format, to: Format) -> Seq<char> {
    if from == to {
        name
    } else {
        base_name(name, from) + suffix_of(to)
    }
}

impl Archive {
    /// The archive for a file system entry, from what the file system says of
    /// it: whether it is a regular file, its file name if that is valid text,
    /// and its length.
    pub fn parse(path: PathBuf, is_file: bool, file_name: Option<&str>, size: u64) -> (r: Option<
        Archive,
    >)
        ensures
            r == archive_of(path, is_file, opt_str_view(file_name), size),
    {
        if !is_file {
            return None;
        }
        match file_name {
            Some(name) => match Format::parse(name) {
                Some(format) => Some(
                    Archive { path, format, size, status: Status::default() },
                ),
                None => None,
            },
            None => None,
        }
    }

    /// How to convert this archive, whose file name is `file_name`, to
    /// `target`, and the file name of the result.
    pub fn plan(&self, file_name: &str, target: Format) -> (r: (Conversion, String))
        requires
            ends_with(file_name@, suffix_of(self.format)),
        ensures
            r.0 == conversion_between(self.format, target),
            r.1@ == converted_name(file_name@, self.format, target),
    {
        let conversion = match (self.format, target) {
            (Format::Zip, Format::TarGz) => Conversion::ZipToTarGz,
            (Format::TarGz, Format::Zip) => Conversion::TarGzToZip,
            (Format::Zip, Format::SevenZ) => Conversion::ZipToSevenZ,
            (Format::SevenZ, Format::Zip) => Conversion::SevenZToZip,
            (Format::SevenZ, Format::TarGz) => Conversion::SevenZToTarGz,
            (Format::TarGz, Format::SevenZ) => Conversion::TarGzToSevenZ,
            _ => Conversion::Copy,
        };
        if self.format == target {
            return (conversion, file_name.to_owned());
        }
        let n: usize = file_name.unicode_len();
        let m: usize = self.format.extension().unicode_len() + 1;
        let base = file_name.substring_char(0, n - m);
        let mut name = base.to_owned();
        proof {
            reveal_strlit(".");
        }
        name.append(".");
        name.append(target.extension());
        assert(name@ =~= converted_name(file_name@, self.format, target));
        (conversion, name)
    }
}

/// A converted archive's file name is read back as the target format, and it
/// keeps the source's base name.
pub proof fn lemma_converted_name_format(name: Seq<char>, from: Format, to: Format)
    requires
        ends_with(name, suffix_of(from)),
    ensures
        format_of_name(converted_name(name, from, to)) == Some(to),
        converted_name(name, from, to) == base_name(name, from) + suffix_of(to),
{
    assert(name =~= base_name(name, from) + suffix_of(from));
    lemma_suffix_names_format(base_name(name, from), from);
    lemma_suffix_names_format(base_name(name, from), to);
}

/// An archive made from an entry carries the format its name announces, and
/// its name ends with that format's suffix.
pub proof fn lemma_parsed_archive_suffix(
    path: PathBuf,
    is_file: bool,
    file_name: Seq<char>,
    size: u64,
)
    ensures
        archive_of(path, is_file, Some(file_name), size) matches Some(a) ==> ends_with(
            file_name,
            suffix_of(a.format),
        ) && a.status == Status::Pending && a.size == size,
{
}


/// Converting a file named `base` plus the source suffix names the result
/// `base` plus the target suffix: the whole base name is kept, and a copy
/// (same format) keeps the whole file name.
pub proof fn lemma_converted_name_exact(base: Seq<char>, from: Format, to: Format)
    ensures
        converted_name(base + suffix_of(from), from, to) == base + suffix_of(to),
        from == to ==> converted_name(base + suffix_of(from), from, to) == base + suffix_of(from),
{
    let name = base + suffix_of(from);
    assert(base_name(name, from) =~= base);
}

/// For a name that ends with the source suffix, the converted name is the
/// name without that suffix followed by the target suffix.
pub proof fn lemma_converted_name_replaces_suffix(name: Seq<char>, from: Format, to: Format)
    requires
        ends_with(name, suffix_of(from)),
    ensures
        converted_name(name, from, to) == name.subrange(0, name.len() - suffix_of(from).len())
            + suffix_of(to),
        from == to ==> converted_name(name, from, to) == name,
{
    let base = name.subrange(0, name.len() - suffix_of(from).len());
    assert(name =~= base + suffix_of(from));
    lemma_converted_name_exact(base, from, to);
}

/// Each conversion is named by its source and target format; the same format
/// on both sides is a copy.
pub proof fn lemma_conversion_pairs(from: Format, to: Format)
    ensures
        conversion_between(from, to) == Conversion::Copy <==> from == to,
        conversion_between(from, to) == Conversion::ZipToTarGz <==> (from == Format::Zip && to
            == Format::TarGz),
        conversion_between(from, to) == Conversion::TarGzToZip <==> (from == Format::TarGz && to
            == Format::Zip),
        conversion_between(from, to) == Conversion::ZipToSevenZ <==> (from == Format::Zip && to
            == Format::SevenZ),
        conversion_between(from, to) == Conversion::SevenZToZip <==> (from == Format::SevenZ && to
            == Format::Zip),
        conversion_between(from, to) == Conversion::SevenZToTarGz <==> (from == Format::SevenZ
            && to == Format::TarGz),
        conversion_between(from, to) == Conversion::TarGzToSevenZ <==> (from == Format::TarGz
            && to == Format::SevenZ),
{
}

/// An entry is an archive exactly when it is a regular file whose name is
/// valid text and is read as a format; the archive then has the entry's
/// path, that format and the entry's size, and is pending.
pub proof fn lemma_archive_of_entry(
    path: PathBuf,
    is_file: bool,
    file_name: Option<Seq<char>>,
    size: u64,
)
    ensures
        !is_file ==> archive_of(path, is_file, file_name, size) is None,
        file_name is None ==> archive_of(path, is_file, file_name, size) is None,
        forall|name: Seq<char>|
            file_name == Some(name) && format_of_name(name) is None ==> #[trigger] archive_of(
                path,
                is_file,
                Some(name),
                size,
            ) is None,
        forall|name: Seq<char>|
            is_file && file_name == Some(name) && format_of_name(name) is Some ==> #[trigger] archive_of(
                path,
                is_file,
                Some(name),
                size,
            ) == Some(
                Archive {
                    path,
                    format: format_of_name(name).unwrap(),
                    size,
                    status: Status::Pending,
                },
            ),
{
}

/// A regular file named any base plus a format's suffix is an archive of
/// that format, with the file's path and size, pending.
pub proof fn lemma_suffixed_file_is_archive(path: PathBuf, base: Seq<char>, format: Format, size: u64)
    ensures
        archive_of(path, true, Some(base + suffix_of(format)), size) == Some(
            Archive { path, format, size, status: Status::Pending },
        ),
{
    lemma_suffix_names_format(base, format);
}

} // verus!

