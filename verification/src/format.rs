use vstd::prelude::*;

verus! {

/// `s` ends with `suffix` (character by character).
pub open spec fn ends_with(s: Seq<char>, suffix: Seq<char>) -> bool {
    &&& suffix.len() <= s.len()
    &&& s.subrange(s.len() - suffix.len(), s.len() as int) =~= suffix
}

/// Decides whether `s` ends with `suffix`.
pub fn str_ends_with(s: &str, suffix: &str) -> (r: bool)
    ensures
        r == ends_with(s@, suffix@),
{
    let n: usize = s.unicode_len();
    let m: usize = suffix.unicode_len();
    if m > n {
        return false;
    }
    let start: usize = n - m;
    let mut k: usize = 0;
    while k < m
        invariant
            n == s@.len(),
            m == suffix@.len(),
            m <= n,
            start == n - m,
            k <= m,
            forall|j: int| 0 <= j < k ==> s@[start + j] == suffix@[j],
        decreases m - k,
    {
        if s.get_char(start + k) != suffix.get_char(k) {
            assert(s@.subrange(start as int, n as int)[k as int] != suffix@[k as int]);
            return false;
        }
        k = k + 1;
    }
    assert(s@.subrange(start as int, n as int) =~= suffix@);
    true
}


/// The archive formats that can be read and written.
#[derive(Debug, Clone, Copy, PartialEq, Eq, Structural, PartialOrd, Ord, Hash)]
pub enum Format {
    Zip,
    TarGz,
    SevenZ,
}

/// The file extension of a format, without the leading dot.
pub open spec fn extension_of(format: Format) -> Seq<char> {
    match format {
        Format::Zip => seq!['z', 'i', 'p'],
        Format::TarGz => seq!['t', 'a', 'r', '.', 'g', 'z'],
        Format::SevenZ => seq!['7', 'z'],
    }
}

/// The suffix a file name of a format carries: a dot and the extension.
pub open spec fn suffix_of(format: Format) -> Seq<char> {
    seq!['.'] + extension_of(format)
}

/// The format a file name announces by its suffix, tried in the order
/// `.zip`, `.tar.gz`, `.7z`.
pub open spec fn format_of_name(name: Seq<char>) -> Option<Format> {
    if ends_with(name, suffix_of(Format::Zip)) {
        Some(Format::Zip)
    } else if ends_with(name, suffix_of(Format::TarGz)) {
        Some(Format::TarGz)
    } else if ends_with(name, suffix_of(Format::SevenZ)) {
        Some(Format::SevenZ)
    } else {
        None
    }
}

/// The formats in the order in which they are offered for choice.
pub open spec fn all_formats() -> Seq<Format> {
    seq![Format::Zip, Format::SevenZ, Format::TarGz]
}

impl Default for Format {
    fn default() -> (r: Format)
        ensures
            r == Format::Zip,
    {
        Format::Zip
    }
}

impl Format {
    /// Every format, in the order in which they are offered for choice.
    pub fn all() -> (r: [Format; 3])
        ensures
            r@ == all_formats(),
    {
        let r = [Format::Zip, Format::SevenZ, Format::TarGz];
        assert(r@ =~= all_formats());
        r
    }

    /// The extensions of all formats, in the order of [`Format::all`].
    pub fn extensions() -> (r: [&'static str; 3])
        ensures
            r@.len() == 3,
            forall|i: int| 0 <= i < 3 ==> (#[trigger] r@[i])@ == extension_of(all_formats()[i]),
    {
        let r = [Format::Zip.extension(), Format::SevenZ.extension(), Format::TarGz.extension()];
        r
    }

    /// The file extension of this format, without the leading dot.
    pub fn extension(&self) -> (r: &'static str)
        ensures
            r@ == extension_of(*self),
    {
        match self {
            Format::Zip => {
                let r = "zip";
                proof {
                    reveal_strlit("zip");
                }
                assert(r@ =~= extension_of(*self));
                r
            },
            Format::TarGz => {
                let r = "tar.gz";
                proof {
                    reveal_strlit("tar.gz");
                }
                assert(r@ =~= extension_of(*self));
                r
            },
            Format::SevenZ => {
                let r = "7z";
                proof {
                    reveal_strlit("7z");
                }
                assert(r@ =~= extension_of(*self));
                r
            },
        }
    }

    /// The format named by a file name's suffix, if any.
    pub fn parse(file_name: &str) -> (r: Option<Format>)
        ensures
            r == format_of_name(file_name@),
    {
        proof {
            reveal_strlit(".zip");
            reveal_strlit(".tar.gz");
            reveal_strlit(".7z");
            assert(".zip"@ =~= suffix_of(Format::Zip));
            assert(".tar.gz"@ =~= suffix_of(Format::TarGz));
            assert(".7z"@ =~= suffix_of(Format::SevenZ));
        }
        if str_ends_with(file_name, ".zip") {
            return Some(Format::Zip);
        }
        if str_ends_with(file_name, ".tar.gz") {
            return Some(Format::TarGz);
        }
        if str_ends_with(file_name, ".7z") {
            return Some(Format::SevenZ);
        }
        None
    }

    /// The name under which the format is shown: its extension.
    pub fn to_string(&self) -> (r: String)
        ensures
            r@ == extension_of(*self),
    {
        self.extension().to_owned()
    }
}


/// A name made of any base and a format's suffix is read back as that format.
pub proof fn lemma_suffix_names_format(base: Seq<char>, format: Format)
    ensures
        format_of_name(base + suffix_of(format)) == Some(format),
{
    let name = base + suffix_of(format);
    let n: nat = name.len();
    assert(name.subrange(n - suffix_of(format).len(), n as int) =~= suffix_of(format));
    // the last characters tell the suffixes apart
    assert(name[n - 1] == suffix_of(format).last());
    assert(name[n - 2] == suffix_of(format)[suffix_of(format).len() - 2]);
    if format != Format::Zip {
        assert(!ends_with(name, suffix_of(Format::Zip))) by {
            if ends_with(name, suffix_of(Format::Zip)) {
                assert(name.subrange(n - 4, n as int)[3] == name[n - 1]);
            }
        }
    }
    if format == Format::SevenZ {
        assert(!ends_with(name, suffix_of(Format::TarGz))) by {
            if ends_with(name, suffix_of(Format::TarGz)) {
                assert(name.subrange(n - 7, n as int)[5] == name[n - 2]);
            }
        }
    }
}

/// A name read as a format ends with that format's suffix.
pub proof fn lemma_format_names_suffix(name: Seq<char>)
    ensures
        format_of_name(name) matches Some(format) ==> ends_with(name, suffix_of(format)),
{
}

/// Different formats have different extensions.
pub proof fn lemma_extensions_distinct(a: Format, b: Format)
    requires
        a != b,
    ensures
        extension_of(a) != extension_of(b),
{
    assert(extension_of(a).len() != extension_of(b).len() || extension_of(a)[0] != extension_of(b)[0]);
}


/// The extensions are the texts `zip`, `tar.gz` and `7z`.
pub proof fn lemma_extension_texts(format: Format)
    ensures
        format == Format::Zip ==> extension_of(format) == seq!['z', 'i', 'p'],
        format == Format::TarGz ==> extension_of(format) == seq!['t', 'a', 'r', '.', 'g', 'z'],
        format == Format::SevenZ ==> extension_of(format) == seq!['7', 'z'],
        suffix_of(format) == seq!['.'] + extension_of(format),
{
}

/// A name is read as a format exactly when it ends with `.zip`, `.tar.gz` or
/// `.7z`, and then as the format of that suffix.
pub proof fn lemma_names_by_literal_suffix(name: Seq<char>)
    ensures
        ends_with(name, seq!['.', 'z', 'i', 'p']) ==> format_of_name(name) == Some(Format::Zip),
        ends_with(name, seq!['.', 't', 'a', 'r', '.', 'g', 'z']) ==> format_of_name(name) == Some(
            Format::TarGz,
        ),
        ends_with(name, seq!['.', '7', 'z']) ==> format_of_name(name) == Some(Format::SevenZ),
        !ends_with(name, seq!['.', 'z', 'i', 'p']) && !ends_with(
            name,
            seq!['.', 't', 'a', 'r', '.', 'g', 'z'],
        ) && !ends_with(name, seq!['.', '7', 'z']) ==> format_of_name(name) is None,
{
    assert(suffix_of(Format::Zip) =~= seq!['.', 'z', 'i', 'p']);
    assert(suffix_of(Format::TarGz) =~= seq!['.', 't', 'a', 'r', '.', 'g', 'z']);
    assert(suffix_of(Format::SevenZ) =~= seq!['.', '7', 'z']);
    let n: nat = name.len();
    if ends_with(name, seq!['.', 't', 'a', 'r', '.', 'g', 'z']) {
        assert(name.subrange(n - 7, n as int)[6] == name[n - 1]);
        if ends_with(name, seq!['.', 'z', 'i', 'p']) {
            assert(name.subrange(n - 4, n as int)[3] == name[n - 1]);
        }
    }
    if ends_with(name, seq!['.', '7', 'z']) {
        assert(name.subrange(n - 3, n as int)[2] == name[n - 1]);
        assert(name.subrange(n - 3, n as int)[1] == name[n - 2]);
        if ends_with(name, seq!['.', 'z', 'i', 'p']) {
            assert(name.subrange(n - 4, n as int)[3] == name[n - 1]);
        }
        if ends_with(name, seq!['.', 't', 'a', 'r', '.', 'g', 'z']) {
            assert(name.subrange(n - 7, n as int)[5] == name[n - 2]);
        }
    }
}

/// The formats offered for choice are the three formats, each once, in the
/// order zip, 7z, tar.gz.
pub proof fn lemma_all_formats_listed(format: Format)
    ensures
        all_formats().len() == 3,
        all_formats().contains(format),
        all_formats()[0] == Format::Zip,
        all_formats()[1] == Format::SevenZ,
        all_formats()[2] == Format::TarGz,
{
    match format {
        Format::Zip => assert(all_formats()[0] == format),
        Format::SevenZ => assert(all_formats()[1] == format),
        Format::TarGz => assert(all_formats()[2] == format),
    }
}


/// `s` ends with `t` exactly when `s` is some text followed by `t`.
pub proof fn lemma_ends_with_meaning(s: Seq<char>, t: Seq<char>, base: Seq<char>)
    ensures
        ends_with(base + t, t),
        ends_with(s, t) ==> s == s.subrange(0, s.len() - t.len()) + t,
        t.len() > s.len() ==> !ends_with(s, t),
{
    assert((base + t).subrange(base.len() as int, (base + t).len() as int) =~= t);
    if ends_with(s, t) {
        assert(s =~= s.subrange(0, s.len() - t.len()) + t);
    }
}

} // verus!

