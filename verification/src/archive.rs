//! The kinds of archive that packages are made into, how one is
//! recognised from its contents, and the names its entries get.
use crate::text::{
    ascii_lower, chars_of, concat, push_char, str_eq, string_of, to_ascii_lowercase, utf8_len,
    utf8_len_within,
};
use vstd::prelude::*;

verus! {

/// A kind of archive.
#[derive(Debug, Clone, Copy, PartialEq, Eq, Structural)]
pub enum ArchiveType {
    Zip,
    TarGz,
    TarXz,
    TarZstd,
    Tar,
    UnixAr,
}

impl Default for ArchiveType {
    /// A gzip-compressed tar archive.
    fn default() -> (r: ArchiveType)
        ensures
            r == ArchiveType::TarGz,
    {
        ArchiveType::TarGz
    }
}

/// The text of a kind of archive.
pub open spec fn archive_text(t: ArchiveType) -> Seq<char> {
    match t {
        ArchiveType::Zip => "zip"@,
        ArchiveType::TarGz => "tar.gz"@,
        ArchiveType::TarXz => "tar.xz"@,
        ArchiveType::TarZstd => "tar.zst"@,
        ArchiveType::Tar => "tar"@,
        ArchiveType::UnixAr => "unix archive"@,
    }
}

/// The kind of archive that a name denotes, in any case.
pub open spec fn archive_named(name: Seq<char>) -> Option<ArchiveType> {
    let l = ascii_lower(name);
    if l == "zip"@ {
        Some(ArchiveType::Zip)
    } else if l == "tar.gz"@ || l == "tgz"@ {
        Some(ArchiveType::TarGz)
    } else if l == "tar.xz"@ || l == "txz"@ {
        Some(ArchiveType::TarXz)
    } else if l == "tar.zst"@ || l == "tar.zstd"@ || l == "tzst"@ {
        Some(ArchiveType::TarZstd)
    } else if l == "tar"@ {
        Some(ArchiveType::Tar)
    } else if l == "ar"@ {
        Some(ArchiveType::UnixAr)
    } else {
        None
    }
}

/// The kind of archive that a detected file extension shows.
pub open spec fn archive_of_extension(ext: Seq<char>) -> Option<ArchiveType> {
    if ext == "zip"@ {
        Some(ArchiveType::Zip)
    } else if ext == "tar"@ {
        Some(ArchiveType::Tar)
    } else if ext == "gz"@ || ext == "gzip"@ || ext == "tar.gz"@ {
        Some(ArchiveType::TarGz)
    } else if ext == "xz"@ || ext == "tar.xz"@ {
        Some(ArchiveType::TarXz)
    } else if ext == "zst"@ || ext == "zstd"@ || ext == "tar.zst"@ || ext == "tar.zstd"@ {
        Some(ArchiveType::TarZstd)
    } else if ext == "deb"@ || ext == "rpm"@ || ext == "ar"@ || ext == "a"@ {
        Some(ArchiveType::UnixAr)
    } else {
        None
    }
}

impl ArchiveType {
    /// Reads a kind of archive from its name, in any case: `zip`; `tar.gz`
    /// or `tgz`; `tar.xz` or `txz`; `tar.zst`, `tar.zstd` or `tzst`; `tar`; `ar`.
    pub fn from_str(s: &str) -> (r: Result<ArchiveType, String>)
        ensures
            match archive_named(s@) {
                Some(t) => r == Ok::<ArchiveType, String>(t),
                None => r matches Err(e) && e@ == "Invalid Archive Type: "@ + s@,
            },
    {
        let l = to_ascii_lowercase(s);
        let t = l.as_str();
        if str_eq(t, "zip") {
            Ok(ArchiveType::Zip)
        } else if str_eq(t, "tar.gz") || str_eq(t, "tgz") {
            Ok(ArchiveType::TarGz)
        } else if str_eq(t, "tar.xz") || str_eq(t, "txz") {
            Ok(ArchiveType::TarXz)
        } else if str_eq(t, "tar.zst") || str_eq(t, "tar.zstd") || str_eq(t, "tzst") {
            Ok(ArchiveType::TarZstd)
        } else if str_eq(t, "tar") {
            Ok(ArchiveType::Tar)
        } else if str_eq(t, "ar") {
            Ok(ArchiveType::UnixAr)
        } else {
            Err(concat("Invalid Archive Type: ", s))
        }
    }

    /// `zip`, `tar.gz`, `tar.xz`, `tar.zst`, `tar` or `unix archive`.
    pub fn to_string(&self) -> (r: String)
        ensures
            r@ == archive_text(*self),
    {
        match self {
            ArchiveType::Zip => string_of("zip"),
            ArchiveType::TarGz => string_of("tar.gz"),
            ArchiveType::TarXz => string_of("tar.xz"),
            ArchiveType::TarZstd => string_of("tar.zst"),
            ArchiveType::Tar => string_of("tar"),
            ArchiveType::UnixAr => string_of("unix archive"),
        }
    }
}

/// The kind of archive that the detected extension `ext` shows; the
/// extension itself as the error when it shows none.
pub fn archive_type_of_extension(ext: &str) -> (r: Result<ArchiveType, String>)
    ensures
        match archive_of_extension(ext@) {
            Some(t) => r == Ok::<ArchiveType, String>(t),
            None => r matches Err(e) && e@ == ext@,
        },
{
    if str_eq(ext, "zip") {
        Ok(ArchiveType::Zip)
    } else if str_eq(ext, "tar") {
        Ok(ArchiveType::Tar)
    } else if str_eq(ext, "gz") || str_eq(ext, "gzip") || str_eq(ext, "tar.gz") {
        Ok(ArchiveType::TarGz)
    } else if str_eq(ext, "xz") || str_eq(ext, "tar.xz") {
        Ok(ArchiveType::TarXz)
    } else if str_eq(ext, "zst") || str_eq(ext, "zstd") || str_eq(ext, "tar.zst") || str_eq(ext, "tar.zstd") {
        Ok(ArchiveType::TarZstd)
    } else if str_eq(ext, "deb") || str_eq(ext, "rpm") || str_eq(ext, "ar") || str_eq(ext, "a") {
        Ok(ArchiveType::UnixAr)
    } else {
        Err(string_of(ext))
    }
}

/// The file extension that `file_format` gives for the contents `bytes`.
pub uninterp spec fn detected_extension(bytes: Seq<u8>) -> Seq<char>;

/// The usual extension of the file format of the contents `bytes`.
///
/// Calls `file_format::FileFormat::from_bytes` and `FileFormat::extension`;
/// the contract names the result without stating it.
#[verifier::external_body]
fn file_extension(bytes: &[u8]) -> (r: String)
    ensures
        r@ == detected_extension(bytes@),
{
    file_format::FileFormat::from_bytes(bytes).extension().to_string()
}

/// The kind of archive that the contents `bytes` of a file are, by the
/// format detected from them; the detected extension as the error when it
/// is no archive this library handles.
pub fn get_archive_type(bytes: &[u8]) -> (r: Result<ArchiveType, String>)
    ensures
        match archive_of_extension(detected_extension(bytes@)) {
            Some(t) => r == Ok::<ArchiveType, String>(t),
            None => r matches Err(e) && e@ == detected_extension(bytes@),
        },
{
    let ext = file_extension(bytes);
    archive_type_of_extension(ext.as_str())
}

/// Whether a source path ends with `/` or `\`: then the archive holds the
/// directory's contents at its root, else under the directory's name.
pub open spec fn ends_with_separator(p: Seq<char>) -> bool {
    p.len() > 0 && (p.last() == '/' || p.last() == '\\')
}

/// `t` with every `\` written as `/`.
pub open spec fn forward_slashes(t: Seq<char>) -> Seq<char> {
    t.map_values(|c: char| if c == '\\' { '/' } else { c })
}

/// The name in a zip or tar archive of the walked path whose text relative to
/// the source is `relative`: the relative text itself (with `/` separators)
/// when the source ends with a separator; else under `dir_name`, the source
/// directory's own name, which also names the source itself.
pub open spec fn entry_name(has_slash: bool, dir_name: Seq<char>, relative: Seq<char>) -> Seq<
    char,
> {
    if has_slash {
        forward_slashes(relative)
    } else if relative.len() == 0 {
        dir_name
    } else {
        dir_name + "/"@ + forward_slashes(relative)
    }
}

/// The name in a Unix `ar` archive of the file whose text relative to the
/// source is `relative`.
pub open spec fn ar_entry_name(has_slash: bool, dir_name: Seq<char>, relative: Seq<char>) -> Seq<
    char,
> {
    if has_slash {
        relative
    } else {
        dir_name + "/"@ + relative
    }
}

/// The entry that a zip archive gets for a walked file or directory: a
/// directory's name ends with `/`; the source directory itself gets none
/// when the source ends with a separator.
pub open spec fn zip_entry(has_slash: bool, dir_name: Seq<char>, relative: Seq<char>, is_dir: bool) -> Option<
    Seq<char>,
> {
    if !is_dir {
        Some(entry_name(has_slash, dir_name, relative))
    } else if has_slash && relative.len() == 0 {
        None
    } else {
        Some(entry_name(has_slash, dir_name, relative) + "/"@)
    }
}

/// The entry that a tar archive gets for a walked file or directory: none
/// for an empty name; an error for a name of more than 100 bytes; a
/// directory's name ends with `/`.
pub open spec fn tar_entry(has_slash: bool, dir_name: Seq<char>, relative: Seq<char>, is_dir: bool) -> Result<
    Option<Seq<char>>,
    Seq<char>,
> {
    let name = entry_name(has_slash, dir_name, relative);
    if name.len() == 0 {
        Ok(None)
    } else if utf8_len(name) > 100 {
        Err("Path too long for tar: "@ + name)
    } else if is_dir && name.last() != '/' {
        Ok(Some(name.push('/')))
    } else {
        Ok(Some(name))
    }
}

/// Whether the source path `from` ends with `/` or `\`.
pub fn source_has_separator(from: &str) -> (r: bool)
    ensures
        r == ends_with_separator(from@),
{
    let n = from.unicode_len();
    if n == 0 {
        false
    } else {
        let c = from.get_char(n - 1);
        c == '/' || c == '\\'
    }
}

/// The text `t` with every `\` written as `/`.
fn with_forward_slashes(t: &str) -> (r: String)
    ensures
        r@ == forward_slashes(t@),
{
    let cs = chars_of(t);
    let mut r = String::new();
    let mut i: usize = 0;
    while i < cs.len()
        invariant
            i <= cs.len(),
            cs@ == t@,
            r@ == forward_slashes(t@).take(i as int),
        decreases cs.len() - i,
    {
        let c = cs[i];
        if c == '\\' {
            push_char(&mut r, '/');
        } else {
            push_char(&mut r, c);
        }
        i = i + 1;
        assert(r@ =~= forward_slashes(t@).take(i as int));
    }
    assert(forward_slashes(t@).take(cs.len() as int) =~= forward_slashes(t@));
    r
}

/// The name in a zip or tar archive of a walked path (see `entry_name`).
pub fn archive_entry_name(has_slash: bool, dir_name: &str, relative: &str) -> (r: String)
    ensures
        r@ == entry_name(has_slash, dir_name@, relative@),
{
    if has_slash {
        with_forward_slashes(relative)
    } else if relative.unicode_len() == 0 {
        string_of(dir_name)
    } else {
        let mut r = concat(dir_name, "/");
        let rest = with_forward_slashes(relative);
        r.append(rest.as_str());
        r
    }
}

/// The name in a Unix `ar` archive of a walked file (see `ar_entry_name`).
pub fn ar_archive_entry_name(has_slash: bool, dir_name: &str, relative: &str) -> (r: String)
    ensures
        r@ == ar_entry_name(has_slash, dir_name@, relative@),
{
    if has_slash {
        string_of(relative)
    } else {
        let mut r = concat(dir_name, "/");
        r.append(relative);
        r
    }
}

/// The zip entry of a walked file or directory (see `zip_entry`); `None`
/// where the path gets no entry.
pub fn zip_entry_name(has_slash: bool, dir_name: &str, relative: &str, is_dir: bool) -> (r: Option<
    String,
>)
    ensures
        match zip_entry(has_slash, dir_name@, relative@, is_dir) {
            Some(name) => r matches Some(t) && t@ == name,
            None => r is None,
        },
{
    if !is_dir {
        Some(archive_entry_name(has_slash, dir_name, relative))
    } else if has_slash && relative.unicode_len() == 0 {
        None
    } else {
        let mut name = archive_entry_name(has_slash, dir_name, relative);
        name.append("/");
        Some(name)
    }
}

/// The tar entry of a walked file or directory (see `tar_entry`).
pub fn tar_entry_name(has_slash: bool, dir_name: &str, relative: &str, is_dir: bool) -> (r: Result<
    Option<String>,
    String,
>)
    ensures
        match tar_entry(has_slash, dir_name@, relative@, is_dir) {
            Ok(Some(name)) => r matches Ok(Some(t)) && t@ == name,
            Ok(None) => r matches Ok(None),
            Err(msg) => r matches Err(e) && e@ == msg,
        },
{
    let name = archive_entry_name(has_slash, dir_name, relative);
    let cs = chars_of(name.as_str());
    let n = cs.len();
    if n == 0 {
        Ok(None)
    } else if !utf8_len_within(&cs, 100) {
        Err(concat("Path too long for tar: ", name.as_str()))
    } else if is_dir && cs[n - 1] != '/' {
        let mut dir = name;
        push_char(&mut dir, '/');
        Ok(Some(dir))
    } else {
        Ok(Some(name))
    }
}

} // verus!
