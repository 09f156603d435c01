//! ZIP extraction with security validation.
//!
//! The decisions of an extraction stand here: which archives and entries are
//! refused, which entries are skipped, where an entry goes, and what is
//! recorded of an extracted file. Reading the archive goes through the `zip`
//! crate and hashing through `sha2`. Touching the file system is left to the
//! caller, which runs the extraction loop with these functions.

use vstd::prelude::*;
use sha2::Digest;
use vstd::utf8::encode_utf8;
use crate::text::{chars_of, concat, concat3, decimal, with_decimal, contains_seq, ends_with, owned, seq_contains,
    seq_ends_with, seq_starts_with, starts_with, push_char};
use super::tree::{FileInfo, ProjectTree};
use super::{MAX_ARCHIVE_SIZE, MAX_FILE_SIZE};

verus! {

/// Why an archive or one of its entries was refused.
#[derive(Debug, Clone)]
pub enum ZipError {
    /// The bytes are not a readable ZIP archive.
    InvalidArchive(String),
    /// An entry of the archive could not be opened.
    ExtractionFailed(String),
    /// An entry name reaches outside the destination.
    PathTraversalAttempt(String),
    /// An entry is larger than allowed: its size, then the limit.
    FileTooLarge(u64, u64),
    /// The archive is larger than allowed: its size, then the limit.
    ArchiveTooLarge(u64, u64),
    /// An entry name is too long.
    InvalidEncoding,
    /// Reading or writing failed.
    IoError(String),
}

impl ZipError {
    /// The text that describes the error.
    pub open spec fn message(self) -> Seq<char> {
        match self {
            ZipError::InvalidArchive(s) => "Invalid ZIP archive: "@ + s@,
            ZipError::ExtractionFailed(s) => "Extraction failed: "@ + s@,
            ZipError::PathTraversalAttempt(s) => "Path traversal attempt blocked: "@ + s@,
            ZipError::FileTooLarge(a, b) => "File too large: "@ + decimal(a as nat) + " bytes (max: "@
                + decimal(b as nat) + ")"@,
            ZipError::ArchiveTooLarge(a, b) => "Archive too large: "@ + decimal(a as nat)
                + " bytes (max: "@ + decimal(b as nat) + ")"@,
            ZipError::InvalidEncoding => "Invalid encoding in file path"@,
            ZipError::IoError(s) => "IO error: "@ + s@,
        }
    }

    /// The text that describes the error.
    pub fn to_string(&self) -> (s: String)
        ensures
            s@ == self.message(),
    {
        match self {
            ZipError::InvalidArchive(s) => concat("Invalid ZIP archive: ", s.as_str()),
            ZipError::ExtractionFailed(s) => concat("Extraction failed: ", s.as_str()),
            ZipError::PathTraversalAttempt(s) => concat("Path traversal attempt blocked: ", s.as_str()),
            ZipError::FileTooLarge(a, b) => sizes_message("File too large: ", *a, *b),
            ZipError::ArchiveTooLarge(a, b) => sizes_message("Archive too large: ", *a, *b),
            ZipError::InvalidEncoding => owned("Invalid encoding in file path"),
            ZipError::IoError(s) => concat("IO error: ", s.as_str()),
        }
    }
}

/// `<prefix><size> bytes (max: <limit>)`.
fn sizes_message(prefix: &str, size: u64, limit: u64) -> (s: String)
    ensures
        s@ == prefix@ + decimal(size as nat) + " bytes (max: "@ + decimal(limit as nat) + ")"@,
{
    let mut s = with_decimal(prefix, size);
    s.append(" bytes (max: ");
    crate::text::push_decimal(&mut s, limit);
    s.append(")");
    s
}

/// What an extraction produced.
#[derive(Debug, Clone)]
pub struct ExtractedProject {
    /// The destination directory.
    pub root_path: String,
    /// The extracted files, in archive order.
    pub files: Vec<FileInfo>,
    /// The tree of the destination directory.
    pub structure: ProjectTree,
}

/// Directory names whose entries are never extracted.
pub open spec fn spec_ignore_dirs() -> Seq<Seq<char>> {
    seq![
        "__pycache__"@,
        ".git"@,
        "venv"@,
        ".venv"@,
        "node_modules"@,
        ".env"@,
        ".mypy_cache"@,
        ".tox"@,
        ".pytest_cache"@,
        ".eggs"@,
    ]
}

/// Directory names whose entries are never extracted.
pub fn ignore_dirs() -> (v: Vec<&'static str>)
    ensures
        v@.map_values(|s: &str| s@) == spec_ignore_dirs(),
{
    let v = vec![
        "__pycache__",
        ".git",
        "venv",
        ".venv",
        "node_modules",
        ".env",
        ".mypy_cache",
        ".tox",
        ".pytest_cache",
        ".eggs",
    ];
    assert(v@.map_values(|s: &str| s@) =~= spec_ignore_dirs());
    v
}

/// The lower-case form of a string, as `str::to_lowercase` gives it.
pub uninterp spec fn lowercase(s: Seq<char>) -> Seq<char>;

/// Every character is ASCII.
pub open spec fn is_ascii_text(s: Seq<char>) -> bool {
    forall|i: int| 0 <= i < s.len() ==> (#[trigger] s[i] as u32) < 128
}

/// The lower-case form of an ASCII character: `A` to `Z` become `a` to `z`.
pub open spec fn ascii_lower_char(c: char) -> char {
    if 65 <= (c as u32) <= 90 {
        ((c as u32) + 32) as char
    } else {
        c
    }
}

/// The lower-case form of ASCII text.
pub open spec fn ascii_lower(s: Seq<char>) -> Seq<char> {
    s.map_values(|c: char| ascii_lower_char(c))
}

/// The lower-case form of `s`.
///
/// Trusted: `str::to_lowercase`. The contract says that the result is a
/// function of the characters of `s`, and that ASCII text is mapped
/// character by character with `A` to `Z` becoming `a` to `z` (the Unicode
/// lowercase mappings of ASCII letters; other ASCII characters have none).
/// The mapping of other characters is not stated.
#[verifier::external_body]
fn to_lowercase(s: &str) -> (r: String)
    ensures
        r@ == lowercase(s@),
        is_ascii_text(s@) ==> r@ == ascii_lower(s@),
{
    s.to_lowercase()
}

/// Some `/`-separated component of the path begins with a dot.
pub open spec fn has_hidden_component(path: Seq<char>) -> bool {
    exists|i: int| 0 <= i < path.len() && #[trigger] path[i] == '.' && (i == 0 || path[i - 1] == '/')
}

/// An entry with this name is not extracted: its lower-case name contains
/// the lower-case form of an ignored directory name, or one of its
/// components is hidden.
pub open spec fn is_ignored(path: Seq<char>) -> bool {
    ||| exists|i: int|
        0 <= i < spec_ignore_dirs().len() && seq_contains(
            lowercase(path),
            lowercase(#[trigger] spec_ignore_dirs()[i]),
        )
    ||| has_hidden_component(path)
}

/// For ASCII names: the lower-case name contains an ignored directory
/// name, or one of its components is hidden.
pub open spec fn is_ignored_ascii(path: Seq<char>) -> bool {
    ||| exists|i: int|
        0 <= i < spec_ignore_dirs().len() && seq_contains(
            ascii_lower(path),
            #[trigger] spec_ignore_dirs()[i],
        )
    ||| has_hidden_component(path)
}

/// The ignored directory names are lower-case ASCII text.
pub proof fn lemma_ignore_dirs_lower()
    ensures
        forall|i: int|
            0 <= i < spec_ignore_dirs().len() ==> is_ascii_text(#[trigger] spec_ignore_dirs()[i])
                && ascii_lower(spec_ignore_dirs()[i]) == spec_ignore_dirs()[i],
{
    reveal_strlit("__pycache__");
    reveal_strlit(".git");
    reveal_strlit("venv");
    reveal_strlit(".venv");
    reveal_strlit("node_modules");
    reveal_strlit(".env");
    reveal_strlit(".mypy_cache");
    reveal_strlit(".tox");
    reveal_strlit(".pytest_cache");
    reveal_strlit(".eggs");
    assert forall|i: int| 0 <= i < spec_ignore_dirs().len() implies is_ascii_text(
        #[trigger] spec_ignore_dirs()[i],
    ) && ascii_lower(spec_ignore_dirs()[i]) == spec_ignore_dirs()[i] by {
        let d = spec_ignore_dirs()[i];
        assert(ascii_lower(d) =~= d);
    }
}

/// Whether an archive entry with this name is left out of the extraction.
pub fn should_ignore(path: &str) -> (r: bool)
    ensures
        r == is_ignored(path@),
        is_ascii_text(path@) ==> r == is_ignored_ascii(path@),
{
    let path_lower = chars_of(to_lowercase(path).as_str());
    let dirs = ignore_dirs();
    proof {
        lemma_ignore_dirs_lower();
    }
    let mut i: usize = 0;
    while i < dirs.len()
        invariant
            i <= dirs@.len(),
            dirs@.map_values(|s: &str| s@) == spec_ignore_dirs(),
            path_lower@ == lowercase(path@),
            is_ascii_text(path@) ==> path_lower@ == ascii_lower(path@),
            forall|j: int|
                0 <= j < spec_ignore_dirs().len() ==> is_ascii_text(#[trigger] spec_ignore_dirs()[j])
                    && ascii_lower(spec_ignore_dirs()[j]) == spec_ignore_dirs()[j],
            forall|j: int|
                0 <= j < i ==> lowercase(#[trigger] spec_ignore_dirs()[j]) == spec_ignore_dirs()[j],
            forall|j: int|
                0 <= j < i ==> !seq_contains(
                    lowercase(path@),
                    lowercase(#[trigger] spec_ignore_dirs()[j]),
                ),
        decreases dirs@.len() - i,
    {
        assert(dirs@[i as int]@ == spec_ignore_dirs()[i as int]);
        let dir_lower = chars_of(to_lowercase(dirs[i]).as_str());
        assert(lowercase(spec_ignore_dirs()[i as int]) == spec_ignore_dirs()[i as int]);
        if contains_seq(&path_lower, &dir_lower) {
            return true;
        }
        i = i + 1;
    }
    proof {
        if is_ascii_text(path@) {
            assert forall|j: int| 0 <= j < spec_ignore_dirs().len() implies !seq_contains(
                ascii_lower(path@),
                #[trigger] spec_ignore_dirs()[j],
            ) by {
                assert(lowercase(spec_ignore_dirs()[j]) == spec_ignore_dirs()[j]);
            }
        }
    }
    let v = chars_of(path);
    let mut k: usize = 0;
    while k < v.len()
        invariant
            k <= v@.len(),
            v@ == path@,
            forall|j: int| 0 <= j < k ==> !(#[trigger] v@[j] == '.' && (j == 0 || v@[j - 1] == '/')),
        decreases v@.len() - k,
    {
        if v[k] == '.' && (k == 0 || v[k - 1] == '/') {
            return true;
        }
        k = k + 1;
    }
    false
}

/// `dest` joined with the relative path `name`, with one `/` between them
/// unless `dest` is empty or already ends with one.
pub open spec fn join_path(dest: Seq<char>, name: Seq<char>) -> Seq<char> {
    if dest.len() == 0 || dest.last() == '/' {
        dest + name
    } else {
        dest + seq!['/'] + name
    }
}

/// Why an entry name is refused.
#[derive(Debug, Clone, Copy, PartialEq, Eq, Structural)]
pub enum NameRefusal {
    /// It holds `..` or begins with `/`.
    Traversal,
    /// Its UTF-8 encoding is longer than 255 bytes.
    TooLong,
}

/// The length in bytes of the UTF-8 encoding of a name, as `str::len`
/// reports it.
pub open spec fn utf8_byte_len(name: Seq<char>) -> usize {
    encode_utf8(name).len() as usize
}

/// Why an entry name is refused, if it is.
pub open spec fn name_refusal(name: Seq<char>) -> Option<NameRefusal> {
    if seq_contains(name, ".."@) || seq_starts_with(name, "/"@) {
        Some(NameRefusal::Traversal)
    } else if utf8_byte_len(name) > 255 {
        Some(NameRefusal::TooLong)
    } else {
        None
    }
}

/// The error that a refusal of `name` is reported with.
pub open spec fn refusal_error(name: Seq<char>, why: NameRefusal, e: ZipError) -> bool {
    match why {
        NameRefusal::Traversal => e matches ZipError::PathTraversalAttempt(n) && n@ == name,
        NameRefusal::TooLong => e is InvalidEncoding,
    }
}

/// Checks an entry name and gives the path under `dest` where it goes.
///
/// A name that holds `..` or begins with `/` is refused as a traversal
/// attempt, and one longer than 255 bytes as badly encoded. The caller still
/// has to check that the canonical form of the result lies under `dest`.
pub fn validate_entry_path(entry_name: &str, dest: &str) -> (r: Result<String, ZipError>)
    ensures
        match name_refusal(entry_name@) {
            None => r matches Ok(p) && p@ == join_path(dest@, entry_name@),
            Some(why) => r matches Err(e) && refusal_error(entry_name@, why, e),
        },
{
    let name_chars = chars_of(entry_name);
    let dots = chars_of("..");
    if contains_seq(&name_chars, &dots) {
        return Err(ZipError::PathTraversalAttempt(owned(entry_name)));
    }
    if starts_with(entry_name, "/") {
        return Err(ZipError::PathTraversalAttempt(owned(entry_name)));
    }
    if entry_name.len() > 255 {
        return Err(ZipError::InvalidEncoding);
    }
    let dest_chars = chars_of(dest);
    proof {
        reveal_strlit("/");
        assert("/"@ =~= seq!['/']);
    }
    let joined = if dest_chars.len() == 0 || dest_chars[dest_chars.len() - 1] == '/' {
        concat(dest, entry_name)
    } else {
        concat3(dest, "/", entry_name)
    };
    Ok(joined)
}

/// Refuses an archive larger than [`MAX_ARCHIVE_SIZE`].
pub fn check_archive_size(len: usize) -> (r: Result<(), ZipError>)
    ensures
        len <= MAX_ARCHIVE_SIZE ==> r is Ok,
        len > MAX_ARCHIVE_SIZE ==> (r matches Err(ZipError::ArchiveTooLarge(a, b)) && a == len
            && b == MAX_ARCHIVE_SIZE),
{
    let n = len as u64;
    if n > MAX_ARCHIVE_SIZE {
        return Err(ZipError::ArchiveTooLarge(n, MAX_ARCHIVE_SIZE));
    }
    Ok(())
}

/// Decides what becomes of an archive entry: ignored names and directories
/// are skipped (`Ok(None)`), entries larger than [`MAX_FILE_SIZE`] are
/// refused, and the others are checked by [`validate_entry_path`], which
/// gives the path where they go (`Ok(Some(path))`).
pub fn plan_entry(name: &str, is_dir: bool, size: u64, dest: &str) -> (r: Result<
    Option<String>,
    ZipError,
>)
    ensures
        is_ignored(name@) || is_dir ==> (r matches Ok(None)),
        !(is_ignored(name@) || is_dir) && size > MAX_FILE_SIZE ==> (r matches Err(
            ZipError::FileTooLarge(a, b),
        ) && a == size && b == MAX_FILE_SIZE),
        !(is_ignored(name@) || is_dir) && size <= MAX_FILE_SIZE ==> match name_refusal(name@) {
            None => r matches Ok(Some(p)) && p@ == join_path(dest@, name@),
            Some(why) => r matches Err(e) && refusal_error(name@, why, e),
        },
{
    if should_ignore(name) {
        return Ok(None);
    }
    if is_dir {
        return Ok(None);
    }
    if size > MAX_FILE_SIZE {
        return Err(ZipError::FileTooLarge(size, MAX_FILE_SIZE));
    }
    match validate_entry_path(name, dest) {
        Ok(p) => Ok(Some(p)),
        Err(e) => Err(e),
    }
}

#[verifier::external_type_specification]
#[verifier::external_body]
#[verifier::reject_recursive_types(R)]
pub struct ExZipArchive<R>(zip::ZipArchive<R>);

#[verifier::external_type_specification]
#[verifier::external_body]
#[verifier::reject_recursive_types(T)]
pub struct ExCursor<T>(std::io::Cursor<T>);

/// A ZIP archive read from bytes held in memory.
pub type Archive = zip::ZipArchive<std::io::Cursor<Vec<u8>>>;

/// What the library knows of an archive entry: its name, its uncompressed
/// size, whether `by_index_decrypt` with the empty password opens it,
/// whether `by_index` opens it (where that call returns), and the bytes that
/// its data decompresses to once opened by `by_index` (nothing where it
/// cannot be read).
pub type ZipEntry = (Seq<char>, u64, bool, bool, Option<Seq<u8>>);

/// The entries of the archive that `zip::ZipArchive::new` reads from
/// `bytes`, as [`ZipEntry`] values; nothing at all where the bytes are not
/// an archive that it accepts.
pub uninterp spec fn zip_directory(bytes: Seq<u8>) -> Option<
    Seq<(Seq<char>, u64, bool, bool, Option<Seq<u8>>)>,
>;

/// The entries of an open archive, as [`ZipEntry`] values.
pub uninterp spec fn archive_entries(a: zip::ZipArchive<std::io::Cursor<Vec<u8>>>) -> Seq<
    (Seq<char>, u64, bool, bool, Option<Seq<u8>>),
>;

/// The entry can be opened: neither call refuses it. An encrypted entry is
/// refused by `by_index`, and one that carries AES information without the
/// encryption flag by `by_index_decrypt`.
pub open spec fn entry_opens(e: ZipEntry) -> bool {
    e.2 && e.3
}

/// Entry `i` of the archive exists and can be opened.
pub open spec fn opens_at(entries: Seq<ZipEntry>, i: int) -> bool {
    0 <= i < entries.len() && entry_opens(entries[i])
}

/// Opens the archive held in `bytes`.
///
/// Trusted: `zip::ZipArchive::new`. The contract says that it succeeds
/// exactly on the bytes that have a directory, and that the archive then
/// holds the entries of that directory. The error text is not stated.
#[verifier::external_body]
fn zip_open(bytes: Vec<u8>) -> (r: Result<zip::ZipArchive<std::io::Cursor<Vec<u8>>>, String>)
    ensures
        r is Ok <==> zip_directory(bytes@) is Some,
        r matches Ok(a) ==> zip_directory(bytes@) == Some(archive_entries(a)),
{
    match zip::ZipArchive::new(std::io::Cursor::new(bytes)) {
        Ok(a) => Ok(a),
        Err(e) => Err(e.to_string()),
    }
}

/// The number of entries of an archive.
///
/// Trusted: `zip::ZipArchive::len`, the length of the directory.
#[verifier::external_body]
fn zip_len(a: &zip::ZipArchive<std::io::Cursor<Vec<u8>>>) -> (n: usize)
    ensures
        n == archive_entries(*a).len(),
{
    a.len()
}

#[verifier::external_type_specification]
#[verifier::external_body]
pub struct ExZipFile<'a>(zip::read::ZipFile<'a>);

/// What an opened entry holds: its name, its uncompressed size, and the
/// bytes that reading it to the end gives, where that succeeds.
pub uninterp spec fn zip_file_record(f: zip::read::ZipFile<'_>) -> (Seq<char>, u64, Option<Seq<u8>>);

/// Tries to open entry `i` of an archive with the empty password.
///
/// Trusted: `zip::ZipArchive::by_index_decrypt` with the empty password.
/// The opened entry is dropped at once: the call only tells whether the
/// password step succeeds. For an entry without encryption the password is
/// discarded and the entry is opened as `by_index` opens it, except that an
/// entry carrying AES information without the encryption flag is reported
/// as a failure where `by_index` would panic. The contract says that the
/// entries are left as they were and that the call succeeds exactly for an
/// index in range whose entry it opens. The error text is not stated.
#[verifier::external_body]
fn zip_try_open(a: &mut zip::ZipArchive<std::io::Cursor<Vec<u8>>>, i: usize) -> (r: Result<(), String>)
    ensures
        archive_entries(*final(a)) == archive_entries(*old(a)),
        r is Ok <==> i < archive_entries(*old(a)).len() && archive_entries(*old(a))[i as int].2,
{
    match a.by_index_decrypt(i, b"") {
        Ok(Ok(_)) => Ok(()),
        Ok(Err(e)) => Err(e.to_string()),
        Err(e) => Err(e.to_string()),
    }
}

/// Opens entry `i` of an archive.
///
/// Trusted: `zip::ZipArchive::by_index`. It panics only on an entry that
/// carries AES information without the encryption flag, which
/// `by_index_decrypt` with the empty password refuses: the `requires`
/// leaves out the entries that that call does not open. The contract says
/// that the entries are left as they were, that opening succeeds exactly for
/// an index in range whose entry `by_index` opens (not encrypted, of a
/// supported compression, with a sound local header), and that the opened
/// entry is the one at `i`. The error text is not stated.
#[verifier::external_body]
fn zip_by_index<'a>(a: &'a mut zip::ZipArchive<std::io::Cursor<Vec<u8>>>, i: usize) -> (r: Result<
    zip::read::ZipFile<'a>,
    String,
>)
    requires
        i < archive_entries(*old(a)).len() ==> archive_entries(*old(a))[i as int].2,
    ensures
        archive_entries(*final(a)) == archive_entries(*old(a)),
        r is Ok <==> i < archive_entries(*old(a)).len() && archive_entries(*old(a))[i as int].3,
        r matches Ok(f) ==> ({
            let e = archive_entries(*old(a))[i as int];
            zip_file_record(f) == (e.0, e.1, e.4)
        }),
{
    match a.by_index(i) {
        Ok(f) => Ok(f),
        Err(e) => Err(e.to_string()),
    }
}

/// Opens entry `i` of an archive as `by_index` does, refusing first the
/// entries that `by_index` cannot open without failing.
fn open_entry<'a>(a: &'a mut Archive, i: usize) -> (r: Result<zip::read::ZipFile<'a>, String>)
    ensures
        archive_entries(*final(a)) == archive_entries(*old(a)),
        r is Ok <==> opens_at(archive_entries(*old(a)), i as int),
        r matches Ok(f) ==> ({
            let e = archive_entries(*old(a))[i as int];
            zip_file_record(f) == (e.0, e.1, e.4)
        }),
{
    match zip_try_open(a, i) {
        Ok(()) => {},
        Err(msg) => {
            return Err(msg);
        },
    }
    zip_by_index(a, i)
}

/// The name of an opened entry.
///
/// Trusted: `zip::read::ZipFile::name`, the name of its directory record.
#[verifier::external_body]
fn zip_file_name(f: &zip::read::ZipFile<'_>) -> (n: String)
    ensures
        n@ == zip_file_record(*f).0,
{
    f.name().to_string()
}

/// The uncompressed size of an opened entry.
///
/// Trusted: `zip::read::ZipFile::size`, the size of its directory record.
#[verifier::external_body]
fn zip_file_size(f: &zip::read::ZipFile<'_>) -> (n: u64)
    ensures
        n == zip_file_record(*f).1,
{
    f.size()
}

/// Reads the rest of an opened entry.
///
/// Trusted: `std::io::Read::read_to_end` on `zip::read::ZipFile`, which
/// decompresses the entry from the archive's bytes held in memory. The
/// contract says that it succeeds exactly where the entry can be read, and
/// then gives the bytes that the entry holds; the error text is not stated.
#[verifier::external_body]
fn zip_read_to_end(f: &mut zip::read::ZipFile<'_>) -> (r: Result<Vec<u8>, String>)
    ensures
        r is Ok <==> zip_file_record(*old(f)).2 is Some,
        r matches Ok(c) ==> zip_file_record(*old(f)).2 == Some(c@),
{
    let mut content = Vec::new();
    match std::io::Read::read_to_end(f, &mut content) {
        Ok(_) => Ok(content),
        Err(e) => Err(e.to_string()),
    }
}

/// Opens the ZIP archive held in `bytes`; bytes that are not an archive are
/// refused as invalid.
pub fn open_archive(bytes: &[u8]) -> (r: Result<Archive, ZipError>)
    ensures
        r is Ok <==> zip_directory(bytes@) is Some,
        r matches Ok(a) ==> zip_directory(bytes@) == Some(archive_entries(a)),
        r matches Err(e) ==> e is InvalidArchive,
{
    match zip_open(vstd::slice::slice_to_vec(bytes)) {
        Ok(a) => Ok(a),
        Err(msg) => Err(ZipError::InvalidArchive(msg)),
    }
}

/// The number of entries of an archive.
pub fn entry_count(archive: &Archive) -> (n: usize)
    ensures
        n == archive_entries(*archive).len(),
{
    zip_len(archive)
}

/// A ZIP entry with this name is a directory: it ends with a separator.
pub open spec fn is_dir_name(name: Seq<char>) -> bool {
    name.len() > 0 && (name.last() == '/' || name.last() == '\\')
}

/// Whether a ZIP entry with this name is a directory.
pub fn is_dir_entry(name: &str) -> (r: bool)
    ensures
        r == is_dir_name(name@),
        r == (name@.len() > 0 && (name@.last() == '/' || name@.last() == '\\')),
{
    let v = chars_of(name);
    v.len() > 0 && (v[v.len() - 1] == '/' || v[v.len() - 1] == '\\')
}

/// What becomes of entry `i` of an archive. An index out of range or an
/// entry that cannot be opened is refused as a failed extraction, and only
/// such an entry; otherwise the outcome is that of [`plan_entry`] on its
/// name, its kind and its size, and an entry to extract is given with its
/// name and its destination path.
pub fn plan_archive_entry(archive: &mut Archive, i: usize, dest: &str) -> (r: Result<
    Option<(String, String)>,
    ZipError,
>)
    ensures
        archive_entries(*final(archive)) == archive_entries(*old(archive)),
        (r matches Err(ZipError::ExtractionFailed(_))) <==> !opens_at(archive_entries(*old(archive)), i as int),
        opens_at(archive_entries(*old(archive)), i as int) ==> ({
            let (name, size, _, _, _) = archive_entries(*old(archive))[i as int];
            &&& (is_ignored(name) || is_dir_name(name)) ==> (r matches Ok(None))
            &&& !(is_ignored(name) || is_dir_name(name)) && size > MAX_FILE_SIZE ==> (r matches Err(
                ZipError::FileTooLarge(a, b),
            ) && a == size && b == MAX_FILE_SIZE)
            &&& !(is_ignored(name) || is_dir_name(name)) && size <= MAX_FILE_SIZE ==> match name_refusal(
                name,
            ) {
                None => r matches Ok(Some((n, p))) && n@ == name && p@ == join_path(dest@, name),
                Some(why) => r matches Err(e) && refusal_error(name, why, e),
            }
        }),
{
    let (name, size) = match open_entry(archive, i) {
        Ok(f) => (zip_file_name(&f), zip_file_size(&f)),
        Err(msg) => {
            return Err(ZipError::ExtractionFailed(msg));
        },
    };
    let is_dir = is_dir_entry(name.as_str());
    match plan_entry(name.as_str(), is_dir, size, dest) {
        Ok(Some(p)) => Ok(Some((name, p))),
        Ok(None) => Ok(None),
        Err(e) => Err(e),
    }
}

/// The content of entry `i` of an archive: the bytes that its data
/// decompresses to. An index out of range or an entry that cannot be opened
/// is reported as a failed extraction, and an entry whose data cannot be
/// read as an I/O error.
pub fn read_entry(archive: &mut Archive, i: usize) -> (r: Result<Vec<u8>, ZipError>)
    ensures
        archive_entries(*final(archive)) == archive_entries(*old(archive)),
        !opens_at(archive_entries(*old(archive)), i as int) ==> (r matches Err(ZipError::ExtractionFailed(_))),
        opens_at(archive_entries(*old(archive)), i as int) ==> match archive_entries(*old(archive))[i as int].4 {
            Some(data) => r matches Ok(c) && c@ == data,
            None => r matches Err(ZipError::IoError(_)),
        },
{
    match open_entry(archive, i) {
        Ok(mut f) => match zip_read_to_end(&mut f) {
            Ok(content) => Ok(content),
            Err(msg) => Err(ZipError::IoError(msg)),
        },
        Err(msg) => Err(ZipError::ExtractionFailed(msg)),
    }
}

/// The SHA-256 digest of a byte sequence.
pub uninterp spec fn sha256(data: Seq<u8>) -> Seq<u8>;

/// The SHA-256 digest of `data`.
///
/// Trusted: `sha2::Sha256::digest`. The contract says that the digest is a
/// function of the bytes and is 32 bytes long.
#[verifier::external_body]
fn sha256_digest(data: &[u8]) -> (r: Vec<u8>)
    ensures
        r@ == sha256(data@),
        r@.len() == 32,
{
    sha2::Sha256::digest(data).to_vec()
}

/// The lower-case hexadecimal digit for a value below 16.
pub open spec fn hex_digit(v: int) -> char {
    if v < 10 {
        ('0' as int + v) as char
    } else {
        ('a' as int + v - 10) as char
    }
}

/// Two lower-case hexadecimal digits per byte, high half first.
pub open spec fn hex_lower(data: Seq<u8>) -> Seq<char>
    decreases data.len(),
{
    if data.len() == 0 {
        Seq::empty()
    } else {
        hex_lower(data.drop_last()) + seq![
            hex_digit(data.last() as int / 16),
            hex_digit(data.last() as int % 16),
        ]
    }
}

fn hex_char(v: u8) -> (c: char)
    requires
        v < 16,
    ensures
        c == hex_digit(v as int),
{
    if v < 10 {
        ((48u8 + v) as char)
    } else {
        ((87u8 + v) as char)
    }
}

/// `data` in lower-case hexadecimal, two digits per byte.
pub fn to_hex_lower(data: &[u8]) -> (r: String)
    ensures
        r@ == hex_lower(data@),
{
    let mut r = String::new();
    let mut i: usize = 0;
    assert(data@.take(0) =~= Seq::<u8>::empty());
    while i < data.len()
        invariant
            i <= data@.len(),
            r@ == hex_lower(data@.take(i as int)),
        decreases data@.len() - i,
    {
        let b = data[i];
        push_char(&mut r, hex_char(b / 16));
        push_char(&mut r, hex_char(b % 16));
        proof {
            let t = data@.take(i + 1);
            assert(t.drop_last() =~= data@.take(i as int));
            assert(t.last() == b);
        }
        i = i + 1;
    }
    assert(data@.take(i as int) =~= data@);
    r
}

/// What is recorded of a file extracted from `relative_path` to
/// `absolute_path` with the given content.
pub fn make_file_info(relative_path: String, absolute_path: String, content: &[u8]) -> (f: FileInfo)
    ensures
        f.relative_path == relative_path,
        f.absolute_path == absolute_path,
        f.size == content@.len(),
        f.content_hash@ == hex_lower(sha256(content@)),
        f.content_hash@.len() == 64,
        f.is_python == seq_ends_with(relative_path@, ".py"@),
{
    let digest = sha256_digest(content);
    let content_hash = to_hex_lower(digest.as_slice());
    proof {
        lemma_hex_lower_len(sha256(content@));
    }
    let is_python = ends_with(relative_path.as_str(), ".py");
    FileInfo {
        relative_path,
        absolute_path,
        size: content.len() as u64,
        content_hash,
        is_python,
    }
}

/// The entry is passed over by an extraction: it opens, and it is ignored
/// or a directory.
pub open spec fn entry_skipped(e: ZipEntry) -> bool {
    entry_opens(e) && (is_ignored(e.0) || is_dir_name(e.0))
}

/// The entry is extracted: it opens, it is neither ignored nor a
/// directory, it is within the size limit and its name is accepted.
pub open spec fn entry_extracted(e: ZipEntry) -> bool {
    &&& entry_opens(e)
    &&& !(is_ignored(e.0) || is_dir_name(e.0))
    &&& e.1 <= MAX_FILE_SIZE
    &&& name_refusal(e.0) is None
}

/// The entry stops an extraction with `err`, as [`plan_archive_entry`]
/// refuses it.
pub open spec fn entry_refused_with(e: ZipEntry, err: ZipError) -> bool {
    if !entry_opens(e) {
        err is ExtractionFailed
    } else if is_ignored(e.0) || is_dir_name(e.0) {
        false
    } else if e.1 > MAX_FILE_SIZE {
        err matches ZipError::FileTooLarge(a, b) && a == e.1 && b == MAX_FILE_SIZE
    } else {
        match name_refusal(e.0) {
            None => false,
            Some(why) => refusal_error(e.0, why, err),
        }
    }
}

/// The names and destinations under `dest` of the entries extracted among
/// the first `n`, in archive order.
pub open spec fn extracted_files(entries: Seq<ZipEntry>, dest: Seq<char>, n: int) -> Seq<
    (Seq<char>, Seq<char>),
>
    decreases n,
{
    if n <= 0 {
        Seq::empty()
    } else {
        let before = extracted_files(entries, dest, n - 1);
        let e = entries[n - 1];
        if entry_extracted(e) {
            before.push((e.0, join_path(dest, e.0)))
        } else {
            before
        }
    }
}

/// What an extraction asks of its caller next.
#[derive(Debug)]
pub enum ExtractionStep {
    /// Every entry has been dealt with.
    Finished,
    /// Entry `index` is to be written to `path`; its name is `name`. The
    /// caller writes it and hands its content to [`Extraction::add_file`].
    Extract { index: usize, name: String, path: String },
    /// The extraction stops with this error.
    Refused(ZipError),
}

/// The progress of an extraction of an archive under a destination
/// directory: the entries dealt with, the entry being written, and the files
/// recorded so far. The caller writes the files; the decisions are taken
/// here.
pub struct Extraction {
    dest: String,
    next: usize,
    pending: Option<(String, String)>,
    files: Vec<FileInfo>,
}

/// The name and destination of each recorded file.
pub open spec fn file_pairs(files: Seq<FileInfo>) -> Seq<(Seq<char>, Seq<char>)> {
    files.map_values(|f: FileInfo| (f.relative_path@, f.absolute_path@))
}

impl Extraction {
    /// The destination directory.
    pub closed spec fn dest_view(self) -> Seq<char> {
        self.dest@
    }

    /// The position of the first entry not yet dealt with.
    pub closed spec fn next_index(self) -> int {
        self.next as int
    }

    /// The name and destination of the entry being written, if any.
    pub closed spec fn pending_view(self) -> Option<(Seq<char>, Seq<char>)> {
        match self.pending {
            Some((n, p)) => Some((n@, p@)),
            None => None,
        }
    }

    /// The files recorded so far.
    pub closed spec fn files_view(self) -> Seq<FileInfo> {
        self.files@
    }

    /// The extraction is in step with an archive of these entries: the
    /// entries dealt with were all skipped or extracted, and the recorded
    /// files, with the one being written, are exactly the extracted ones in
    /// archive order.
    pub open spec fn tracks(self, entries: Seq<ZipEntry>) -> bool {
        &&& self.next_index() <= entries.len()
        &&& forall|j: int|
            0 <= j < self.next_index() ==> entry_skipped(#[trigger] entries[j]) || entry_extracted(
                entries[j],
            )
        &&& match self.pending_view() {
            None => file_pairs(self.files_view()) == extracted_files(
                entries,
                self.dest_view(),
                self.next_index(),
            ),
            Some(p) => file_pairs(self.files_view()).push(p) == extracted_files(
                entries,
                self.dest_view(),
                self.next_index(),
            ),
        }
    }

    /// An extraction under `dest` that has dealt with no entry.
    pub fn new(dest: &str) -> (x: Self)
        ensures
            x.dest_view() == dest@,
            x.next_index() == 0,
            x.pending_view() is None,
            x.files_view() == Seq::<FileInfo>::empty(),
            forall|entries: Seq<ZipEntry>| x.tracks(entries),
    {
        let x = Extraction { dest: owned(dest), next: 0, pending: None, files: Vec::new() };
        assert forall|entries: Seq<ZipEntry>| x.tracks(entries) by {
            assert(file_pairs(x.files_view()) =~= Seq::<(Seq<char>, Seq<char>)>::empty());
        }
        x
    }

    /// Deals with the entries from the first one not yet dealt with: skips
    /// the ignored ones and the directories, and stops at the first entry to
    /// extract, which becomes the entry being written, or at the first
    /// refused one.
    #[verifier::loop_isolation(false)]
    pub fn advance(&mut self, archive: &mut Archive) -> (r: ExtractionStep)
        ensures
            archive_entries(*final(archive)) == archive_entries(*old(archive)),
            final(self).dest_view() == old(self).dest_view(),
            final(self).files_view() == old(self).files_view(),
            ({
                let entries = archive_entries(*old(archive));
                let s = old(self).next_index();
                match r {
                    ExtractionStep::Finished => {
                        &&& forall|j: int| s <= j < entries.len() ==> entry_skipped(#[trigger] entries[j])
                        &&& final(self).next_index() == (if s < entries.len() { entries.len() as int } else { s })
                        &&& final(self).pending_view() is None
                    },
                    ExtractionStep::Extract { index, name, path } => {
                        &&& s <= index < entries.len()
                        &&& forall|j: int| s <= j < index ==> entry_skipped(#[trigger] entries[j])
                        &&& entry_extracted(entries[index as int])
                        &&& name@ == entries[index as int].0
                        &&& path@ == join_path(old(self).dest_view(), name@)
                        &&& final(self).next_index() == index + 1
                        &&& final(self).pending_view() == Some((name@, path@))
                    },
                    ExtractionStep::Refused(e) => {
                        &&& s < entries.len()
                        &&& s <= final(self).next_index() < entries.len()
                        &&& forall|j: int| s <= j < final(self).next_index() ==> entry_skipped(#[trigger] entries[j])
                        &&& entry_refused_with(entries[final(self).next_index()], e)
                        &&& final(self).pending_view() is None
                    },
                }
            }),
            old(self).tracks(archive_entries(*old(archive))) && old(self).pending_view() is None
                && !(r is Refused) ==> final(self).tracks(archive_entries(*old(archive))),
    {
        let ghost entries = archive_entries(*archive);
        let ghost start = self.next as int;
        let ghost start_pairs = file_pairs(self.files@);
        self.pending = None;
        let n = entry_count(archive);
        let mut i = self.next;
        while i < n
            invariant
                archive_entries(*archive) == entries,
                n == entries.len(),
                start == old(self).next_index(),
                start <= i,
                i <= n || i == start,
                self.dest == old(self).dest,
                self.files == old(self).files,
                self.pending is None,
                forall|j: int| start <= j < i ==> entry_skipped(#[trigger] entries[j]),
                old(self).tracks(entries) && old(self).pending_view() is None ==> extracted_files(
                    entries,
                    self.dest@,
                    i as int,
                ) == extracted_files(entries, self.dest@, start),
            decreases n - i,
        {
            let planned = plan_archive_entry(archive, i, self.dest.as_str());
            let ghost e = entries[i as int];
            if planned.is_err() {
                let err = planned.unwrap_err();
                assert(entry_refused_with(e, err));
                self.next = i;
                return ExtractionStep::Refused(err);
            }
            let chosen = planned.unwrap();
            if chosen.is_none() {
                assert(entry_skipped(e));
                assert(!entry_extracted(e));
                i = i + 1;
            } else {
                let pair = chosen.unwrap();
                assert(entry_extracted(e));
                self.next = i + 1;
                self.pending = Some((pair.0.clone(), pair.1.clone()));
                proof {
                    assert(extracted_files(entries, self.dest@, i + 1) == extracted_files(
                        entries,
                        self.dest@,
                        i as int,
                    ).push((e.0, join_path(self.dest@, e.0))));
                }
                return ExtractionStep::Extract { index: i, name: pair.0, path: pair.1 };
            }
        }
        self.next = i;
        ExtractionStep::Finished
    }

    /// Records the entry being written, with the given content, as an
    /// extracted file; without an entry being written nothing changes.
    pub fn add_file(&mut self, content: &[u8]) -> (added: bool)
        ensures
            final(self).dest_view() == old(self).dest_view(),
            final(self).next_index() == old(self).next_index(),
            final(self).pending_view() is None,
            added == old(self).pending_view() is Some,
            !added ==> final(self).files_view() == old(self).files_view(),
            added ==> ({
                let (name, path) = old(self).pending_view().unwrap();
                let files = final(self).files_view();
                &&& files.len() == old(self).files_view().len() + 1
                &&& files.drop_last() == old(self).files_view()
                &&& files.last().relative_path@ == name
                &&& files.last().absolute_path@ == path
                &&& files.last().size == content@.len()
                &&& files.last().content_hash@ == hex_lower(sha256(content@))
                &&& files.last().is_python == seq_ends_with(name, ".py"@)
            }),
            forall|entries: Seq<ZipEntry>| old(self).tracks(entries) ==> final(self).tracks(entries),
    {
        let pending = self.pending.take();
        match pending {
            Some((name, path)) => {
                let f = make_file_info(name, path, content);
                let ghost before = self.files@;
                self.files.push(f);
                proof {
                    assert(self.files@.drop_last() =~= before);
                    assert(file_pairs(self.files@) =~= file_pairs(before).push(
                        (f.relative_path@, f.absolute_path@),
                    ));
                }
                true
            },
            None => false,
        }
    }

    /// The files recorded, in archive order.
    pub fn finish(self) -> (files: Vec<FileInfo>)
        ensures
            files@ == self.files_view(),
    {
        self.files
    }
}

/// Once an extraction in step with an archive has dealt with every entry
/// and has no entry being written, its files are exactly the extracted
/// entries, in archive order, each at its place under the destination.
pub proof fn law_finished_extraction(x: Extraction, entries: Seq<ZipEntry>)
    requires
        x.tracks(entries),
        x.next_index() == entries.len(),
        x.pending_view() is None,
    ensures
        file_pairs(x.files_view()) == extracted_files(entries, x.dest_view(), entries.len() as int),
{
}

/// An entry whose name ends with `/` or `\\` is a directory entry: it is
/// never extracted, whatever its size and content, and an extraction that
/// can open it passes over it.
pub proof fn law_directory_entries_skipped(e: ZipEntry)
    requires
        e.0.len() > 0,
        e.0.last() == '/' || e.0.last() == '\\',
    ensures
        !entry_extracted(e),
        entry_opens(e) ==> entry_skipped(e),
        forall|err: ZipError| entry_opens(e) ==> !entry_refused_with(e, err),
{
}

/// Hexadecimal text is twice as long as its bytes.
pub proof fn lemma_hex_lower_len(data: Seq<u8>)
    ensures
        hex_lower(data).len() == 2 * data.len(),
    decreases data.len(),
{
    if data.len() > 0 {
        lemma_hex_lower_len(data.drop_last());
    }
}

/// An entry that is given a destination has a name without `..` that does
/// not begin with `/`, of at most 255 bytes, and its destination begins
/// with the destination directory.
pub proof fn law_accepted_names_stay_inside(name: Seq<char>, dest: Seq<char>)
    requires
        name_refusal(name) is None,
    ensures
        !seq_contains(name, ".."@),
        !seq_starts_with(name, "/"@),
        utf8_byte_len(name) <= 255,
        seq_starts_with(join_path(dest, name), dest),
{
    let j = join_path(dest, name);
    assert(j.subrange(0, dest.len() as int) =~= dest);
}

/// An entry with a hidden component, such as `.git/config` or
/// `../../etc/passwd`, is skipped whatever its kind and size.
pub proof fn law_hidden_entries_skipped(name: Seq<char>)
    requires
        has_hidden_component(name),
    ensures
        is_ignored(name),
{
}

} // verus!
