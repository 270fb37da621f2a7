//! Reading a zip archive held in memory, and choosing which of its entries
//! are to be written out.

use crate::decode::{text_of, utf8_or_gbk_to_string};
use crate::efile::{role_of_name, EFile};
use crate::error::{error_view, Error, ErrorModel};
use std::io::{Cursor, Read};
use std::path::Path;
use vstd::prelude::*;
use zip::ZipArchive;

verus! {

/// `zip::ZipArchive`, the reader of an archive. Nothing is known of what
/// is inside a value but what `archive_entries` names.
#[verifier::external_type_specification]
#[verifier::external_body]
#[verifier::reject_recursive_types(R)]
pub struct ExZipArchive<R>(ZipArchive<R>);

/// `std::io::Cursor`, which lets the reader walk bytes held in memory.
#[verifier::external_type_specification]
#[verifier::external_body]
#[verifier::reject_recursive_types(T)]
pub struct ExCursor<T>(Cursor<T>);

/// What an archive reader reports of one entry.
pub struct EntryModel {
    /// The words of the error that keeps the entry from being opened, if
    /// there is one.
    pub fault: Option<Seq<char>>,
    /// The path of the entry, where it stays inside the directory that the
    /// archive is unpacked into.
    pub path: Option<Seq<char>>,
    /// Whether the entry is a directory.
    pub is_dir: bool,
    /// The Unix permission bits stored with the entry.
    pub unix_mode: Option<u32>,
    /// The decompressed bytes of the entry, or the words of the error that
    /// keeps them from being read.
    pub data: Result<Seq<u8>, Seq<char>>,
}

/// The entries of an open archive, in archive order.
pub uninterp spec fn archive_entries(archive: ZipArchive<Cursor<Vec<u8>>>) -> Seq<EntryModel>;

/// The entries that a zip reader finds in a file, or the words of its error
/// where the file is not a zip archive. Paths and file names are read by
/// the path rules of the target that the library is built for.
pub uninterp spec fn zip_entries_of(bytes: Seq<u8>) -> Result<Seq<EntryModel>, Seq<char>>;

/// The bytes of the last component of a path, as `Path::file_name` gives
/// it by the path rules of the target that the library is built for; `None`
/// where the path has no such component.
pub uninterp spec fn file_name_of(path: Seq<char>) -> Option<Seq<u8>>;

/// What the library reads of an entry before it decides on it.
pub struct EntryHeader {
    pub path: Option<String>,
    pub is_dir: bool,
    pub unix_mode: Option<u32>,
}

impl EntryHeader {
    /// Whether the header says of an entry what the model of the entry says.
    pub open spec fn describes(self, entry: EntryModel) -> bool {
        &&& entry.fault is None
        &&& self.path is Some == entry.path is Some
        &&& self.path matches Some(p) ==> entry.path == Some(p@)
        &&& self.is_dir == entry.is_dir
        &&& self.unix_mode == entry.unix_mode
    }
}

/// Whether the outcome of opening an archive is what the bytes hold.
pub open spec fn opened_as(
    outcome: Result<ZipArchive<Cursor<Vec<u8>>>, String>,
    contents: Result<Seq<EntryModel>, Seq<char>>,
) -> bool {
    match outcome {
        Ok(archive) => contents == Ok::<Seq<EntryModel>, Seq<char>>(archive_entries(archive)),
        Err(words) => contents == Err::<Seq<EntryModel>, Seq<char>>(words@),
    }
}

/// Whether the outcome of reading the header of an entry is what the entry
/// holds.
pub open spec fn header_of(outcome: Result<EntryHeader, String>, entry: EntryModel) -> bool {
    match outcome {
        Ok(header) => header.describes(entry),
        Err(words) => entry.fault == Some(words@),
    }
}

/// What reading the bytes of an entry gives: the error that keeps it from
/// being opened, or else its bytes or the error that keeps them from being
/// read.
pub open spec fn bytes_of(entry: EntryModel) -> Result<Seq<u8>, Seq<char>> {
    match entry.fault {
        Some(words) => Err(words),
        None => entry.data,
    }
}

/// The outcome of reading bytes as contracts speak of it.
pub open spec fn bytes_view(outcome: Result<Vec<u8>, String>) -> Result<Seq<u8>, Seq<char>> {
    match outcome {
        Ok(data) => Ok(data@),
        Err(words) => Err(words@),
    }
}

/// One thing to write to disk: a directory to make, or a file with its
/// bytes, at a path below the destination, with the permission bits to set.
/// `entry` is the position in the archive of the entry that the step
/// writes out.
#[derive(Debug)]
pub struct ExtractStep {
    pub entry: usize,
    pub path: String,
    pub is_dir: bool,
    pub unix_mode: Option<u32>,
    pub data: Vec<u8>,
}

/// An `ExtractStep` as contracts speak of it.
pub struct StepModel {
    pub entry: nat,
    pub path: Seq<char>,
    pub is_dir: bool,
    pub unix_mode: Option<u32>,
    pub data: Seq<u8>,
}

impl View for ExtractStep {
    type V = StepModel;

    open spec fn view(&self) -> StepModel {
        StepModel {
            entry: self.entry as nat,
            path: self.path@,
            is_dir: self.is_dir,
            unix_mode: self.unix_mode,
            data: self.data@,
        }
    }
}

/// The outcome of reading an archive: the steps to perform, in archive
/// order, and the failure that ended the reading, if one did. The steps
/// collected before a failure still stand.
#[derive(Debug)]
pub struct Extraction {
    pub steps: Vec<ExtractStep>,
    pub failure: Option<Error>,
}

/// The steps of a list, as contracts speak of them.
pub open spec fn steps_view(steps: Seq<ExtractStep>) -> Seq<StepModel> {
    steps.map_values(|s: ExtractStep| s@)
}

impl View for Extraction {
    type V = (Seq<StepModel>, Option<ErrorModel>);

    open spec fn view(&self) -> (Seq<StepModel>, Option<ErrorModel>) {
        (steps_view(self.steps@), error_view(self.failure))
    }
}

/// What becomes of one entry.
pub enum Disposition {
    /// The entry cannot be read, for the reason given: the extraction ends
    /// here.
    Unreadable(Seq<char>),
    /// The entry is passed over.
    Skipped,
    /// The entry is written out.
    Extracted(StepModel),
}

/// The roles that a request asks for: a request that names none asks for
/// all.
pub open spec fn effective_need(need: Seq<EFile>) -> Seq<EFile> {
    if need.len() == 0 {
        seq![EFile::All]
    } else {
        need
    }
}

/// Whether a request asks for files of a role.
pub open spec fn wants(need: Seq<EFile>, role: EFile) -> bool {
    effective_need(need).contains(role) || effective_need(need).contains(EFile::All)
}

/// The role of an entry by the bytes of its file name.
pub open spec fn entry_role(file_name: Seq<u8>, windows: bool) -> EFile {
    role_of_name(text_of(file_name, windows), windows)
}

/// Whether a request asks for an entry with the given file name: one
/// whose path has no file name is always asked for.
pub open spec fn wants_entry(need: Seq<EFile>, file_name: Option<Seq<u8>>, windows: bool) -> bool {
    match file_name {
        Some(name) => wants(need, entry_role(name, windows)),
        None => true,
    }
}

/// An optional run of bytes as contracts speak of it.
pub open spec fn bytes_option(bytes: Option<Vec<u8>>) -> Option<Seq<u8>> {
    match bytes {
        Some(b) => Some(b@),
        None => None,
    }
}

/// What becomes of the entry at position `at` under a request.
pub open spec fn disposition(entry: EntryModel, at: nat, need: Seq<EFile>, windows: bool) -> Disposition {
    if entry.fault is Some {
        Disposition::Unreadable(entry.fault->0)
    } else if entry.path is None {
        Disposition::Skipped
    } else if !wants_entry(need, file_name_of(entry.path->0), windows) {
        Disposition::Skipped
    } else if entry.is_dir {
        Disposition::Extracted(
            StepModel {
                entry: at,
                path: entry.path->0,
                is_dir: true,
                unix_mode: entry.unix_mode,
                data: Seq::empty(),
            },
        )
    } else {
        match entry.data {
            Err(words) => Disposition::Unreadable(words),
            Ok(data) => Disposition::Extracted(
                StepModel {
                    entry: at,
                    path: entry.path->0,
                    is_dir: false,
                    unix_mode: entry.unix_mode,
                    data,
                },
            ),
        }
    }
}

/// The failure of an extraction at an entry.
pub open spec fn entry_failure(at: nat, words: Seq<char>) -> ErrorModel {
    ErrorModel::Archive { entry: Some(at), detail: words }
}

/// The extraction of the entries from position `from` on: the steps of the
/// entries that are asked for, up to the first entry that cannot be read,
/// and the failure at that entry.
pub open spec fn extraction_from(
    entries: Seq<EntryModel>,
    from: nat,
    need: Seq<EFile>,
    windows: bool,
) -> (Seq<StepModel>, Option<ErrorModel>)
    decreases entries.len() - from,
{
    if from >= entries.len() {
        (Seq::empty(), None)
    } else {
        match disposition(entries[from as int], from, need, windows) {
            Disposition::Unreadable(words) => (Seq::empty(), Some(entry_failure(from, words))),
            Disposition::Skipped => extraction_from(entries, from + 1, need, windows),
            Disposition::Extracted(step) => {
                let rest = extraction_from(entries, from + 1, need, windows);
                (seq![step] + rest.0, rest.1)
            },
        }
    }
}

/// The extraction of a file: that of its entries where it is an archive,
/// and a failure that names no entry where it is not.
pub open spec fn extraction_of(
    contents: Result<Seq<EntryModel>, Seq<char>>,
    need: Seq<EFile>,
    windows: bool,
) -> (Seq<StepModel>, Option<ErrorModel>) {
    match contents {
        Err(words) => (Seq::empty(), Some(ErrorModel::Archive { entry: None, detail: words })),
        Ok(entries) => extraction_from(entries, 0, need, windows),
    }
}

/// A request that names no role is a request for everything: it extracts
/// what a request for the wildcard extracts, whatever the archive holds.
pub proof fn lemma_empty_need_is_wildcard(entries: Seq<EntryModel>, from: nat, windows: bool)
    ensures
        extraction_from(entries, from, Seq::empty(), windows) == extraction_from(
            entries,
            from,
            seq![EFile::All],
            windows,
        ),
    decreases entries.len() - from,
{
    if from < entries.len() {
        lemma_empty_need_is_wildcard(entries, from + 1, windows);
        assert(effective_need(Seq::<EFile>::empty()) == effective_need(seq![EFile::All]));
    }
}

/// Under a request for everything no entry is passed over for its name:
/// every entry that opens and has a path is written out, or ends the
/// extraction because its bytes cannot be read.
pub proof fn lemma_wildcard_skips_nothing(
    entry: EntryModel,
    at: nat,
    need: Seq<EFile>,
    windows: bool,
)
    requires
        need.len() == 0 || need.contains(EFile::All),
        entry.fault is None,
        entry.path is Some,
    ensures
        disposition(entry, at, need, windows) !is Skipped,
{
    assert(seq![EFile::All][0] == EFile::All);
    assert(effective_need(need).contains(EFile::All));
}

/// An entry whose file name has a role that the request does not name is
/// passed over, unless the request asks for everything.
pub proof fn lemma_unwanted_entry_is_skipped(
    entry: EntryModel,
    at: nat,
    need: Seq<EFile>,
    windows: bool,
)
    requires
        need.len() > 0,
        !need.contains(EFile::All),
        entry.fault is None,
        entry.path matches Some(path) && file_name_of(path) matches Some(name) && !need.contains(
            entry_role(name, windows),
        ),
    ensures
        disposition(entry, at, need, windows) is Skipped,
{
}

/// Every step of an extraction writes out the entry of the archive that it
/// names, and that entry is one that the request asks for: the step is what
/// the disposition of the entry gives.
pub proof fn lemma_steps_come_from_entries(
    entries: Seq<EntryModel>,
    from: nat,
    need: Seq<EFile>,
    windows: bool,
    step: StepModel,
)
    requires
        extraction_from(entries, from, need, windows).0.contains(step),
    ensures
        from <= step.entry < entries.len(),
        disposition(entries[step.entry as int], step.entry, need, windows)
            == Disposition::Extracted(step),
    decreases entries.len() - from,
{
    if from < entries.len() {
        let rest = extraction_from(entries, from + 1, need, windows).0;
        match disposition(entries[from as int], from, need, windows) {
            Disposition::Unreadable(words) => {
                assert(extraction_from(entries, from, need, windows).0.len() == 0);
            },
            Disposition::Skipped => {
                lemma_steps_come_from_entries(entries, from + 1, need, windows, step);
            },
            Disposition::Extracted(first) => {
                let found = seq![first] + rest;
                let i = choose|i: int| 0 <= i < found.len() && found[i] == step;
                if i > 0 {
                    assert(rest[i - 1] == step);
                    lemma_steps_come_from_entries(entries, from + 1, need, windows, step);
                }
            },
        }
    } else {
        assert(extraction_from(entries, from, need, windows).0.len() == 0);
    }
}

/// `ZipArchive::new` on a cursor over the bytes: an archive with the
/// entries that the bytes hold, or the words of the reader's error where
/// they are no zip archive.
#[verifier::external_body]
fn open_archive(bytes: Vec<u8>) -> (r: Result<ZipArchive<Cursor<Vec<u8>>>, String>)
    ensures
        opened_as(r, zip_entries_of(bytes@)),
{
    ZipArchive::new(Cursor::new(bytes)).map_err(|e| e.to_string())
}

/// `ZipArchive::len`: the number of entries.
#[verifier::external_body]
fn archive_len(archive: &ZipArchive<Cursor<Vec<u8>>>) -> (n: usize)
    ensures
        n == archive_entries(*archive).len(),
{
    archive.len()
}

/// `ZipArchive::by_index`, and of the entry it opens `enclosed_name`,
/// `is_dir` and `unix_mode`. It fails exactly when the entry does not open,
/// with the words of the reader's error, and leaves the entries as they
/// are.
#[verifier::external_body]
fn entry_header(archive: &mut ZipArchive<Cursor<Vec<u8>>>, index: usize) -> (r: Result<
    EntryHeader,
    String,
>)
    requires
        index < archive_entries(*old(archive)).len(),
    ensures
        archive_entries(*final(archive)) == archive_entries(*old(archive)),
        header_of(r, archive_entries(*old(archive))[index as int]),
{
    let file = archive.by_index(index).map_err(|e| e.to_string())?;
    Ok(
        EntryHeader {
            path: file.enclosed_name().map(|p| p.to_string_lossy().into_owned()),
            is_dir: file.is_dir(),
            unix_mode: file.unix_mode(),
        },
    )
}

/// `Path::file_name`: the last component of the path, by its bytes.
#[verifier::external_body]
fn last_component(path: &str) -> (r: Option<Vec<u8>>)
    ensures
        bytes_option(r) == file_name_of(path@),
{
    Path::new(path).file_name().map(|name| name.as_encoded_bytes().to_vec())
}

/// `ZipArchive::by_index` and `read_to_end` on the entry it opens: the
/// decompressed bytes of the entry, or the words of the error that kept
/// the entry from being opened or its bytes from being read. The entries
/// stay as they are.
#[verifier::external_body]
fn entry_data(archive: &mut ZipArchive<Cursor<Vec<u8>>>, index: usize) -> (r: Result<
    Vec<u8>,
    String,
>)
    requires
        index < archive_entries(*old(archive)).len(),
    ensures
        archive_entries(*final(archive)) == archive_entries(*old(archive)),
        bytes_view(r) == bytes_of(archive_entries(*old(archive))[index as int]),
{
    let mut file = archive.by_index(index).map_err(|e| e.to_string())?;
    let mut data = Vec::new();
    file.read_to_end(&mut data).map_err(|e| e.to_string())?;
    Ok(data)
}

/// Whether a request asks for files of a role. A request that names no role
/// asks for all, and so does one that names the wildcard.
pub fn is_wanted(need_file: &Vec<EFile>, role: EFile) -> (r: bool)
    ensures
        r == wants(need_file@, role),
{
    if need_file.len() == 0 {
        assert(seq![EFile::All][0] == EFile::All);
        return true;
    }
    EFile::contains(need_file, role) || EFile::contains(need_file, EFile::All)
}

/// Whether a request asks for the entry with the given file name.
pub fn is_wanted_entry(need_file: &Vec<EFile>, file_name: &Option<Vec<u8>>, windows: bool) -> (r:
    bool)
    ensures
        r == wants_entry(need_file@, bytes_option(*file_name), windows),
{
    match file_name {
        Some(name) => {
            let text = utf8_or_gbk_to_string(name.as_slice(), windows);
            is_wanted(need_file, EFile::from_str(text.as_str(), windows))
        },
        None => true,
    }
}

/// Walks the entries of an open archive in order and collects, for each
/// entry that the request asks for, the step that writes it out. The walk
/// ends at the first entry that cannot be read.
fn extract_entries(
    archive: &mut ZipArchive<Cursor<Vec<u8>>>,
    need_file: &Vec<EFile>,
    windows: bool,
) -> (r: Extraction)
    ensures
        archive_entries(*final(archive)) == archive_entries(*old(archive)),
        r@ == extraction_from(archive_entries(*old(archive)), 0, need_file@, windows),
{
    let ghost entries = archive_entries(*archive);
    let n = archive_len(archive);
    let mut steps: Vec<ExtractStep> = Vec::new();
    let mut i: usize = 0;
    assert(steps_view(steps@) =~= Seq::<StepModel>::empty());
    while i < n
        invariant
            i <= n,
            n == entries.len(),
            archive_entries(*archive) == entries,
            archive_entries(*old(archive)) == entries,
            extraction_from(entries, 0, need_file@, windows).0 == steps_view(steps@)
                + extraction_from(entries, i as nat, need_file@, windows).0,
            extraction_from(entries, 0, need_file@, windows).1 == extraction_from(
                entries,
                i as nat,
                need_file@,
                windows,
            ).1,
        decreases n - i,
    {
        let ghost before = steps_view(steps@);
        let header = match entry_header(archive, i) {
            Ok(header) => header,
            Err(detail) => {
                let failure = Error::Archive { entry: Some(i), detail };
                assert(before + Seq::<StepModel>::empty() == before);
                return Extraction { steps, failure: Some(failure) };
            },
        };
        let EntryHeader { path, is_dir, unix_mode } = header;
        match path {
            Some(path) => {
                let file_name = last_component(path.as_str());
                if is_wanted_entry(need_file, &file_name, windows) {
                    let data = if is_dir {
                        Vec::new()
                    } else {
                        match entry_data(archive, i) {
                            Ok(data) => data,
                            Err(detail) => {
                                let failure = Error::Archive { entry: Some(i), detail };
                                assert(before + Seq::<StepModel>::empty() == before);
                                return Extraction { steps, failure: Some(failure) };
                            },
                        }
                    };
                    let step = ExtractStep { entry: i, path, is_dir, unix_mode, data };
                    let ghost rest = extraction_from(entries, (i + 1) as nat, need_file@, windows).0;
                    steps.push(step);
                    assert(steps_view(steps@) =~= before.push(step@));
                    assert(before.push(step@) + rest =~= before + (seq![step@] + rest));
                }
            },
            None => {},
        }
        i = i + 1;
    }
    assert(steps_view(steps@) + Seq::<StepModel>::empty() == steps_view(steps@));
    Extraction { steps, failure: None }
}

/// Reads a downloaded archive and says what to write to disk: a step for
/// each entry that the request asks for, in archive order. A request that
/// names no role, or names the wildcard, asks for every entry. A file that
/// is no archive gives no step and a failure that names no entry.
pub fn unzip(archive: Vec<u8>, need_file: Vec<EFile>, windows: bool) -> (r: Extraction)
    ensures
        r@ == extraction_of(zip_entries_of(archive@), need_file@, windows),
{
    match open_archive(archive) {
        Ok(mut opened) => extract_entries(&mut opened, &need_file, windows),
        Err(detail) => {
            let failure = Error::Archive { entry: None, detail };
            let steps: Vec<ExtractStep> = Vec::new();
            assert(steps_view(steps@) =~= Seq::<StepModel>::empty());
            Extraction { steps, failure: Some(failure) }
        },
    }
}

/// What to write to disk once a download has ended: nothing and the
/// download's own error where it failed, otherwise what the archive holds
/// for the request.
pub fn download_file(fetched: Result<Vec<u8>, Error>, need_file: Vec<EFile>, windows: bool) -> (r:
    Extraction)
    ensures
        fetched matches Err(e) ==> r.steps@.len() == 0 && r.failure == Some(e),
        fetched matches Ok(bytes) ==> r@ == extraction_of(
            zip_entries_of(bytes@),
            need_file@,
            windows,
        ),
{
    match fetched {
        Ok(bytes) => unzip(bytes, need_file, windows),
        Err(e) => Extraction { steps: Vec::new(), failure: Some(e) },
    }
}

} // verus!
