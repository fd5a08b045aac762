//! Text files out of a zip archive that is held in memory.

use crate::error::ErrorKind;
use crate::extract::outcome;
use crate::extract::ExtractionError;
use crate::segmentation::section_texts;
use crate::text::contains_text;
use crate::text::occurs_in;
use core::str::from_utf8;
use vstd::prelude::*;
use vstd::utf8::decode_utf8;
use vstd::utf8::valid_utf8;

verus! {

/// `zip::result::ZipError`, taken as it comes: only its text is read.
#[verifier::external_type_specification]
#[verifier::external_body]
pub struct ExZipError(zip::result::ZipError);

/// `zip::result::InvalidPassword`, taken as it comes: only its text is read.
#[verifier::external_type_specification]
#[verifier::external_body]
pub struct ExInvalidPassword(zip::result::InvalidPassword);

/// The bytes of the entry of the given name in a zip archive, unpacked, with the
/// empty password where the entry asks for one. None where the archive cannot be
/// read, has no such entry, or the entry cannot be unpacked.
pub uninterp spec fn zip_entry_named(archive: Seq<u8>, name: Seq<char>) -> Option<Seq<u8>>;

/// The names of the entries of a zip archive, in the order of its directory, each
/// where the entry can be opened with the empty password. None where the archive
/// cannot be read.
pub uninterp spec fn zip_entry_names(archive: Seq<u8>) -> Option<Seq<Option<Seq<char>>>>;

/// The bytes of the entry at the given place of the directory of a zip archive,
/// unpacked, with the empty password where the entry asks for one. None where the
/// archive cannot be read, has no such entry, or the entry cannot be unpacked.
pub uninterp spec fn zip_entry_at(archive: Seq<u8>, index: nat) -> Option<Seq<u8>>;

/// The bytes that reading an entry gave, where it gave any.
pub open spec fn bytes_read(
    read: Result<Result<Vec<u8>, zip::result::InvalidPassword>, zip::result::ZipError>,
) -> Option<Seq<u8>> {
    match read {
        Ok(Ok(bytes)) => Some(bytes@),
        _ => None,
    }
}

/// The name that opening an entry gave, where it gave one.
pub open spec fn name_read(
    read: Result<Result<String, zip::result::InvalidPassword>, zip::result::ZipError>,
) -> Option<Seq<char>> {
    match read {
        Ok(Ok(name)) => Some(name@),
        _ => None,
    }
}

/// Opens the archive with `zip::ZipArchive::new`, finds the entry with
/// `by_name_decrypt` and the empty password, and reads it to its end. Trusted: the
/// outcome depends on the bytes and the name alone.
#[verifier::external_body]
fn read_entry_named(buf: &[u8], name: &str) -> (read: Result<
    Result<Vec<u8>, zip::result::InvalidPassword>,
    zip::result::ZipError,
>)
    ensures
        bytes_read(read) == zip_entry_named(buf@, name@),
{
    let mut archive = zip::ZipArchive::new(std::io::Cursor::new(buf))?;
    let mut file = match archive.by_name_decrypt(name, b"")? {
        Ok(file) => file,
        Err(error) => return Ok(Err(error)),
    };
    let mut bytes = Vec::new();
    std::io::Read::read_to_end(&mut file, &mut bytes)?;
    Ok(Ok(bytes))
}

/// Opens the archive with `zip::ZipArchive::new` and asks each entry, opened with
/// `by_index_decrypt` and the empty password, for its `name`. Trusted: the outcome
/// depends on the bytes alone.
#[verifier::external_body]
fn read_entry_names(buf: &[u8]) -> (read: Result<
    Vec<Result<Result<String, zip::result::InvalidPassword>, zip::result::ZipError>>,
    zip::result::ZipError,
>)
    ensures
        match read {
            Ok(names) => zip_entry_names(buf@) == Some(
                names@.map_values(
                    |name: Result<Result<String, zip::result::InvalidPassword>, zip::result::ZipError>|
                        name_read(name),
                ),
            ),
            Err(_) => zip_entry_names(buf@) is None,
        },
{
    let mut archive = zip::ZipArchive::new(std::io::Cursor::new(buf))?;
    let places = 0..archive.len();
    let names = places.map(
        |index|
            archive.by_index_decrypt(index, b"").map(
                |file| file.map(|file| file.name().to_string()),
            ),
    );
    Ok(names.collect())
}

/// Opens the archive with `zip::ZipArchive::new`, finds the entry with
/// `by_index_decrypt` and the empty password, and reads it to its end. Trusted: the
/// outcome depends on the bytes and the place alone.
#[verifier::external_body]
fn read_entry_at(buf: &[u8], index: usize) -> (read: Result<
    Result<Vec<u8>, zip::result::InvalidPassword>,
    zip::result::ZipError,
>)
    ensures
        bytes_read(read) == zip_entry_at(buf@, index as nat),
{
    let mut archive = zip::ZipArchive::new(std::io::Cursor::new(buf))?;
    let mut file = match archive.by_index_decrypt(index, b"")? {
        Ok(file) => file,
        Err(error) => return Ok(Err(error)),
    };
    let mut bytes = Vec::new();
    std::io::Read::read_to_end(&mut file, &mut bytes)?;
    Ok(Ok(bytes))
}

/// What a text file is, given its bytes where they could be had: the text that
/// they encode.
pub open spec fn text_of_entry(bytes: Option<Seq<u8>>) -> Result<Seq<char>, ErrorKind> {
    match bytes {
        None => Err(ErrorKind::MalformedArchive),
        Some(bytes) => if valid_utf8(bytes) {
            Ok(decode_utf8(bytes))
        } else {
            Err(ErrorKind::InvalidEncoding)
        },
    }
}

/// The text of the entry of the given name in a zip archive.
pub open spec fn zip_text_named(archive: Seq<u8>, name: Seq<char>) -> Result<Seq<char>, ErrorKind> {
    text_of_entry(zip_entry_named(archive, name))
}

/// The texts of the first `count` entries of a zip archive whose names hold
/// `pattern`, in the order of the directory. The entries are taken one by one: the
/// first that cannot be opened, or that is taken and cannot be read as text, is
/// the failure of the whole.
pub open spec fn zip_texts_among(
    archive: Seq<u8>,
    names: Seq<Option<Seq<char>>>,
    pattern: Seq<char>,
    count: nat,
) -> Result<Seq<Seq<char>>, ErrorKind>
    decreases count,
{
    if count == 0 {
        Ok(Seq::empty())
    } else {
        let index = (count - 1) as nat;
        match zip_texts_among(archive, names, pattern, index) {
            Err(kind) => Err(kind),
            Ok(texts) => match names[index as int] {
                None => Err(ErrorKind::MalformedArchive),
                Some(name) => if occurs_in(pattern, name) {
                    match text_of_entry(zip_entry_at(archive, index)) {
                        Ok(text) => Ok(texts.push(text)),
                        Err(kind) => Err(kind),
                    }
                } else {
                    Ok(texts)
                },
            },
        }
    }
}

/// The texts of the entries of a zip archive whose names hold `pattern`.
pub open spec fn zip_texts_matching(archive: Seq<u8>, pattern: Seq<char>) -> Result<
    Seq<Seq<char>>,
    ErrorKind,
> {
    match zip_entry_names(archive) {
        None => Err(ErrorKind::MalformedArchive),
        Some(names) => zip_texts_among(archive, names, pattern, names.len()),
    }
}

/// Turns what reading an entry gave into its text.
fn entry_text(
    read: Result<Result<Vec<u8>, zip::result::InvalidPassword>, zip::result::ZipError>,
) -> (result: Result<String, ExtractionError>)
    ensures
        match result {
            Ok(text) => text_of_entry(bytes_read(read)) == Ok::<Seq<char>, ErrorKind>(text@),
            Err(error) => text_of_entry(bytes_read(read)) == Err::<Seq<char>, ErrorKind>(
                error.kind,
            ),
        },
{
    match read {
        Err(error) => Err(
            ExtractionError { kind: ErrorKind::MalformedArchive, message: error.to_string() },
        ),
        Ok(Err(error)) => Err(
            ExtractionError { kind: ErrorKind::MalformedArchive, message: error.to_string() },
        ),
        Ok(Ok(bytes)) => match from_utf8(bytes.as_slice()) {
            Ok(text) => Ok(text.to_string()),
            Err(error) => Err(
                ExtractionError { kind: ErrorKind::InvalidEncoding, message: error.to_string() },
            ),
        },
    }
}

/// The text of the file of the given name in a zip archive.
///
/// # Errors
/// `MalformedArchive` where the archive cannot be read or has no such file,
/// `InvalidEncoding` where the file is not UTF-8.
pub fn read_file_from_zip(buf: &[u8], name: &str) -> (result: Result<String, ExtractionError>)
    ensures
        match result {
            Ok(text) => zip_text_named(buf@, name@) == Ok::<Seq<char>, ErrorKind>(text@),
            Err(error) => zip_text_named(buf@, name@) == Err::<Seq<char>, ErrorKind>(error.kind),
        },
{
    entry_text(read_entry_named(buf, name))
}

/// The texts of the files in a zip archive whose names hold `name`, in the order of
/// the archive's directory. The files are taken one by one, and the first failure
/// ends the reading.
///
/// # Errors
/// `MalformedArchive` where the archive or one of its files cannot be opened or
/// read, `InvalidEncoding` where one of the files that are taken is not UTF-8.
pub fn read_files_from_zip(buf: &[u8], name: &str) -> (result: Result<
    Vec<String>,
    ExtractionError,
>)
    ensures
        outcome(result) == zip_texts_matching(buf@, name@),
{
    let names = match read_entry_names(buf) {
        Ok(names) => names,
        Err(error) => {
            return Err(
                ExtractionError { kind: ErrorKind::MalformedArchive, message: error.to_string() },
            );
        },
    };
    let ghost listed = names@.map_values(
        |name: Result<Result<String, zip::result::InvalidPassword>, zip::result::ZipError>|
            name_read(name),
    );
    let mut texts: Vec<String> = Vec::new();
    let mut i: usize = 0;
    assert(section_texts(texts@) =~= Seq::<Seq<char>>::empty());
    while i < names.len()
        invariant
            i <= names.len(),
            listed.len() == names.len(),
            forall|k: int| 0 <= k < names.len() ==> #[trigger] listed[k] == name_read(names[k]),
            zip_entry_names(buf@) == Some(listed),
            zip_texts_among(buf@, listed, name@, i as nat) == Ok::<Seq<Seq<char>>, ErrorKind>(
                section_texts(texts@),
            ),
        decreases names.len() - i,
    {
        assert(listed[i as int] == name_read(names[i as int]));
        match &names[i] {
            Err(error) => {
                proof {
                    lemma_zip_texts_failure(buf@, listed, name@, (i + 1) as nat, names.len() as nat);
                }
                return Err(
                    ExtractionError {
                        kind: ErrorKind::MalformedArchive,
                        message: error.to_string(),
                    },
                );
            },
            Ok(Err(error)) => {
                proof {
                    lemma_zip_texts_failure(buf@, listed, name@, (i + 1) as nat, names.len() as nat);
                }
                return Err(
                    ExtractionError {
                        kind: ErrorKind::MalformedArchive,
                        message: error.to_string(),
                    },
                );
            },
            Ok(Ok(entry_name)) => {
                if contains_text(entry_name.as_str(), name) {
                    match entry_text(read_entry_at(buf, i)) {
                        Ok(text) => {
                            let ghost before = texts@;
                            texts.push(text);
                            assert(section_texts(texts@) =~= section_texts(before).push(text@));
                        },
                        Err(error) => {
                            proof {
                                lemma_zip_texts_failure(
                                    buf@,
                                    listed,
                                    name@,
                                    (i + 1) as nat,
                                    names.len() as nat,
                                );
                            }
                            return Err(error);
                        },
                    }
                }
            },
        }
        i += 1;
    }
    Ok(texts)
}

/// A failure among the first entries is the failure of the whole.
pub proof fn lemma_zip_texts_failure(
    archive: Seq<u8>,
    names: Seq<Option<Seq<char>>>,
    pattern: Seq<char>,
    count: nat,
    more: nat,
)
    requires
        count <= more,
        zip_texts_among(archive, names, pattern, count) is Err,
    ensures
        zip_texts_among(archive, names, pattern, more) == zip_texts_among(
            archive,
            names,
            pattern,
            count,
        ),
    decreases more,
{
    if count < more {
        lemma_zip_texts_failure(archive, names, pattern, count, (more - 1) as nat);
    }
}

} // verus!
