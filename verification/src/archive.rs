//! Archives: a chapter's page files packed into one ZIP container by the
//! `zip` crate.

use vstd::prelude::*;
use crate::error::{ErrorKind, GuLoaderError};

verus! {

/// A ZIP archive under construction in memory: a `zip::ZipWriter` over a
/// buffer.
#[verifier::external_body]
pub struct Archive {
    writer: zip::ZipWriter<std::io::Cursor<Vec<u8>>>,
}

#[verifier::external_type_specification]
#[verifier::external_body]
pub struct ExZipError(zip::result::ZipError);

#[verifier::external_type_specification]
#[verifier::external_body]
pub struct ExIoError(std::io::Error);

/// The files that an archive under construction holds: their names and
/// contents, in the order in which they were started.
pub uninterp spec fn archive_files(archive: Archive) -> Seq<(Seq<char>, Seq<u8>)>;

/// Whether the archive can still be written to: no operation on it has
/// failed, and it has not been finished.
pub uninterp spec fn archive_usable(archive: Archive) -> bool;

/// Whether `zip::ZipWriter::start_file` with the default options succeeds
/// for a file named `name`, in an archive that holds `files`.
pub uninterp spec fn starts(files: Seq<(Seq<char>, Seq<u8>)>, name: Seq<char>) -> bool;

/// Whether writing `bytes` to the file that was started last succeeds, in
/// an archive that holds `files`.
pub uninterp spec fn writes(files: Seq<(Seq<char>, Seq<u8>)>, bytes: Seq<u8>) -> bool;

/// The bytes of the finished ZIP archive that holds the given files, each
/// written with the default options, or `None` where the archive cannot be
/// finished. The crate is built without its `time` feature, so that no
/// clock enters the bytes.
pub uninterp spec fn zip_bytes(files: Seq<(Seq<char>, Seq<u8>)>) -> Option<Seq<u8>>;

/// `zip::ZipWriter::new` over an empty buffer in memory: an archive without
/// files.
#[verifier::external_body]
pub(crate) fn new_archive() -> (archive: Archive)
    ensures
        archive_usable(archive),
        archive_files(archive) == Seq::<(Seq<char>, Seq<u8>)>::empty(),
{
    Archive { writer: zip::ZipWriter::new(std::io::Cursor::new(Vec::new())) }
}

/// `zip::ZipWriter::start_file` with the default options, on an archive
/// that can still be written to: where it succeeds, the archive has one
/// more file, named `name` and still empty, and can still be written to.
/// Whether it succeeds depends on what the archive holds and on the name
/// alone.
#[verifier::external_body]
pub(crate) fn start_file(archive: &mut Archive, name: &str) -> (r: Result<
    (),
    zip::result::ZipError,
>)
    requires
        archive_usable(*old(archive)),
    ensures
        r is Ok == starts(archive_files(*old(archive)), name@),
        r is Ok ==> archive_usable(*final(archive)) && archive_files(*final(archive))
            == archive_files(*old(archive)).push((name@, Seq::<u8>::empty())),
{
    archive.writer.start_file(name, zip::write::FileOptions::default())
}

/// `std::io::Write::write_all` on the `zip::ZipWriter`, for an archive that
/// can still be written to and in which a file was started: where it
/// succeeds, the bytes stand at the end of the file that was started last,
/// and the archive can still be written to. Whether it succeeds depends on
/// what the archive holds and on the bytes alone.
#[verifier::external_body]
pub(crate) fn write_all(archive: &mut Archive, bytes: &Vec<u8>) -> (r: Result<(), std::io::Error>)
    requires
        archive_usable(*old(archive)),
        archive_files(*old(archive)).len() > 0,
    ensures
        r is Ok == writes(archive_files(*old(archive)), bytes@),
        r is Ok ==> archive_usable(*final(archive)),
        r is Ok ==> archive_files(*final(archive)) == archive_files(*old(archive)).drop_last().push(
            (
                archive_files(*old(archive)).last().0,
                archive_files(*old(archive)).last().1 + bytes@,
            ),
        ),
{
    std::io::Write::write_all(&mut archive.writer, bytes)
}

/// `zip::ZipWriter::finish`, on an archive that can still be written to:
/// where it succeeds, the buffer holds the finished archive of the files
/// written so far. The result is the named one: it depends on what the
/// archive holds alone.
#[verifier::external_body]
pub(crate) fn finish(archive: &mut Archive) -> (r: Result<Vec<u8>, zip::result::ZipError>)
    requires
        archive_usable(*old(archive)),
    ensures
        match r {
            Ok(bytes) => zip_bytes(archive_files(*old(archive))) == Some(bytes@),
            Err(_) => zip_bytes(archive_files(*old(archive))) is None,
        },
{
    archive.writer.finish().map(|buffer| buffer.into_inner())
}

/// The text of a `zip::result::ZipError`, as its `Display` writes it.
#[verifier::external_body]
pub(crate) fn zip_error_text(error: &zip::result::ZipError) -> (text: String) {
    error.to_string()
}

/// The text of a `std::io::Error`, as its `Display` writes it.
#[verifier::external_body]
pub(crate) fn io_error_text(error: &std::io::Error) -> (text: String) {
    error.to_string()
}

/// A file to put into an archive.
#[derive(Debug)]
pub struct ArchiveFile {
    pub name: String,
    pub content: Vec<u8>,
}

/// The names and contents of the files.
pub open spec fn file_views(files: Seq<ArchiveFile>) -> Seq<(Seq<char>, Seq<u8>)> {
    Seq::new(files.len(), |i: int| (files[i].name@, files[i].content@))
}

/// The archive takes the files, one after another: each can be started in
/// the archive that holds the files before it, and its content can be
/// written there.
pub open spec fn fills(files: Seq<(Seq<char>, Seq<u8>)>) -> bool
    decreases files.len(),
{
    if files.len() == 0 {
        true
    } else {
        let before = files.drop_last();
        &&& fills(before)
        &&& starts(before, files.last().0)
        &&& writes(before.push((files.last().0, Seq::<u8>::empty())), files.last().1)
    }
}

/// The files can be packed: the archive takes them and can be finished.
pub open spec fn packs(files: Seq<(Seq<char>, Seq<u8>)>) -> bool {
    fills(files) && zip_bytes(files) is Some
}

/// The kind of the first failure while the archive takes the files, one
/// after another: an archive failure where a file cannot be started, a
/// filesystem failure where its content cannot be written. `None` where
/// the archive takes them all.
pub open spec fn filling_failure(files: Seq<(Seq<char>, Seq<u8>)>) -> Option<ErrorKind>
    decreases files.len(),
{
    if files.len() == 0 {
        None
    } else {
        let before = files.drop_last();
        match filling_failure(before) {
            Some(kind) => Some(kind),
            None => if !starts(before, files.last().0) {
                Some(ErrorKind::Zip)
            } else if !writes(before.push((files.last().0, Seq::<u8>::empty())), files.last().1) {
                Some(ErrorKind::Io)
            } else {
                None
            },
        }
    }
}

/// The kind of failure of packing the files: that of the first failure
/// while the archive takes them, or an archive failure where it takes them
/// and cannot be finished. `None` where the files can be packed.
pub open spec fn packing_failure(files: Seq<(Seq<char>, Seq<u8>)>) -> Option<ErrorKind> {
    match filling_failure(files) {
        Some(kind) => Some(kind),
        None => if zip_bytes(files) is None {
            Some(ErrorKind::Zip)
        } else {
            None
        },
    }
}

/// Packing fails where the files cannot be packed, and only there.
pub proof fn lemma_packing_fails(files: Seq<(Seq<char>, Seq<u8>)>)
    ensures
        fills(files) <==> filling_failure(files) is None,
        packs(files) <==> packing_failure(files) is None,
    decreases files.len(),
{
    if files.len() > 0 {
        lemma_packing_fails(files.drop_last());
    }
}

/// A failure among the first files is the failure of them all.
pub proof fn lemma_failure_stays(files: Seq<(Seq<char>, Seq<u8>)>, k: int)
    requires
        0 <= k <= files.len(),
        filling_failure(files.take(k)) is Some,
    ensures
        filling_failure(files) == filling_failure(files.take(k)),
    decreases files.len() - k,
{
    if k == files.len() {
        assert(files.take(k) =~= files);
    } else {
        assert(files.drop_last().take(k) =~= files.take(k));
        lemma_failure_stays(files.drop_last(), k);
    }
}

/// Packs the files into one ZIP archive, in their order. The archive is
/// there where the files can be packed, and only then. Packing ends with
/// the first failure: that of the archive writer is an archive failure,
/// that of writing a file's content is a filesystem failure.
pub fn pack(files: &Vec<ArchiveFile>) -> (r: Result<Vec<u8>, GuLoaderError>)
    ensures
        match r {
            Ok(bytes) => packs(file_views(files@)) && zip_bytes(file_views(files@)) == Some(
                bytes@,
            ),
            Err(e) => !packs(file_views(files@)) && packing_failure(file_views(files@)) == Some(
                e@.kind,
            ),
        },
{
    let mut archive = new_archive();
    let mut i: usize = 0;
    let ghost all = file_views(files@);
    assert(all.take(0) =~= Seq::<(Seq<char>, Seq<u8>)>::empty());
    while i < files.len()
        invariant
            i <= files.len(),
            all == file_views(files@),
            archive_usable(archive),
            archive_files(archive) == all.take(i as int),
            fills(all.take(i as int)),
        decreases files.len() - i,
    {
        proof {
            assert(all.take(i + 1).drop_last() =~= all.take(i as int));
            assert(all.take(i + 1).last() == (files@[i as int].name@, files@[i as int].content@));
            lemma_packing_fails(all);
            lemma_packing_fails(all.take(i as int));
            lemma_packing_fails(all.take(i + 1));
        }
        match start_file(&mut archive, files[i].name.as_str()) {
            Ok(()) => {},
            Err(e) => {
                proof {
                    lemma_failure_stays(all, i + 1);
                }
                return Err(GuLoaderError::Zip(zip_error_text(&e)));
            },
        }
        match write_all(&mut archive, &files[i].content) {
            Ok(()) => {},
            Err(e) => {
                proof {
                    lemma_failure_stays(all, i + 1);
                }
                return Err(GuLoaderError::Io(io_error_text(&e)));
            },
        }
        proof {
            assert(Seq::<u8>::empty() + files@[i as int].content@ =~= files@[i as int].content@);
            assert(archive_files(archive) =~= all.take(i + 1));
        }
        i += 1;
    }
    assert(all.take(files.len() as int) =~= all);
    proof {
        lemma_packing_fails(all);
    }
    match finish(&mut archive) {
        Ok(bytes) => Ok(bytes),
        Err(e) => Err(GuLoaderError::Zip(zip_error_text(&e))),
    }
}

} // verus!
