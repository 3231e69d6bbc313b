//! Packing a save into a compressed archive and unpacking one.
//!
//! An archive holds named entries, one per file, with paths relative to the
//! save directory.  The archive bytes themselves come from the `zip` crate;
//! what this module verifies is that packing records exactly the given
//! entries, in order, that a packable file set is always packed, and that
//! unpacking returns exactly the entries of a readable archive and refuses
//! anything else.

use crate::errors::SyncError;
use vstd::prelude::*;

verus! {

/// One entry of an archive: a path relative to the save directory and the
/// file's bytes.
#[derive(Clone, Debug)]
pub struct FileEntry {
    pub path: Vec<u8>,
    pub data: Vec<u8>,
}

impl FileEntry {
    /// The entry as a pair of byte strings.
    pub open spec fn entry(self) -> (Seq<u8>, Seq<u8>) {
        (self.path@, self.data@)
    }
}

/// The entries a list of files stands for.
pub open spec fn entries_view(files: Seq<FileEntry>) -> Seq<(Seq<u8>, Seq<u8>)> {
    files.map_values(|f: FileEntry| f.entry())
}

/// An entry name the zip writer is sure to accept: ASCII text, hence valid
/// UTF-8, that fits the format's 16-bit name-length field.
pub open spec fn writable_name(name: Seq<u8>) -> bool {
    name.len() <= 0xFFFF && (forall|i: int| 0 <= i < name.len() ==> #[trigger] name[i] < 0x80)
}

/// Contents the zip writer is sure to accept without the large-file
/// option: comfortably below the format's 4 GiB entry bound, leaving the
/// checks on both the raw and the compressed size room for the worst
/// deflate expansion.
pub open spec fn writable_data(data: Seq<u8>) -> bool {
    data.len() <= 4_000_000_000
}

/// Every entry of the list is within the writer's name and size bounds.
pub open spec fn writable_entries(entries: Seq<(Seq<u8>, Seq<u8>)>) -> bool {
    &&& forall|k: int| 0 <= k < entries.len() ==> writable_name((#[trigger] entries[k]).0)
    &&& forall|k: int| 0 <= k < entries.len() ==> writable_data((#[trigger] entries[k]).1)
}

/// The entry names are pairwise distinct.
pub open spec fn distinct_names(entries: Seq<(Seq<u8>, Seq<u8>)>) -> bool {
    forall|j: int, k: int|
        0 <= j < k < entries.len() ==> (#[trigger] entries[j]).0 != (#[trigger] entries[k]).0
}

/// A file set the archiver owes an archive for: entries within the
/// writer's bounds, under pairwise distinct names.
pub open spec fn packable(entries: Seq<(Seq<u8>, Seq<u8>)>) -> bool {
    writable_entries(entries) && distinct_names(entries)
}

#[verifier::external_type_specification]
#[verifier::external_body]
#[verifier::reject_recursive_types(T)]
pub struct ExCursor<T>(std::io::Cursor<T>);

/// A zip writer over an in-memory buffer.  Verus refuses to declare
/// zip::ZipWriter itself, whose type parameter carries trait bounds, so the
/// writer is held opaquely here.
#[verifier::external_body]
pub struct ArchiveWriter {
    inner: zip::ZipWriter<std::io::Cursor<Vec<u8>>>,
}

#[verifier::external_type_specification]
#[verifier::external_body]
#[verifier::reject_recursive_types(R)]
pub struct ExZipArchive<R>(zip::ZipArchive<R>);

/// The entries written into a zip writer so far, in order.
pub uninterp spec fn writer_entries(w: ArchiveWriter) -> Seq<(Seq<u8>, Seq<u8>)>;

/// The entries a byte string denotes as a zip archive, in central-directory
/// order; `None` when the bytes are not a fully readable archive, that is,
/// when the central directory does not parse or some entry it lists does
/// not read back.
pub uninterp spec fn zip_entries(archive: Seq<u8>) -> Option<Seq<(Seq<u8>, Seq<u8>)>>;

/// What reading the entry at `i` of the bytes yields: its name and
/// contents, or `None` when that read fails.
pub uninterp spec fn zip_read_result(archive: Seq<u8>, i: int) -> Option<(Seq<u8>, Seq<u8>)>;

/// The bytes an open zip archive was read from.
pub uninterp spec fn archive_source(a: zip::ZipArchive<std::io::Cursor<Vec<u8>>>) -> Seq<u8>;

/// Relies on zip::ZipWriter::new: a writer over a fresh buffer holds no
/// entries yet.
#[verifier::external_body]
fn zip_writer_new() -> (w: ArchiveWriter)
    ensures
        writer_entries(w) == Seq::<(Seq<u8>, Seq<u8>)>::empty(),
{
    ArchiveWriter { inner: zip::ZipWriter::new(std::io::Cursor::new(Vec::new())) }
}

/// Relies on zip::ZipWriter::start_file and std::io::Write::write_all:
/// together they append one deflate-compressed entry under the given name.
/// The writer refuses a duplicate name, a name over the format's 16-bit
/// length field, and an entry crossing the 4 GiB bound; over an in-memory
/// buffer nothing else can fail, so an ASCII-named, size-bounded, fresh
/// entry after size-bounded entries is owed.
#[verifier::external_body]
fn zip_writer_add(w: &mut ArchiveWriter, name: &Vec<u8>, data: &Vec<u8>) -> (r: Result<
    (),
    String,
>)
    ensures
        r is Ok ==> writer_entries(*final(w)) == writer_entries(*old(w)).push((name@, data@)),
        (writable_entries(writer_entries(*old(w))) && writable_name(name@) && writable_data(data@)
            && (forall|k: int|
            0 <= k < writer_entries(*old(w)).len() ==> (#[trigger] writer_entries(*old(w))[k]).0
                != name@)) ==> r is Ok,
{
    let name_s = match String::from_utf8(name.clone()) {
        Ok(s) => s,
        Err(e) => return Err(format!("{}", e)),
    };
    let opts = zip::write::SimpleFileOptions::default().compression_method(
        zip::CompressionMethod::DEFLATE,
    );
    if let Err(e) = w.inner.start_file(name_s, opts) {
        return Err(format!("{}", e));
    }
    match std::io::Write::write_all(&mut w.inner, data.as_slice()) {
        Ok(()) => Ok(()),
        Err(e) => Err(format!("{}", e)),
    }
}

/// Relies on zip::ZipWriter::finish: the finished buffer is a well-formed
/// archive holding exactly the written entries, which zip::ZipArchive reads
/// back in the same order.  Over an in-memory buffer the finish can fail
/// only on an entry crossing the 4 GiB bound, so it is owed when every
/// entry is size-bounded.
#[verifier::external_body]
fn zip_writer_finish(w: ArchiveWriter) -> (r: Result<Vec<u8>, String>)
    ensures
        r matches Ok(bytes) ==> zip_entries(bytes@) == Some(writer_entries(w)),
        writable_entries(writer_entries(w)) ==> r is Ok,
{
    match w.inner.finish() {
        Ok(cursor) => Ok(cursor.into_inner()),
        Err(e) => Err(format!("{}", e)),
    }
}

/// Relies on zip::ZipArchive::new: it parses the central directory of the
/// given bytes, deterministically, and fails on bytes whose directory does
/// not parse.
#[verifier::external_body]
fn zip_archive_open(bytes: &Vec<u8>) -> (r: Result<
    zip::ZipArchive<std::io::Cursor<Vec<u8>>>,
    String,
>)
    ensures
        r matches Ok(a) ==> archive_source(a) == bytes@,
        r is Err ==> zip_entries(bytes@) is None,
{
    match zip::ZipArchive::new(std::io::Cursor::new(bytes.clone())) {
        Ok(a) => Ok(a),
        Err(e) => Err(format!("{}", e)),
    }
}

/// Relies on zip::ZipArchive::len: the central directory's entry count.
/// An open archive witnesses that the directory parsed, so bytes every
/// listed entry of which reads back are fully readable, with exactly the
/// entries those reads yield.
#[verifier::external_body]
fn zip_archive_len(a: &zip::ZipArchive<std::io::Cursor<Vec<u8>>>) -> (r: usize)
    ensures
        zip_entries(archive_source(*a)) matches Some(es) ==> r == es.len(),
        (forall|i: int|
            0 <= i < r ==> (#[trigger] zip_read_result(archive_source(*a), i)) is Some) ==> (
        zip_entries(archive_source(*a)) matches Some(es) && es.len() == r && (forall|i: int|
            0 <= i < r ==> Some(#[trigger] es[i]) == zip_read_result(archive_source(*a), i))),
{
    a.len()
}

/// Relies on zip::ZipArchive::by_index, zip's entry name, and
/// std::io::Read::read_to_end: reading an entry of a fixed byte string is
/// deterministic, never changes which bytes the archive is over, and on a
/// fully readable archive returns entry `i` exactly.
#[verifier::external_body]
fn zip_archive_entry(a: &mut zip::ZipArchive<std::io::Cursor<Vec<u8>>>, i: usize) -> (r: Result<
    FileEntry,
    String,
>)
    ensures
        archive_source(*final(a)) == archive_source(*old(a)),
        zip_entries(archive_source(*old(a))) matches Some(es) ==> (i < es.len() ==> (r matches Ok(
            e,
        ) && e.path@ == es[i as int].0 && e.data@ == es[i as int].1)),
        r matches Ok(e) ==> zip_read_result(archive_source(*old(a)), i as int) == Some(
            (e.path@, e.data@),
        ),
{
    match a.by_index(i) {
        Ok(mut f) => {
            let path = f.name().as_bytes().to_vec();
            let mut data = Vec::new();
            match std::io::Read::read_to_end(&mut f, &mut data) {
                Ok(_) => Ok(FileEntry { path, data }),
                Err(e) => Err(format!("{}", e)),
            }
        },
        Err(e) => Err(format!("{}", e)),
    }
}

/// Packs the files into an archive whose entries are exactly the files, in
/// order.  A packable file set is always packed; what the writer refuses
/// beyond that, such as a duplicated path, comes back as an archive error.
#[verifier::loop_isolation(false)]
pub fn pack(files: &Vec<FileEntry>) -> (r: Result<Vec<u8>, SyncError>)
    ensures
        r matches Ok(bytes) ==> zip_entries(bytes@) == Some(entries_view(files@)),
        packable(entries_view(files@)) ==> r is Ok,
        r matches Err(e) ==> e.kind == crate::errors::SyncErrorKind::Archive,
{
    let ghost all = entries_view(files@);
    let mut w = zip_writer_new();
    let mut i: usize = 0;
    while i < files.len()
        invariant
            i <= files@.len(),
            writer_entries(w) == entries_view(files@.take(i as int)),
        decreases files@.len() - i,
    {
        let ghost w_pre = writer_entries(w);
        proof {
            assert(w_pre.len() == i);
            assert forall|k: int| 0 <= k < i implies #[trigger] w_pre[k] == all[k] by {
                assert(files@.take(i as int)[k] == files@[k]);
            }
            assert(all[i as int] == files@[i as int].entry());
        }
        match zip_writer_add(&mut w, &files[i].path, &files[i].data) {
            Ok(()) => {},
            Err(msg) => {
                proof {
                    if packable(all) {
                        assert(writable_name(all[i as int].0) && writable_data(all[i as int].1));
                        assert(writable_entries(w_pre)) by {
                            assert forall|k: int|
                                0 <= k < w_pre.len() implies writable_name(
                                (#[trigger] w_pre[k]).0,
                            ) && writable_data(w_pre[k].1) by {
                                assert(w_pre[k] == all[k]);
                                assert(writable_name(all[k].0) && writable_data(all[k].1));
                            }
                        }
                        assert forall|k: int|
                            0 <= k < w_pre.len() implies (#[trigger] w_pre[k]).0 != files@[
                            i as int].path@ by {
                            assert(w_pre[k] == all[k]);
                            assert(all[k].0 != all[i as int].0);
                        }
                        assert(false);
                    }
                }
                return Err(SyncError::archive(msg));
            },
        }
        proof {
            assert(files@.take(i + 1).drop_last() =~= files@.take(i as int));
            assert(entries_view(files@.take(i + 1)) =~= entries_view(files@.take(i as int)).push(
                files@[i as int].entry(),
            ));
        }
        i = i + 1;
    }
    proof {
        assert(files@.take(files@.len() as int) =~= files@);
    }
    let ghost w_fin = writer_entries(w);
    match zip_writer_finish(w) {
        Ok(bytes) => Ok(bytes),
        Err(msg) => {
            proof {
                if packable(all) {
                    assert(w_fin == all);
                    assert(false);
                }
            }
            Err(SyncError::archive(msg))
        },
    }
}

/// Unpacks an archive into its entries.  Success happens exactly on a
/// fully readable archive, and returns exactly the entries it holds;
/// anything else is reported as an archive error.
#[verifier::loop_isolation(false)]
pub fn unpack(archive: &Vec<u8>) -> (r: Result<Vec<FileEntry>, SyncError>)
    ensures
        r matches Ok(files) ==> zip_entries(archive@) == Some(entries_view(files@)),
        zip_entries(archive@) matches Some(es) ==> (r matches Ok(files) && entries_view(files@)
            == es),
        r matches Err(e) ==> e.kind == crate::errors::SyncErrorKind::Archive && zip_entries(
            archive@,
        ) is None,
{
    let mut a = match zip_archive_open(archive) {
        Ok(a) => a,
        Err(msg) => {
            return Err(SyncError::archive(msg));
        },
    };
    let count = zip_archive_len(&a);
    let mut files: Vec<FileEntry> = Vec::new();
    let mut i: usize = 0;
    while i < count
        invariant
            i <= count,
            archive_source(a) == archive@,
            files@.len() == i,
            forall|j: int|
                0 <= j < i ==> #[trigger] zip_read_result(archive@, j) == Some(
                    (files@[j].path@, files@[j].data@),
                ),
            zip_entries(archive@) matches Some(es) ==> count == es.len() && entries_view(files@)
                == es.take(i as int),
        decreases count - i,
    {
        match zip_archive_entry(&mut a, i) {
            Ok(e) => {
                proof {
                    if let Some(es) = zip_entries(archive@) {
                        assert(entries_view(files@.push(e)) =~= entries_view(files@).push(
                            e.entry(),
                        ));
                        assert(es.take(i + 1) =~= es.take(i as int).push(es[i as int]));
                    }
                }
                files.push(e);
            },
            Err(msg) => {
                proof {
                    if let Some(es) = zip_entries(archive@) {
                        assert(false);
                    }
                }
                return Err(SyncError::archive(msg));
            },
        }
        i = i + 1;
    }
    proof {
        assert forall|j: int| 0 <= j < count implies (#[trigger] zip_read_result(
            archive@,
            j,
        )) is Some by {}
        if let Some(es) = zip_entries(archive@) {
            assert(es.take(es.len() as int) =~= es);
        }
    }
    Ok(files)
}

/// Law: an archive written from a list of files unpacks to exactly those
/// files, with identical paths and contents.  The premises hold of any
/// successful `pack` of `src` and any successful `unpack` of its bytes.
pub proof fn lemma_pack_unpack_roundtrip(
    src: Seq<(Seq<u8>, Seq<u8>)>,
    bytes: Seq<u8>,
    out: Seq<(Seq<u8>, Seq<u8>)>,
)
    requires
        zip_entries(bytes) == Some(src),
        zip_entries(bytes) == Some(out),
    ensures
        out == src,
{
}

} // verus!
