//! The audit pack: a sealed archive of the evidence at canonical paths,
//! with a manifest of the SHA-256 checksum of every file in it.

use vstd::prelude::*;
use crate::bytes::{bytes_eq, push_text, str_bytes, to_vec, utf8};
use crate::crypto::hash::{sha256, sha256_digest};
use crate::hex::{hex_chars, hex_encode};
use crate::json::{
    decimal, json_bytes, json_string, write_byte_array, write_decimal, write_raw, write_string,
};
use crate::transparency::merkle::{hash_views, inclusion_path};
use crate::transparency::TransparencyLog;

verus! {

pub const SBOM_PATH: &'static str = "sbom.cyclonedx.json";

pub const CHECKPOINTS_PATH: &'static str = "checkpoints.json";

pub const WITNESS_SIGNATURES_PATH: &'static str = "witness_signatures.json";

pub const INCLUSION_PROOFS_PATH: &'static str = "inclusion_proofs.json";

pub const POLICY_SNAPSHOTS_PATH: &'static str = "policy_snapshots.json";

pub const KEY_CATALOG_PATH: &'static str = "key_catalog.json";

pub const METADATA_PATH: &'static str = "METADATA.json";

pub const PROOFS_DIR: &'static str = "proofs/";

/// The ending of the name of a proof document.
pub const PROOF_SUFFIX: &'static str = ".pdf";

/// The most inclusion proofs that a pack samples.
pub const MAX_SAMPLED_PROOFS: usize = 256;

/// The permissions of every file of the archive.
pub const ARCHIVE_FILE_MODE: u32 = 0o644;

/// The day that every file of the archive is stamped with, as an MS-DOS
/// date: 1 January 1980, the first day that the format can tell; the day
/// in the lowest five bits, the month in the next four, the years since
/// 1980 above them.
pub const ARCHIVE_FILE_DATE: u16 = 0x0021;

/// The time of day that every file of the archive is stamped with, as an
/// MS-DOS time: midnight.
pub const ARCHIVE_FILE_TIME: u16 = 0;

/// The longest name of a file of an archive, in bytes: the format counts
/// them in sixteen bits.
pub const MAX_ARCHIVE_NAME_LEN: usize = 0xffff;

/// How the files of an archive are compressed.
#[derive(Debug, Clone, Copy, PartialEq, Eq)]
pub enum Compression {
    Stored,
    Deflated,
}

/// A file of the archive.
#[derive(Debug, Clone)]
pub struct ArchiveEntry {
    pub name: String,
    pub content: Vec<u8>,
}

/// The checksum of a file of the archive.
#[derive(Debug, Clone)]
pub struct FileChecksum {
    pub filename: String,
    pub sha256: String,
}

/// The manifest of the archive.
#[derive(Debug, Clone)]
pub struct AuditMetadata {
    pub generated_at: String,
    pub version: String,
    pub checksums: Vec<FileChecksum>,
}

/// The documents that a pack binds, but for the inclusion proofs, which
/// are sampled from the log. The software bill of materials is optional,
/// and of `proofs` only the proof documents are taken.
pub struct AuditDocuments {
    pub sbom: Option<Vec<u8>>,
    pub checkpoints: Vec<u8>,
    pub witness_signatures: Vec<u8>,
    pub policy_snapshots: Vec<u8>,
    pub key_catalog: Vec<u8>,
    pub proofs: Vec<ArchiveEntry>,
}

/// The name and the content of a file, as values.
pub open spec fn entry_view(entry: ArchiveEntry) -> (Seq<char>, Seq<u8>) {
    (entry.name@, entry.content@)
}

/// The names and the contents of files, as values.
pub open spec fn entry_views(entries: Seq<ArchiveEntry>) -> Seq<(Seq<char>, Seq<u8>)> {
    Seq::new(entries.len(), |i: int| entry_view(entries[i]))
}

/// The checksum of a content: its SHA-256 digest as hexadecimal text.
pub open spec fn checksum_text(content: Seq<u8>) -> Seq<char> {
    hex_chars(sha256(content))
}

/// Whether a file name is that of a proof document: it ends in `.pdf`
/// and has something before that.
pub open spec fn is_proof_name(name: Seq<char>) -> bool {
    let bytes = utf8(name);
    bytes.len() > 4 && bytes.subrange(bytes.len() - 4, bytes.len() as int) == utf8(PROOF_SUFFIX@)
}

/// The proof documents among `proofs`, at their paths in the archive and
/// in their order. What is no proof document is left out.
pub open spec fn proof_files(proofs: Seq<(Seq<char>, Seq<u8>)>) -> Seq<(Seq<char>, Seq<u8>)>
    decreases proofs.len(),
{
    if proofs.len() == 0 {
        Seq::empty()
    } else if is_proof_name(proofs.last().0) {
        proof_files(proofs.drop_last()).push((PROOFS_DIR@ + proofs.last().0, proofs.last().1))
    } else {
        proof_files(proofs.drop_last())
    }
}

/// The leaves that a pack samples from a tree of `tree_size` leaves: one
/// for each of the first 256 draws, the draw reduced to a position of the
/// tree. An empty tree has no leaf to sample.
pub open spec fn sampled_leaves(tree_size: nat, draws: Seq<u64>) -> Seq<int> {
    if tree_size == 0 {
        Seq::empty()
    } else {
        Seq::new(
            if draws.len() <= MAX_SAMPLED_PROOFS {
                draws.len()
            } else {
                MAX_SAMPLED_PROOFS as nat
            },
            |i: int| (draws[i] as int) % (tree_size as int),
        )
    }
}

/// Positions as numbers.
pub open spec fn positions(indices: Seq<usize>) -> Seq<int> {
    Seq::new(indices.len(), |i: int| indices[i] as int)
}

/// Hashes as JSON arrays of numbers, each after the first behind a comma.
pub open spec fn hash_list_json(hashes: Seq<Seq<u8>>) -> Seq<u8>
    decreases hashes.len(),
{
    if hashes.len() == 0 {
        Seq::empty()
    } else if hashes.len() == 1 {
        json_bytes(hashes.last())
    } else {
        hash_list_json(hashes.drop_last()) + seq![0x2cu8] + json_bytes(hashes.last())
    }
}

/// The inclusion proof of the leaf at `index` of a tree over `leaves`, as
/// a JSON object: the position, the size of the tree, the hash of the leaf
/// and the co-path from the leaf to the root.
pub open spec fn inclusion_proof_json(leaves: Seq<Seq<u8>>, index: int) -> Seq<u8> {
    proof_object_json(index as nat, leaves.len(), leaves[index], inclusion_path(leaves, index))
}

/// A JSON object of a position, the size of a tree, the hash of a leaf and
/// a co-path.
pub open spec fn proof_object_json(index: nat, tree_size: nat, leaf: Seq<u8>, path: Seq<Seq<u8>>) -> Seq<u8> {
    utf8("{\"leaf_index\":"@) + decimal(index) + utf8(",\"tree_size\":"@) + decimal(tree_size)
        + utf8(",\"leaf_hash\":"@) + json_bytes(leaf) + utf8(",\"path\":["@) + hash_list_json(
        path,
    ) + utf8("]}"@)
}

/// The inclusion proofs of the leaves at `indices`, each after the first
/// behind a comma.
pub open spec fn proof_list_json(leaves: Seq<Seq<u8>>, indices: Seq<int>) -> Seq<u8>
    decreases indices.len(),
{
    if indices.len() == 0 {
        Seq::empty()
    } else if indices.len() == 1 {
        inclusion_proof_json(leaves, indices.last())
    } else {
        proof_list_json(leaves, indices.drop_last()) + seq![0x2cu8] + inclusion_proof_json(
            leaves,
            indices.last(),
        )
    }
}

/// The document of the sampled inclusion proofs: a JSON array of the
/// proofs of the leaves at `indices`.
pub open spec fn inclusion_proofs_json(leaves: Seq<Seq<u8>>, indices: Seq<int>) -> Seq<u8> {
    seq![0x5bu8] + proof_list_json(leaves, indices) + seq![0x5du8]
}

/// The files of the pack of `documents` before its manifest, with the
/// inclusion proofs that `draws` sample from a log over `leaves`.
pub open spec fn documents_files(
    documents: AuditDocuments,
    leaves: Seq<Seq<u8>>,
    draws: Seq<u64>,
) -> Seq<(Seq<char>, Seq<u8>)> {
    pack_files(
        crate::envelope::opt_view(documents.sbom),
        documents.checkpoints@,
        documents.witness_signatures@,
        inclusion_proofs_json(leaves, sampled_leaves(leaves.len(), draws)),
        documents.policy_snapshots@,
        documents.key_catalog@,
        entry_views(documents.proofs@),
    )
}

/// The files of a pack before its manifest, at their canonical paths and
/// in their order.
pub open spec fn pack_files(
    sbom: Option<Seq<u8>>,
    checkpoints: Seq<u8>,
    witness_signatures: Seq<u8>,
    inclusion_proofs: Seq<u8>,
    policy_snapshots: Seq<u8>,
    key_catalog: Seq<u8>,
    proofs: Seq<(Seq<char>, Seq<u8>)>,
) -> Seq<(Seq<char>, Seq<u8>)> {
    (match sbom {
        Some(content) => seq![(SBOM_PATH@, content)],
        None => Seq::empty(),
    }) + seq![
        (CHECKPOINTS_PATH@, checkpoints),
        (WITNESS_SIGNATURES_PATH@, witness_signatures),
        (INCLUSION_PROOFS_PATH@, inclusion_proofs),
        (POLICY_SNAPSHOTS_PATH@, policy_snapshots),
        (KEY_CATALOG_PATH@, key_catalog),
    ] + proof_files(proofs)
}

/// The lines of the manifest that list the checksums of `files`, each
/// entry after the first behind a comma.
pub open spec fn checksum_lines(files: Seq<(Seq<char>, Seq<u8>)>) -> Seq<u8>
    decreases files.len(),
{
    if files.len() == 0 {
        Seq::empty()
    } else {
        checksum_lines(files.drop_last()) + utf8(
            if files.len() == 1 {
                "\n    {\n      \"filename\": "@
            } else {
                ",\n    {\n      \"filename\": "@
            },
        ) + json_string(files.last().0) + utf8(",\n      \"sha256\": "@) + json_string(
            checksum_text(files.last().1),
        ) + utf8("\n    }"@)
    }
}

/// The manifest of `files`: the time of generation, the version, and the
/// checksum of each file, as indented JSON.
pub open spec fn metadata_json(generated_at: Seq<char>, version: Seq<char>, files: Seq<(Seq<char>, Seq<u8>)>) -> Seq<u8> {
    utf8("{\n  \"generated_at\": "@) + json_string(generated_at) + utf8(",\n  \"version\": "@)
        + json_string(version) + utf8(",\n  \"checksums\": ["@) + checksum_lines(files) + utf8(
        if files.len() == 0 {
            "]\n}"@
        } else {
            "\n  ]\n}"@
        },
    )
}

/// The files of a pack: the documents, and last the manifest over them.
pub open spec fn pack_entries(
    files: Seq<(Seq<char>, Seq<u8>)>,
    generated_at: Seq<char>,
    version: Seq<char>,
) -> Seq<(Seq<char>, Seq<u8>)> {
    files.push((METADATA_PATH@, metadata_json(generated_at, version, files)))
}

/// A ZIP archive in the making, held in memory.
#[verifier::external_body]
pub struct ArchiveWriter {
    inner: zip::ZipWriter<std::io::Cursor<Vec<u8>>>,
}

/// The files that were written to an archive in the making, each with its
/// name, its content, whether it is deflated, its permissions, and the
/// MS-DOS date and time that it is stamped with.
pub uninterp spec fn archive_files(writer: ArchiveWriter) -> Seq<(Seq<char>, Seq<u8>, bool, u32, u16, u16)>;

/// Whether an archive that holds `files` takes a new file of the given
/// name, compression, permissions and MS-DOS date and time.
pub uninterp spec fn zip_starts(
    files: Seq<(Seq<char>, Seq<u8>, bool, u32, u16, u16)>,
    name: Seq<char>,
    deflated: bool,
    mode: u32,
    date: u16,
    time: u16,
) -> bool;

/// Whether an archive that holds `files`, the last of them begun and still
/// empty, takes `content` as the content of that file.
pub uninterp spec fn zip_writes(files: Seq<(Seq<char>, Seq<u8>, bool, u32, u16, u16)>, content: Seq<u8>) -> bool;

/// The bytes of the finished archive of `files`, where the archive can be
/// finished.
pub uninterp spec fn zip_archive(files: Seq<(Seq<char>, Seq<u8>, bool, u32, u16, u16)>) -> Option<Seq<u8>>;

/// Whether the archive takes `files` one after the other, each begun and
/// then written in one piece. A file whose name is longer than the format
/// can count is not taken.
pub open spec fn zip_takes(files: Seq<(Seq<char>, Seq<u8>, bool, u32, u16, u16)>) -> bool
    decreases files.len(),
{
    if files.len() == 0 {
        true
    } else {
        let before = files.drop_last();
        let file = files.last();
        &&& zip_takes(before)
        &&& utf8(file.0).len() <= MAX_ARCHIVE_NAME_LEN
        &&& zip_starts(before, file.0, file.2, file.3, file.4, file.5)
        &&& zip_writes(
            before.push((file.0, Seq::<u8>::empty(), file.2, file.3, file.4, file.5)),
            file.1,
        )
    }
}

/// The archive of `files`, where the archive format takes them all and
/// the archive can be finished.
pub open spec fn sealed_archive(files: Seq<(Seq<char>, Seq<u8>, bool, u32, u16, u16)>) -> Option<Seq<u8>> {
    if zip_takes(files) {
        zip_archive(files)
    } else {
        None
    }
}

/// Files as members of a pack: deflated, with permissions 0o644, stamped
/// with the first day that the format can tell.
pub open spec fn pack_members(files: Seq<(Seq<char>, Seq<u8>)>) -> Seq<(Seq<char>, Seq<u8>, bool, u32, u16, u16)> {
    Seq::new(files.len(), |i: int| (files[i].0, files[i].1, true, ARCHIVE_FILE_MODE, ARCHIVE_FILE_DATE, ARCHIVE_FILE_TIME))
}

/// `zip::ZipWriter::new` over a cursor on an empty vector: an archive
/// without files.
#[verifier::external_body]
fn zip_writer_new() -> (writer: ArchiveWriter)
    ensures
        archive_files(writer) == Seq::<(Seq<char>, Seq<u8>, bool, u32, u16, u16)>::empty(),
{
    ArchiveWriter { inner: zip::ZipWriter::new(std::io::Cursor::new(Vec::new())) }
}

/// `zip::ZipWriter::start_file`, with options made by
/// `zip::DateTime::try_from_msdos` and the setters of
/// `zip::write::SimpleFileOptions`: begins a file with the given name,
/// compression, permissions and MS-DOS date and time. Whether the crate
/// takes the file is a function of the files before it and of these; a date
/// or time that is none is not taken. The crate counts the bytes of the
/// name in sixteen bits and does not return on a longer one, which
/// `requires` leaves out. A writer that refused is given up.
#[verifier::external_body]
fn zip_writer_start(
    writer: ArchiveWriter,
    name: &str,
    compression: Compression,
    mode: u32,
    date: u16,
    time: u16,
) -> (begun: Option<ArchiveWriter>)
    requires
        utf8(name@).len() <= MAX_ARCHIVE_NAME_LEN,
        mode <= 0o777,
    ensures
        begun is Some <==> zip_starts(
            archive_files(writer),
            name@,
            compression is Deflated,
            mode,
            date,
            time,
        ),
        begun matches Some(w) ==> archive_files(w) == archive_files(writer).push(
            (name@, Seq::<u8>::empty(), compression is Deflated, mode, date, time),
        ),
{
    let mut writer = writer;
    let method = match compression {
        Compression::Stored => zip::CompressionMethod::Stored,
        Compression::Deflated => zip::CompressionMethod::Deflated,
    };
    let stamp = zip::DateTime::try_from_msdos(date, time).ok()?;
    let options = zip::write::SimpleFileOptions::default().compression_method(method).unix_permissions(
        mode,
    ).last_modified_time(stamp);
    writer.inner.start_file(name, options).ok()?;
    Some(writer)
}

/// `std::io::Write::write_all` on a `zip::ZipWriter`: writes `content`, in
/// one piece, to the file that was begun last and is still empty. Whether
/// the crate takes it is a function of the files so far and of the
/// content. A writer that refused is given up.
#[verifier::external_body]
fn zip_writer_write(writer: ArchiveWriter, content: &[u8]) -> (written: Option<ArchiveWriter>)
    requires
        archive_files(writer).len() > 0,
        archive_files(writer).last().1.len() == 0,
    ensures
        written is Some <==> zip_writes(archive_files(writer), content@),
        written matches Some(w) ==> archive_files(w) == archive_files(writer).drop_last().push(
            (
                archive_files(writer).last().0,
                content@,
                archive_files(writer).last().2,
                archive_files(writer).last().3,
                archive_files(writer).last().4,
                archive_files(writer).last().5,
            ),
        ),
{
    let mut writer = writer;
    std::io::Write::write_all(&mut writer.inner, content).ok()?;
    Some(writer)
}

/// Adds a deflated file with the given name and content, with
/// permissions 0o644 and the stamp of every file, to the archive, where the
/// archive takes it. A name that is longer than the format can count is
/// refused before the archive is asked.
fn zip_writer_add(writer: ArchiveWriter, name: &str, content: &[u8]) -> (added: Option<ArchiveWriter>)
    ensures
        zip_takes(archive_files(writer)) ==> (added is Some <==> zip_takes(
            archive_files(writer).push(
                (name@, content@, true, ARCHIVE_FILE_MODE, ARCHIVE_FILE_DATE, ARCHIVE_FILE_TIME),
            ),
        )),
        added matches Some(w) ==> archive_files(w) == archive_files(writer).push(
            (name@, content@, true, ARCHIVE_FILE_MODE, ARCHIVE_FILE_DATE, ARCHIVE_FILE_TIME),
        ),
{
    let ghost before = archive_files(writer);
    let ghost file = (
        name@,
        content@,
        true,
        ARCHIVE_FILE_MODE,
        ARCHIVE_FILE_DATE,
        ARCHIVE_FILE_TIME,
    );
    proof {
        assert(before.push(file).drop_last() =~= before);
    }
    if str_bytes(name).len() > MAX_ARCHIVE_NAME_LEN {
        return None;
    }
    let begun = match zip_writer_start(
        writer,
        name,
        Compression::Deflated,
        ARCHIVE_FILE_MODE,
        ARCHIVE_FILE_DATE,
        ARCHIVE_FILE_TIME,
    ) {
        Some(begun) => begun,
        None => {
            return None;
        },
    };
    let ghost started = archive_files(begun);
    let written = zip_writer_write(begun, content);
    proof {
        if written is Some {
            assert(started.drop_last() =~= before);
        }
    }
    written
}

/// `zip::ZipWriter::finish`: the bytes of the archive, a function of the
/// files that were added, where the crate can finish it.
#[verifier::external_body]
fn zip_writer_finish(writer: ArchiveWriter) -> (bytes: Option<Vec<u8>>)
    ensures
        crate::envelope::opt_view(bytes) == zip_archive(archive_files(writer)),
{
    writer.inner.finish().ok().map(|cursor| cursor.into_inner())
}

/// Exports audit packs.
pub struct AuditPackExporter {
    output_path: String,
}

impl AuditPackExporter {
    /// Where the pack is to be written.
    pub closed spec fn path(&self) -> Seq<char> {
        self.output_path@
    }

    /// An exporter that writes to `output_path`.
    pub fn new(output_path: String) -> (exporter: AuditPackExporter)
        ensures
            exporter.path() == output_path@,
    {
        AuditPackExporter { output_path }
    }

    /// Where the pack is to be written.
    pub fn output_path(&self) -> (path: &str)
        ensures
            path@ == self.path(),
    {
        self.output_path.as_str()
    }

    /// The checksum of a content: the SHA-256 digest of exactly these
    /// bytes, as hexadecimal text.
    pub fn hash_content(content: &[u8]) -> (checksum: String)
        ensures
            checksum@ == checksum_text(content@),
    {
        let digest = sha256_digest(content);
        hex_encode(digest.as_slice())
    }

    /// The document of an export that found nothing: an empty list.
    pub fn empty_list() -> (json: Vec<u8>)
        ensures
            json@ == utf8("[]"@),
    {
        to_vec(str_bytes("[]"))
    }

    /// The key catalog of an export that found no key.
    pub fn empty_key_catalog() -> (json: Vec<u8>)
        ensures
            json@ == utf8("{\n  \"keys\": []\n}"@),
    {
        to_vec(str_bytes("{\n  \"keys\": []\n}"))
    }

    /// Whether a file name is that of a proof document.
    pub fn is_proof_document(name: &str) -> (keep: bool)
        ensures
            keep == is_proof_name(name@),
    {
        let bytes = str_bytes(name);
        if bytes.len() <= 4 {
            return false;
        }
        bytes_eq(&bytes[bytes.len() - 4..bytes.len()], str_bytes(PROOF_SUFFIX))
    }

    /// The leaves that a pack samples from a tree of `tree_size` leaves:
    /// at most 256, each a position of the tree.
    pub fn sample_leaves(tree_size: usize, draws: &[u64]) -> (indices: Vec<usize>)
        ensures
            positions(indices@) == sampled_leaves(tree_size as nat, draws@),
            indices@.len() <= MAX_SAMPLED_PROOFS,
            forall|i: int| 0 <= i < indices@.len() ==> indices@[i] < tree_size,
    {
        let mut indices: Vec<usize> = Vec::new();
        if tree_size == 0 {
            assert(positions(indices@) =~= sampled_leaves(tree_size as nat, draws@));
            return indices;
        }
        let count: usize = if draws.len() <= MAX_SAMPLED_PROOFS {
            draws.len()
        } else {
            MAX_SAMPLED_PROOFS
        };
        let mut i: usize = 0;
        while i < count
            invariant
                i <= count <= draws@.len(),
                tree_size > 0,
                indices@.len() == i,
                forall|j: int|
                    0 <= j < i ==> indices@[j] < tree_size && indices@[j] as int == (
                    draws@[j] as int) % (tree_size as int),
            decreases count - i,
        {
            let index = (draws[i] % (tree_size as u64)) as usize;
            indices.push(index);
            i += 1;
        }
        assert(positions(indices@) =~= sampled_leaves(tree_size as nat, draws@));
        indices
    }

    /// Appends hashes as JSON arrays of numbers, with commas between them.
    fn write_hash_list(out: &mut Vec<u8>, hashes: &Vec<[u8; 32]>)
        ensures
            final(out)@ == old(out)@ + hash_list_json(hash_views(hashes@)),
    {
        let ghost start = out@;
        let ghost all = hash_views(hashes@);
        let mut i: usize = 0;
        assert(start =~= start + hash_list_json(all.take(0)));
        while i < hashes.len()
            invariant
                i <= hashes@.len(),
                all == hash_views(hashes@),
                out@ == start + hash_list_json(all.take(i as int)),
            decreases hashes@.len() - i,
        {
            if i > 0 {
                out.push(0x2c);
            }
            write_byte_array(out, hashes[i].as_slice());
            proof {
                let grown = all.take(i + 1);
                assert(grown.drop_last() =~= all.take(i as int));
                assert(grown.last() == hashes@[i as int]@);
                assert(out@ =~= start + hash_list_json(grown));
            }
            i += 1;
        }
        assert(all.take(i as int) =~= all);
    }

    /// Appends the JSON object of an inclusion proof.
    fn write_proof_object(out: &mut Vec<u8>, index: usize, tree_size: usize, leaf: &[u8; 32], path: &Vec<[u8; 32]>)
        ensures
            final(out)@ == old(out)@ + proof_object_json(
                index as nat,
                tree_size as nat,
                leaf@,
                hash_views(path@),
            ),
    {
        write_raw(out, "{\"leaf_index\":");
        write_decimal(out, index as u64);
        write_raw(out, ",\"tree_size\":");
        write_decimal(out, tree_size as u64);
        write_raw(out, ",\"leaf_hash\":");
        write_byte_array(out, leaf.as_slice());
        write_raw(out, ",\"path\":[");
        Self::write_hash_list(out, path);
        write_raw(out, "]}");
        assert(out@ =~= old(out)@ + proof_object_json(
            index as nat,
            tree_size as nat,
            leaf@,
            hash_views(path@),
        ));
    }

    /// The document of the inclusion proofs that `draws` sample from the
    /// log: for each of at most 256 leaves its position, the size of the
    /// tree, its hash and its co-path to the root of the log.
    pub fn export_random_proofs(log: &TransparencyLog, draws: &[u64]) -> (json: Vec<u8>)
        requires
            log.wf(),
        ensures
            json@ == inclusion_proofs_json(
                log.leaf_hashes(),
                sampled_leaves(log.entries().len(), draws@),
            ),
    {
        let tree_size = log.len();
        let indices = Self::sample_leaves(tree_size, draws);
        let ghost leaves = log.leaf_hashes();
        let ghost sampled = sampled_leaves(log.entries().len(), draws@);
        let mut out: Vec<u8> = Vec::new();
        out.push(0x5b);
        let ghost start = out@;
        let mut i: usize = 0;
        assert(start =~= start + proof_list_json(leaves, sampled.take(0)));
        while i < indices.len()
            invariant
                log.wf(),
                i <= indices@.len(),
                tree_size == log.entries().len(),
                leaves == log.leaf_hashes(),
                positions(indices@) == sampled,
                forall|j: int| 0 <= j < indices@.len() ==> indices@[j] < tree_size,
                out@ == start + proof_list_json(leaves, sampled.take(i as int)),
            decreases indices@.len() - i,
        {
            let index = indices[i];
            let (leaf, path) = match (log.get_leaf_hash(index), log.get_inclusion_proof(index)) {
                (Some(leaf), Some(path)) => (leaf, path),
                _ => {
                    proof {
                        assert(false);
                    }
                    ([0u8; 32], Vec::new())
                },
            };
            if i > 0 {
                out.push(0x2c);
            }
            let ghost sofar = out@;
            Self::write_proof_object(&mut out, index, tree_size, &leaf, &path);
            proof {
                let grown = sampled.take(i + 1);
                assert(grown.drop_last() =~= sampled.take(i as int));
                assert(grown.last() == index as int) by {
                    assert(positions(indices@)[i as int] == index as int);
                }
                assert(leaves[index as int] == leaf@);
                assert(out@ == sofar + inclusion_proof_json(leaves, index as int));
                assert(out@ =~= start + proof_list_json(leaves, grown));
            }
            i += 1;
        }
        assert(sampled.take(i as int) =~= sampled);
        out.push(0x5d);
        out
    }

    /// The files of a pack before its manifest: the documents at their
    /// canonical paths, in their order. Of `documents.proofs` only the
    /// proof documents are taken.
    pub fn layout(documents: AuditDocuments, inclusion_proofs: Vec<u8>) -> (files: Vec<ArchiveEntry>)
        ensures
            entry_views(files@) == pack_files(
                crate::envelope::opt_view(documents.sbom),
                documents.checkpoints@,
                documents.witness_signatures@,
                inclusion_proofs@,
                documents.policy_snapshots@,
                documents.key_catalog@,
                entry_views(documents.proofs@),
            ),
    {
        let ghost proofs = entry_views(documents.proofs@);
        let mut files: Vec<ArchiveEntry> = Vec::new();
        match documents.sbom {
            Some(content) => {
                files.push(ArchiveEntry { name: SBOM_PATH.to_owned(), content });
            },
            None => {},
        }
        files.push(
            ArchiveEntry { name: CHECKPOINTS_PATH.to_owned(), content: documents.checkpoints },
        );
        files.push(
            ArchiveEntry {
                name: WITNESS_SIGNATURES_PATH.to_owned(),
                content: documents.witness_signatures,
            },
        );
        files.push(ArchiveEntry { name: INCLUSION_PROOFS_PATH.to_owned(), content: inclusion_proofs });
        files.push(
            ArchiveEntry {
                name: POLICY_SNAPSHOTS_PATH.to_owned(),
                content: documents.policy_snapshots,
            },
        );
        files.push(
            ArchiveEntry { name: KEY_CATALOG_PATH.to_owned(), content: documents.key_catalog },
        );
        let ghost fixed = entry_views(files@);
        let mut i: usize = 0;
        assert(entry_views(files@) =~= fixed + proof_files(proofs.take(0)));
        while i < documents.proofs.len()
            invariant
                i <= documents.proofs@.len(),
                proofs == entry_views(documents.proofs@),
                entry_views(files@) == fixed + proof_files(proofs.take(i as int)),
            decreases documents.proofs@.len() - i,
        {
            let proof_doc = &documents.proofs[i];
            let ghost before = entry_views(files@);
            proof {
                let grown = proofs.take(i + 1);
                assert(grown.drop_last() =~= proofs.take(i as int));
                assert(grown.last() == (proof_doc.name@, proof_doc.content@));
            }
            if Self::is_proof_document(proof_doc.name.as_str()) {
                let mut name = PROOFS_DIR.to_owned();
                push_text(&mut name, proof_doc.name.as_str());
                files.push(ArchiveEntry { name, content: to_vec(proof_doc.content.as_slice()) });
                proof {
                    assert(entry_views(files@) =~= before.push(
                        (PROOFS_DIR@ + proof_doc.name@, proof_doc.content@),
                    ));
                    assert(entry_views(files@) =~= fixed + proof_files(proofs.take(i + 1)));
                }
            }
            i += 1;
        }
        proof {
            assert(proofs.take(i as int) =~= proofs);
        }
        files
    }

    /// The manifest of `files`: the checksum of each.
    pub fn build_metadata(files: &Vec<ArchiveEntry>, generated_at: &str) -> (metadata: AuditMetadata)
        ensures
            metadata.generated_at@ == generated_at@,
            metadata.version@ == crate::VERSION@,
            metadata.checksums@.len() == files@.len(),
            forall|i: int|
                0 <= i < files@.len() ==> (#[trigger] metadata.checksums@[i]).filename@
                    == files@[i].name@ && metadata.checksums@[i].sha256@ == checksum_text(
                    files@[i].content@,
                ),
    {
        let mut checksums: Vec<FileChecksum> = Vec::new();
        let mut i: usize = 0;
        while i < files.len()
            invariant
                i <= files@.len(),
                checksums@.len() == i,
                forall|j: int|
                    0 <= j < i ==> (#[trigger] checksums@[j]).filename@ == files@[j].name@
                        && checksums@[j].sha256@ == checksum_text(files@[j].content@),
            decreases files@.len() - i,
        {
            checksums.push(
                FileChecksum {
                    filename: files[i].name.clone(),
                    sha256: Self::hash_content(files[i].content.as_slice()),
                },
            );
            i += 1;
        }
        AuditMetadata {
            generated_at: generated_at.to_owned(),
            version: crate::VERSION.to_owned(),
            checksums,
        }
    }

    /// The manifest of `files` as indented JSON.
    pub fn metadata_bytes(files: &Vec<ArchiveEntry>, generated_at: &str) -> (json: Vec<u8>)
        ensures
            json@ == metadata_json(generated_at@, crate::VERSION@, entry_views(files@)),
    {
        let ghost all = entry_views(files@);
        let mut out: Vec<u8> = Vec::new();
        write_raw(&mut out, "{\n  \"generated_at\": ");
        write_string(&mut out, generated_at);
        write_raw(&mut out, ",\n  \"version\": ");
        write_string(&mut out, crate::VERSION);
        write_raw(&mut out, ",\n  \"checksums\": [");
        let ghost start = out@;
        let mut i: usize = 0;
        assert(start =~= start + checksum_lines(all.take(0)));
        while i < files.len()
            invariant
                i <= files@.len(),
                all == entry_views(files@),
                out@ == start + checksum_lines(all.take(i as int)),
            decreases files@.len() - i,
        {
            let ghost before = out@;
            if i == 0 {
                write_raw(&mut out, "\n    {\n      \"filename\": ");
            } else {
                write_raw(&mut out, ",\n    {\n      \"filename\": ");
            }
            write_string(&mut out, files[i].name.as_str());
            write_raw(&mut out, ",\n      \"sha256\": ");
            write_string(&mut out, Self::hash_content(files[i].content.as_slice()).as_str());
            write_raw(&mut out, "\n    }");
            proof {
                let grown = all.take(i + 1);
                assert(grown.drop_last() =~= all.take(i as int));
                assert(grown.last() == entry_view(files@[i as int]));
                assert(out@ =~= start + checksum_lines(grown));
            }
            i += 1;
        }
        assert(all.take(i as int) =~= all);
        if files.len() == 0 {
            write_raw(&mut out, "]\n}");
        } else {
            write_raw(&mut out, "\n  ]\n}");
        }
        assert(out@ =~= metadata_json(generated_at@, crate::VERSION@, all));
        out
    }

    /// The files of the pack: the documents at their canonical paths, with
    /// the inclusion proofs that `draws` sample from `log`, and last the
    /// manifest with the checksum of each of them.
    pub fn plan_audit_pack(
        documents: AuditDocuments,
        log: &TransparencyLog,
        draws: &[u64],
        generated_at: &str,
    ) -> (entries: Vec<ArchiveEntry>)
        requires
            log.wf(),
        ensures
            entry_views(entries@) == pack_entries(
                documents_files(documents, log.leaf_hashes(), draws@),
                generated_at@,
                crate::VERSION@,
            ),
    {
        let inclusion_proofs = Self::export_random_proofs(log, draws);
        let mut files = Self::layout(documents, inclusion_proofs);
        let ghost before = entry_views(files@);
        let manifest = Self::metadata_bytes(&files, generated_at);
        files.push(ArchiveEntry { name: METADATA_PATH.to_owned(), content: manifest });
        assert(entry_views(files@) =~= before.push(
            (METADATA_PATH@, metadata_json(generated_at@, crate::VERSION@, before)),
        ));
        files
    }

    /// Seals files into a ZIP archive, in their order, each deflated, with
    /// permissions 0o644 and stamped with the first day that the format can
    /// tell. The archive comes back exactly where the archive takes every
    /// file and can be finished. A file whose name is longer than 65535
    /// bytes is not taken, so that nothing comes back.
    pub fn seal_archive(entries: &Vec<ArchiveEntry>) -> (archive: Option<Vec<u8>>)
        ensures
            crate::envelope::opt_view(archive) == sealed_archive(
                pack_members(entry_views(entries@)),
            ),
            (exists|i: int|
                0 <= i < entries@.len() && utf8(#[trigger] entries@[i].name@).len()
                    > MAX_ARCHIVE_NAME_LEN) ==> archive is None,
    {
        proof {
            if zip_takes(pack_members(entry_views(entries@))) {
                Self::lemma_taken_names_fit(pack_members(entry_views(entries@)));
            }
            assert forall|i: int| 0 <= i < entries@.len() implies pack_members(
                entry_views(entries@),
            )[i].0 == #[trigger] entries@[i].name@ by {}
        }
        let ghost all = pack_members(entry_views(entries@));
        let mut writer = zip_writer_new();
        let mut i: usize = 0;
        assert(all.take(0) =~= Seq::<(Seq<char>, Seq<u8>, bool, u32, u16, u16)>::empty());
        while i < entries.len()
            invariant
                i <= entries@.len(),
                all == pack_members(entry_views(entries@)),
                archive_files(writer) == all.take(i as int),
                zip_takes(all.take(i as int)),
            decreases entries@.len() - i,
        {
            let ghost grown = all.take(i + 1);
            proof {
                assert(grown =~= all.take(i as int).push(
                    (entries@[i as int].name@, entries@[i as int].content@, true, ARCHIVE_FILE_MODE, ARCHIVE_FILE_DATE, ARCHIVE_FILE_TIME),
                ));
            }
            writer = match zip_writer_add(
                writer,
                entries[i].name.as_str(),
                entries[i].content.as_slice(),
            ) {
                Some(grown) => grown,
                None => {
                    proof {
                        Self::lemma_refused_prefix(all, i + 1);
                    }
                    return None;
                },
            };
            i += 1;
        }
        assert(all.take(i as int) =~= all);
        zip_writer_finish(writer)
    }

    /// The names of files that the archive takes are no longer than the
    /// format can count.
    proof fn lemma_taken_names_fit(files: Seq<(Seq<char>, Seq<u8>, bool, u32, u16, u16)>)
        requires
            zip_takes(files),
        ensures
            forall|i: int|
                0 <= i < files.len() ==> utf8((#[trigger] files[i]).0).len()
                    <= MAX_ARCHIVE_NAME_LEN,
        decreases files.len(),
    {
        if files.len() > 0 {
            Self::lemma_taken_names_fit(files.drop_last());
            assert forall|i: int| 0 <= i < files.len() implies utf8(
                (#[trigger] files[i]).0,
            ).len() <= MAX_ARCHIVE_NAME_LEN by {
                if i < files.len() - 1 {
                    assert(files.drop_last()[i] == files[i]);
                }
            }
        }
    }

    /// Files of which the archive format refuses a prefix are refused.
    proof fn lemma_refused_prefix(files: Seq<(Seq<char>, Seq<u8>, bool, u32, u16, u16)>, n: int)
        requires
            0 <= n <= files.len(),
            !zip_takes(files.take(n)),
        ensures
            !zip_takes(files),
        decreases files.len(),
    {
        if n < files.len() {
            assert(files.drop_last().take(n) =~= files.take(n));
            Self::lemma_refused_prefix(files.drop_last(), n);
        } else {
            assert(files.take(n) =~= files);
        }
    }

    /// Generates the audit pack of the documents: the archive of the
    /// documents at their canonical paths, of the inclusion proofs that
    /// `draws` sample from `log`, at most 256, and of the manifest over
    /// them. The archive comes back exactly where the archive format takes
    /// every file.
    pub fn generate_audit_pack(
        &self,
        documents: AuditDocuments,
        log: &TransparencyLog,
        draws: &[u64],
        generated_at: &str,
    ) -> (archive: Option<Vec<u8>>)
        requires
            log.wf(),
        ensures
            crate::envelope::opt_view(archive) == sealed_archive(
                pack_members(
                    pack_entries(
                        documents_files(documents, log.leaf_hashes(), draws@),
                        generated_at@,
                        crate::VERSION@,
                    ),
                ),
            ),
    {
        let entries = Self::plan_audit_pack(documents, log, draws, generated_at);
        Self::seal_archive(&entries)
    }
}

} // verus!
