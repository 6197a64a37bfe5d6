//! Packages and their signed exchange format.
//!
//! A package is serialized as four length-prefixed fields: two version
//! stamps, the metadata in its text form, and the library. The exported form
//! wraps that record, compressed, in an envelope with a signature over the
//! record as it was before compression.

use crate::compress::{zstd_decode, zstd_decoded, zstd_encode, zstd_encoded};
use crate::digest::{blake512, digest, hashable, MAX_DIGEST_INPUT};
use crate::hexcode::{hex_bytes, hex_decode, hex_encode, hex_text, lemma_hex_round_trip};
use crate::metadata::{
    lemma_parse_metadata, metadata_text, parse_metadata, MetadataView, PackageMetadata,
};
use crate::signature::{
    ed25519_accepts, ed25519_public, ed25519_signature, Signature, SigningKey, VerifyingKey,
};
use crate::text::{same_bytes, string_from_utf8};
use crate::wire::{
    frame, lemma_take_bytes, lemma_take_frame, lemma_take_u32, put_bytes, put_frame, put_u32,
    read_bytes, read_frame, read_u32, take_bytes, take_frame, take_u32,
};
use vstd::bytes::*;
use vstd::prelude::*;
use vstd::slice::*;
use vstd::string::*;
use vstd::utf8::*;

verus! {

/// The stamp of the serialization format that this library writes.
pub const BINCODE_VERSION: &'static str = "1.3.3";

/// The stamp of the plugin interface framework that this library is built
/// for.
pub const ABI_STABLE_VERSION: &'static str = "0.11.3";

/// The extension of a package file's name.
pub const PACKAGE_EXTENSION: &'static str = "cdp";

/// One of the two version stamps of a serialized package.
#[derive(Clone, Copy, Debug, PartialEq, Eq, Structural)]
pub enum Stamp {
    /// The stamp of the serialization format.
    Format,
    /// The stamp of the plugin interface framework.
    Framework,
}

/// Why a package could not be exported or imported.
#[derive(Clone, Debug, PartialEq, Eq)]
pub enum Error {
    /// The bytes are not of the exchange format.
    Format,
    /// The payload could not be compressed or decompressed.
    Compression,
    /// The signer gave no signature, or the signature does not verify against
    /// the payload.
    Signature,
    /// A version stamp differs from this library's, and the import was
    /// strict. Where both differ, the stamp of the format is the one named.
    VersionStamp { stamp: Stamp, expected: String, received: String },
    /// The digest in the metadata is not the digest of the library.
    InvalidDigest,
}

/// The mathematical value of an [`Error`].
pub enum ErrorView {
    Format,
    Compression,
    Signature,
    VersionStamp { stamp: Stamp, expected: Seq<char>, received: Seq<char> },
    InvalidDigest,
}

impl View for Error {
    type V = ErrorView;

    open spec fn view(&self) -> ErrorView {
        match self {
            Error::Format => ErrorView::Format,
            Error::Compression => ErrorView::Compression,
            Error::Signature => ErrorView::Signature,
            Error::VersionStamp { stamp, expected, received } => ErrorView::VersionStamp {
                stamp: *stamp,
                expected: expected@,
                received: received@,
            },
            Error::InvalidDigest => ErrorView::InvalidDigest,
        }
    }
}

/// How the payload of an envelope is stored.
#[derive(Clone, Copy, Debug, PartialEq, Eq, Structural)]
pub enum ExportAlgorithm {
    /// The payload is the serialized package itself.
    Uncompressed,
    /// The payload is a Zstandard frame of the serialized package.
    Zstd,
}

/// The envelope: a payload and a signature over the payload as it was before
/// compression.
#[derive(Clone, Debug, PartialEq, Eq)]
pub struct PackageExport {
    pub alog: ExportAlgorithm,
    pub payload: Vec<u8>,
    pub signature: Signature,
}

/// Metadata and the library image it describes.
#[derive(Clone, Debug, PartialEq, Eq)]
pub struct Package {
    pub metadata: PackageMetadata,
    pub library: Vec<u8>,
}

/// The mathematical value of a [`PackageExport`].
pub struct EnvelopeView {
    pub alog: ExportAlgorithm,
    pub payload: Seq<u8>,
    pub signature: Seq<u8>,
}

/// The mathematical value of a [`Package`].
pub struct PackageView {
    pub metadata: MetadataView,
    pub library: Seq<u8>,
}

/// The four fields of a serialized package.
pub struct RecordView {
    pub bincode_version: Seq<char>,
    pub abi_stable_version: Seq<char>,
    /// The metadata in its text form.
    pub metadata: Seq<u8>,
    pub library: Seq<u8>,
}

impl View for PackageExport {
    type V = EnvelopeView;

    open spec fn view(&self) -> EnvelopeView {
        EnvelopeView { alog: self.alog, payload: self.payload@, signature: self.signature@ }
    }
}

impl View for Package {
    type V = PackageView;

    open spec fn view(&self) -> PackageView {
        PackageView { metadata: self.metadata@, library: self.library@ }
    }
}

/// The number that stands for an algorithm in the envelope.
pub open spec fn algorithm_tag(alog: ExportAlgorithm) -> u32 {
    match alog {
        ExportAlgorithm::Uncompressed => 0,
        ExportAlgorithm::Zstd => 1,
    }
}

/// The bytes of an envelope: the algorithm's number, the payload behind its
/// length, and the 64 bytes of the signature.
pub open spec fn envelope_bytes(envelope: EnvelopeView) -> Seq<u8> {
    spec_u32_to_le_bytes(algorithm_tag(envelope.alog)) + frame(envelope.payload)
        + envelope.signature
}

/// Reads an envelope. Bytes behind the signature are ignored.
pub open spec fn parse_envelope(bytes: Seq<u8>) -> Option<EnvelopeView> {
    match take_u32(bytes) {
        None => None,
        Some((tag, r1)) => if tag > 1 {
            None
        } else {
            match take_frame(r1) {
                None => None,
                Some((payload, r2)) => match take_bytes(r2, 64) {
                    None => None,
                    Some((signature, _)) => Some(
                        EnvelopeView {
                            alog: if tag == 0 {
                                ExportAlgorithm::Uncompressed
                            } else {
                                ExportAlgorithm::Zstd
                            },
                            payload,
                            signature,
                        },
                    ),
                },
            }
        },
    }
}

/// The bytes of a record: each field behind its length.
pub open spec fn record_bytes(record: RecordView) -> Seq<u8> {
    frame(encode_utf8(record.bincode_version)) + frame(encode_utf8(record.abi_stable_version))
        + frame(record.metadata) + frame(record.library)
}

/// Reads one length-prefixed string. Bytes that are not UTF-8 are an error.
pub open spec fn take_text_frame(input: Seq<u8>) -> Option<(Seq<char>, Seq<u8>)> {
    match take_frame(input) {
        None => None,
        Some((body, rest)) => if valid_utf8(body) {
            Some((decode_utf8(body), rest))
        } else {
            None
        },
    }
}

/// Reads a record. Bytes behind the library are ignored.
pub open spec fn parse_record(bytes: Seq<u8>) -> Option<RecordView> {
    match take_text_frame(bytes) {
        None => None,
        Some((bincode_version, r1)) => match take_text_frame(r1) {
            None => None,
            Some((abi_stable_version, r2)) => match take_frame(r2) {
                None => None,
                Some((metadata, r3)) => match take_frame(r3) {
                    None => None,
                    Some((library, _)) => Some(
                        RecordView { bincode_version, abi_stable_version, metadata, library },
                    ),
                },
            },
        },
    }
}

/// The record that a package is serialized as.
pub open spec fn package_record(package: PackageView) -> RecordView {
    RecordView {
        bincode_version: BINCODE_VERSION@,
        abi_stable_version: ABI_STABLE_VERSION@,
        metadata: metadata_text(package.metadata),
        library: package.library,
    }
}

/// The name of the file that a package of this name is written to.
pub open spec fn package_file_name(name: Seq<char>) -> Seq<char> {
    name + "."@ + PACKAGE_EXTENSION@
}

/// The bytes that a package is serialized as.
pub open spec fn serialized(package: PackageView) -> Seq<u8> {
    record_bytes(package_record(package))
}

/// Whether the stamps of a record are this library's own.
pub open spec fn stamps_match(record: RecordView) -> bool {
    &&& record.bincode_version == BINCODE_VERSION@
    &&& record.abi_stable_version == ABI_STABLE_VERSION@
}

/// The stamp of a record that a strict reader refuses, where there is one:
/// the stamp of the format if it is foreign, else that of the framework.
pub open spec fn refused_stamp(record: RecordView) -> Option<ErrorView> {
    if record.bincode_version != BINCODE_VERSION@ {
        Some(
            ErrorView::VersionStamp {
                stamp: Stamp::Format,
                expected: BINCODE_VERSION@,
                received: record.bincode_version,
            },
        )
    } else if record.abi_stable_version != ABI_STABLE_VERSION@ {
        Some(
            ErrorView::VersionStamp {
                stamp: Stamp::Framework,
                expected: ABI_STABLE_VERSION@,
                received: record.abi_stable_version,
            },
        )
    } else {
        None
    }
}

/// What reading a serialized package gives. Foreign version stamps are
/// tolerated unless `strict` is set; then the error names the stamp, the
/// value that was expected and the value that was found. Metadata that is
/// not of the text form, or whose versions are not semantic versions, is a
/// format error.
pub open spec fn deserialized(bytes: Seq<u8>, strict: bool) -> Result<PackageView, ErrorView> {
    match parse_record(bytes) {
        None => Err(ErrorView::Format),
        Some(record) => if strict && refused_stamp(record) is Some {
            Err(refused_stamp(record)->0)
        } else {
            match parse_metadata(record.metadata) {
                None => Err(ErrorView::Format),
                Some(metadata) => if metadata.well_formed() {
                    Ok(PackageView { metadata, library: record.library })
                } else {
                    Err(ErrorView::Format)
                },
            }
        },
    }
}

/// Whether `bytes` are a record whose stamps are not this library's own: the
/// condition that a tolerant reader should warn of.
pub open spec fn foreign_stamps(bytes: Seq<u8>) -> bool {
    match parse_record(bytes) {
        Some(record) => !stamps_match(record),
        None => false,
    }
}

/// Whether the digest in the metadata spells, in hexadecimal of either case,
/// the digest of the library.
pub open spec fn digest_consistent(package: PackageView) -> bool {
    hex_bytes(encode_utf8(package.metadata.digest)) == Some(blake512(package.library))
}

/// The package that packing `metadata` with `library` gives: the digest in
/// the metadata is replaced by the digest of the library.
pub open spec fn packed(metadata: MetadataView, library: Seq<u8>) -> PackageView {
    PackageView {
        metadata: MetadataView {
            name: metadata.name,
            digest: hex_text(blake512(library)),
            version: metadata.version,
            dependencies: metadata.dependencies,
        },
        library,
    }
}

/// The serialized package that an envelope carries, where its payload can be
/// unpacked.
pub open spec fn opened(envelope: EnvelopeView) -> Option<Seq<u8>> {
    match envelope.alog {
        ExportAlgorithm::Uncompressed => Some(envelope.payload),
        ExportAlgorithm::Zstd => zstd_decoded(envelope.payload),
    }
}

/// What importing `exported` under the verifying key `key` gives. The steps
/// are taken in this order, and the first that fails decides the error: the
/// envelope is read, the payload unpacked, the signature verified over the
/// unpacked payload, the package read from it, and its digest checked. A
/// library too long to be hashed is a format error.
pub open spec fn import_outcome(exported: Seq<u8>, key: Seq<u8>, strict: bool) -> Result<
    PackageView,
    ErrorView,
> {
    match parse_envelope(exported) {
        None => Err(ErrorView::Format),
        Some(envelope) => match opened(envelope) {
            None => Err(ErrorView::Compression),
            Some(record) => if !ed25519_accepts(key, record, envelope.signature) {
                Err(ErrorView::Signature)
            } else {
                match deserialized(record, strict) {
                    Err(e) => Err(e),
                    Ok(package) => if !hashable(package.library) {
                        Err(ErrorView::Format)
                    } else if digest_consistent(package) {
                        Ok(package)
                    } else {
                        Err(ErrorView::InvalidDigest)
                    },
                }
            },
        },
    }
}

/// Whether the package that `exported` carries bears stamps that are not this
/// library's own.
pub open spec fn import_foreign_stamps(exported: Seq<u8>) -> bool {
    match parse_envelope(exported) {
        Some(envelope) => match opened(envelope) {
            Some(record) => foreign_stamps(record),
            None => false,
        },
        None => false,
    }
}

/// The bytes of a signature, where there is one.
pub open spec fn signature_view(signature: Option<Signature>) -> Option<Seq<u8>> {
    match signature {
        Some(signature) => Some(signature@),
        None => None,
    }
}

/// What sealing a serialized package gives, given what the signer gave for
/// it. Without a signature it is a signature error; where the record cannot
/// be compressed, a compression error; else the bytes of a Zstandard
/// envelope of the record with that signature.
pub open spec fn sealed(record: Seq<u8>, signature: Option<Seq<u8>>) -> Result<
    Seq<u8>,
    ErrorView,
> {
    match signature {
        None => Err(ErrorView::Signature),
        Some(signature) => match zstd_encoded(record) {
            None => Err(ErrorView::Compression),
            Some(payload) => Ok(
                envelope_bytes(EnvelopeView { alog: ExportAlgorithm::Zstd, payload, signature }),
            ),
        },
    }
}

/// What exporting `package` gives, given what the signer gave for its
/// serialized bytes.
pub open spec fn export_outcome(package: PackageView, signature: Option<Seq<u8>>) -> Result<
    Seq<u8>,
    ErrorView,
> {
    sealed(serialized(package), signature)
}

/// Whether every field of a record is short enough to stand behind a
/// 64-bit length.
pub open spec fn record_fits(record: RecordView) -> bool {
    &&& encode_utf8(record.bincode_version).len() <= u64::MAX
    &&& encode_utf8(record.abi_stable_version).len() <= u64::MAX
    &&& record.metadata.len() <= u64::MAX
    &&& record.library.len() <= u64::MAX
}

/// Whether `exported` is an export of `package` signed with the key of this
/// seed: a Zstandard envelope whose payload unpacks to the serialized
/// package, with that key's signature of the serialized package, which the
/// matching public key accepts.
pub open spec fn is_export_of(exported: Seq<u8>, package: PackageView, seed: Seq<u8>) -> bool {
    let record = serialized(package);
    let signature = ed25519_signature(seed, record);
    &&& record_fits(package_record(package))
    &&& signature.len() == 64
    &&& ed25519_accepts(ed25519_public(seed), record, signature)
    &&& exists|payload: Seq<u8>|
        #![trigger zstd_decoded(payload)]
        {
            &&& payload.len() <= u64::MAX
            &&& zstd_decoded(payload) == Some(record)
            &&& exported == envelope_bytes(
                EnvelopeView { alog: ExportAlgorithm::Zstd, payload, signature },
            )
        }
}

/// What makes bytes an export, given the payload that was written.
proof fn lemma_export_is_export(
    exported: Seq<u8>,
    package: PackageView,
    seed: Seq<u8>,
    payload: Seq<u8>,
)
    requires
        record_fits(package_record(package)),
        ed25519_signature(seed, serialized(package)).len() == 64,
        ed25519_accepts(
            ed25519_public(seed),
            serialized(package),
            ed25519_signature(seed, serialized(package)),
        ),
        payload.len() <= u64::MAX,
        zstd_decoded(payload) == Some(serialized(package)),
        exported == envelope_bytes(
            EnvelopeView {
                alog: ExportAlgorithm::Zstd,
                payload,
                signature: ed25519_signature(seed, serialized(package)),
            },
        ),
    ensures
        is_export_of(exported, package, seed),
{
}

/// An envelope is read back from its bytes.
pub proof fn lemma_parse_envelope(envelope: EnvelopeView)
    requires
        envelope.payload.len() <= u64::MAX,
        envelope.signature.len() == 64,
    ensures
        parse_envelope(envelope_bytes(envelope)) == Some(envelope),
{
    let none = Seq::<u8>::empty();
    let r2 = envelope.signature + none;
    let r1 = frame(envelope.payload) + r2;
    assert(envelope_bytes(envelope) =~= spec_u32_to_le_bytes(algorithm_tag(envelope.alog)) + r1);
    lemma_take_u32(algorithm_tag(envelope.alog), r1);
    lemma_take_frame(envelope.payload, r2);
    lemma_take_bytes(envelope.signature, none);
}

/// A record is read back from its bytes.
pub proof fn lemma_parse_record(record: RecordView)
    requires
        record_fits(record),
    ensures
        parse_record(record_bytes(record)) == Some(record),
{
    let r4 = Seq::<u8>::empty();
    let r3 = frame(record.library) + r4;
    let r2 = frame(record.metadata) + r3;
    let r1 = frame(encode_utf8(record.abi_stable_version)) + r2;
    assert(record_bytes(record) =~= frame(encode_utf8(record.bincode_version)) + r1);
    lemma_take_frame(encode_utf8(record.bincode_version), r1);
    encode_utf8_valid_utf8(record.bincode_version);
    encode_utf8_decode_utf8(record.bincode_version);
    lemma_take_frame(encode_utf8(record.abi_stable_version), r2);
    encode_utf8_valid_utf8(record.abi_stable_version);
    encode_utf8_decode_utf8(record.abi_stable_version);
    lemma_take_frame(record.metadata, r3);
    lemma_take_frame(record.library, r4);
}

/// A package with well-formed metadata is read back from its serialized
/// form, strictly or not.
pub proof fn lemma_deserialize(package: PackageView, strict: bool)
    requires
        package.metadata.well_formed(),
        record_fits(package_record(package)),
    ensures
        deserialized(serialized(package), strict) == Ok::<PackageView, ErrorView>(package),
{
    lemma_parse_record(package_record(package));
    lemma_parse_metadata(package.metadata);
}

/// Packing binds the metadata to the library: the digest it writes is one
/// that the digest check accepts.
pub proof fn lemma_packed_is_consistent(metadata: MetadataView, library: Seq<u8>)
    ensures
        digest_consistent(packed(metadata, library)),
{
    lemma_hex_round_trip(blake512(library));
}

/// Round trip: importing an export of a packed package, under the public key
/// of the key that signed it, gives the package back: the metadata with the
/// digest of the library, and the library.
pub proof fn lemma_import_of_export(
    metadata: MetadataView,
    library: Seq<u8>,
    seed: Seq<u8>,
    exported: Seq<u8>,
    strict: bool,
)
    requires
        metadata.well_formed(),
        hashable(library),
        is_export_of(exported, packed(metadata, library), seed),
    ensures
        import_outcome(exported, ed25519_public(seed), strict) == Ok::<PackageView, ErrorView>(
            packed(metadata, library),
        ),
{
    let package = packed(metadata, library);
    lemma_packed_is_consistent(metadata, library);
    lemma_import_of_consistent(package, seed, exported, strict);
}

/// Importing an export of any package whose metadata is well formed and whose
/// digest is that of its library gives the package back.
pub proof fn lemma_import_of_consistent(
    package: PackageView,
    seed: Seq<u8>,
    exported: Seq<u8>,
    strict: bool,
)
    requires
        package.metadata.well_formed(),
        hashable(package.library),
        digest_consistent(package),
        is_export_of(exported, package, seed),
    ensures
        import_outcome(exported, ed25519_public(seed), strict) == Ok::<PackageView, ErrorView>(
            package,
        ),
{
    let record = serialized(package);
    let signature = ed25519_signature(seed, record);
    let payload = choose|payload: Seq<u8>|
        #![trigger zstd_decoded(payload)]
        {
            &&& payload.len() <= u64::MAX
            &&& zstd_decoded(payload) == Some(record)
            &&& exported == envelope_bytes(
                EnvelopeView { alog: ExportAlgorithm::Zstd, payload, signature },
            )
        };
    let envelope = EnvelopeView { alog: ExportAlgorithm::Zstd, payload, signature };
    lemma_parse_envelope(envelope);
    lemma_deserialize(package, strict);
}

/// Whether `exported` imports as `package` under `key`, strictly or not.
pub open spec fn imports_as(exported: Seq<u8>, key: Seq<u8>, package: PackageView) -> bool {
    forall|strict: bool| #[trigger]
        import_outcome(exported, key, strict) == Ok::<PackageView, ErrorView>(package)
}

/// An export of a package that an import accepts imports as that package.
pub proof fn lemma_export_imports(package: PackageView, seed: Seq<u8>, exported: Seq<u8>)
    requires
        package.metadata.well_formed(),
        hashable(package.library),
        digest_consistent(package),
        is_export_of(exported, package, seed),
    ensures
        imports_as(exported, ed25519_public(seed), package),
{
    assert forall|strict: bool| #[trigger]
        import_outcome(exported, ed25519_public(seed), strict) == Ok::<PackageView, ErrorView>(
            package,
        ) by {
        lemma_import_of_consistent(package, seed, exported, strict);
    }
}

/// A package whose digest is not that of its library is refused as such,
/// once everything before the digest check has passed.
pub proof fn lemma_inconsistent_is_refused(exported: Seq<u8>, key: Seq<u8>, strict: bool)
    requires
        parse_envelope(exported) is Some,
        opened(parse_envelope(exported)->0) is Some,
        ed25519_accepts(
            key,
            opened(parse_envelope(exported)->0)->0,
            parse_envelope(exported)->0.signature,
        ),
        deserialized(opened(parse_envelope(exported)->0)->0, strict) is Ok,
        hashable(deserialized(opened(parse_envelope(exported)->0)->0, strict)->Ok_0.library),
        !digest_consistent(deserialized(opened(parse_envelope(exported)->0)->0, strict)->Ok_0),
    ensures
        import_outcome(exported, key, strict) == Err::<PackageView, ErrorView>(ErrorView::InvalidDigest),
{
}

/// Packing never trusts the digest it is given: metadata that differ only in
/// their digest pack to the same package, and so export to the same bytes.
pub proof fn lemma_pack_ignores_digest(
    first: MetadataView,
    second: MetadataView,
    library: Seq<u8>,
    signature: Option<Seq<u8>>,
)
    requires
        first.name == second.name,
        first.version == second.version,
        first.dependencies == second.dependencies,
    ensures
        packed(first, library) == packed(second, library),
        export_outcome(packed(first, library), signature) == export_outcome(
            packed(second, library),
            signature,
        ),
{
}

/// No silent success: an import succeeds only where the signature verifies
/// over the unpacked payload of the envelope and the digest in the metadata
/// is that of the library.
pub proof fn lemma_import_is_checked(exported: Seq<u8>, key: Seq<u8>, strict: bool)
    requires
        import_outcome(exported, key, strict) is Ok,
    ensures
        parse_envelope(exported) is Some,
        opened(parse_envelope(exported)->0) is Some,
        ed25519_accepts(
            key,
            opened(parse_envelope(exported)->0)->0,
            parse_envelope(exported)->0.signature,
        ),
        digest_consistent(import_outcome(exported, key, strict)->Ok_0),
        import_outcome(exported, key, strict)->Ok_0.metadata.well_formed(),
{
}

impl ExportAlgorithm {
    /// The number that stands for this algorithm in the envelope.
    pub fn tag(&self) -> (tag: u32)
        ensures
            tag == algorithm_tag(*self),
    {
        match self {
            ExportAlgorithm::Uncompressed => 0,
            ExportAlgorithm::Zstd => 1,
        }
    }
}

impl PackageExport {
    /// Writes the envelope.
    pub fn to_bytes(&self) -> (bytes: Vec<u8>)
        ensures
            bytes@ == envelope_bytes(self@),
    {
        let mut out: Vec<u8> = Vec::new();
        put_u32(&mut out, self.alog.tag());
        put_frame(&mut out, self.payload.as_slice());
        put_bytes(&mut out, self.signature.bytes.as_slice());
        assert(out@ =~= envelope_bytes(self@));
        out
    }

    /// Reads an envelope; gives nothing where the bytes are not one.
    pub fn from_bytes(bytes: &[u8]) -> (r: Option<PackageExport>)
        ensures
            match parse_envelope(bytes@) {
                Some(envelope) => r is Some && r->0@ == envelope,
                None => r is None,
            },
    {
        assert(bytes@.skip(0) =~= bytes@);
        let Some((tag, at1)) = read_u32(bytes, 0) else {
            return None;
        };
        if tag > 1 {
            return None;
        }
        let Some((payload, at2)) = read_frame(bytes, at1) else {
            return None;
        };
        let Some((signature, _)) = read_bytes(bytes, at2, 64) else {
            return None;
        };
        let mut sig: [u8; 64] = [0u8; 64];
        let mut i: usize = 0;
        while i < 64
            invariant
                i <= 64,
                signature@.len() == 64,
                forall|k: int| 0 <= k < i ==> sig@[k] == signature@[k],
            decreases 64 - i,
        {
            sig[i] = signature[i];
            i += 1;
        }
        assert(sig@ =~= signature@);
        let alog = if tag == 0 {
            ExportAlgorithm::Uncompressed
        } else {
            ExportAlgorithm::Zstd
        };
        Some(PackageExport { alog, payload: slice_to_vec(payload), signature: Signature { bytes: sig } })
    }

    /// Unpacks the payload; gives nothing where it cannot be decompressed.
    pub fn open(&self) -> (record: Option<Vec<u8>>)
        ensures
            match opened(self@) {
                Some(bytes) => record is Some && record->0@ == bytes,
                None => record is None,
            },
    {
        match self.alog {
            ExportAlgorithm::Uncompressed => Some(slice_to_vec(self.payload.as_slice())),
            ExportAlgorithm::Zstd => zstd_decode(self.payload.as_slice()),
        }
    }
}

impl Package {
    /// Packs `library` with `metadata`. Whatever digest the metadata held is
    /// replaced by the digest of the library, in lower-case hexadecimal.
    pub fn new(metadata: PackageMetadata, library: Vec<u8>) -> (package: Package)
        requires
            hashable(library@),
        ensures
            package@ == packed(metadata@, library@),
            digest_consistent(package@),
    {
        let mut this = Package { metadata, library };
        let computed = this.digest();
        this.metadata.digest = hex_encode(computed.as_slice());
        proof {
            lemma_packed_is_consistent(metadata@, library@);
        }
        this
    }

    /// The name of the file that the exported package is written to: the
    /// package's name with the package extension.
    pub fn file_name(&self) -> (name: String)
        ensures
            name@ == package_file_name(self.metadata.name@),
    {
        let mut name = String::from_str(self.metadata.name.as_str());
        name.append(".");
        name.append(PACKAGE_EXTENSION);
        name
    }

    /// The digest of the library.
    pub fn digest(&self) -> (out: [u8; 64])
        requires
            hashable(self.library@),
        ensures
            out@ == blake512(self.library@),
    {
        digest(self.library.as_slice())
    }

    /// Whether the digest in the metadata is the digest of the library.
    pub fn digest_check(&self) -> (ok: bool)
        requires
            hashable(self.library@),
        ensures
            ok == digest_consistent(self@),
    {
        match hex_decode(self.metadata.digest.as_str()) {
            Some(provided) => {
                let computed = self.digest();
                same_bytes(provided.as_slice(), computed.as_slice())
            },
            None => false,
        }
    }

    /// Serializes the package: the two version stamps, the metadata in its
    /// text form, and the library, each behind its length.
    pub fn serialize(&self) -> (bytes: Vec<u8>)
        ensures
            bytes@ == serialized(self@),
            record_fits(package_record(self@)),
    {
        let mut out: Vec<u8> = Vec::new();
        let text = self.metadata.to_text();
        let bincode_version = BINCODE_VERSION.as_bytes();
        let abi_stable_version = ABI_STABLE_VERSION.as_bytes();
        assert(bincode_version.len() <= u64::MAX && abi_stable_version.len() <= u64::MAX
            && text.len() <= u64::MAX && self.library.len() <= u64::MAX);
        put_frame(&mut out, bincode_version);
        put_frame(&mut out, abi_stable_version);
        put_frame(&mut out, text.as_slice());
        put_frame(&mut out, self.library.as_slice());
        assert(out@ =~= serialized(self@));
        out
    }

    /// Reads a serialized package. Under `strict`, version stamps other than
    /// this library's are refused; otherwise they are tolerated.
    pub fn deserialize(bytes: &[u8], strict: bool) -> (r: Result<Package, Error>)
        ensures
            match deserialized(bytes@, strict) {
                Ok(package) => r is Ok && r->Ok_0@ == package,
                Err(e) => r is Err && r->Err_0@ == e,
            },
    {
        match Package::deserialize_noting_stamps(bytes, strict) {
            Ok((package, _)) => Ok(package),
            Err(e) => Err(e),
        }
    }

    /// Reads a serialized package as [`Package::deserialize`] does, and says
    /// beside the package whether its stamps were foreign, so that a caller
    /// who tolerates them can still warn of them.
    pub fn deserialize_noting_stamps(bytes: &[u8], strict: bool) -> (r: Result<
        (Package, bool),
        Error,
    >)
        ensures
            match deserialized(bytes@, strict) {
                Ok(package) => r is Ok && r->Ok_0.0@ == package && r->Ok_0.1 == foreign_stamps(
                    bytes@,
                ),
                Err(e) => r is Err && r->Err_0@ == e,
            },
    {
        assert(bytes@.skip(0) =~= bytes@);
        let Some((bincode_version, at1)) = read_stamp(bytes, 0) else {
            return Err(Error::Format);
        };
        let Some((abi_stable_version, at2)) = read_stamp(bytes, at1) else {
            return Err(Error::Format);
        };
        let Some((text, at3)) = read_frame(bytes, at2) else {
            return Err(Error::Format);
        };
        let Some((library, _)) = read_frame(bytes, at3) else {
            return Err(Error::Format);
        };
        let format_matches = same_text(&bincode_version, BINCODE_VERSION);
        let framework_matches = same_text(&abi_stable_version, ABI_STABLE_VERSION);
        if strict && !format_matches {
            return Err(
                Error::VersionStamp {
                    stamp: Stamp::Format,
                    expected: BINCODE_VERSION.to_owned(),
                    received: bincode_version,
                },
            );
        }
        if strict && !framework_matches {
            return Err(
                Error::VersionStamp {
                    stamp: Stamp::Framework,
                    expected: ABI_STABLE_VERSION.to_owned(),
                    received: abi_stable_version,
                },
            );
        }
        let foreign = !(format_matches && framework_matches);
        let Some(metadata) = PackageMetadata::from_text(text) else {
            return Err(Error::Format);
        };
        if !metadata.is_well_formed() {
            return Err(Error::Format);
        }
        Ok((Package { metadata, library: slice_to_vec(library) }, foreign))
    }

    /// Exports the package: serializes it, signs the serialized bytes,
    /// compresses them, and wraps the result in an envelope. It fails only
    /// where compression does. The bytes are fixed by the package and the
    /// key, and they import again, under the signer's public key, to this
    /// package, provided the package is one that an import accepts at all.
    pub fn export(&self, signer: &SigningKey) -> (r: Result<Vec<u8>, Error>)
        ensures
            match export_outcome(
                self@,
                Some(ed25519_signature(signer.seed@, serialized(self@))),
            ) {
                Ok(bytes) => r is Ok && r->Ok_0@ == bytes,
                Err(e) => r is Err && r->Err_0@ == e,
            },
            r is Ok ==> is_export_of(r->Ok_0@, self@, signer.seed@),
            r is Ok && self@.metadata.well_formed() && hashable(self.library@) && digest_consistent(
                self@,
            ) ==> imports_as(r->Ok_0@, ed25519_public(signer.seed@), self@),
    {
        let record = self.serialize();
        let signature = signer.sign(record.as_slice());
        let r = seal(record.as_slice(), Some(signature));
        proof {
            if r is Ok {
                lemma_export_is_export(
                    r->Ok_0@,
                    self@,
                    signer.seed@,
                    zstd_encoded(serialized(self@))->0,
                );
                if self@.metadata.well_formed() && hashable(self.library@) && digest_consistent(
                    self@,
                ) {
                    lemma_export_imports(self@, signer.seed@, r->Ok_0@);
                }
            }
        }
        r
    }

    /// Exports the package with a signature that was made elsewhere over
    /// [`Package::serialize`], or with the news that the signer gave none.
    /// Without a signature nothing is compressed and the error is a signature
    /// error.
    pub fn export_signed(&self, signature: Option<Signature>) -> (r: Result<Vec<u8>, Error>)
        ensures
            match export_outcome(self@, signature_view(signature)) {
                Ok(bytes) => r is Ok && r->Ok_0@ == bytes,
                Err(e) => r is Err && r->Err_0@ == e,
            },
    {
        let record = self.serialize();
        seal(record.as_slice(), signature)
    }

    /// Imports a package, tolerating foreign version stamps.
    pub fn import(exported: &[u8], verifier: &VerifyingKey) -> (r: Result<Package, Error>)
        ensures
            match import_outcome(exported@, verifier@, false) {
                Ok(package) => r is Ok && r->Ok_0@ == package,
                Err(e) => r is Err && r->Err_0@ == e,
            },
    {
        Package::import_with(exported, verifier, false)
    }

    /// Imports a package, refusing foreign version stamps.
    pub fn import_strict(exported: &[u8], verifier: &VerifyingKey) -> (r: Result<Package, Error>)
        ensures
            match import_outcome(exported@, verifier@, true) {
                Ok(package) => r is Ok && r->Ok_0@ == package,
                Err(e) => r is Err && r->Err_0@ == e,
            },
    {
        Package::import_with(exported, verifier, true)
    }

    /// Imports a package: reads the envelope, unpacks the payload, verifies
    /// the signature over the unpacked payload, reads the package from it and
    /// checks its digest, in this order. Nothing of the package is read
    /// before the signature has been verified.
    pub fn import_with(exported: &[u8], verifier: &VerifyingKey, strict: bool) -> (r: Result<
        Package,
        Error,
    >)
        ensures
            match import_outcome(exported@, verifier@, strict) {
                Ok(package) => r is Ok && r->Ok_0@ == package,
                Err(e) => r is Err && r->Err_0@ == e,
            },
    {
        match Package::import_noting_stamps(exported, verifier, strict) {
            Ok((package, _)) => Ok(package),
            Err(e) => Err(e),
        }
    }

    /// Imports a package as [`Package::import_with`] does, and says beside
    /// the package whether its stamps were foreign.
    pub fn import_noting_stamps(exported: &[u8], verifier: &VerifyingKey, strict: bool) -> (r:
        Result<(Package, bool), Error>)
        ensures
            match import_outcome(exported@, verifier@, strict) {
                Ok(package) => r is Ok && r->Ok_0.0@ == package && r->Ok_0.1
                    == import_foreign_stamps(exported@),
                Err(e) => r is Err && r->Err_0@ == e,
            },
    {
        let Some(envelope) = PackageExport::from_bytes(exported) else {
            return Err(Error::Format);
        };
        let Some(record) = envelope.open() else {
            return Err(Error::Compression);
        };
        if !verifier.verify(record.as_slice(), &envelope.signature) {
            return Err(Error::Signature);
        }
        let (package, foreign) = match Package::deserialize_noting_stamps(
            record.as_slice(),
            strict,
        ) {
            Ok(found) => found,
            Err(e) => {
                return Err(e);
            },
        };
        if package.library.len() as u64 > MAX_DIGEST_INPUT {
            return Err(Error::Format);
        }
        if package.digest_check() {
            Ok((package, foreign))
        } else {
            Err(Error::InvalidDigest)
        }
    }
}

/// Wraps a serialized package in its envelope: compressed, with the
/// signature that was made over it as it stands.
fn seal(record: &[u8], signature: Option<Signature>) -> (r: Result<Vec<u8>, Error>)
    ensures
        match sealed(record@, signature_view(signature)) {
            Ok(bytes) => r is Ok && r->Ok_0@ == bytes,
            Err(e) => r is Err && r->Err_0@ == e,
        },
        r is Ok ==> zstd_decoded(zstd_encoded(record@)->0) == Some(record@) && zstd_encoded(
            record@,
        )->0.len() <= u64::MAX,
{
    let Some(signature) = signature else {
        return Err(Error::Signature);
    };
    match zstd_encode(record) {
        None => Err(Error::Compression),
        Some(compressed) => {
            assert(compressed.len() <= u64::MAX);
            let envelope = PackageExport {
                alog: ExportAlgorithm::Zstd,
                payload: compressed,
                signature,
            };
            Ok(envelope.to_bytes())
        },
    }
}

/// Reads one length-prefixed string at `at`.
fn read_stamp(input: &[u8], at: usize) -> (r: Option<(String, usize)>)
    requires
        at <= input@.len(),
    ensures
        match take_text_frame(input@.skip(at as int)) {
            Some((chars, rest)) => r matches Some((text, next)) && text@ == chars && at < next
                && next <= input@.len() && rest == input@.skip(next as int),
            None => r is None,
        },
{
    match read_frame(input, at) {
        None => None,
        Some((body, next)) => match string_from_utf8(slice_to_vec(body)) {
            None => None,
            Some(text) => Some((text, next)),
        },
    }
}

/// Whether `text` holds the characters of `expected`.
fn same_text(text: &String, expected: &str) -> (same: bool)
    ensures
        same == (text@ == expected@),
{
    let same = same_bytes(text.as_str().as_bytes(), expected.as_bytes());
    proof {
        encode_utf8_decode_utf8(text@);
        encode_utf8_decode_utf8(expected@);
    }
    same
}

} // verus!
