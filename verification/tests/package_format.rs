use comet_plugin::metadata::{DependencySpec, PackageMetadata};
use comet_plugin::package::{
    Error, ExportAlgorithm, Package, PackageExport, Stamp, ABI_STABLE_VERSION, BINCODE_VERSION,
};
use comet_plugin::signature::{Signature, SigningKey, VerifyingKey};

fn sample_metadata() -> PackageMetadata {
    PackageMetadata {
        name: String::from("sample"),
        digest: String::new(),
        version: String::from("1.0.0"),
        dependencies: Vec::new(),
    }
}

fn key(fill: u8) -> SigningKey {
    SigningKey::from_bytes([fill; 32])
}

/// The error that a strict reader gives for these two stamps.
fn stamp_error(bincode_version: &str, abi_stable_version: &str) -> Error {
    if bincode_version != "1.3.3" {
        Error::VersionStamp {
            stamp: Stamp::Format,
            expected: String::from("1.3.3"),
            received: bincode_version.to_string(),
        }
    } else {
        Error::VersionStamp {
            stamp: Stamp::Framework,
            expected: String::from("0.11.3"),
            received: abi_stable_version.to_string(),
        }
    }
}

#[test]
fn new_writes_the_digest_of_the_library_in_lower_case_hex() {
    let package = Package::new(sample_metadata(), b"PLUGIN_V1".to_vec());
    let mut expected = [0u8; 64];
    blake::hash(512, b"PLUGIN_V1", &mut expected).unwrap();
    assert_eq!(package.metadata.digest, hex::encode(expected));
    assert_eq!(package.metadata.digest.len(), 128);
    assert_eq!(package.metadata.digest, package.metadata.digest.to_lowercase());
    assert_eq!(package.metadata.name, "sample");
    assert_eq!(package.metadata.version, "1.0.0");
    assert_eq!(package.library, b"PLUGIN_V1".to_vec());
    assert!(package.digest_check());
}

#[test]
fn a_package_file_is_named_after_the_package() {
    let package = Package::new(sample_metadata(), Vec::new());
    assert_eq!(package.file_name(), "sample.cdp");
    let mut metadata = sample_metadata();
    metadata.name = String::new();
    assert_eq!(Package::new(metadata, Vec::new()).file_name(), ".cdp");
}

#[test]
fn new_replaces_a_digest_that_was_given() {
    let mut metadata = sample_metadata();
    metadata.digest = String::from("00ff");
    let package = Package::new(metadata, vec![1, 2, 3]);
    assert_eq!(package.metadata.digest, hex::encode(package.digest()));
}

#[test]
fn digest_of_the_empty_library_is_the_published_value() {
    let package = Package::new(sample_metadata(), Vec::new());
    assert_eq!(
        package.metadata.digest,
        "a8cfbbd73726062df0c6864dda65defe58ef0cc52a5625090fa17601e1eecd1b\
         628e94f396ae402a00acc9eab77b4d4c2e852aaaa25a636d80af3fc7913ef5b8"
    );
}

#[test]
fn digest_check_accepts_upper_case_and_rejects_anything_else() {
    let mut package = Package::new(sample_metadata(), b"PLUGIN_V1".to_vec());
    let good = package.metadata.digest.clone();
    package.metadata.digest = good.to_uppercase();
    assert!(package.digest_check());
    package.metadata.digest = String::from("not hex at all");
    assert!(!package.digest_check());
    package.metadata.digest = good[..126].to_string();
    assert!(!package.digest_check());
    package.metadata.digest = format!("{}0", &good[..127]);
    assert_eq!(package.digest_check(), good.ends_with('0'));
    package.metadata.digest = String::new();
    assert!(!package.digest_check());
    package.metadata.digest = good;
    package.library.push(0);
    assert!(!package.digest_check());
}

#[test]
fn serialize_is_what_bincode_writes_for_the_four_fields() {
    let mut metadata = sample_metadata();
    metadata.dependencies.push(DependencySpec {
        name: String::from("core"),
        version: String::from("^1.2"),
    });
    let package = Package::new(metadata, vec![0, 1, 2, 254, 255]);
    let text = String::from_utf8(package.metadata.to_text()).unwrap();
    let expected = bincode::serialize(&(
        BINCODE_VERSION,
        ABI_STABLE_VERSION,
        text.as_str(),
        package.library.clone(),
    ))
    .unwrap();
    assert_eq!(package.serialize(), expected);
    let back: (String, String, String, Vec<u8>) =
        bincode::deserialize(&package.serialize()).unwrap();
    assert_eq!(back.0, "1.3.3");
    assert_eq!(back.1, "0.11.3");
    assert_eq!(back.2, text);
    assert_eq!(back.3, vec![0, 1, 2, 254, 255]);
}

#[test]
fn serialize_has_the_exact_layout() {
    let package = Package {
        metadata: PackageMetadata {
            name: String::from("a"),
            digest: String::from("d"),
            version: String::from("1.0.0"),
            dependencies: Vec::new(),
        },
        library: vec![7, 8],
    };
    let text = br#"{"name":"a","digest":"d","version":"1.0.0","dependencies":[]}"#;
    let mut expected: Vec<u8> = Vec::new();
    expected.extend_from_slice(&[5, 0, 0, 0, 0, 0, 0, 0]);
    expected.extend_from_slice(b"1.3.3");
    expected.extend_from_slice(&[6, 0, 0, 0, 0, 0, 0, 0]);
    expected.extend_from_slice(b"0.11.3");
    expected.extend_from_slice(&[text.len() as u8, 0, 0, 0, 0, 0, 0, 0]);
    expected.extend_from_slice(text);
    expected.extend_from_slice(&[2, 0, 0, 0, 0, 0, 0, 0, 7, 8]);
    assert_eq!(package.serialize(), expected);
}

#[test]
fn deserialize_reads_back_what_serialize_wrote() {
    let package = Package::new(sample_metadata(), b"PLUGIN_V1".to_vec());
    for strict in [false, true] {
        let back = Package::deserialize(&package.serialize(), strict).unwrap();
        assert_eq!(back.metadata.name, "sample");
        assert_eq!(back.metadata.version, "1.0.0");
        assert_eq!(back.metadata.digest, package.metadata.digest);
        assert!(back.metadata.dependencies.is_empty());
        assert_eq!(back.library, b"PLUGIN_V1".to_vec());
    }
}

fn record_with_stamps(bincode_version: &str, abi_stable_version: &str) -> Vec<u8> {
    let package = Package::new(sample_metadata(), b"PLUGIN_V1".to_vec());
    let text = String::from_utf8(package.metadata.to_text()).unwrap();
    bincode::serialize(&(bincode_version, abi_stable_version, text, package.library)).unwrap()
}

#[test]
fn foreign_stamps_are_refused_only_when_strict() {
    for (a, b) in [("1.3.2", "0.11.3"), ("1.3.3", "0.10.0"), ("", "")] {
        let record = record_with_stamps(a, b);
        assert!(Package::deserialize(&record, false).is_ok());
        assert_eq!(Package::deserialize(&record, true).unwrap_err(), stamp_error(a, b));
    }
    let own = record_with_stamps("1.3.3", "0.11.3");
    assert!(Package::deserialize(&own, true).is_ok());
}

#[test]
fn foreign_stamps_are_noted_beside_the_package() {
    let own = record_with_stamps("1.3.3", "0.11.3");
    let (package, foreign) = Package::deserialize_noting_stamps(&own, true).unwrap();
    assert!(!foreign);
    assert_eq!(package.library, b"PLUGIN_V1".to_vec());
    for (a, b) in [("1.3.2", "0.11.3"), ("1.3.3", "0.11.4"), ("1.3.3 ", "0.11.3")] {
        let record = record_with_stamps(a, b);
        let (package, foreign) = Package::deserialize_noting_stamps(&record, false).unwrap();
        assert!(foreign);
        assert_eq!(package.library, b"PLUGIN_V1".to_vec());
        assert_eq!(
            Package::deserialize_noting_stamps(&record, true).unwrap_err(),
            stamp_error(a, b)
        );
    }
    let signer = key(3);
    let record = record_with_stamps("2.0.0", "0.11.3");
    let envelope = PackageExport {
        alog: ExportAlgorithm::Uncompressed,
        payload: record.clone(),
        signature: signer.sign(&record),
    };
    let (_, foreign) =
        Package::import_noting_stamps(&envelope.to_bytes(), &signer.verifying_key(), false)
            .unwrap();
    assert!(foreign);
    let exported = Package::new(sample_metadata(), vec![1]).export(&signer).unwrap();
    let (_, foreign) =
        Package::import_noting_stamps(&exported, &signer.verifying_key(), false).unwrap();
    assert!(!foreign);
}

#[test]
fn a_foreign_stamp_is_checked_before_the_metadata_is_read() {
    let bad = bincode::serialize(&("0.0.0", "0.11.3", "{}", vec![1u8])).unwrap();
    assert_eq!(
        Package::deserialize(&bad, true).unwrap_err(),
        Error::VersionStamp {
            stamp: Stamp::Format,
            expected: String::from("1.3.3"),
            received: String::from("0.0.0"),
        }
    );
    assert_eq!(Package::deserialize(&bad, false).unwrap_err(), Error::Format);
}

#[test]
fn deserialize_refuses_malformed_records() {
    let good = record_with_stamps("1.3.3", "0.11.3");
    assert_eq!(Package::deserialize(&[], false).unwrap_err(), Error::Format);
    assert_eq!(Package::deserialize(&good[..good.len() - 1], false).unwrap_err(), Error::Format);
    assert_eq!(Package::deserialize(&good[..7], false).unwrap_err(), Error::Format);
    // A stamp that is not UTF-8.
    let mut bad = good.clone();
    bad[8] = 0xff;
    assert_eq!(Package::deserialize(&bad, false).unwrap_err(), Error::Format);
    // A length that runs past the end.
    let mut bad = good.clone();
    bad[7] = 0x7f;
    assert_eq!(Package::deserialize(&bad, false).unwrap_err(), Error::Format);
    // Metadata that is not of the text form.
    let bad = bincode::serialize(&("1.3.3", "0.11.3", "{}", vec![1u8])).unwrap();
    assert_eq!(Package::deserialize(&bad, false).unwrap_err(), Error::Format);
    // A version that is no semantic version.
    let text = r#"{"name":"a","digest":"","version":"1.0","dependencies":[]}"#;
    let bad = bincode::serialize(&("1.3.3", "0.11.3", text, vec![1u8])).unwrap();
    assert_eq!(Package::deserialize(&bad, false).unwrap_err(), Error::Format);
    // A dependency whose requirement is no requirement.
    let text = r#"{"name":"a","digest":"","version":"1.0.0","dependencies":[{"name":"b","version":"@1"}]}"#;
    let bad = bincode::serialize(&("1.3.3", "0.11.3", text, vec![1u8])).unwrap();
    assert_eq!(Package::deserialize(&bad, false).unwrap_err(), Error::Format);
    // Bytes behind the library are ignored.
    let mut long = good.clone();
    long.extend_from_slice(&[1, 2, 3]);
    assert!(Package::deserialize(&long, false).is_ok());
}

#[test]
fn envelope_is_what_bincode_writes() {
    let envelope = PackageExport {
        alog: ExportAlgorithm::Zstd,
        payload: vec![9, 8, 7],
        signature: Signature { bytes: [0xab; 64] },
    };
    let mut expected = bincode::serialize(&(1u32, vec![9u8, 8, 7])).unwrap();
    expected.extend_from_slice(&[0xab; 64]);
    assert_eq!(envelope.to_bytes(), expected);
    assert_eq!(&expected[..4], &[1, 0, 0, 0]);
    assert_eq!(&expected[4..12], &[3, 0, 0, 0, 0, 0, 0, 0]);

    let plain = PackageExport {
        alog: ExportAlgorithm::Uncompressed,
        payload: Vec::new(),
        signature: Signature { bytes: [1; 64] },
    };
    let bytes = plain.to_bytes();
    assert_eq!(bytes.len(), 4 + 8 + 64);
    assert_eq!(&bytes[..4], &[0, 0, 0, 0]);
    assert_eq!(ExportAlgorithm::Uncompressed.tag(), 0);
    assert_eq!(ExportAlgorithm::Zstd.tag(), 1);
}

#[test]
fn envelope_reads_back_and_refuses_what_is_none() {
    let envelope = PackageExport {
        alog: ExportAlgorithm::Zstd,
        payload: vec![9, 8, 7],
        signature: Signature { bytes: [0xab; 64] },
    };
    let bytes = envelope.to_bytes();
    let back = PackageExport::from_bytes(&bytes).unwrap();
    assert_eq!(back.alog, ExportAlgorithm::Zstd);
    assert_eq!(back.payload, vec![9, 8, 7]);
    assert_eq!(back.signature.bytes, [0xab; 64]);
    assert!(PackageExport::from_bytes(&bytes[..bytes.len() - 1]).is_none());
    assert!(PackageExport::from_bytes(&[]).is_none());
    let mut unknown = bytes.clone();
    unknown[0] = 2;
    assert!(PackageExport::from_bytes(&unknown).is_none());
    let mut long = bytes.clone();
    long.push(0);
    assert!(PackageExport::from_bytes(&long).is_some());
}

#[test]
fn open_unpacks_by_algorithm() {
    let data = b"some bytes some bytes some bytes".to_vec();
    let plain = PackageExport {
        alog: ExportAlgorithm::Uncompressed,
        payload: data.clone(),
        signature: Signature { bytes: [0; 64] },
    };
    assert_eq!(plain.open(), Some(data.clone()));
    let packed = PackageExport {
        alog: ExportAlgorithm::Zstd,
        payload: zstd::encode_all(data.as_slice(), 3).unwrap(),
        signature: Signature { bytes: [0; 64] },
    };
    assert_ne!(packed.payload, data);
    assert_eq!(packed.open(), Some(data.clone()));
    let broken = PackageExport {
        alog: ExportAlgorithm::Zstd,
        payload: data,
        signature: Signature { bytes: [0; 64] },
    };
    assert_eq!(broken.open(), None);
}

#[test]
fn export_makes_a_signed_zstd_envelope_of_the_serialized_package() {
    let package = Package::new(sample_metadata(), b"PLUGIN_V1".to_vec());
    let signer = key(7);
    let exported = package.export(&signer).unwrap();
    let envelope = PackageExport::from_bytes(&exported).unwrap();
    assert_eq!(envelope.alog, ExportAlgorithm::Zstd);
    assert_eq!(zstd::decode_all(envelope.payload.as_slice()).unwrap(), package.serialize());
    assert_ne!(envelope.payload, package.serialize());
    assert_eq!(envelope.signature.bytes, signer.sign(&package.serialize()).bytes);
    assert!(signer.verifying_key().verify(&package.serialize(), &envelope.signature));
    assert_eq!(envelope.to_bytes(), exported);
}

#[test]
fn import_gives_back_what_was_exported() {
    let mut metadata = sample_metadata();
    metadata.name = String::from("na\"me\\ with \n control \u{1} and \u{e9}\u{4e16}\u{1f600}");
    metadata.dependencies.push(DependencySpec {
        name: String::from("first"),
        version: String::from(">=1.2.3, <2"),
    });
    metadata.dependencies.push(DependencySpec {
        name: String::from("second"),
        version: String::from("*"),
    });
    let library: Vec<u8> = (0..=255u8).cycle().take(5000).collect();
    let package = Package::new(metadata, library.clone());
    let signer = key(42);
    let exported = package.export(&signer).unwrap();
    for imported in [
        Package::import(&exported, &signer.verifying_key()).unwrap(),
        Package::import_strict(&exported, &signer.verifying_key()).unwrap(),
        Package::import_with(&exported, &signer.verifying_key(), true).unwrap(),
    ] {
        assert_eq!(imported.metadata.name, package.metadata.name);
        assert_eq!(imported.metadata.digest, package.metadata.digest);
        assert_eq!(imported.metadata.version, "1.0.0");
        assert_eq!(imported.metadata.dependencies.len(), 2);
        assert_eq!(imported.metadata.dependencies[0].name, "first");
        assert_eq!(imported.metadata.dependencies[0].version, ">=1.2.3, <2");
        assert_eq!(imported.metadata.dependencies[1].name, "second");
        assert_eq!(imported.metadata.dependencies[1].version, "*");
        assert_eq!(imported.library, library);
    }
}

#[test]
fn end_to_end_sample_package() {
    let package = Package::new(sample_metadata(), b"PLUGIN_V1".to_vec());
    let k = key(1);
    let other = key(2);
    let exported = package.export(&k).unwrap();
    let imported = Package::import(&exported, &k.verifying_key()).unwrap();
    assert_eq!(imported.library, b"PLUGIN_V1".to_vec());
    assert_eq!(imported.metadata.name, "sample");
    assert_eq!(imported.metadata.version, "1.0.0");
    assert_eq!(
        Package::import(&exported, &other.verifying_key()).unwrap_err(),
        Error::Signature
    );
}

#[test]
fn import_reports_each_failure_by_its_stage() {
    let package = Package::new(sample_metadata(), b"PLUGIN_V1".to_vec());
    let signer = key(3);
    let public = signer.verifying_key();
    let record = package.serialize();

    // Not an envelope.
    assert_eq!(Package::import(b"junk", &public).unwrap_err(), Error::Format);
    assert_eq!(Package::import(&[], &public).unwrap_err(), Error::Format);

    // A payload that is said to be compressed and is not.
    let envelope = PackageExport {
        alog: ExportAlgorithm::Zstd,
        payload: record.clone(),
        signature: signer.sign(&record),
    };
    assert_eq!(Package::import(&envelope.to_bytes(), &public).unwrap_err(), Error::Compression);

    // A payload stored as it is imports too.
    let envelope = PackageExport {
        alog: ExportAlgorithm::Uncompressed,
        payload: record.clone(),
        signature: signer.sign(&record),
    };
    assert!(Package::import(&envelope.to_bytes(), &public).is_ok());

    // A signature over something else.
    let envelope = PackageExport {
        alog: ExportAlgorithm::Uncompressed,
        payload: record.clone(),
        signature: signer.sign(b"something else"),
    };
    assert_eq!(Package::import(&envelope.to_bytes(), &public).unwrap_err(), Error::Signature);

    // Bytes that are no key verify nothing.
    let envelope = PackageExport {
        alog: ExportAlgorithm::Uncompressed,
        payload: record.clone(),
        signature: signer.sign(&record),
    };
    let no_key = VerifyingKey::from_bytes([2; 32]);
    assert_eq!(Package::import(&envelope.to_bytes(), &no_key).unwrap_err(), Error::Signature);

    // The signature is checked before the payload is read: a signed payload
    // that is no package is a format error, an unsigned one a signature error.
    let envelope = PackageExport {
        alog: ExportAlgorithm::Uncompressed,
        payload: b"no package".to_vec(),
        signature: signer.sign(b"no package"),
    };
    assert_eq!(Package::import(&envelope.to_bytes(), &public).unwrap_err(), Error::Format);
    let envelope = PackageExport {
        alog: ExportAlgorithm::Uncompressed,
        payload: b"no package".to_vec(),
        signature: Signature { bytes: [0; 64] },
    };
    assert_eq!(Package::import(&envelope.to_bytes(), &public).unwrap_err(), Error::Signature);

    // Foreign stamps, correctly signed.
    let foreign = record_with_stamps("2.0.0", "0.11.3");
    let envelope = PackageExport {
        alog: ExportAlgorithm::Uncompressed,
        payload: foreign.clone(),
        signature: signer.sign(&foreign),
    };
    assert!(Package::import(&envelope.to_bytes(), &public).is_ok());
    assert_eq!(
        Package::import_strict(&envelope.to_bytes(), &public).unwrap_err(),
        stamp_error("2.0.0", "0.11.3")
    );

    // A digest that is not the library's.
    let mut wrong = Package::new(sample_metadata(), b"PLUGIN_V1".to_vec());
    wrong.library = b"PLUGIN_V2".to_vec();
    let exported = wrong.export(&signer).unwrap();
    assert_eq!(Package::import(&exported, &public).unwrap_err(), Error::InvalidDigest);
}

#[test]
fn no_flipped_bit_imports_as_anything_else() {
    let package = Package::new(sample_metadata(), b"PLUGIN_V1".to_vec());
    let signer = key(9);
    let public = signer.verifying_key();
    let exported = package.export(&signer).unwrap();
    assert!(Package::import(&exported, &public).is_ok());
    let mut refused = 0;
    for at in 0..exported.len() {
        for bit in 0..8 {
            let mut tampered = exported.clone();
            tampered[at] ^= 1 << bit;
            match Package::import(&tampered, &public) {
                Err(_) => refused += 1,
                // A bit of the compressed frame that decompression does not
                // read leaves the signed bytes as they were.
                Ok(imported) => {
                    assert!(at >= 12 && at < exported.len() - 64, "byte {} bit {}", at, bit);
                    assert_eq!(imported.serialize(), package.serialize());
                    assert!(imported.digest_check());
                }
            }
        }
    }
    assert!(refused > exported.len() * 8 - 16);
}

#[test]
fn a_flipped_bit_in_tag_length_or_signature_is_refused() {
    let package = Package::new(sample_metadata(), b"PLUGIN_V1".to_vec());
    let signer = key(9);
    let public = signer.verifying_key();
    let exported = package.export(&signer).unwrap();
    let outside_payload = (0..12).chain(exported.len() - 64..exported.len());
    for at in outside_payload {
        for bit in 0..8 {
            let mut tampered = exported.clone();
            tampered[at] ^= 1 << bit;
            assert!(Package::import(&tampered, &public).is_err(), "byte {} bit {}", at, bit);
        }
    }
}

#[test]
fn a_flipped_bit_in_the_record_is_a_signature_error() {
    let package = Package::new(sample_metadata(), b"PLUGIN_V1".to_vec());
    let signer = key(9);
    let record = package.serialize();
    let signature = signer.sign(&record);
    for at in [0, 8, record.len() / 2, record.len() - 1] {
        let mut tampered = record.clone();
        tampered[at] ^= 0x10;
        let envelope = PackageExport {
            alog: ExportAlgorithm::Uncompressed,
            payload: tampered,
            signature,
        };
        assert_eq!(
            Package::import(&envelope.to_bytes(), &signer.verifying_key()).unwrap_err(),
            Error::Signature
        );
    }
}

#[test]
fn a_strict_reader_names_the_stamp_and_both_values() {
    let both = record_with_stamps("9.9.9", "8.8.8");
    assert_eq!(
        Package::deserialize(&both, true).unwrap_err(),
        Error::VersionStamp {
            stamp: Stamp::Format,
            expected: String::from(BINCODE_VERSION),
            received: String::from("9.9.9"),
        }
    );
    let framework = record_with_stamps("1.3.3", "8.8.8");
    assert_eq!(
        Package::deserialize(&framework, true).unwrap_err(),
        Error::VersionStamp {
            stamp: Stamp::Framework,
            expected: String::from(ABI_STABLE_VERSION),
            received: String::from("8.8.8"),
        }
    );
    assert!(Package::deserialize(&both, false).is_ok());
    assert!(Package::deserialize(&framework, false).is_ok());
}

#[test]
fn metadata_with_only_name_and_version_is_read_with_defaults() {
    let bytes = bincode::serialize(&(
        "0.0.0",
        "0.0.0",
        r#"{"name":"sample","version":"1.0.0"}"#,
        vec![1u8, 2, 3],
    ))
    .unwrap();
    let package = Package::deserialize(&bytes, false).unwrap();
    assert_eq!(package.metadata.name, "sample");
    assert_eq!(package.metadata.version, "1.0.0");
    assert_eq!(package.metadata.digest, "");
    assert!(package.metadata.dependencies.is_empty());
    assert_eq!(package.library, vec![1u8, 2, 3]);
    assert!(matches!(
        Package::deserialize(&bytes, true),
        Err(Error::VersionStamp { stamp: Stamp::Format, .. })
    ));
}

#[test]
fn metadata_is_read_in_any_order_and_with_white_space() {
    let text = "\n {\t\"version\" : \"2.1.0\" ,\r\n \"dependencies\":[ { \"version\":\"^1\", \"name\":\"core\" } ] , \"n\\u0061me\": \"s\\u00e9\\ud83d\\ude00\" }\n";
    let bytes = bincode::serialize(&("1.3.3", "0.11.3", text, vec![9u8])).unwrap();
    let package = Package::deserialize(&bytes, true).unwrap();
    assert_eq!(package.metadata.name, "s\u{e9}\u{1f600}");
    assert_eq!(package.metadata.version, "2.1.0");
    assert_eq!(package.metadata.digest, "");
    assert_eq!(package.metadata.dependencies.len(), 1);
    assert_eq!(package.metadata.dependencies[0].name, "core");
    assert_eq!(package.metadata.dependencies[0].version, "^1");
}

#[test]
fn two_exports_of_one_package_under_one_key_are_the_same_bytes() {
    let package = Package::new(sample_metadata(), b"PLUGIN_V1".to_vec());
    let before = package.clone();
    let first = package.export(&key(4)).unwrap();
    let second = package.export(&key(4)).unwrap();
    assert_eq!(first, second);
    assert_eq!(package, before);
    assert!(package.digest_check());
    assert_ne!(first, package.export(&key(5)).unwrap());
}

#[test]
fn export_is_the_envelope_of_the_compressed_record_and_its_signature() {
    let package = Package::new(sample_metadata(), b"PLUGIN_V1".to_vec());
    let signer = key(4);
    let record = package.serialize();
    let expected = PackageExport {
        alog: ExportAlgorithm::Zstd,
        payload: zstd::encode_all(record.as_slice(), zstd::DEFAULT_COMPRESSION_LEVEL).unwrap(),
        signature: signer.sign(&record),
    }
    .to_bytes();
    assert_eq!(package.export(&signer), Ok(expected));
}

#[test]
fn packing_never_trusts_the_digest_it_is_given() {
    let signer = key(4);
    let mut exports = Vec::new();
    for digest in ["", "00", "not a digest", "ABCDEF"] {
        let mut metadata = sample_metadata();
        metadata.digest = digest.to_string();
        let package = Package::new(metadata, b"PLUGIN_V1".to_vec());
        assert_eq!(package.metadata.digest, hex::encode(package.digest()));
        exports.push(package.export(&signer).unwrap());
    }
    assert!(exports.iter().all(|e| *e == exports[0]));
}

#[test]
fn export_with_a_signature_made_elsewhere() {
    let package = Package::new(sample_metadata(), b"PLUGIN_V1".to_vec());
    let signer = key(4);
    let signature = signer.sign(&package.serialize());
    assert_eq!(package.export_signed(Some(signature)), package.export(&signer));
    assert!(Package::import(
        &package.export_signed(Some(signature)).unwrap(),
        &signer.verifying_key()
    )
    .is_ok());
    // A signer that gave nothing.
    assert_eq!(package.export_signed(None), Err(Error::Signature));
    // Any signature is wrapped as it is; whether it verifies is the
    // importer's matter.
    let other = key(5).sign(&package.serialize());
    let exported = package.export_signed(Some(other)).unwrap();
    assert_eq!(PackageExport::from_bytes(&exported).unwrap().signature, other);
    assert_eq!(
        Package::import(&exported, &signer.verifying_key()).unwrap_err(),
        Error::Signature
    );
}
