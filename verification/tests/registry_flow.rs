use comet_plugin::logger::ExternalLogger;
use comet_plugin::metadata::PackageMetadata;
use comet_plugin::package::{
    Error as PackageError, ExportAlgorithm, Package, PackageExport, Stamp,
};
use comet_plugin::registry::{
    Error, LoadedPlugin, Plugin, PluginManager, DEFAULT_API_REQUIREMENT, PLUGIN_ENTRY_SYMBOL,
};
use comet_plugin::signature::SigningKey;
use comet_plugin::staging::{staged_file_name, validate_file, Platform, TOKEN_LEN};
use comet_plugin::version::Version;
use std::sync::{Arc, Mutex};

type Events = Arc<Mutex<Vec<String>>>;

struct Library {
    id: u32,
    events: Events,
}

impl Drop for Library {
    fn drop(&mut self) {
        self.events.lock().unwrap().push(format!("unload library {}", self.id));
    }
}

struct Stub {
    id: u32,
    requirement: String,
    events: Events,
}

impl Plugin for Stub {
    fn name(&self) -> String {
        format!("stub{}", self.id)
    }

    fn api_version_require(&self) -> String {
        self.requirement.clone()
    }

    fn on_plugin_load(&self) {
        self.events.lock().unwrap().push(format!("loaded {}", self.id));
    }

    fn on_plugin_unload(&self) {
        self.events.lock().unwrap().push(format!("unloading {}", self.id));
    }
}

impl Drop for Stub {
    fn drop(&mut self) {
        self.events.lock().unwrap().push(format!("destroy instance {}", self.id));
    }
}

struct Quiet;

impl Plugin for Quiet {
    fn name(&self) -> String {
        String::from("quiet")
    }
}

fn pair(id: u32, requirement: &str, events: &Events) -> (Library, Stub) {
    (
        Library { id, events: events.clone() },
        Stub { id, requirement: requirement.to_string(), events: events.clone() },
    )
}

fn exported_sample(signer: &SigningKey) -> Vec<u8> {
    let metadata = PackageMetadata {
        name: String::from("sample"),
        digest: String::new(),
        version: String::from("1.0.0"),
        dependencies: Vec::new(),
    };
    Package::new(metadata, b"PLUGIN_V1".to_vec()).export(signer).unwrap()
}

fn manager(signer: &SigningKey, host: Version) -> PluginManager<Library, Stub> {
    PluginManager::with_host_version(signer.verifying_key(), host)
}

#[test]
fn test_load() {
    let signer = SigningKey::from_bytes([11; 32]);
    let events: Events = Arc::new(Mutex::new(Vec::new()));
    let mut plugin_mgr: PluginManager<Library, Stub> = PluginManager::new(signer.verifying_key());
    let exported = exported_sample(&signer);
    let (pending, staged) = plugin_mgr.begin_load(&exported, Platform::Unix).unwrap();
    let stage = pending.confirm(&staged.content).unwrap();
    let (library, plugin) = pair(1, "^0.1.0", &events);
    plugin_mgr.load_plugin(stage, library, plugin).unwrap();
    assert_eq!(plugin_mgr.plugin_count(), 1);
    assert_eq!(plugin_mgr.library_count(), 1);
    assert_eq!(*events.lock().unwrap(), vec!["loaded 1"]);
}

#[test]
fn a_plugin_that_the_host_satisfies_is_registered() {
    let signer = SigningKey::from_bytes([1; 32]);
    let events: Events = Arc::new(Mutex::new(Vec::new()));
    let mut registry = manager(&signer, Version::new(1, 0, 0));
    let exported = exported_sample(&signer);
    let (pending, staged) = registry.begin_load(&exported, Platform::Unix).unwrap();
    assert_eq!(staged.content, b"PLUGIN_V1".to_vec());
    let stage = pending.confirm(&staged.content).unwrap();
    let (library, plugin) = pair(1, "^1.0.0", &events);
    assert_eq!(registry.load_plugin(stage, library, plugin), Ok(()));
    assert_eq!(registry.plugin_count(), 1);
    assert_eq!(registry.library_count(), 1);
    assert_eq!(*events.lock().unwrap(), vec!["loaded 1"]);
}

#[test]
fn a_plugin_that_asks_for_more_is_rejected_and_nothing_stays() {
    let signer = SigningKey::from_bytes([1; 32]);
    let events: Events = Arc::new(Mutex::new(Vec::new()));
    let mut registry = manager(&signer, Version::new(1, 0, 0));
    let exported = exported_sample(&signer);
    let (pending, staged) = registry.begin_load(&exported, Platform::Unix).unwrap();
    let stage = pending.confirm(&staged.content).unwrap();
    let (library, plugin) = pair(1, "^2.0.0", &events);
    assert_eq!(
        registry.load_plugin(stage, library, plugin),
        Err(Error::UnmetRequirement {
            name: String::from("stub1"),
            req: String::from("^2.0.0")
        })
    );
    assert_eq!(registry.plugin_count(), 0);
    assert_eq!(registry.library_count(), 0);
    assert_eq!(*events.lock().unwrap(), vec!["destroy instance 1", "unload library 1"]);
}

#[test]
fn a_malformed_requirement_is_told_apart_from_an_unmet_one() {
    let signer = SigningKey::from_bytes([1; 32]);
    let events: Events = Arc::new(Mutex::new(Vec::new()));
    let mut registry = manager(&signer, Version::new(1, 0, 0));
    let (library, plugin) = pair(4, "what?", &events);
    assert_eq!(
        registry.register(library, plugin, String::from("four"), String::from("what?")),
        Err(Error::InvalidVersionReq { name: String::from("four"), req: String::from("what?") })
    );
    assert_eq!(registry.plugin_count(), 0);
    assert_eq!(*events.lock().unwrap(), vec!["destroy instance 4", "unload library 4"]);
}

#[test]
fn register_decides_on_the_requirement_it_is_given() {
    let signer = SigningKey::from_bytes([1; 32]);
    let events: Events = Arc::new(Mutex::new(Vec::new()));
    let mut registry = manager(&signer, Version::new(0, 1, 5));
    let (library, plugin) = pair(1, "ignored", &events);
    assert_eq!(registry.register(library, plugin, String::from("a"), String::from("^0.1.0")), Ok(()));
    let (library, plugin) = pair(2, "ignored", &events);
    assert_eq!(
        registry.register(library, plugin, String::from("b"), String::from("^0.2.0")),
        Err(Error::UnmetRequirement { name: String::from("b"), req: String::from("^0.2.0") })
    );
    assert_eq!(registry.plugin_count(), 1);
    assert_eq!(
        *events.lock().unwrap(),
        vec!["loaded 1", "destroy instance 2", "unload library 2"]
    );
}

#[test]
fn a_failed_load_leaves_earlier_plugins_alone() {
    let signer = SigningKey::from_bytes([1; 32]);
    let events: Events = Arc::new(Mutex::new(Vec::new()));
    let mut registry = manager(&signer, Version::new(1, 2, 0));
    for (id, requirement) in [(1, "^1.0.0"), (2, "^3"), (3, "~1.2"), (4, "<1")] {
        let (pending, staged) = registry.begin_load(&exported_sample(&signer), Platform::Unix).unwrap();
        let stage = pending.confirm(&staged.content).unwrap();
        let (library, plugin) = pair(id, requirement, &events);
        let outcome = registry.load_plugin(stage, library, plugin);
        assert_eq!(outcome.is_ok(), id % 2 == 1);
    }
    assert_eq!(registry.plugin_count(), 2);
    assert_eq!(registry.library_count(), 2);
    assert_eq!(
        *events.lock().unwrap(),
        vec![
            "loaded 1",
            "destroy instance 2",
            "unload library 2",
            "loaded 3",
            "destroy instance 4",
            "unload library 4",
        ]
    );
}

#[test]
fn teardown_goes_backwards_and_ends_each_instance_before_its_library() {
    let signer = SigningKey::from_bytes([1; 32]);
    let events: Events = Arc::new(Mutex::new(Vec::new()));
    let mut registry = manager(&signer, Version::new(1, 0, 0));
    for id in 1..=3 {
        let (library, plugin) = pair(id, "^1", &events);
        registry.register(library, plugin, format!("p{}", id), String::from("^1")).unwrap();
    }
    events.lock().unwrap().clear();
    assert_eq!(registry.unload_all(), 3);
    assert_eq!(registry.plugin_count(), 0);
    assert_eq!(registry.library_count(), 0);
    assert_eq!(
        *events.lock().unwrap(),
        vec![
            "unloading 3",
            "destroy instance 3",
            "unload library 3",
            "unloading 2",
            "destroy instance 2",
            "unload library 2",
            "unloading 1",
            "destroy instance 1",
            "unload library 1",
        ]
    );
    events.lock().unwrap().clear();
    assert_eq!(registry.unload_all(), 0);
    assert!(events.lock().unwrap().is_empty());
}

#[test]
fn a_dropped_registry_never_unloads_a_library_before_its_instance() {
    let signer = SigningKey::from_bytes([1; 32]);
    let events: Events = Arc::new(Mutex::new(Vec::new()));
    {
        let mut registry = manager(&signer, Version::new(1, 0, 0));
        for id in 1..=3 {
            let (library, plugin) = pair(id, "^1", &events);
            registry.register(library, plugin, format!("p{}", id), String::from("^1")).unwrap();
        }
        events.lock().unwrap().clear();
    }
    let log = events.lock().unwrap();
    assert_eq!(log.len(), 6);
    for id in 1..=3 {
        let destroyed = log.iter().position(|e| *e == format!("destroy instance {}", id)).unwrap();
        let unloaded = log.iter().position(|e| *e == format!("unload library {}", id)).unwrap();
        assert!(destroyed < unloaded);
    }
}

#[test]
fn an_entry_gives_up_its_instance_first() {
    let events: Events = Arc::new(Mutex::new(Vec::new()));
    let (library, plugin) = pair(1, "^1", &events);
    let mut entry = LoadedPlugin::new(library, plugin);
    assert!(entry.has_instance());
    assert!(entry.has_library());
    entry.shutdown();
    assert!(!entry.has_instance());
    assert!(!entry.has_library());
    assert_eq!(*events.lock().unwrap(), vec!["unloading 1", "destroy instance 1", "unload library 1"]);

    events.lock().unwrap().clear();
    let (library, plugin) = pair(2, "^1", &events);
    let mut entry = LoadedPlugin::new(library, plugin);
    entry.discard();
    assert!(!entry.has_instance() && !entry.has_library());
    assert_eq!(*events.lock().unwrap(), vec!["destroy instance 2", "unload library 2"]);
    entry.discard();
    assert_eq!(events.lock().unwrap().len(), 2);

    events.lock().unwrap().clear();
    let (library, plugin) = pair(3, "^1", &events);
    drop(LoadedPlugin::new(library, plugin));
    assert_eq!(*events.lock().unwrap(), vec!["destroy instance 3", "unload library 3"]);
}

#[test]
fn a_package_under_another_key_never_reaches_staging() {
    let signer = SigningKey::from_bytes([1; 32]);
    let stranger = SigningKey::from_bytes([2; 32]);
    let registry = manager(&signer, Version::new(1, 0, 0));
    let outcome = registry.begin_load(&exported_sample(&stranger), Platform::Unix);
    assert_eq!(outcome.err(), Some(Error::InvalidPackage(PackageError::Signature)));
    let outcome = registry.begin_load(b"junk", Platform::Unix);
    assert_eq!(outcome.err(), Some(Error::InvalidPackage(PackageError::Format)));
    assert_eq!(registry.plugin_count(), 0);
}

#[test]
fn a_strict_registry_refuses_foreign_stamps_and_a_tolerant_one_notes_them() {
    let signer = SigningKey::from_bytes([1; 32]);
    let package = Package::new(
        PackageMetadata {
            name: String::from("sample"),
            digest: String::new(),
            version: String::from("1.0.0"),
            dependencies: Vec::new(),
        },
        b"PLUGIN_V1".to_vec(),
    );
    let text = String::from_utf8(package.metadata.to_text()).unwrap();
    let record = bincode::serialize(&("1.0.0", "0.11.3", text, package.library.clone())).unwrap();
    let foreign = PackageExport {
        alog: ExportAlgorithm::Uncompressed,
        payload: record.clone(),
        signature: signer.sign(&record),
    }
    .to_bytes();
    let mut registry = manager(&signer, Version::new(1, 0, 0));
    let (pending, _) = registry.begin_load(&foreign, Platform::Unix).unwrap();
    assert!(pending.has_foreign_stamps());
    let (pending, _) = registry.begin_load(&exported_sample(&signer), Platform::Unix).unwrap();
    assert!(!pending.has_foreign_stamps());
    registry.set_strict(true);
    assert_eq!(
        registry.begin_load(&foreign, Platform::Unix).err(),
        Some(Error::InvalidPackage(PackageError::VersionStamp {
            stamp: Stamp::Format,
            expected: String::from("1.3.3"),
            received: String::from("1.0.0"),
        }))
    );
    assert!(registry.begin_load(&exported_sample(&signer), Platform::Unix).is_ok());
    registry.set_strict(false);
    assert!(registry.begin_load(&foreign, Platform::Unix).is_ok());
}

#[test]
fn a_staged_file_that_changed_is_tampering() {
    let signer = SigningKey::from_bytes([1; 32]);
    let registry = manager(&signer, Version::new(1, 0, 0));
    let exported = exported_sample(&signer);
    let (pending, staged) = registry.begin_load(&exported, Platform::Unix).unwrap();
    assert!(pending.confirm(&staged.content).is_ok());
    let (pending, staged) = registry.begin_load(&exported, Platform::Unix).unwrap();
    let mut changed = staged.content.clone();
    changed[0] ^= 1;
    assert_eq!(pending.confirm(&changed).err(), Some(Error::Tampered));
    let (pending, _) = registry.begin_load(&exported, Platform::Unix).unwrap();
    assert_eq!(pending.confirm(b"").err(), Some(Error::Tampered));
    let (pending, staged) = registry.begin_load(&exported, Platform::Unix).unwrap();
    let mut longer = staged.content.clone();
    longer.push(0);
    assert_eq!(pending.confirm(&longer).err(), Some(Error::Tampered));
}

#[test]
fn validate_file_compares_digests() {
    let package = Package::new(
        PackageMetadata {
            name: String::from("sample"),
            digest: String::new(),
            version: String::from("1.0.0"),
            dependencies: Vec::new(),
        },
        b"PLUGIN_V1".to_vec(),
    );
    assert_eq!(validate_file(b"PLUGIN_V1", &package.digest()), Ok(()));
    assert_eq!(validate_file(b"PLUGIN_V2", &package.digest()), Err(Error::Tampered));
    assert_eq!(validate_file(b"PLUGIN_V1", &[0; 64]), Err(Error::Tampered));
}

#[test]
fn every_staging_has_a_fresh_name() {
    let signer = SigningKey::from_bytes([1; 32]);
    let registry = manager(&signer, Version::new(1, 0, 0));
    let exported = exported_sample(&signer);
    let mut names = Vec::new();
    for _ in 0..20 {
        let (_, staged) = registry.begin_load(&exported, Platform::Unix).unwrap();
        let (token, extension) = staged.file_name.split_once('.').unwrap();
        assert_eq!(extension, "so");
        assert_eq!(token.len(), TOKEN_LEN);
        assert_eq!(token.len(), 32);
        assert!(token.chars().all(|c| c.is_ascii_alphanumeric()));
        assert!(!names.contains(&staged.file_name));
        names.push(staged.file_name);
    }
    let package = Package::import(&exported, &signer.verifying_key()).unwrap();
    let first = package.release_lib_to_temp(Platform::Windows);
    let second = package.release_lib_to_temp(Platform::Windows);
    assert_ne!(first.file_name, second.file_name);
    assert_eq!(first.content, second.content);
    assert!(first.file_name.ends_with(".dll"));
    assert!(package.release_lib_to_temp(Platform::MacOs).file_name.ends_with(".dylib"));
}

#[test]
fn the_staged_name_is_token_dot_extension() {
    assert_eq!(staged_file_name("abc", Platform::Unix), "abc.so");
    assert_eq!(staged_file_name("abc", Platform::Windows), "abc.dll");
    assert_eq!(staged_file_name("abc", Platform::MacOs), "abc.dylib");
    assert_eq!(staged_file_name("", Platform::Unix), ".so");
    assert_eq!(Platform::Unix.extension(), "so");
    assert_eq!(Platform::Windows.extension(), "dll");
    assert_eq!(Platform::MacOs.extension(), "dylib");
}

#[test]
fn a_plugin_asks_for_this_release_line_unless_it_says_otherwise() {
    assert_eq!(Quiet.api_version_require(), "^0.1.0");
    assert_eq!(DEFAULT_API_REQUIREMENT, "^0.1.0");
    assert_eq!(PLUGIN_ENTRY_SYMBOL, "_comet_plugin_create");
    Quiet.on_plugin_load();
    Quiet.on_plugin_unload();
    let signer = SigningKey::from_bytes([1; 32]);
    let mut registry: PluginManager<u8, Quiet> = PluginManager::new(signer.verifying_key());
    let (pending, staged) = registry.begin_load(&exported_sample(&signer), Platform::Unix).unwrap();
    let stage = pending.confirm(&staged.content).unwrap();
    assert_eq!(registry.load_plugin(stage, 0, Quiet), Ok(()));
    assert_eq!(registry.plugin_count(), 1);
}

#[test]
fn the_logger_hands_every_record_to_the_callback() {
    let seen: Events = Arc::new(Mutex::new(Vec::new()));
    let sink = seen.clone();
    let logger = ExternalLogger::new(move |record: &str| {
        sink.lock().unwrap().push(record.to_string());
        record.len()
    });
    assert!(logger.enabled());
    assert_eq!(logger.log("first"), 5);
    assert_eq!(logger.log("second!"), 7);
    assert_eq!(*seen.lock().unwrap(), vec!["first", "second!"]);
}
