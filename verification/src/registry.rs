//! The registry of loaded plugins.
//!
//! A plugin instance runs code that lives in the library it was made from, so
//! the library must stay loaded for as long as the instance exists. The
//! registry keeps each instance together with its library in one entry, and
//! an entry can never hold an instance without its library.

use crate::digest::{blake512, hashable};
use crate::package::{import_foreign_stamps, import_outcome, Package};
use crate::signature::VerifyingKey;
use crate::staging::{is_token, staged_name, validate_file, Platform, StagedLibrary};
use crate::version::{api_version, compatibility, Compatibility, Version};
use vstd::prelude::*;

verus! {

/// The name of the one symbol that a plugin library must export: the
/// function that constructs the plugin.
pub const PLUGIN_ENTRY_SYMBOL: &'static str = "_comet_plugin_create";

/// The requirement that a plugin declares unless it says otherwise: the
/// release line of the interface it was built against.
pub const DEFAULT_API_REQUIREMENT: &'static str = "^0.1.0";

/// A failure that a plugin reports from its own construction.
#[derive(Clone, Debug, PartialEq, Eq)]
pub enum PluginError {
    InvalidConfig,
    SetLogger,
    Custom(String),
}

/// Why a plugin could not be loaded.
#[derive(Clone, Debug, PartialEq, Eq)]
pub enum Error {
    /// The package file is malformed, not signed by the trusted key, or
    /// inconsistent with its own digest.
    InvalidPackage(crate::package::Error),
    /// The platform refused to link the staged library.
    LibraryLoad(String),
    /// The library does not export the entry symbol.
    MissingSymbol(String),
    /// The plugin declares a requirement that is no requirement at all.
    InvalidVersionReq { name: String, req: String },
    /// The plugin declares a requirement that the host does not meet.
    UnmetRequirement { name: String, req: String },
    /// The plugin's own construction failed.
    PluginInitialization(PluginError),
    /// The staged file could not be locked.
    LockFile(String),
    /// The staged file is not the library that was verified.
    Tampered,
    /// Another input or output operation failed.
    Io(String),
}

/// What every plugin offers to the host.
pub trait Plugin: Send + Sync {
    /// The plugin's name.
    fn name(&self) -> String;

    /// The requirement on the host's interface version. A plugin that does
    /// not say otherwise asks for the release line of the interface it was
    /// built against.
    fn api_version_require(&self) -> (requirement: String)
        default_ensures
            requirement@ == DEFAULT_API_REQUIREMENT@,
    {
        DEFAULT_API_REQUIREMENT.to_owned()
    }

    /// Called once the plugin has been admitted.
    fn on_plugin_load(&self) {
    }

    /// Called before the plugin is destroyed.
    fn on_plugin_unload(&self) {
    }
}

/// A library handle together with the instance made from it.
pub struct LoadedPlugin<L, P: Plugin> {
    instance: Option<P>,
    library: Option<L>,
}

impl<L, P: Plugin> LoadedPlugin<L, P> {
    /// An instance exists only while its library is loaded.
    #[verifier::type_invariant]
    spec fn instance_within_library(self) -> bool {
        self.instance is Some ==> self.library is Some
    }

    /// The instance, while it exists.
    pub closed spec fn instance(self) -> Option<P> {
        self.instance
    }

    /// The library handle, while it is loaded.
    pub closed spec fn library(self) -> Option<L> {
        self.library
    }

    /// An entry for a library that is loaded and an instance made from it.
    pub fn new(library: L, instance: P) -> (entry: Self)
        ensures
            entry.instance() == Some(instance),
            entry.library() == Some(library),
    {
        LoadedPlugin { instance: Some(instance), library: Some(library) }
    }

    /// Whether the instance exists. While it does, its library is loaded.
    pub fn has_instance(&self) -> (present: bool)
        ensures
            present == self.instance() is Some,
            present ==> self.library() is Some,
    {
        proof {
            use_type_invariant(self);
        }
        self.instance.is_some()
    }

    /// Whether the library is loaded.
    pub fn has_library(&self) -> (present: bool)
        ensures
            present == self.library() is Some,
            !present ==> self.instance() is None,
    {
        proof {
            use_type_invariant(self);
        }
        self.library.is_some()
    }

    /// Tells the instance that it is about to go, destroys it, and only then
    /// unloads the library.
    pub fn shutdown(&mut self)
        ensures
            final(self).instance() is None,
            final(self).library() is None,
    {
        match &self.instance {
            Some(instance) => instance.on_plugin_unload(),
            None => {},
        }
        self.discard();
    }

    /// Destroys the instance, then unloads the library.
    pub fn discard(&mut self)
        ensures
            final(self).instance() is None,
            final(self).library() is None,
    {
        self.instance = None;
        self.library = None;
    }
}

/// Whether `after` is `before` with one entry appended, which holds
/// `instance` and the `library` that backs it.
pub open spec fn appends<L, P: Plugin>(
    before: Seq<LoadedPlugin<L, P>>,
    after: Seq<LoadedPlugin<L, P>>,
    library: L,
    instance: P,
) -> bool {
    &&& after.len() == before.len() + 1
    &&& after.drop_last() == before
    &&& after.last().instance() == Some(instance)
    &&& after.last().library() == Some(library)
}

/// Whether every entry holds both an instance and the library that backs it.
pub open spec fn all_whole<L, P: Plugin>(entries: Seq<LoadedPlugin<L, P>>) -> bool {
    forall|i: int|
        0 <= i < entries.len() ==> (#[trigger] entries[i]).instance() is Some
            && entries[i].library() is Some
}

/// A package that was imported under the trust anchor and whose library is
/// about to be staged. It remembers the digest that the staged file must
/// have.
pub struct PendingLoad {
    expected: [u8; 64],
    foreign_stamps: bool,
}

/// Proof that a staged file was read back and found to be the verified
/// library. It can only be had from [`PendingLoad::confirm`].
pub struct VerifiedStage {
    digest: [u8; 64],
}

impl PendingLoad {
    /// The digest that the staged file must have.
    pub closed spec fn expected(self) -> Seq<u8> {
        self.expected@
    }

    /// Whether the package bore version stamps other than this library's.
    pub closed spec fn foreign_stamps(self) -> bool {
        self.foreign_stamps
    }

    /// Whether the package bore version stamps other than this library's: it
    /// was built with another release of the serialization format or of the
    /// interface framework, which a host may want to warn of.
    pub fn has_foreign_stamps(&self) -> (foreign: bool)
        ensures
            foreign == self.foreign_stamps(),
    {
        self.foreign_stamps
    }

    /// Checks the bytes that were read back from the staged file, through a
    /// handle that keeps writers out. A file that differs from the verified
    /// library is reported as tampering.
    pub fn confirm(self, staged_content: &[u8]) -> (r: Result<VerifiedStage, Error>)
        ensures
            r is Ok <==> hashable(staged_content@) && blake512(staged_content@)
                == self.expected(),
            r is Ok ==> r->Ok_0.digest() == self.expected(),
            r is Err ==> r == Err::<VerifiedStage, Error>(Error::Tampered),
    {
        match validate_file(staged_content, &self.expected) {
            Ok(()) => Ok(VerifiedStage { digest: self.expected }),
            Err(_) => Err(Error::Tampered),
        }
    }
}

impl VerifiedStage {
    /// The digest of the staged library.
    pub closed spec fn digest(self) -> Seq<u8> {
        self.digest@
    }
}

/// The plugins of one host: each instance with the library that backs it, in
/// the order in which they were loaded.
pub struct PluginManager<L, P: Plugin> {
    host: Version,
    verifier: VerifyingKey,
    strict: bool,
    loaded: Vec<LoadedPlugin<L, P>>,
}

impl<L, P: Plugin> PluginManager<L, P> {
    /// Every entry holds both an instance and its library.
    #[verifier::type_invariant]
    spec fn every_entry_is_whole(self) -> bool {
        forall|i: int|
            0 <= i < self.loaded@.len() ==> (#[trigger] self.loaded@[i]).instance() is Some
                && self.loaded@[i].library() is Some
    }

    /// The entries, oldest first.
    pub closed spec fn entries(self) -> Seq<LoadedPlugin<L, P>> {
        self.loaded@
    }

    /// The version of the plugin interface that this host offers.
    pub closed spec fn host_version(self) -> Version {
        self.host
    }

    /// The key under which packages must be signed.
    pub closed spec fn trust_anchor(self) -> Seq<u8> {
        self.verifier@
    }

    /// Whether packages with foreign version stamps are refused.
    pub closed spec fn strict(self) -> bool {
        self.strict
    }

    /// An empty registry that trusts `verifier` and offers this library's own
    /// interface version.
    pub fn new(verifier: VerifyingKey) -> (manager: Self)
        ensures
            manager.entries().len() == 0,
            all_whole(manager.entries()),
            manager.host_version() == (Version { major: 0, minor: 1, patch: 0 }),
            manager.trust_anchor() == verifier@,
            !manager.strict(),
    {
        PluginManager { host: api_version(), verifier, strict: false, loaded: Vec::new() }
    }

    /// An empty registry that trusts `verifier` and offers the interface
    /// version `host`.
    pub fn with_host_version(verifier: VerifyingKey, host: Version) -> (manager: Self)
        ensures
            manager.entries().len() == 0,
            all_whole(manager.entries()),
            manager.host_version() == host,
            manager.trust_anchor() == verifier@,
            !manager.strict(),
    {
        PluginManager { host, verifier, strict: false, loaded: Vec::new() }
    }

    /// Sets whether packages with foreign version stamps are refused. They
    /// are tolerated unless this is set.
    pub fn set_strict(&mut self, strict: bool)
        ensures
            final(self).strict() == strict,
            final(self).entries() == old(self).entries(),
            final(self).host_version() == old(self).host_version(),
            final(self).trust_anchor() == old(self).trust_anchor(),
    {
        proof {
            use_type_invariant(&*self);
        }
        self.strict = strict;
    }

    /// The number of plugin instances.
    pub fn plugin_count(&self) -> (count: usize)
        ensures
            count == self.entries().len(),
            all_whole(self.entries()),
    {
        proof {
            use_type_invariant(self);
        }
        self.loaded.len()
    }

    /// The number of loaded libraries. It always equals the number of
    /// instances: each library backs exactly one.
    pub fn library_count(&self) -> (count: usize)
        ensures
            count == self.entries().len(),
            all_whole(self.entries()),
    {
        proof {
            use_type_invariant(self);
        }
        self.loaded.len()
    }

    /// First step of a load: imports the package under the trust anchor and
    /// prepares its library for staging. The registry is not changed.
    pub fn begin_load(&self, exported: &[u8], platform: Platform) -> (r: Result<
        (PendingLoad, StagedLibrary),
        Error,
    >)
        ensures
            match import_outcome(exported@, self.trust_anchor(), self.strict()) {
                Ok(package) => {
                    &&& r is Ok
                    &&& r->Ok_0.0.expected() == blake512(package.library)
                    &&& r->Ok_0.0.foreign_stamps() == import_foreign_stamps(exported@)
                    &&& r->Ok_0.1.content@ == package.library
                    &&& exists|token: Seq<char>|
                        is_token(token) && r->Ok_0.1.file_name@ == #[trigger] staged_name(
                            token,
                            platform,
                        )
                },
                Err(e) => r is Err && (r->Err_0 matches Error::InvalidPackage(inner) && inner@
                    == e),
            },
    {
        match Package::import_noting_stamps(exported, &self.verifier, self.strict) {
            Err(e) => Err(Error::InvalidPackage(e)),
            Ok((package, foreign_stamps)) => {
                let expected = package.digest();
                let staged = package.release_lib_to_temp(platform);
                Ok((PendingLoad { expected, foreign_stamps }, staged))
            },
        }
    }

    /// Last step of a load: admits a plugin that was constructed from the
    /// library linked from a confirmed stage. The plugin is asked for its
    /// name and its requirement, and [`PluginManager::register`] decides on
    /// them. Either the entry is appended, or the registry stays as it was
    /// and the instance is destroyed before its library is unloaded.
    pub fn load_plugin(&mut self, stage: VerifiedStage, library: L, plugin: P) -> (r: Result<
        (),
        Error,
    >)
        ensures
            final(self).host_version() == old(self).host_version(),
            final(self).trust_anchor() == old(self).trust_anchor(),
            final(self).strict() == old(self).strict(),
            all_whole(final(self).entries()),
            match r {
                Ok(()) => appends(old(self).entries(), final(self).entries(), library, plugin),
                Err(e) => final(self).entries() == old(self).entries() && (e
                    is InvalidVersionReq || e is UnmetRequirement),
            },
    {
        let name = plugin.name();
        let requirement = plugin.api_version_require();
        self.register(library, plugin, name, requirement)
    }

    /// Decides on a constructed plugin, given the name and the requirement it
    /// declared. If the host's version satisfies the requirement, the plugin
    /// is told that it was loaded and its entry is appended. Otherwise the
    /// registry stays as it was, the instance is destroyed, its library is
    /// unloaded after it, and the error says whether the requirement was
    /// malformed or merely not met.
    pub fn register(&mut self, library: L, plugin: P, name: String, requirement: String) -> (r:
        Result<(), Error>)
        ensures
            final(self).host_version() == old(self).host_version(),
            final(self).trust_anchor() == old(self).trust_anchor(),
            final(self).strict() == old(self).strict(),
            all_whole(final(self).entries()),
            match compatibility(requirement@, old(self).host_version()) {
                Compatibility::Compatible => {
                    &&& r is Ok
                    &&& appends(old(self).entries(), final(self).entries(), library, plugin)
                },
                Compatibility::Unmet => {
                    &&& r == Err::<(), Error>(Error::UnmetRequirement { name, req: requirement })
                    &&& final(self).entries() == old(self).entries()
                },
                Compatibility::Invalid => {
                    &&& r == Err::<(), Error>(Error::InvalidVersionReq { name, req: requirement })
                    &&& final(self).entries() == old(self).entries()
                },
            },
    {
        proof {
            use_type_invariant(&*self);
        }
        let outcome = self.host.check(requirement.as_str());
        let mut entry = LoadedPlugin::new(library, plugin);
        match outcome {
            Compatibility::Compatible => {
                match &entry.instance {
                    Some(instance) => instance.on_plugin_load(),
                    None => {},
                }
                let mut loaded: Vec<LoadedPlugin<L, P>> = Vec::new();
                core::mem::swap(&mut self.loaded, &mut loaded);
                loaded.push(entry);
                core::mem::swap(&mut self.loaded, &mut loaded);
                assert(self.loaded@.drop_last() =~= old(self).loaded@);
                Ok(())
            },
            Compatibility::Unmet => {
                entry.discard();
                Err(Error::UnmetRequirement { name, req: requirement })
            },
            Compatibility::Invalid => {
                entry.discard();
                Err(Error::InvalidVersionReq { name, req: requirement })
            },
        }
    }

    /// Tears the registry down, the most recently loaded plugin first: each
    /// instance is told that it is about to go and destroyed, and only then
    /// is its library unloaded. Gives the number of plugins that were torn
    /// down.
    pub fn unload_all(&mut self) -> (count: usize)
        ensures
            count == old(self).entries().len(),
            final(self).entries().len() == 0,
            all_whole(final(self).entries()),
            final(self).host_version() == old(self).host_version(),
            final(self).trust_anchor() == old(self).trust_anchor(),
            final(self).strict() == old(self).strict(),
    {
        let mut loaded: Vec<LoadedPlugin<L, P>> = Vec::new();
        core::mem::swap(&mut self.loaded, &mut loaded);
        let count = loaded.len();
        while loaded.len() > 0
            decreases loaded@.len(),
        {
            match loaded.pop() {
                Some(mut entry) => entry.shutdown(),
                None => {},
            }
        }
        count
    }
}

} // verus!
