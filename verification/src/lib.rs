//! Signed, content-addressed plugin packages and the host-side registry that
//! admits them.
//!
//! A plugin is shipped as a package: metadata and a compiled library, bound
//! together by a digest, serialized, signed and compressed ([`package`]). A
//! host imports a package under the one key it trusts, stages the library
//! under a fresh name and checks the staged file once more ([`staging`]),
//! links it, and admits the plugin it constructs if the plugin's declared
//! requirement is met by the host's interface version ([`registry`],
//! [`version`]).
//!
//! The remaining modules are the parts: the digest ([`digest`], [`hexcode`]),
//! signatures and key files ([`signature`], [`keyfile`]), compression
//! ([`compress`]), the binary framing ([`wire`]), the metadata and its text
//! form ([`metadata`], [`text`], [`ignored`]), and the relay for a plugin's
//! log records ([`logger`]).

pub mod compress;
pub mod digest;
pub mod hexcode;
pub mod ignored;
pub mod keyfile;
pub mod logger;
pub mod metadata;
pub mod package;
pub mod registry;
pub mod signature;
pub mod staging;
pub mod text;
pub mod version;
pub mod wire;
