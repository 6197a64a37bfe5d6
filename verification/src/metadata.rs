//! Package metadata and its text form.
//!
//! The text is one JSON object with the members `name`, `digest`, `version`
//! and `dependencies`, each dependency an object with the members `name` and
//! `version`. It is written compactly, with the members in this order. It is
//! read with the members in any order and white space between the tokens; a
//! missing `digest` is the empty string, a missing `dependencies` the empty
//! list. A member of another name is passed over, whatever its value. One of
//! the known members occurring twice is an error. In place of an object, a
//! list of the members' values in their order is read as well: the name, the
//! digest, the version and, if it is there, the list of dependencies; for a
//! dependency, the name and the version.

use crate::ignored::{read_ignored, take_ignored};
use crate::text::{
    lemma_other_mark, lemma_take_mark, lemma_take_string, put_quoted, quoted, read_mark,
    read_spaced_string, same_bytes, skip_space, skip_spaces, string_from_utf8, take_mark,
    take_string, QUOTE,
};
use crate::version::{requirement_parses, semver_req_parses, semver_version_parses, version_parses};
use vstd::prelude::*;
use vstd::string::*;
use vstd::utf8::*;

verus! {

/// `{`
pub const OPEN_OBJECT: u8 = 0x7b;

/// `}`
pub const CLOSE_OBJECT: u8 = 0x7d;

/// `[`
pub const OPEN_LIST: u8 = 0x5b;

/// `]`
pub const CLOSE_LIST: u8 = 0x5d;

/// `,`
pub const COMMA: u8 = 0x2c;

/// `:`
pub const COLON: u8 = 0x3a;

/// A dependency on another plugin. It is carried with the package and not
/// consulted when a package is loaded.
#[derive(Clone, Debug, PartialEq, Eq)]
pub struct DependencySpec {
    pub name: String,
    /// A semantic-version requirement expression.
    pub version: String,
}

/// What a package says of itself.
#[derive(Clone, Debug, PartialEq, Eq)]
pub struct PackageMetadata {
    pub name: String,
    /// The digest of the library, in hexadecimal.
    pub digest: String,
    /// A semantic version.
    pub version: String,
    pub dependencies: Vec<DependencySpec>,
}

/// The mathematical value of a [`DependencySpec`].
pub struct DependencyView {
    pub name: Seq<char>,
    pub version: Seq<char>,
}

/// The mathematical value of a [`PackageMetadata`].
pub struct MetadataView {
    pub name: Seq<char>,
    pub digest: Seq<char>,
    pub version: Seq<char>,
    pub dependencies: Seq<DependencyView>,
}

/// The members of a dependency that have been read so far.
pub struct DependencyDraft {
    pub name: Option<Seq<char>>,
    pub version: Option<Seq<char>>,
}

/// The members of the metadata that have been read so far.
pub struct MetadataDraft {
    pub name: Option<Seq<char>>,
    pub digest: Option<Seq<char>>,
    pub version: Option<Seq<char>>,
    pub dependencies: Option<Seq<DependencyView>>,
}

impl View for DependencySpec {
    type V = DependencyView;

    open spec fn view(&self) -> DependencyView {
        DependencyView { name: self.name@, version: self.version@ }
    }
}

/// The values of a run of dependencies, in order.
pub open spec fn dependency_views(dependencies: Seq<DependencySpec>) -> Seq<DependencyView> {
    Seq::new(dependencies.len(), |i: int| dependencies[i]@)
}

impl View for PackageMetadata {
    type V = MetadataView;

    open spec fn view(&self) -> MetadataView {
        MetadataView {
            name: self.name@,
            digest: self.digest@,
            version: self.version@,
            dependencies: dependency_views(self.dependencies@),
        }
    }
}

impl MetadataView {
    /// Whether the version is a semantic version and every dependency names a
    /// requirement.
    pub open spec fn well_formed(self) -> bool {
        &&& semver_version_parses(self.version)
        &&& forall|i: int|
            0 <= i < self.dependencies.len() ==> semver_req_parses(
                (#[trigger] self.dependencies[i]).version,
            )
    }
}

/// `name`
pub open spec fn name_key() -> Seq<u8> {
    seq!['n' as u8, 'a' as u8, 'm' as u8, 'e' as u8]
}

/// `digest`
pub open spec fn digest_key() -> Seq<u8> {
    seq!['d' as u8, 'i' as u8, 'g' as u8, 'e' as u8, 's' as u8, 't' as u8]
}

/// `version`
pub open spec fn version_key() -> Seq<u8> {
    seq!['v' as u8, 'e' as u8, 'r' as u8, 's' as u8, 'i' as u8, 'o' as u8, 'n' as u8]
}

/// `dependencies`
pub open spec fn dependencies_key() -> Seq<u8> {
    seq![
        'd' as u8,
        'e' as u8,
        'p' as u8,
        'e' as u8,
        'n' as u8,
        'd' as u8,
        'e' as u8,
        'n' as u8,
        'c' as u8,
        'i' as u8,
        'e' as u8,
        's' as u8,
    ]
}

/// A string of characters as it stands in the text.
pub open spec fn quoted_text(chars: Seq<char>) -> Seq<u8> {
    quoted(encode_utf8(chars))
}

/// A member as it stands in the text: its name, a colon, and its value.
#[verifier::opaque]
pub open spec fn member_text(key: Seq<u8>, value: Seq<u8>) -> Seq<u8> {
    quoted(key) + seq![COLON] + value
}

/// One dependency as it stands in the text.
#[verifier::opaque]
pub open spec fn dependency_text(dependency: DependencyView) -> Seq<u8> {
    seq![OPEN_OBJECT] + member_text(name_key(), quoted_text(dependency.name)) + seq![COMMA]
        + member_text(version_key(), quoted_text(dependency.version)) + seq![CLOSE_OBJECT]
}

/// What stands behind a dependency in the list: the others, each behind a
/// comma, and the closing bracket.
pub open spec fn list_tail_text(dependencies: Seq<DependencyView>) -> Seq<u8>
    decreases dependencies.len(),
{
    if dependencies.len() == 0 {
        seq![CLOSE_LIST]
    } else {
        seq![COMMA] + dependency_text(dependencies[0]) + list_tail_text(dependencies.skip(1))
    }
}

/// The list of dependencies as it stands in the text.
pub open spec fn list_text(dependencies: Seq<DependencyView>) -> Seq<u8> {
    if dependencies.len() == 0 {
        seq![OPEN_LIST] + seq![CLOSE_LIST]
    } else {
        seq![OPEN_LIST] + dependency_text(dependencies[0]) + list_tail_text(
            dependencies.skip(1),
        )
    }
}

/// The text form of `metadata`.
pub open spec fn metadata_text(metadata: MetadataView) -> Seq<u8> {
    seq![OPEN_OBJECT] + member_text(name_key(), quoted_text(metadata.name)) + seq![COMMA]
        + member_text(digest_key(), quoted_text(metadata.digest)) + seq![COMMA] + member_text(
        version_key(),
        quoted_text(metadata.version),
    ) + seq![COMMA] + member_text(dependencies_key(), list_text(metadata.dependencies))
        + seq![CLOSE_OBJECT]
}

/// Reads a quoted string of characters, behind any white space. Content that
/// is not UTF-8 is an error.
pub open spec fn take_text(input: Seq<u8>) -> Option<(Seq<char>, Seq<u8>)> {
    match take_string(skip_spaces(input)) {
        Some((content, rest)) => if valid_utf8(content) {
            Some((decode_utf8(content), rest))
        } else {
            None
        },
        None => None,
    }
}

/// Reads the name of a member and the colon behind it.
pub open spec fn take_key(input: Seq<u8>) -> Option<(Seq<u8>, Seq<u8>)> {
    match take_string(skip_spaces(input)) {
        None => None,
        Some((key, r1)) => match take_mark(r1, COLON) {
            None => None,
            Some(r2) => Some((key, r2)),
        },
    }
}

/// Reads one member of a dependency into the draft. A member that the draft
/// holds already is an error; a member of another name is passed over.
pub open spec fn take_dependency_member(input: Seq<u8>, draft: DependencyDraft) -> Option<
    (DependencyDraft, Seq<u8>),
> {
    match take_key(input) {
        None => None,
        Some((key, r1)) => if key == name_key() {
            match take_text(r1) {
                Some((text, r2)) => if draft.name is None {
                    Some((DependencyDraft { name: Some(text), version: draft.version }, r2))
                } else {
                    None
                },
                None => None,
            }
        } else if key == version_key() {
            match take_text(r1) {
                Some((text, r2)) => if draft.version is None {
                    Some((DependencyDraft { name: draft.name, version: Some(text) }, r2))
                } else {
                    None
                },
                None => None,
            }
        } else if valid_utf8(key) {
            match take_ignored(r1) {
                Some(r2) => Some((draft, r2)),
                None => None,
            }
        } else {
            None
        },
    }
}

/// The dependency that a draft amounts to: both members are needed.
pub open spec fn finish_dependency(draft: DependencyDraft) -> Option<DependencyView> {
    if draft.name is Some && draft.version is Some {
        Some(DependencyView { name: draft.name->0, version: draft.version->0 })
    } else {
        None
    }
}

/// Reads what stands behind a member of a dependency: the closing brace, or
/// a comma and more members.
pub open spec fn take_dependency_rest(input: Seq<u8>, draft: DependencyDraft) -> Option<
    (DependencyView, Seq<u8>),
>
    decreases input.len(),
{
    match take_mark(input, CLOSE_OBJECT) {
        Some(rest) => match finish_dependency(draft) {
            Some(dependency) => Some((dependency, rest)),
            None => None,
        },
        None => match take_mark(input, COMMA) {
            None => None,
            Some(r1) => match take_dependency_member(r1, draft) {
                None => None,
                Some((next, r2)) => if r2.len() < input.len() {
                    take_dependency_rest(r2, next)
                } else {
                    None
                },
            },
        },
    }
}

/// Reads a dependency that is written as a list, behind its opening
/// bracket: the name and the version.
pub open spec fn take_dependency_listed(input: Seq<u8>) -> Option<(DependencyView, Seq<u8>)> {
    match take_text(input) {
        None => None,
        Some((name, r1)) => match take_mark(r1, COMMA) {
            None => None,
            Some(r2) => match take_text(r2) {
                None => None,
                Some((version, r3)) => match take_mark(r3, CLOSE_LIST) {
                    None => None,
                    Some(rest) => Some((DependencyView { name, version }, rest)),
                },
            },
        },
    }
}

/// Reads one dependency: an object, or a list of its members' values.
pub open spec fn take_dependency(input: Seq<u8>) -> Option<(DependencyView, Seq<u8>)> {
    match take_mark(input, OPEN_OBJECT) {
        Some(r0) => match take_dependency_member(
            r0,
            DependencyDraft { name: None, version: None },
        ) {
            None => None,
            Some((draft, r1)) => take_dependency_rest(r1, draft),
        },
        None => match take_mark(input, OPEN_LIST) {
            Some(r0) => take_dependency_listed(r0),
            None => None,
        },
    }
}

/// Reads what stands behind a dependency in the list: the closing bracket,
/// or a comma and more dependencies.
pub open spec fn take_list_rest(input: Seq<u8>, items: Seq<DependencyView>) -> Option<
    (Seq<DependencyView>, Seq<u8>),
>
    decreases input.len(),
{
    match take_mark(input, CLOSE_LIST) {
        Some(rest) => Some((items, rest)),
        None => match take_mark(input, COMMA) {
            None => None,
            Some(r1) => match take_dependency(r1) {
                None => None,
                Some((dependency, r2)) => if r2.len() < input.len() {
                    take_list_rest(r2, items.push(dependency))
                } else {
                    None
                },
            },
        },
    }
}

/// Reads the list of dependencies.
pub open spec fn take_list(input: Seq<u8>) -> Option<(Seq<DependencyView>, Seq<u8>)> {
    match take_mark(input, OPEN_LIST) {
        None => None,
        Some(r0) => match take_mark(r0, CLOSE_LIST) {
            Some(rest) => Some((Seq::empty(), rest)),
            None => match take_dependency(r0) {
                None => None,
                Some((dependency, r1)) => take_list_rest(r1, seq![dependency]),
            },
        },
    }
}

/// The draft with this text under the member of this name.
pub open spec fn with_text(draft: MetadataDraft, key: Seq<u8>, text: Seq<char>) -> MetadataDraft {
    MetadataDraft {
        name: if key == name_key() {
            Some(text)
        } else {
            draft.name
        },
        digest: if key == digest_key() {
            Some(text)
        } else {
            draft.digest
        },
        version: if key == version_key() {
            Some(text)
        } else {
            draft.version
        },
        dependencies: draft.dependencies,
    }
}

/// Whether the draft holds the member of this name already.
pub open spec fn holds(draft: MetadataDraft, key: Seq<u8>) -> bool {
    ||| key == name_key() && draft.name is Some
    ||| key == digest_key() && draft.digest is Some
    ||| key == version_key() && draft.version is Some
    ||| key == dependencies_key() && draft.dependencies is Some
}

/// Reads one member of the metadata into the draft. A member that the draft
/// holds already is an error; a member of another name is passed over.
pub open spec fn take_member(input: Seq<u8>, draft: MetadataDraft) -> Option<
    (MetadataDraft, Seq<u8>),
> {
    match take_key(input) {
        None => None,
        Some((key, r1)) => if key == dependencies_key() {
            match take_list(r1) {
                Some((list, r2)) => if holds(draft, key) {
                    None
                } else {
                    Some(
                        (
                            MetadataDraft {
                                name: draft.name,
                                digest: draft.digest,
                                version: draft.version,
                                dependencies: Some(list),
                            },
                            r2,
                        ),
                    )
                },
                None => None,
            }
        } else if key == name_key() || key == digest_key() || key == version_key() {
            match take_text(r1) {
                Some((text, r2)) => if holds(draft, key) {
                    None
                } else {
                    Some((with_text(draft, key, text), r2))
                },
                None => None,
            }
        } else if valid_utf8(key) {
            match take_ignored(r1) {
                Some(r2) => Some((draft, r2)),
                None => None,
            }
        } else {
            None
        },
    }
}

/// The metadata that a draft amounts to: the name and the version are
/// needed; without a digest it is empty, without dependencies there are none.
pub open spec fn finish_metadata(draft: MetadataDraft) -> Option<MetadataView> {
    if draft.name is Some && draft.version is Some {
        Some(
            MetadataView {
                name: draft.name->0,
                digest: match draft.digest {
                    Some(digest) => digest,
                    None => Seq::empty(),
                },
                version: draft.version->0,
                dependencies: match draft.dependencies {
                    Some(dependencies) => dependencies,
                    None => Seq::empty(),
                },
            },
        )
    } else {
        None
    }
}

/// Reads what stands behind a member of the metadata: the closing brace, or
/// a comma and more members.
pub open spec fn take_members_rest(input: Seq<u8>, draft: MetadataDraft) -> Option<
    (MetadataView, Seq<u8>),
>
    decreases input.len(),
{
    match take_mark(input, CLOSE_OBJECT) {
        Some(rest) => match finish_metadata(draft) {
            Some(metadata) => Some((metadata, rest)),
            None => None,
        },
        None => match take_mark(input, COMMA) {
            None => None,
            Some(r1) => match take_member(r1, draft) {
                None => None,
                Some((next, r2)) => if r2.len() < input.len() {
                    take_members_rest(r2, next)
                } else {
                    None
                },
            },
        },
    }
}

/// The draft that holds no member yet.
pub open spec fn empty_draft() -> MetadataDraft {
    MetadataDraft { name: None, digest: None, version: None, dependencies: None }
}

/// Reads what may stand behind the version where the metadata are written
/// as a list: the closing bracket, or the list of dependencies and the
/// closing bracket.
pub open spec fn take_listed_tail(input: Seq<u8>) -> Option<(Seq<DependencyView>, Seq<u8>)> {
    match take_mark(input, CLOSE_LIST) {
        Some(rest) => Some((Seq::empty(), rest)),
        None => match take_mark(input, COMMA) {
            None => None,
            Some(r1) => match take_list(r1) {
                None => None,
                Some((dependencies, r2)) => match take_mark(r2, CLOSE_LIST) {
                    None => None,
                    Some(rest) => Some((dependencies, rest)),
                },
            },
        },
    }
}

/// Reads metadata that are written as a list, behind its opening bracket:
/// the name, the digest, the version and, if it is there, the list of
/// dependencies.
pub open spec fn take_metadata_listed(input: Seq<u8>) -> Option<(MetadataView, Seq<u8>)> {
    match take_text(input) {
        None => None,
        Some((name, r1)) => match take_mark(r1, COMMA) {
            None => None,
            Some(r2) => match take_text(r2) {
                None => None,
                Some((digest, r3)) => match take_mark(r3, COMMA) {
                    None => None,
                    Some(r4) => match take_text(r4) {
                        None => None,
                        Some((version, r5)) => match take_listed_tail(r5) {
                            None => None,
                            Some((dependencies, rest)) => Some(
                                (MetadataView { name, digest, version, dependencies }, rest),
                            ),
                        },
                    },
                },
            },
        },
    }
}

/// Reads the metadata: an object, or a list of its members' values.
pub open spec fn take_metadata(input: Seq<u8>) -> Option<(MetadataView, Seq<u8>)> {
    match take_mark(input, OPEN_OBJECT) {
        Some(r0) => match take_member(r0, empty_draft()) {
            None => None,
            Some((draft, r1)) => take_members_rest(r1, draft),
        },
        None => match take_mark(input, OPEN_LIST) {
            Some(r0) => take_metadata_listed(r0),
            None => None,
        },
    }
}

/// Reads metadata from its text form. The text must hold exactly one value;
/// only white space may stand before and behind it.
pub open spec fn parse_metadata(text: Seq<u8>) -> Option<MetadataView> {
    match take_metadata(text) {
        None => None,
        Some((metadata, rest)) => if skip_spaces(rest).len() == 0 {
            Some(metadata)
        } else {
            None
        },
    }
}

/// A written string of characters is read back, whatever follows.
pub proof fn lemma_take_text(chars: Seq<char>, rest: Seq<u8>)
    ensures
        take_text(quoted_text(chars) + rest) == Some((chars, rest)),
{
    let input = quoted_text(chars) + rest;
    assert(input[0] == QUOTE);
    lemma_take_string(encode_utf8(chars), rest);
    encode_utf8_valid_utf8(chars);
    encode_utf8_decode_utf8(chars);
}

/// The name of a written member is read back, and what follows is its
/// value.
pub proof fn lemma_take_key(key: Seq<u8>, value: Seq<u8>, rest: Seq<u8>)
    ensures
        take_key(member_text(key, value) + rest) == Some((key, value + rest)),
{
    reveal(member_text);
    let r2 = value + rest;
    let r1 = seq![COLON] + r2;
    let input = quoted(key) + r1;
    assert(member_text(key, value) + rest =~= input);
    assert(input[0] == QUOTE);
    lemma_take_string(key, r1);
    lemma_take_mark(COLON, r2);
}

/// A written member of a dependency is read into a draft that does not hold
/// it yet.
proof fn lemma_take_dependency_member(
    key: Seq<u8>,
    chars: Seq<char>,
    rest: Seq<u8>,
    draft: DependencyDraft,
)
    ensures
        key == name_key() && draft.name is None ==> take_dependency_member(
            member_text(key, quoted_text(chars)) + rest,
            draft,
        ) == Some((DependencyDraft { name: Some(chars), version: draft.version }, rest)),
        key == version_key() && draft.version is None ==> take_dependency_member(
            member_text(key, quoted_text(chars)) + rest,
            draft,
        ) == Some((DependencyDraft { name: draft.name, version: Some(chars) }, rest)),
{
    lemma_take_key(key, quoted_text(chars), rest);
    lemma_take_text(chars, rest);
    assert(name_key().len() != version_key().len());
}

/// A written dependency is read back, whatever follows.
pub proof fn lemma_take_dependency(dependency: DependencyView, rest: Seq<u8>)
    ensures
        take_dependency(dependency_text(dependency) + rest) == Some((dependency, rest)),
{
    let none = DependencyDraft { name: None, version: None };
    let named = DependencyDraft { name: Some(dependency.name), version: None };
    let both = DependencyDraft { name: Some(dependency.name), version: Some(dependency.version) };
    let r3 = seq![CLOSE_OBJECT] + rest;
    let m2 = member_text(version_key(), quoted_text(dependency.version)) + r3;
    let r2 = seq![COMMA] + m2;
    let m1 = member_text(name_key(), quoted_text(dependency.name)) + r2;
    let input = seq![OPEN_OBJECT] + m1;
    assert(dependency_text(dependency) + rest =~= input) by {
        reveal(dependency_text);
    }
    assert(take_mark(input, OPEN_OBJECT) == Some(m1)) by {
        lemma_take_mark(OPEN_OBJECT, m1);
    }
    assert(take_dependency_member(m1, none) == Some((named, r2))) by {
        lemma_take_dependency_member(name_key(), dependency.name, r2, none);
    }
    assert(take_dependency_member(m2, named) == Some((both, r3))) by {
        lemma_take_dependency_member(version_key(), dependency.version, r3, named);
    }
    assert(take_dependency_rest(r3, both) == Some((dependency, rest))) by {
        lemma_take_mark(CLOSE_OBJECT, rest);
    }
    assert(take_dependency_rest(r2, named) == Some((dependency, rest))) by {
        assert(r2[0] == COMMA);
        lemma_other_mark(r2, CLOSE_OBJECT);
        lemma_take_mark(COMMA, m2);
        assert(r3.len() < r2.len());
    }
}

/// One step of reading the list: a comma and a dependency.
proof fn lemma_list_step(
    input: Seq<u8>,
    r1: Seq<u8>,
    r2: Seq<u8>,
    first: DependencyView,
    items: Seq<DependencyView>,
)
    requires
        input == seq![COMMA] + r1,
        take_dependency(r1) == Some((first, r2)),
        r2.len() < input.len(),
    ensures
        take_list_rest(input, items) == take_list_rest(r2, items.push(first)),
{
    assert(input[0] == COMMA);
    lemma_other_mark(input, CLOSE_LIST);
    lemma_take_mark(COMMA, r1);
}

/// What was written behind a dependency is read back, whatever follows.
pub proof fn lemma_take_list_rest(
    dependencies: Seq<DependencyView>,
    items: Seq<DependencyView>,
    rest: Seq<u8>,
)
    ensures
        take_list_rest(list_tail_text(dependencies) + rest, items) == Some(
            (items + dependencies, rest),
        ),
    decreases dependencies.len(),
{
    let input = list_tail_text(dependencies) + rest;
    if dependencies.len() == 0 {
        lemma_take_mark(CLOSE_LIST, rest);
        assert(items + dependencies =~= items);
    } else {
        let first = dependencies[0];
        let others = dependencies.skip(1);
        let r2 = list_tail_text(others) + rest;
        let r1 = dependency_text(first) + r2;
        assert(input == seq![COMMA] + r1) by {
            assert(seq![COMMA] + dependency_text(first) + list_tail_text(others) + rest
                =~= seq![COMMA] + r1);
        }
        lemma_take_dependency(first, r2);
        lemma_take_list_rest(others, items.push(first), rest);
        assert(items.push(first) + others =~= items + dependencies);
        lemma_list_step(input, r1, r2, first, items);
    }
}

/// A written list is read back, whatever follows.
pub proof fn lemma_take_list(dependencies: Seq<DependencyView>, rest: Seq<u8>)
    ensures
        take_list(list_text(dependencies) + rest) == Some((dependencies, rest)),
{
    let input = list_text(dependencies) + rest;
    if dependencies.len() == 0 {
        let r0 = seq![CLOSE_LIST] + rest;
        assert(input =~= seq![OPEN_LIST] + r0);
        lemma_take_mark(OPEN_LIST, r0);
        lemma_take_mark(CLOSE_LIST, rest);
        assert(dependencies =~= Seq::<DependencyView>::empty());
    } else {
        let first = dependencies[0];
        let others = dependencies.skip(1);
        let r1 = list_tail_text(others) + rest;
        let r0 = dependency_text(first) + r1;
        assert(input =~= seq![OPEN_LIST] + r0);
        assert(take_mark(input, OPEN_LIST) == Some(r0)) by {
            lemma_take_mark(OPEN_LIST, r0);
        }
        assert(take_mark(r0, CLOSE_LIST) is None) by {
            reveal(dependency_text);
            assert(r0[0] == OPEN_OBJECT);
            lemma_other_mark(r0, CLOSE_LIST);
        }
        assert(take_dependency(r0) == Some((first, r1))) by {
            lemma_take_dependency(first, r1);
        }
        assert(take_list_rest(r1, seq![first]) == Some((dependencies, rest))) by {
            lemma_take_list_rest(others, seq![first], rest);
            assert(seq![first] + others =~= dependencies);
        }
    }
}

/// A written member that holds text is read into a draft that does not hold
/// it yet.
proof fn lemma_take_text_member(
    key: Seq<u8>,
    chars: Seq<char>,
    rest: Seq<u8>,
    draft: MetadataDraft,
)
    requires
        key == name_key() || key == digest_key() || key == version_key(),
        !holds(draft, key),
    ensures
        take_member(member_text(key, quoted_text(chars)) + rest, draft) == Some(
            (with_text(draft, key, chars), rest),
        ),
{
    lemma_take_key(key, quoted_text(chars), rest);
    lemma_take_text(chars, rest);
    assert(name_key().len() == 4);
    assert(digest_key().len() == 6);
    assert(version_key().len() == 7);
    assert(dependencies_key().len() == 12);
}

/// The written list of dependencies is read into a draft that does not hold
/// one yet.
proof fn lemma_take_list_member(
    dependencies: Seq<DependencyView>,
    rest: Seq<u8>,
    draft: MetadataDraft,
)
    requires
        draft.dependencies is None,
    ensures
        take_member(member_text(dependencies_key(), list_text(dependencies)) + rest, draft)
            == Some(
            (
                MetadataDraft {
                    name: draft.name,
                    digest: draft.digest,
                    version: draft.version,
                    dependencies: Some(dependencies),
                },
                rest,
            ),
        ),
{
    lemma_take_key(dependencies_key(), list_text(dependencies), rest);
    lemma_take_list(dependencies, rest);
    assert(dependencies_key().len() == 12);
}

/// One step of reading the members: a comma and a member.
proof fn lemma_members_step(
    input: Seq<u8>,
    member: Seq<u8>,
    draft: MetadataDraft,
    next: MetadataDraft,
    rest: Seq<u8>,
)
    requires
        input == seq![COMMA] + member,
        take_member(member, draft) == Some((next, rest)),
        rest.len() < input.len(),
    ensures
        take_members_rest(input, draft) == take_members_rest(rest, next),
{
    assert(input[0] == COMMA);
    lemma_other_mark(input, CLOSE_OBJECT);
    lemma_take_mark(COMMA, member);
}

/// What stands behind the list of dependencies in the text form.
spec fn behind_dependencies() -> Seq<u8> {
    seq![CLOSE_OBJECT] + Seq::<u8>::empty()
}

/// What stands behind the version in the text form.
spec fn behind_version(metadata: MetadataView) -> Seq<u8> {
    seq![COMMA] + (member_text(dependencies_key(), list_text(metadata.dependencies))
        + behind_dependencies())
}

/// What stands behind the digest in the text form.
spec fn behind_digest(metadata: MetadataView) -> Seq<u8> {
    seq![COMMA] + (member_text(version_key(), quoted_text(metadata.version)) + behind_version(
        metadata,
    ))
}

/// What stands behind the name in the text form.
spec fn behind_name(metadata: MetadataView) -> Seq<u8> {
    seq![COMMA] + (member_text(digest_key(), quoted_text(metadata.digest)) + behind_digest(
        metadata,
    ))
}

/// The text form is the opening brace, the name, and what stands behind it.
proof fn lemma_metadata_text_shape(metadata: MetadataView)
    ensures
        metadata_text(metadata) == seq![OPEN_OBJECT] + (member_text(
            name_key(),
            quoted_text(metadata.name),
        ) + behind_name(metadata)),
{
    assert(metadata_text(metadata) =~= seq![OPEN_OBJECT] + (member_text(
        name_key(),
        quoted_text(metadata.name),
    ) + behind_name(metadata)));
}

/// The members behind the name are read into a draft that holds the name.
proof fn lemma_take_members_behind_name(metadata: MetadataView)
    ensures
        take_members_rest(
            behind_name(metadata),
            MetadataDraft {
                name: Some(metadata.name),
                digest: None,
                version: None,
                dependencies: None,
            },
        ) == Some((metadata, Seq::<u8>::empty())),
{
    let d1 = MetadataDraft {
        name: Some(metadata.name),
        digest: None,
        version: None,
        dependencies: None,
    };
    let d2 = MetadataDraft {
        name: Some(metadata.name),
        digest: Some(metadata.digest),
        version: None,
        dependencies: None,
    };
    let d3 = MetadataDraft {
        name: Some(metadata.name),
        digest: Some(metadata.digest),
        version: Some(metadata.version),
        dependencies: None,
    };
    let d4 = MetadataDraft {
        name: Some(metadata.name),
        digest: Some(metadata.digest),
        version: Some(metadata.version),
        dependencies: Some(metadata.dependencies),
    };
    let end = Seq::<u8>::empty();
    let r4 = behind_dependencies();
    let m4 = member_text(dependencies_key(), list_text(metadata.dependencies)) + r4;
    let r3 = behind_version(metadata);
    let m3 = member_text(version_key(), quoted_text(metadata.version)) + r3;
    let r2 = behind_digest(metadata);
    let m2 = member_text(digest_key(), quoted_text(metadata.digest)) + r2;
    let r1 = behind_name(metadata);
    assert(take_members_rest(r4, d4) == Some((metadata, end))) by {
        lemma_take_mark(CLOSE_OBJECT, end);
        assert(finish_metadata(d4) == Some(metadata));
    }
    assert(take_members_rest(r3, d3) == Some((metadata, end))) by {
        lemma_take_list_member(metadata.dependencies, r4, d3);
        lemma_members_step(r3, m4, d3, d4, r4);
    }
    assert(take_members_rest(r2, d2) == Some((metadata, end))) by {
        assert(version_key().len() != name_key().len());
        assert(version_key().len() != digest_key().len());
        lemma_take_text_member(version_key(), metadata.version, r3, d2);
        lemma_members_step(r2, m3, d2, d3, r3);
    }
    assert(take_members_rest(r1, d1) == Some((metadata, end))) by {
        assert(digest_key().len() != name_key().len());
        assert(digest_key().len() != version_key().len());
        lemma_take_text_member(digest_key(), metadata.digest, r2, d1);
        lemma_members_step(r1, m2, d1, d2, r2);
    }
}

/// Reading the text form of metadata gives the metadata back.
pub proof fn lemma_parse_metadata(metadata: MetadataView)
    ensures
        parse_metadata(metadata_text(metadata)) == Some(metadata),
{
    let d1 = MetadataDraft {
        name: Some(metadata.name),
        digest: None,
        version: None,
        dependencies: None,
    };
    let r1 = behind_name(metadata);
    let m1 = member_text(name_key(), quoted_text(metadata.name)) + r1;
    lemma_metadata_text_shape(metadata);
    assert(take_mark(seq![OPEN_OBJECT] + m1, OPEN_OBJECT) == Some(m1)) by {
        lemma_take_mark(OPEN_OBJECT, m1);
    }
    assert(take_member(m1, empty_draft()) == Some((d1, r1))) by {
        lemma_take_text_member(name_key(), metadata.name, r1, empty_draft());
    }
    lemma_take_members_behind_name(metadata);
}

/// The bytes of `name`.
fn name_key_bytes() -> (literal: [u8; 4])
    ensures
        literal@ == name_key(),
{
    let literal: [u8; 4] = ['n' as u8, 'a' as u8, 'm' as u8, 'e' as u8];
    assert(literal@ =~= name_key());
    literal
}

/// The bytes of `digest`.
fn digest_key_bytes() -> (literal: [u8; 6])
    ensures
        literal@ == digest_key(),
{
    let literal: [u8; 6] = ['d' as u8, 'i' as u8, 'g' as u8, 'e' as u8, 's' as u8, 't' as u8];
    assert(literal@ =~= digest_key());
    literal
}

/// The bytes of `version`.
fn version_key_bytes() -> (literal: [u8; 7])
    ensures
        literal@ == version_key(),
{
    let literal: [u8; 7] = ['v' as u8, 'e' as u8, 'r' as u8, 's' as u8, 'i' as u8, 'o' as u8, 'n' as u8];
    assert(literal@ =~= version_key());
    literal
}

/// The bytes of `dependencies`.
fn dependencies_key_bytes() -> (literal: [u8; 12])
    ensures
        literal@ == dependencies_key(),
{
    let literal: [u8; 12] = ['d' as u8, 'e' as u8, 'p' as u8, 'e' as u8, 'n' as u8, 'd' as u8, 'e' as u8, 'n' as u8, 'c' as u8, 'i' as u8, 'e' as u8, 's' as u8];
    assert(literal@ =~= dependencies_key());
    literal
}

/// The members of a dependency that have been read so far.
struct DependencyParts {
    name: Option<String>,
    version: Option<String>,
}

/// The members of the metadata that have been read so far.
struct MetadataParts {
    name: Option<String>,
    digest: Option<String>,
    version: Option<String>,
    dependencies: Option<Vec<DependencySpec>>,
}

/// The characters of a text that may be missing.
pub open spec fn text_view(text: Option<String>) -> Option<Seq<char>> {
    match text {
        Some(text) => Some(text@),
        None => None,
    }
}

/// The values of a list that may be missing.
pub open spec fn list_view(list: Option<Vec<DependencySpec>>) -> Option<Seq<DependencyView>> {
    match list {
        Some(list) => Some(dependency_views(list@)),
        None => None,
    }
}

impl View for DependencyParts {
    type V = DependencyDraft;

    closed spec fn view(&self) -> DependencyDraft {
        DependencyDraft { name: text_view(self.name), version: text_view(self.version) }
    }
}

impl View for MetadataParts {
    type V = MetadataDraft;

    closed spec fn view(&self) -> MetadataDraft {
        MetadataDraft {
            name: text_view(self.name),
            digest: text_view(self.digest),
            version: text_view(self.version),
            dependencies: list_view(self.dependencies),
        }
    }
}

/// Appends the name of a member and the colon behind it.
fn put_key(out: &mut Vec<u8>, key: &[u8])
    ensures
        final(out)@ == old(out)@ + quoted(key@) + seq![COLON],
{
    put_quoted(out, key);
    out.push(COLON);
}

/// Appends `text` as a quoted string.
fn put_text(out: &mut Vec<u8>, text: &str)
    ensures
        final(out)@ == old(out)@ + quoted_text(text@),
{
    put_quoted(out, text.as_bytes());
}

/// Appends a member that holds text.
fn put_text_member(out: &mut Vec<u8>, key: &[u8], text: &str)
    ensures
        final(out)@ == old(out)@ + member_text(key@, quoted_text(text@)),
{
    put_key(out, key);
    put_text(out, text);
    reveal(member_text);
    assert(out@ =~= old(out)@ + member_text(key@, quoted_text(text@)));
}

/// Appends one dependency.
fn put_dependency(out: &mut Vec<u8>, dependency: &DependencySpec)
    ensures
        final(out)@ == old(out)@ + dependency_text(dependency@),
{
    out.push(OPEN_OBJECT);
    put_text_member(out, name_key_bytes().as_slice(), dependency.name.as_str());
    out.push(COMMA);
    put_text_member(out, version_key_bytes().as_slice(), dependency.version.as_str());
    out.push(CLOSE_OBJECT);
    reveal(dependency_text);
    assert(out@ =~= old(out)@ + dependency_text(dependency@));
}

/// Appends the list of dependencies.
fn put_list(out: &mut Vec<u8>, dependencies: &Vec<DependencySpec>)
    ensures
        final(out)@ == old(out)@ + list_text(dependency_views(dependencies@)),
{
    let ghost before = out@;
    let ghost views = dependency_views(dependencies@);
    out.push(OPEN_LIST);
    if dependencies.len() == 0 {
        out.push(CLOSE_LIST);
        assert(out@ =~= before + list_text(views));
        return ;
    }
    put_dependency(out, &dependencies[0]);
    assert(before + list_text(views) =~= out@ + list_tail_text(views.skip(1)));
    let mut i: usize = 1;
    while i < dependencies.len()
        invariant
            1 <= i <= dependencies@.len(),
            views == dependency_views(dependencies@),
            before + list_text(views) == out@ + list_tail_text(views.skip(i as int)),
        decreases dependencies@.len() - i,
    {
        let ghost prior = out@;
        out.push(COMMA);
        put_dependency(out, &dependencies[i]);
        proof {
            let here = views.skip(i as int);
            assert(here[0] == dependencies@[i as int]@);
            assert(here.skip(1) =~= views.skip(i + 1));
            assert(prior + list_tail_text(here) =~= out@ + list_tail_text(views.skip(i + 1)));
        }
        i += 1;
    }
    out.push(CLOSE_LIST);
    assert(out@ =~= before + list_text(views));
}

/// Reads a quoted string of characters at `at`, behind any white space.
fn read_text(input: &[u8], at: usize) -> (r: Option<(String, usize)>)
    requires
        at <= input@.len(),
    ensures
        match take_text(input@.skip(at as int)) {
            Some((chars, rest)) => r matches Some((text, next)) && text@ == chars && at < next
                && next <= input@.len() && rest == input@.skip(next as int),
            None => r is None,
        },
{
    match read_spaced_string(input, at) {
        None => None,
        Some((content, next)) => match string_from_utf8(content) {
            None => None,
            Some(text) => Some((text, next)),
        },
    }
}

/// Reads the name of a member at `at` and the colon behind it.
fn read_key(input: &[u8], at: usize) -> (r: Option<(Vec<u8>, usize)>)
    requires
        at <= input@.len(),
    ensures
        match take_key(input@.skip(at as int)) {
            Some((key, rest)) => r matches Some((k, next)) && k@ == key && at < next && next
                <= input@.len() && rest == input@.skip(next as int),
            None => r is None,
        },
{
    let Some((key, at1)) = read_spaced_string(input, at) else {
        return None;
    };
    let Some(at2) = read_mark(input, at1, COLON) else {
        return None;
    };
    Some((key, at2))
}

/// Reads one member of a dependency at `at` into `parts`.
fn read_dependency_member(input: &[u8], at: usize, parts: DependencyParts) -> (r: Option<
    (DependencyParts, usize),
>)
    requires
        at <= input@.len(),
    ensures
        match take_dependency_member(input@.skip(at as int), parts@) {
            Some((draft, rest)) => r matches Some((found, next)) && found@ == draft && at < next
                && next <= input@.len() && rest == input@.skip(next as int),
            None => r is None,
        },
{
    let Some((key, at1)) = read_key(input, at) else {
        return None;
    };
    if same_bytes(key.as_slice(), name_key_bytes().as_slice()) {
        let Some((text, at2)) = read_text(input, at1) else {
            return None;
        };
        if parts.name.is_some() {
            return None;
        }
        Some((DependencyParts { name: Some(text), version: parts.version }, at2))
    } else if same_bytes(key.as_slice(), version_key_bytes().as_slice()) {
        let Some((text, at2)) = read_text(input, at1) else {
            return None;
        };
        if parts.version.is_some() {
            return None;
        }
        Some((DependencyParts { name: parts.name, version: Some(text) }, at2))
    } else {
        if string_from_utf8(key).is_none() {
            return None;
        }
        let Some(at2) = read_ignored(input, at1) else {
            return None;
        };
        Some((parts, at2))
    }
}

/// Reads a dependency that is written as a list, behind its opening
/// bracket at `at`.
fn read_dependency_listed(input: &[u8], at: usize) -> (r: Option<(DependencySpec, usize)>)
    requires
        at <= input@.len(),
    ensures
        match take_dependency_listed(input@.skip(at as int)) {
            Some((dependency, rest)) => r matches Some((d, next)) && d@ == dependency && at < next
                && next <= input@.len() && rest == input@.skip(next as int),
            None => r is None,
        },
{
    let Some((name, at1)) = read_text(input, at) else {
        return None;
    };
    let Some(at2) = read_mark(input, at1, COMMA) else {
        return None;
    };
    let Some((version, at3)) = read_text(input, at2) else {
        return None;
    };
    let Some(at4) = read_mark(input, at3, CLOSE_LIST) else {
        return None;
    };
    Some((DependencySpec { name, version }, at4))
}

/// Reads one dependency at `at`.
fn read_dependency(input: &[u8], at: usize) -> (r: Option<(DependencySpec, usize)>)
    requires
        at <= input@.len(),
    ensures
        match take_dependency(input@.skip(at as int)) {
            Some((dependency, rest)) => r matches Some((d, next)) && d@ == dependency && at < next
                && next <= input@.len() && rest == input@.skip(next as int),
            None => r is None,
        },
{
    let Some(at0) = read_mark(input, at, OPEN_OBJECT) else {
        return match read_mark(input, at, OPEN_LIST) {
            Some(at0) => read_dependency_listed(input, at0),
            None => None,
        };
    };
    let Some((first, at1)) = read_dependency_member(
        input,
        at0,
        DependencyParts { name: None, version: None },
    ) else {
        return None;
    };
    let ghost whole = take_dependency(input@.skip(at as int));
    let mut parts = first;
    let mut i: usize = at1;
    loop
        invariant
            at < i <= input@.len(),
            whole == take_dependency(input@.skip(at as int)),
            whole == take_dependency_rest(input@.skip(i as int), parts@),
        decreases input@.len() - i,
    {
        match read_mark(input, i, CLOSE_OBJECT) {
            Some(next) => {
                return match (parts.name, parts.version) {
                    (Some(name), Some(version)) => Some((DependencySpec { name, version }, next)),
                    _ => None,
                };
            },
            None => {},
        }
        let Some(at2) = read_mark(input, i, COMMA) else {
            return None;
        };
        let Some((found, at3)) = read_dependency_member(input, at2, parts) else {
            return None;
        };
        parts = found;
        i = at3;
    }
}

/// Reads the list of dependencies at `at`.
fn read_list(input: &[u8], at: usize) -> (r: Option<(Vec<DependencySpec>, usize)>)
    requires
        at <= input@.len(),
    ensures
        match take_list(input@.skip(at as int)) {
            Some((dependencies, rest)) => r matches Some((list, next)) && dependency_views(list@)
                == dependencies && at < next && next <= input@.len() && rest == input@.skip(
                next as int,
            ),
            None => r is None,
        },
{
    let Some(at0) = read_mark(input, at, OPEN_LIST) else {
        return None;
    };
    let mut list: Vec<DependencySpec> = Vec::new();
    match read_mark(input, at0, CLOSE_LIST) {
        Some(next) => {
            assert(dependency_views(list@) =~= Seq::<DependencyView>::empty());
            return Some((list, next));
        },
        None => {},
    }
    let Some((first, at1)) = read_dependency(input, at0) else {
        return None;
    };
    list.push(first);
    assert(dependency_views(list@) =~= seq![first@]);
    let ghost whole = take_list(input@.skip(at as int));
    let mut i: usize = at1;
    loop
        invariant
            at < i <= input@.len(),
            whole == take_list(input@.skip(at as int)),
            whole == take_list_rest(input@.skip(i as int), dependency_views(list@)),
        decreases input@.len() - i,
    {
        match read_mark(input, i, CLOSE_LIST) {
            Some(next) => {
                return Some((list, next));
            },
            None => {},
        }
        let Some(at2) = read_mark(input, i, COMMA) else {
            return None;
        };
        let Some((dependency, at3)) = read_dependency(input, at2) else {
            return None;
        };
        assert(dependency_views(list@.push(dependency)) =~= dependency_views(list@).push(
            dependency@,
        ));
        list.push(dependency);
        i = at3;
    }
}

/// Reads one member of the metadata at `at` into `parts`.
fn read_member(input: &[u8], at: usize, parts: MetadataParts) -> (r: Option<
    (MetadataParts, usize),
>)
    requires
        at <= input@.len(),
    ensures
        match take_member(input@.skip(at as int), parts@) {
            Some((draft, rest)) => r matches Some((found, next)) && found@ == draft && at < next
                && next <= input@.len() && rest == input@.skip(next as int),
            None => r is None,
        },
{
    let Some((key, at1)) = read_key(input, at) else {
        return None;
    };
    proof {
        assert(name_key().len() == 4);
        assert(digest_key().len() == 6);
        assert(version_key().len() == 7);
        assert(dependencies_key().len() == 12);
    }
    if same_bytes(key.as_slice(), dependencies_key_bytes().as_slice()) {
        let Some((list, at2)) = read_list(input, at1) else {
            return None;
        };
        if parts.dependencies.is_some() {
            return None;
        }
        return Some(
            (
                MetadataParts {
                    name: parts.name,
                    digest: parts.digest,
                    version: parts.version,
                    dependencies: Some(list),
                },
                at2,
            ),
        );
    }
    let is_name = same_bytes(key.as_slice(), name_key_bytes().as_slice());
    let is_digest = same_bytes(key.as_slice(), digest_key_bytes().as_slice());
    let is_version = same_bytes(key.as_slice(), version_key_bytes().as_slice());
    if !(is_name || is_digest || is_version) {
        if string_from_utf8(key).is_none() {
            return None;
        }
        let Some(at2) = read_ignored(input, at1) else {
            return None;
        };
        return Some((parts, at2));
    }
    let Some((text, at2)) = read_text(input, at1) else {
        return None;
    };
    if is_name {
        if parts.name.is_some() {
            return None;
        }
        Some(
            (
                MetadataParts {
                    name: Some(text),
                    digest: parts.digest,
                    version: parts.version,
                    dependencies: parts.dependencies,
                },
                at2,
            ),
        )
    } else if is_digest {
        if parts.digest.is_some() {
            return None;
        }
        Some(
            (
                MetadataParts {
                    name: parts.name,
                    digest: Some(text),
                    version: parts.version,
                    dependencies: parts.dependencies,
                },
                at2,
            ),
        )
    } else {
        if parts.version.is_some() {
            return None;
        }
        Some(
            (
                MetadataParts {
                    name: parts.name,
                    digest: parts.digest,
                    version: Some(text),
                    dependencies: parts.dependencies,
                },
                at2,
            ),
        )
    }
}

/// Reads metadata that are written as a list, behind its opening bracket at
/// `at`.
fn read_metadata_listed(input: &[u8], at: usize) -> (r: Option<(PackageMetadata, usize)>)
    requires
        at <= input@.len(),
    ensures
        match take_metadata_listed(input@.skip(at as int)) {
            Some((metadata, rest)) => r matches Some((m, next)) && m@ == metadata && at < next
                && next <= input@.len() && rest == input@.skip(next as int),
            None => r is None,
        },
{
    let Some((name, at1)) = read_text(input, at) else {
        return None;
    };
    let Some(at2) = read_mark(input, at1, COMMA) else {
        return None;
    };
    let Some((digest, at3)) = read_text(input, at2) else {
        return None;
    };
    let Some(at4) = read_mark(input, at3, COMMA) else {
        return None;
    };
    let Some((version, at5)) = read_text(input, at4) else {
        return None;
    };
    match read_mark(input, at5, CLOSE_LIST) {
        Some(next) => {
            let dependencies: Vec<DependencySpec> = Vec::new();
            assert(dependency_views(dependencies@) =~= Seq::<DependencyView>::empty());
            return Some((PackageMetadata { name, digest, version, dependencies }, next));
        },
        None => {},
    }
    let Some(at6) = read_mark(input, at5, COMMA) else {
        return None;
    };
    let Some((dependencies, at7)) = read_list(input, at6) else {
        return None;
    };
    let Some(at8) = read_mark(input, at7, CLOSE_LIST) else {
        return None;
    };
    Some((PackageMetadata { name, digest, version, dependencies }, at8))
}

/// The metadata that the parts amount to.
fn finish(parts: MetadataParts) -> (r: Option<PackageMetadata>)
    ensures
        match finish_metadata(parts@) {
            Some(metadata) => r is Some && r->0@ == metadata,
            None => r is None,
        },
{
    match (parts.name, parts.version) {
        (Some(name), Some(version)) => {
            let digest = match parts.digest {
                Some(digest) => digest,
                None => String::new(),
            };
            let dependencies = match parts.dependencies {
                Some(dependencies) => dependencies,
                None => Vec::new(),
            };
            assert(parts.dependencies is None ==> dependency_views(dependencies@)
                =~= Seq::<DependencyView>::empty());
            Some(PackageMetadata { name, digest, version, dependencies })
        },
        _ => None,
    }
}

impl PackageMetadata {
    /// Writes the text form.
    pub fn to_text(&self) -> (text: Vec<u8>)
        ensures
            text@ == metadata_text(self@),
    {
        let mut out: Vec<u8> = Vec::new();
        out.push(OPEN_OBJECT);
        put_text_member(&mut out, name_key_bytes().as_slice(), self.name.as_str());
        out.push(COMMA);
        put_text_member(&mut out, digest_key_bytes().as_slice(), self.digest.as_str());
        out.push(COMMA);
        put_text_member(&mut out, version_key_bytes().as_slice(), self.version.as_str());
        out.push(COMMA);
        put_key(&mut out, dependencies_key_bytes().as_slice());
        put_list(&mut out, &self.dependencies);
        out.push(CLOSE_OBJECT);
        reveal(member_text);
        assert(out@ =~= metadata_text(self@));
        out
    }

    /// Reads metadata from its text form; gives nothing where the text is
    /// not of that form.
    pub fn from_text(text: &[u8]) -> (r: Option<PackageMetadata>)
        ensures
            match parse_metadata(text@) {
                Some(metadata) => r is Some && r->0@ == metadata,
                None => r is None,
            },
    {
        assert(text@.skip(0) =~= text@);
        let Some(at0) = read_mark(text, 0, OPEN_OBJECT) else {
            return match read_mark(text, 0, OPEN_LIST) {
                Some(at0) => match read_metadata_listed(text, at0) {
                    Some((metadata, next)) => if skip_space(text, next) == text.len() {
                        Some(metadata)
                    } else {
                        None
                    },
                    None => None,
                },
                None => None,
            };
        };
        let Some((first, at1)) = read_member(
            text,
            at0,
            MetadataParts { name: None, digest: None, version: None, dependencies: None },
        ) else {
            return None;
        };
        let ghost whole = take_members_rest(text@.skip(at1 as int), first@);
        let mut parts = first;
        let mut i: usize = at1;
        loop
            invariant
                i <= text@.len(),
                whole == take_members_rest(text@.skip(i as int), parts@),
                parse_metadata(text@) == match whole {
                    Some((metadata, rest)) => if skip_spaces(rest).len() == 0 {
                        Some(metadata)
                    } else {
                        None
                    },
                    None => None,
                },
            decreases text@.len() - i,
        {
            match read_mark(text, i, CLOSE_OBJECT) {
                Some(next) => {
                    let end = skip_space(text, next);
                    if end != text.len() {
                        return None;
                    }
                    return finish(parts);
                },
                None => {},
            }
            let Some(at2) = read_mark(text, i, COMMA) else {
                return None;
            };
            let Some((found, at3)) = read_member(text, at2, parts) else {
                return None;
            };
            parts = found;
            i = at3;
        }
    }

    /// Whether the version is a semantic version and every dependency names
    /// a requirement.
    pub fn is_well_formed(&self) -> (ok: bool)
        ensures
            ok == self@.well_formed(),
    {
        if !version_parses(self.version.as_str()) {
            return false;
        }
        let mut i: usize = 0;
        while i < self.dependencies.len()
            invariant
                i <= self.dependencies@.len(),
                semver_version_parses(self@.version),
                forall|k: int|
                    0 <= k < i ==> semver_req_parses((#[trigger] self@.dependencies[k]).version),
            decreases self.dependencies@.len() - i,
        {
            if !requirement_parses(self.dependencies[i].version.as_str()) {
                assert(self@.dependencies[i as int].version == self.dependencies@[i as int].version@);
                return false;
            }
            assert(self@.dependencies[i as int].version == self.dependencies@[i as int].version@);
            i += 1;
        }
        true
    }
}

} // verus!
