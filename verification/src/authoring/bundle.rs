//! Bundle ingestion: from a change-set manifest and a way to read each
//! artifact's content, the artifacts with their content hashes, checked
//! against the hashes the manifest declares.

use vstd::prelude::*;
use vstd::string::*;

use crate::assoc::{find_key, map_of};
use crate::authoring::canonical_hash::{compute_artifact_hash_typed, typed_hash};
use crate::authoring::types::{
    artifact_type_text, ArtifactManifestEntry, ArtifactType, AuthoringError, ChangeSetArtifact,
    ChangeSetManifest,
};
use crate::outside::{copy_json, random_uuid};
use crate::text::{join3, join4, join5, join6, text_eq};

verus! {

broadcast use vstd::string::group_string_axioms;

/// An artifact entry as the manifest file writes it.
#[derive(Debug, Clone)]
pub struct RawArtifactEntry {
    /// The artifact type's name.
    pub artifact_type: String,
    /// The file path relative to the bundle root.
    pub path: String,
    /// The content hash the manifest declares, if any.
    pub content_hash: Option<String>,
    /// The ordinal, when not the entry's position.
    pub ordinal: Option<i32>,
    pub metadata: Option<serde_json::Value>,
}

/// A change-set manifest as the manifest file writes it.
#[derive(Debug, Clone)]
pub struct RawManifest {
    pub title: String,
    pub rationale: Option<String>,
    pub depends_on: Vec<u128>,
    pub supersedes: Option<u128>,
    pub artifacts: Vec<RawArtifactEntry>,
}

/// A parsed bundle, ready to be proposed.
#[derive(Debug, Clone)]
pub struct BundleContents {
    pub manifest: ChangeSetManifest,
    pub artifacts: Vec<ChangeSetArtifact>,
}

/// `h` is the typed content hash of `content`.
pub open spec fn is_typed_hash(content: Seq<char>, t: ArtifactType, h: Seq<char>) -> bool {
    h == typed_hash(content, t)
}

/// The ordinal of entry `k`: its own, or its position.
pub open spec fn ordinal_of(e: RawArtifactEntry, k: int) -> int {
    match e.ordinal {
        Some(o) => o as int,
        None => (k as i32) as int,
    }
}

/// Artifact `a` and manifest entry `m` were built from entry `e` at
/// position `k`, with content `c` read for it.
pub open spec fn built_from(e: RawArtifactEntry, k: int, c: Seq<char>, a: ChangeSetArtifact, m: ArtifactManifestEntry) -> bool {
    &&& artifact_type_text(a.artifact_type) == e.artifact_type@
    &&& a.change_set_id == 0
    &&& a.ordinal as int == ordinal_of(e, k)
    &&& a.path is Some && a.path->0@ == e.path@
    &&& a.content@ == c
    &&& is_typed_hash(c, a.artifact_type, a.content_hash@)
    &&& !declared_differs(e, a.content_hash@)
    &&& a.metadata == e.metadata
    &&& m.artifact_type == a.artifact_type
    &&& m.path@ == e.path@
    &&& m.content_hash is Some && m.content_hash->0@ == a.content_hash@
}

/// The entry declares a hash other than `h`.
pub open spec fn declared_differs(e: RawArtifactEntry, h: Seq<char>) -> bool {
    match e.content_hash {
        Some(d) => d@ != h,
        None => false,
    }
}

/// Entry `e` at position `k` was read with the resolver, and artifact `a`
/// and manifest entry `m` were built from what it gave.
pub open spec fn read_and_built<F: Fn(&str, &str) -> Result<String, String>>(
    resolve: F,
    e: RawArtifactEntry,
    k: int,
    a: ChangeSetArtifact,
    m: ArtifactManifestEntry,
) -> bool {
    exists|t: &str, p: &str, c: String|
        t@ == e.artifact_type@ && p@ == e.path@ && #[trigger] resolve.ensures((t, p), Ok(c))
            && built_from(e, k, c@, a, m)
}

/// The message for an entry whose type is unknown.
pub open spec fn unknown_type_message(e: RawArtifactEntry) -> Seq<char> {
    "Unknown artifact type '"@ + e.artifact_type@ + "' for path '"@ + e.path@ + "'"@
}

/// The message for an entry whose content could not be read.
pub open spec fn unresolved_message(e: RawArtifactEntry, reason: Seq<char>) -> Seq<char> {
    "Failed to resolve artifact '"@ + e.path@ + "': "@ + reason
}

/// The message for an entry whose declared hash differs from the computed one.
pub open spec fn mismatch_message(e: RawArtifactEntry, declared: Seq<char>, computed: Seq<char>) -> Seq<char> {
    "Content hash mismatch for '"@ + e.path@ + "': declared="@ + declared + ", computed="@ + computed
}

/// Entry `e` fails with `msg`: its type is unknown, the resolver could
/// not give its content, or its declared hash differs from the computed
/// one.
pub open spec fn entry_fails<F: Fn(&str, &str) -> Result<String, String>>(
    resolve: F,
    e: RawArtifactEntry,
    msg: Seq<char>,
) -> bool {
    ||| (forall|t: ArtifactType| artifact_type_text(t) != e.artifact_type@) && msg == unknown_type_message(e)
    ||| exists|t: &str, p: &str, x: String|
        t@ == e.artifact_type@ && p@ == e.path@ && #[trigger] resolve.ensures((t, p), Err(x)) && msg
            == unresolved_message(e, x@)
    ||| exists|t: &str, p: &str, c: String, ty: ArtifactType, h: Seq<char>|
        t@ == e.artifact_type@ && p@ == e.path@ && #[trigger] resolve.ensures((t, p), Ok(c))
            && artifact_type_text(ty) == e.artifact_type@ && #[trigger] is_typed_hash(c@, ty, h)
            && declared_differs(e, h) && msg == mismatch_message(e, e.content_hash->0@, h)
}

/// Build a bundle from a manifest, reading each artifact's content with
/// `resolve_content(type, path)`. Entries are taken in order; the first
/// entry with an unknown type, unreadable content, or a declared hash that
/// differs from the computed one fails the bundle. Ordinals default to the
/// entry's position; each artifact gets a fresh random id.
pub fn build_bundle<F>(raw: &RawManifest, resolve_content: F) -> (r: Result<BundleContents, AuthoringError>) where
    F: Fn(&str, &str) -> Result<String, String>,

    requires
        forall|t: &str, p: &str| resolve_content.requires((t, p)),
    ensures
        match r {
            Ok(b) => {
                &&& b.manifest.title@ == raw.title@
                &&& b.manifest.rationale == raw.rationale
                &&& b.manifest.depends_on@ == raw.depends_on@
                &&& b.manifest.supersedes == raw.supersedes
                &&& b.artifacts@.len() == raw.artifacts@.len()
                &&& b.manifest.artifacts@.len() == raw.artifacts@.len()
                &&& forall|k: int|
                    0 <= k < raw.artifacts@.len() ==> read_and_built(
                        resolve_content,
                        #[trigger] raw.artifacts@[k],
                        k,
                        b.artifacts@[k],
                        b.manifest.artifacts@[k],
                    )
            },
            Err(AuthoringError::InvalidInput(msg)) => exists|k: int|
                0 <= k < raw.artifacts@.len() && entry_fails(resolve_content, #[trigger] raw.artifacts@[k], msg@),
            Err(_) => false,
        },
{
    let mut artifacts: Vec<ChangeSetArtifact> = Vec::new();
    let mut entries: Vec<ArtifactManifestEntry> = Vec::new();
    let mut idx: usize = 0;
    while idx < raw.artifacts.len()
        invariant
            idx <= raw.artifacts.len(),
            forall|t: &str, p: &str| resolve_content.requires((t, p)),
            artifacts@.len() == idx,
            entries@.len() == idx,
            forall|k: int|
                0 <= k < idx ==> read_and_built(
                    resolve_content,
                    #[trigger] raw.artifacts@[k],
                    k,
                    artifacts@[k],
                    entries@[k],
                ),
        decreases raw.artifacts.len() - idx,
    {
        let entry = &raw.artifacts[idx];
        assert(raw.artifacts@[idx as int] == *entry);
        let artifact_type = match ArtifactType::parse(entry.artifact_type.as_str()) {
            Ok(t) => t,
            Err(_) => {
                let msg = join5(
                    "Unknown artifact type '",
                    entry.artifact_type.as_str(),
                    "' for path '",
                    entry.path.as_str(),
                    "'",
                );
                assert(entry_fails(resolve_content, *entry, msg@));
                return Err(AuthoringError::InvalidInput(msg));
            },
        };
        let t = entry.artifact_type.as_str();
        let p = entry.path.as_str();
        let content = match resolve_content(t, p) {
            Ok(c) => c,
            Err(e) => {
                let msg = join4("Failed to resolve artifact '", p, "': ", e.as_str());
                assert(resolve_content.ensures((t, p), Err(e)));
                assert(msg@ =~= unresolved_message(*entry, e@));
                assert(entry_fails(resolve_content, *entry, msg@));
                return Err(AuthoringError::InvalidInput(msg));
            },
        };
        let ghost c0 = content;
        assert(resolve_content.ensures((t, p), Ok(c0)));
        let content_hash = compute_artifact_hash_typed(content.as_str(), artifact_type);
        assert(is_typed_hash(c0@, artifact_type, content_hash@));
        match &entry.content_hash {
            Some(declared) => {
                if !text_eq(declared.as_str(), content_hash.as_str()) {
                    let msg = join6(
                        "Content hash mismatch for '",
                        p,
                        "': declared=",
                        declared.as_str(),
                        ", computed=",
                        content_hash.as_str(),
                    );
                    assert(msg@ =~= mismatch_message(*entry, declared@, content_hash@));
                    assert(declared_differs(*entry, content_hash@));
                    assert(entry_fails(resolve_content, *entry, msg@));
                    return Err(AuthoringError::InvalidInput(msg));
                }
            },
            None => {},
        }
        let ordinal: i32 = match entry.ordinal {
            Some(o) => o,
            None => #[verifier::truncate] (idx as i32),
        };
        let a = ChangeSetArtifact {
            artifact_id: random_uuid(),
            change_set_id: 0,
            artifact_type,
            ordinal,
            path: Some(entry.path.clone()),
            content,
            content_hash: content_hash.clone(),
            metadata: copy_json(&entry.metadata),
        };
        let m = ArtifactManifestEntry { artifact_type, path: entry.path.clone(), content_hash: Some(content_hash) };
        assert(built_from(*entry, idx as int, c0@, a, m));
        assert(read_and_built(resolve_content, *entry, idx as int, a, m));
        artifacts.push(a);
        entries.push(m);
        assert forall|k: int| 0 <= k < idx + 1 implies read_and_built(
            resolve_content,
            #[trigger] raw.artifacts@[k],
            k,
            artifacts@[k],
            entries@[k],
        ) by {}
        idx += 1;
    }
    let mut depends_on: Vec<u128> = Vec::new();
    let mut j: usize = 0;
    while j < raw.depends_on.len()
        invariant
            j <= raw.depends_on.len(),
            depends_on@ == raw.depends_on@.take(j as int),
        decreases raw.depends_on.len() - j,
    {
        depends_on.push(raw.depends_on[j]);
        assert(raw.depends_on@.take(j + 1) =~= raw.depends_on@.take(j as int).push(raw.depends_on@[j as int]));
        j += 1;
    }
    assert(raw.depends_on@.take(raw.depends_on.len() as int) =~= raw.depends_on@);
    let rationale = match &raw.rationale {
        Some(t) => Some(t.clone()),
        None => None,
    };
    let manifest = ChangeSetManifest {
        title: raw.title.clone(),
        rationale,
        depends_on,
        supersedes: raw.supersedes,
        artifacts: entries,
    };
    Ok(BundleContents { manifest, artifacts })
}

/// The content of a path in a content map, when the map has it.
pub open spec fn mapped(content_map: Seq<(String, String)>, path: Seq<char>) -> Option<Seq<char>> {
    if map_of(content_map).contains_key(path) {
        Some(map_of(content_map)[path]@)
    } else {
        None
    }
}

/// Entry `e` fails with `msg` when its content is read from the map.
pub open spec fn map_entry_fails(content_map: Seq<(String, String)>, e: RawArtifactEntry, msg: Seq<char>) -> bool {
    ||| (forall|t: ArtifactType| artifact_type_text(t) != e.artifact_type@) && msg == unknown_type_message(e)
    ||| mapped(content_map, e.path@) is None && msg == unresolved_message(
        e,
        "Missing content for path '"@ + e.path@ + "'"@,
    )
    ||| exists|ty: ArtifactType, h: Seq<char>|
        mapped(content_map, e.path@) is Some && artifact_type_text(ty) == e.artifact_type@
            && #[trigger] is_typed_hash(mapped(content_map, e.path@)->0, ty, h) && declared_differs(e, h)
            && msg == mismatch_message(e, e.content_hash->0@, h)
}

/// Build a bundle from a manifest and a map from path to content (the
/// first pair of a path counts); a path missing from the map fails the
/// bundle as unreadable.
pub fn build_bundle_from_map(raw: &RawManifest, content_map: &Vec<(String, String)>) -> (r: Result<
    BundleContents,
    AuthoringError,
>)
    ensures
        match r {
            Ok(b) => {
                &&& b.manifest.title@ == raw.title@
                &&& b.manifest.rationale == raw.rationale
                &&& b.manifest.depends_on@ == raw.depends_on@
                &&& b.manifest.supersedes == raw.supersedes
                &&& b.artifacts@.len() == raw.artifacts@.len()
                &&& b.manifest.artifacts@.len() == raw.artifacts@.len()
                &&& forall|k: int|
                    0 <= k < raw.artifacts@.len() ==> mapped(content_map@, (#[trigger] raw.artifacts@[k]).path@)
                        is Some && built_from(
                        raw.artifacts@[k],
                        k,
                        mapped(content_map@, raw.artifacts@[k].path@)->0,
                        b.artifacts@[k],
                        b.manifest.artifacts@[k],
                    )
            },
            Err(AuthoringError::InvalidInput(msg)) => exists|k: int|
                0 <= k < raw.artifacts@.len() && map_entry_fails(content_map@, #[trigger] raw.artifacts@[k], msg@),
            Err(_) => false,
        },
{
    let resolve = |_type_str: &str, path: &str| -> (c: Result<String, String>)
        ensures
            match c {
                Ok(t) => mapped(content_map@, path@) == Some(t@),
                Err(e) => mapped(content_map@, path@) is None && e@ == "Missing content for path '"@ + path@
                    + "'"@,
            },
        {
            match find_key(content_map, path) {
                Some(i) => Ok(content_map[i].1.clone()),
                None => Err(join3("Missing content for path '", path, "'")),
            }
        };
    let r = build_bundle(raw, resolve);
    proof {
        match &r {
            Ok(b) => {
                assert forall|k: int| 0 <= k < raw.artifacts@.len() implies mapped(
                    content_map@,
                    (#[trigger] raw.artifacts@[k]).path@,
                ) is Some && built_from(
                    raw.artifacts@[k],
                    k,
                    mapped(content_map@, raw.artifacts@[k].path@)->0,
                    b.artifacts@[k],
                    b.manifest.artifacts@[k],
                ) by {
                    assert(read_and_built(resolve, raw.artifacts@[k], k, b.artifacts@[k], b.manifest.artifacts@[k]));
                    let (t, p, c) = choose|t: &str, p: &str, c: String|
                        t@ == raw.artifacts@[k].artifact_type@ && p@ == raw.artifacts@[k].path@
                            && #[trigger] resolve.ensures((t, p), Ok(c)) && built_from(
                            raw.artifacts@[k],
                            k,
                            c@,
                            b.artifacts@[k],
                            b.manifest.artifacts@[k],
                        );
                    assert(mapped(content_map@, p@) == Some(c@));
                }
            },
            Err(AuthoringError::InvalidInput(msg)) => {
                let k = choose|k: int| 0 <= k < raw.artifacts@.len() && entry_fails(resolve, #[trigger] raw.artifacts@[k], msg@);
                let e = raw.artifacts@[k];
                if (forall|t: ArtifactType| artifact_type_text(t) != e.artifact_type@) && msg@ == unknown_type_message(e) {
                    assert(map_entry_fails(content_map@, e, msg@));
                } else if exists|t: &str, p: &str, x: String|
                    t@ == e.artifact_type@ && p@ == e.path@ && #[trigger] resolve.ensures((t, p), Err(x)) && msg@
                        == unresolved_message(e, x@) {
                    let (t, p, x) = choose|t: &str, p: &str, x: String|
                        t@ == e.artifact_type@ && p@ == e.path@ && #[trigger] resolve.ensures((t, p), Err(x)) && msg@
                            == unresolved_message(e, x@);
                    assert(mapped(content_map@, e.path@) is None);
                    assert(map_entry_fails(content_map@, e, msg@));
                } else if exists|t: &str, p: &str, c: String, ty: ArtifactType, h: Seq<char>|
                    t@ == e.artifact_type@ && p@ == e.path@ && #[trigger] resolve.ensures((t, p), Ok(c))
                        && artifact_type_text(ty) == e.artifact_type@ && #[trigger] is_typed_hash(c@, ty, h)
                        && declared_differs(e, h) && msg@ == mismatch_message(e, e.content_hash->0@, h) {
                    let (t, p, c, ty, h) = choose|t: &str, p: &str, c: String, ty: ArtifactType, h: Seq<char>|
                        t@ == e.artifact_type@ && p@ == e.path@ && #[trigger] resolve.ensures((t, p), Ok(c))
                            && artifact_type_text(ty) == e.artifact_type@ && #[trigger] is_typed_hash(c@, ty, h)
                            && declared_differs(e, h) && msg@ == mismatch_message(e, e.content_hash->0@, h);
                    assert(mapped(content_map@, e.path@) == Some(c@));
                    assert(is_typed_hash(mapped(content_map@, e.path@)->0, ty, h));
                    assert(map_entry_fails(content_map@, e, msg@));
                }
            },
            Err(_) => {},
        }
    }
    r
}

} // verus!
