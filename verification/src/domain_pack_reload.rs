//! Reloading a Domain Pack's taxonomy: locating the YAML documents the pack
//! owns among the seed files, turning each into its canonical JSON payload,
//! checking the entity kinds it claims, and hashing the surfaces. The files
//! are read by the caller and handed in as (path, text) pairs.

use vstd::prelude::*;

use crate::assoc::{find_key, keys_of, map_of, put_ordered};
use crate::authoring::canonical_hash::{hex_encode, hex_text, lemma_digest_hex_shape, sha256, sha256_digest, sha256_hex_shape};
use crate::authoring::validate_stage1::{yaml_error, yaml_syntax_error};
use crate::domain_pack::{diag_views, validate_domain_pack, validation_diagnostics, DiagnosticView, DomainPackDiagnostic, DomainPackManifest};
use crate::order::strictly_sorted;
use crate::text::{debug_list, debug_texts, join2, join3, join_with, joined_with, owned, texts};

verus! {

broadcast use vstd::string::group_string_axioms;

// ── What is read of a YAML document ─────────────────────────────

/// The string value of a top-level field of the YAML document a text
/// holds; `None` when the text is not YAML, not a mapping, lacks the field,
/// or the field is not a string.
pub uninterp spec fn yaml_str_field(text: Seq<char>, field: Seq<char>) -> Option<Seq<char>>;

/// `serde_yaml::from_str::<serde_yaml::Value>`, then the mapping's entry
/// under the field, read with `as_str`.
#[verifier::external_body]
fn yaml_text_field(text: &str, field: &str) -> (r: Option<String>)
    ensures
        match r {
            Some(s) => yaml_str_field(text@, field@) == Some(s@),
            None => yaml_str_field(text@, field@) is None,
        },
{
    let doc = serde_yaml::from_str::<serde_yaml::Value>(text).ok();
    let value = doc.as_ref().and_then(|v| v.get(field));
    value.and_then(|v| v.as_str()).map(|s| s.to_string())
}

/// The compact JSON text of the YAML document a text holds, converted with
/// `serde_json::to_value` (whose maps keep their keys sorted); `None` when
/// the text is not YAML or the document has no JSON form.
pub uninterp spec fn yaml_payload(text: Seq<char>) -> Option<Seq<char>>;

/// `serde_yaml::from_str::<serde_yaml::Value>`, `serde_json::to_value`,
/// then `serde_json::to_string`.
#[verifier::external_body]
fn yaml_payload_text(text: &str) -> (r: Option<String>)
    ensures
        match r {
            Some(s) => yaml_payload(text@) == Some(s@),
            None => yaml_payload(text@) is None,
        },
{
    let doc = serde_yaml::from_str::<serde_yaml::Value>(text).ok();
    let json = doc.and_then(|v| serde_json::to_value(&v).ok());
    json.and_then(|j| serde_json::to_string(&j).ok())
}

/// The compact JSON text of the body under a top-level key of the YAML
/// document a text holds; `None` when there is no such body or it has no
/// JSON form.
pub uninterp spec fn yaml_entry_payload(text: Seq<char>, key: Seq<char>) -> Option<Seq<char>>;

/// `serde_yaml::from_str::<serde_yaml::Value>`, the mapping's entry under
/// the key, `serde_json::to_value`, then `serde_json::to_string`.
#[verifier::external_body]
fn yaml_entry_payload_text(text: &str, key: &str) -> (r: Option<String>)
    ensures
        match r {
            Some(s) => yaml_entry_payload(text@, key@) == Some(s@),
            None => yaml_entry_payload(text@, key@) is None,
        },
{
    let doc = serde_yaml::from_str::<serde_yaml::Value>(text).ok();
    let body = doc.as_ref().and_then(|v| v.get(key));
    let json = body.and_then(|b| serde_json::to_value(b).ok());
    json.and_then(|j| serde_json::to_string(&j).ok())
}

/// The keys of the top-level mapping of the YAML document a text holds, in
/// the document's order, each as its string when it is one; empty when the
/// text is not YAML or not a mapping.
pub uninterp spec fn yaml_keys(text: Seq<char>) -> Seq<Option<Seq<char>>>;

/// `serde_yaml::from_str::<serde_yaml::Value>`, `as_mapping`, and `as_str`
/// on each key.
#[verifier::external_body]
fn yaml_key_list(text: &str) -> (r: Vec<Option<String>>)
    ensures
        opt_texts(r@) == yaml_keys(text@),
{
    let doc = serde_yaml::from_str::<serde_yaml::Value>(text).ok();
    let map = doc.as_ref().and_then(|v| v.as_mapping());
    match map {
        Some(m) => m.keys().map(|k| k.as_str().map(|s| s.to_string())).collect(),
        None => Vec::new(),
    }
}

/// The items of a top-level sequence field of the YAML document a text
/// holds, each as its string when it is one; empty when there is no such
/// sequence.
pub uninterp spec fn yaml_items(text: Seq<char>, field: Seq<char>) -> Seq<Option<Seq<char>>>;

/// `serde_yaml::from_str::<serde_yaml::Value>`, the field, `as_sequence`,
/// and `as_str` on each item.
#[verifier::external_body]
fn yaml_item_list(text: &str, field: &str) -> (r: Vec<Option<String>>)
    ensures
        opt_texts(r@) == yaml_items(text@, field@),
{
    let doc = serde_yaml::from_str::<serde_yaml::Value>(text).ok();
    let seq = doc.as_ref().and_then(|v| v.get(field)).and_then(|f| f.as_sequence());
    match seq {
        Some(s) => s.iter().map(|i| i.as_str().map(|t| t.to_string())).collect(),
        None => Vec::new(),
    }
}

/// The keys of the mapping under a top-level field of the YAML document a
/// text holds, each as its string when it is one; `None` when the field is
/// not there or not a mapping.
pub uninterp spec fn yaml_field_keys(text: Seq<char>, field: Seq<char>) -> Option<Seq<Option<Seq<char>>>>;

/// `serde_yaml::from_str::<serde_yaml::Value>`, the field, `as_mapping`,
/// and `as_str` on each key.
#[verifier::external_body]
fn yaml_field_key_list(text: &str, field: &str) -> (r: Option<Vec<Option<String>>>)
    ensures
        match r {
            Some(v) => yaml_field_keys(text@, field@) == Some(opt_texts(v@)),
            None => yaml_field_keys(text@, field@) is None,
        },
{
    let doc = serde_yaml::from_str::<serde_yaml::Value>(text).ok();
    let map = doc.as_ref().and_then(|v| v.get(field)).and_then(|f| f.as_mapping());
    map.map(|m| m.keys().map(|k| k.as_str().map(|s| s.to_string())).collect())
}

/// How `{:?}` writes a string: quoted, with quotes, backslashes and
/// unprintable characters escaped.
pub uninterp spec fn debug_str(s: Seq<char>) -> Seq<char>;

/// `format!("{:?}", s)` on a string.
#[verifier::external_body]
fn debug_text(s: &str) -> (r: String)
    ensures
        r@ == debug_str(s@),
{
    format!("{:?}", s)
}

/// How the derived `Debug` writes a diagnostic.
pub open spec fn diagnostic_debug(d: DiagnosticView) -> Seq<char> {
    "DomainPackDiagnostic { code: "@ + debug_str(d.code) + ", message: "@ + debug_str(d.message) + " }"@
}

/// How `{:?}` writes a list of diagnostics: each one's derived `Debug`,
/// separated by `, ` inside brackets.
pub open spec fn diagnostics_debug(ds: Seq<DiagnosticView>) -> Seq<char> {
    "["@ + joined_with(ds.map_values(|d: DiagnosticView| diagnostic_debug(d)), ", "@) + "]"@
}

/// The `{:?}` text of a list of diagnostics.
fn debug_diagnostics(ds: &Vec<DomainPackDiagnostic>) -> (r: String)
    ensures
        r@ == diagnostics_debug(diag_views(ds@)),
{
    let ghost items = diag_views(ds@).map_values(|d: DiagnosticView| diagnostic_debug(d));
    let mut parts: Vec<String> = Vec::new();
    let mut i: usize = 0;
    while i < ds.len()
        invariant
            i <= ds.len(),
            items == diag_views(ds@).map_values(|d: DiagnosticView| diagnostic_debug(d)),
            texts(parts@) == items.take(i as int),
        decreases ds.len() - i,
    {
        let c = debug_text(ds[i].code.as_str());
        let m = debug_text(ds[i].message.as_str());
        let head = join3("DomainPackDiagnostic { code: ", c.as_str(), ", message: ");
        let item = join3(head.as_str(), m.as_str(), " }");
        parts.push(item);
        assert(items.take(i + 1) =~= items.take(i as int).push(items[i as int]));
        assert(texts(parts@) =~= texts(parts@).take(i as int).push(parts@[i as int]@));
        i += 1;
    }
    assert(items.take(ds.len() as int) =~= items);
    let body = join_with(&parts, ", ");
    join3("[", body.as_str(), "]")
}

/// Optional strings as optional texts.
pub open spec fn opt_texts(v: Seq<Option<String>>) -> Seq<Option<Seq<char>>> {
    v.map_values(|o: Option<String>| match o {
        Some(s) => Some(s@),
        None => None,
    })
}

// ── The files ──────────────────────────────────────────────────

/// The YAML files of one directory, sorted by path, as (path, text).
#[derive(Debug, Clone)]
pub struct YamlDir {
    pub dir: String,
    pub files: Vec<(String, String)>,
}

/// The seed files a taxonomy reload reads.
#[derive(Debug, Clone)]
pub struct TaxonomySources {
    pub domain_packs: YamlDir,
    pub dag_taxonomies: YamlDir,
    pub packs: YamlDir,
    pub macros: YamlDir,
    pub state_machines: YamlDir,
    pub constellation_maps: YamlDir,
    pub constellation_families: YamlDir,
    pub universes: YamlDir,
    pub entity_taxonomy_path: String,
    pub entity_taxonomy: String,
}

/// One reloaded surface: where it came from and its canonical payload.
#[derive(Debug, Clone, PartialEq, Eq)]
pub struct DomainPackTaxonomySurface {
    pub path: String,
    pub canonical_payload: String,
}

/// A reloaded Domain Pack taxonomy: the manifest, the hash of its surfaces,
/// and the surfaces by key in ascending key order.
#[derive(Debug, Clone)]
pub struct DomainPackTaxonomyReload {
    pub manifest: DomainPackManifest,
    pub surface_hash: String,
    pub surfaces: Vec<(String, DomainPackTaxonomySurface)>,
}

// ── Finding a document ─────────────────────────────────────────

/// The refusal for a text that does not parse as YAML.
pub open spec fn parse_message(path: Seq<char>) -> Seq<char> {
    "failed to parse yaml "@ + path
}

/// The refusal when no document has the value under any of the fields.
pub open spec fn not_found_message(dir: Seq<char>, fields: Seq<Seq<char>>, expected: Seq<char>) -> Seq<char> {
    "failed to find yaml in "@ + dir + " with any of "@ + debug_list(fields) + " = "@ + expected
}

/// Some field of the document holds the expected string.
pub open spec fn has_field_value(text: Seq<char>, fields: Seq<Seq<char>>, expected: Seq<char>) -> bool {
    exists|k: int| 0 <= k < fields.len() && yaml_str_field(text, #[trigger] fields[k]) == Some(expected)
}

/// Search the files from position `k` on: the first that does not parse
/// is refused, the first whose fields hold the value is found.
pub open spec fn find_from(
    files: Seq<(String, String)>,
    dir: Seq<char>,
    fields: Seq<Seq<char>>,
    expected: Seq<char>,
    k: int,
) -> Result<int, Seq<char>>
    decreases files.len() - k,
{
    if k < 0 || k >= files.len() {
        Err(not_found_message(dir, fields, expected))
    } else if yaml_error(files[k].1@) is Some {
        Err(parse_message(files[k].0@))
    } else if has_field_value(files[k].1@, fields, expected) {
        Ok(k)
    } else {
        find_from(files, dir, fields, expected, k + 1)
    }
}

/// The position of the first document of a directory with `expected` under
/// one of `fields`, refusing a document that does not parse on the way.
pub open spec fn find_spec(d: YamlDir, fields: Seq<Seq<char>>, expected: Seq<char>) -> Result<int, Seq<char>> {
    find_from(d.files@, d.dir@, fields, expected, 0)
}

fn has_field_value_exec(text: &str, fields: &Vec<String>, expected: &str) -> (r: bool)
    ensures
        r == has_field_value(text@, texts(fields@), expected@),
{
    let mut i: usize = 0;
    while i < fields.len()
        invariant
            i <= fields.len(),
            forall|k: int| 0 <= k < i ==> yaml_str_field(text@, #[trigger] texts(fields@)[k]) != Some(expected@),
        decreases fields.len() - i,
    {
        match yaml_text_field(text, fields[i].as_str()) {
            Some(v) => {
                if crate::text::text_eq(v.as_str(), expected) {
                    assert(texts(fields@)[i as int] == fields@[i as int]@);
                    return true;
                }
            },
            None => {},
        }
        assert(texts(fields@)[i as int] == fields@[i as int]@);
        i += 1;
    }
    false
}

/// The position, among a directory's files, of the first YAML document
/// holding `expected` under one of `fields`; a file that does not parse
/// before it is refused, as is a directory where none holds it.
pub fn find_yaml_by_field(d: &YamlDir, fields: &Vec<String>, expected: &str) -> (r: Result<usize, String>)
    ensures
        match r {
            Ok(k) => k < d.files@.len() && find_spec(*d, texts(fields@), expected@) == Ok::<int, Seq<char>>(
                k as int,
            ),
            Err(e) => find_spec(*d, texts(fields@), expected@) == Err::<int, Seq<char>>(e@),
        },
{
    let ghost f = texts(fields@);
    let mut k: usize = 0;
    while k < d.files.len()
        invariant
            k <= d.files.len(),
            f == texts(fields@),
            find_spec(*d, f, expected@) == find_from(d.files@, d.dir@, f, expected@, k as int),
        decreases d.files.len() - k,
    {
        let text = d.files[k].1.as_str();
        match yaml_syntax_error(text) {
            Some(_) => {
                return Err(join2("failed to parse yaml ", d.files[k].0.as_str()));
            },
            None => {},
        }
        if has_field_value_exec(text, fields, expected) {
            return Ok(k);
        }
        k += 1;
    }
    let fd = debug_texts(fields);
    let head = join3("failed to find yaml in ", d.dir.as_str(), " with any of ");
    let tail = join2(" = ", expected);
    let e = join3(head.as_str(), fd.as_str(), tail.as_str());
    assert(e@ =~= not_found_message(d.dir@, f, expected@));
    Err(e)
}

// ── All packs ──────────────────────────────────────────────────

/// The `pack_id` a Domain Pack file declares: a file that does not parse is
/// refused, as is one without a string `pack_id`.
pub open spec fn declared_pack_id_spec(path: Seq<char>, text: Seq<char>) -> Result<Seq<char>, Seq<char>> {
    if yaml_error(text) is Some {
        Err("failed to parse yaml "@ + path)
    } else {
        match yaml_str_field(text, "pack_id"@) {
            Some(id) => Ok(id),
            None => Err("domain pack "@ + path + " does not declare pack_id"@),
        }
    }
}

/// Reads the `pack_id` that the Domain Pack file at `path` declares.
pub fn declared_pack_id(path: &str, text: &str) -> (r: Result<String, String>)
    ensures
        match r {
            Ok(id) => declared_pack_id_spec(path@, text@) == Ok::<Seq<char>, Seq<char>>(id@),
            Err(e) => declared_pack_id_spec(path@, text@) == Err::<Seq<char>, Seq<char>>(e@),
        },
{
    match yaml_syntax_error(text) {
        Some(_) => {
            return Err(join2("failed to parse yaml ", path));
        },
        None => {},
    }
    match yaml_text_field(text, "pack_id") {
        Some(id) => Ok(id),
        None => Err(join3("domain pack ", path, " does not declare pack_id")),
    }
}

/// Records one pack's reload among the reloads of all packs, kept in
/// ascending pack-id order; a pack id recorded before is refused and
/// leaves the record as it was.
pub fn record_pack_reload(
    out: &mut Vec<(String, DomainPackTaxonomyReload)>,
    pack_id: String,
    reload: DomainPackTaxonomyReload,
) -> (r: Result<(), String>)
    requires
        strictly_sorted(keys_of(old(out)@)),
    ensures
        strictly_sorted(keys_of(final(out)@)),
        map_of(old(out)@).contains_key(pack_id@) ==> final(out)@ == old(out)@ && match r {
            Ok(_) => false,
            Err(e) => e@ == "duplicate domain pack id "@ + pack_id@,
        },
        !map_of(old(out)@).contains_key(pack_id@) ==> r is Ok && map_of(final(out)@) == map_of(old(out)@).insert(
            pack_id@,
            reload,
        ),
{
    match find_key(out, pack_id.as_str()) {
        Some(_) => Err(join2("duplicate domain pack id ", pack_id.as_str())),
        None => {
            put_ordered(out, pack_id, reload);
            Ok(())
        },
    }
}

// ── Surfaces ───────────────────────────────────────────────────

/// A surface as texts: key, path and canonical payload.
pub type SurfaceEntry = (Seq<char>, Seq<char>, Seq<char>);

/// The outcome of a step of the reload: the surfaces it adds, or why the
/// reload stops.
pub type StepOutcome = Result<Seq<SurfaceEntry>, Seq<char>>;

/// Surfaces as texts.
pub open spec fn surface_views(v: Seq<(String, DomainPackTaxonomySurface)>) -> Seq<SurfaceEntry> {
    v.map_values(|p: (String, DomainPackTaxonomySurface)| (p.0@, p.1.path@, p.1.canonical_payload@))
}

/// One step after another: the first refusal stops the reload.
pub open spec fn chain(a: StepOutcome, b: StepOutcome) -> StepOutcome {
    match a {
        Err(e) => Err(e),
        Ok(x) => match b {
            Err(e) => Err(e),
            Ok(y) => Ok(x + y),
        },
    }
}

/// Steps in order.
pub open spec fn fold_steps(s: Seq<StepOutcome>) -> StepOutcome
    decreases s.len(),
{
    if s.len() == 0 {
        Ok(Seq::empty())
    } else {
        chain(s[0], fold_steps(s.drop_first()))
    }
}

proof fn lemma_fold_ok(s: Seq<StepOutcome>, i: int, done: Seq<SurfaceEntry>, x: Seq<SurfaceEntry>)
    requires
        0 <= i < s.len(),
        s[i] == Ok::<Seq<SurfaceEntry>, Seq<char>>(x),
    ensures
        chain(Ok(done), fold_steps(s.skip(i))) == chain(Ok(done + x), fold_steps(s.skip(i + 1))),
{
    assert(s.skip(i).drop_first() =~= s.skip(i + 1));
    assert(s.skip(i)[0] == s[i]);
    match fold_steps(s.skip(i + 1)) {
        Ok(y) => {
            assert(done + (x + y) =~= (done + x) + y);
        },
        Err(_) => {},
    }
}

proof fn lemma_fold_err(s: Seq<StepOutcome>, i: int, done: Seq<SurfaceEntry>, e: Seq<char>)
    requires
        0 <= i < s.len(),
        s[i] == Err::<Seq<SurfaceEntry>, Seq<char>>(e),
    ensures
        chain(Ok(done), fold_steps(s.skip(i))) == Err::<Seq<SurfaceEntry>, Seq<char>>(e),
{
    assert(s.skip(i)[0] == s[i]);
}

proof fn lemma_fold_start(s: Seq<StepOutcome>, done: Seq<SurfaceEntry>)
    requires
        done.len() == 0,
    ensures
        fold_steps(s) == chain(Ok(done), fold_steps(s.skip(0))),
{
    assert(s.skip(0) =~= s);
    match fold_steps(s) {
        Ok(y) => {
            assert(done + y =~= y);
        },
        Err(_) => {},
    }
}

proof fn lemma_fold_end(s: Seq<StepOutcome>, done: Seq<SurfaceEntry>)
    ensures
        chain(Ok(done), fold_steps(s.skip(s.len() as int))) == Ok::<Seq<SurfaceEntry>, Seq<char>>(done),
{
    assert(s.skip(s.len() as int).len() == 0);
    assert(done + Seq::<SurfaceEntry>::empty() =~= done);
}

/// The refusal when a document has no JSON form.
pub open spec fn convert_message() -> Seq<char> {
    "failed to convert yaml to json"@
}

/// The surface a payload gives, or the refusal when there is none.
pub open spec fn surface_from(key: Seq<char>, path: Seq<char>, payload: Option<Seq<char>>) -> StepOutcome {
    match payload {
        Some(p) => Ok(seq![(key, path, p)]),
        None => Err(convert_message()),
    }
}

/// The surface of a whole document.
pub open spec fn surface_of(key: Seq<char>, path: Seq<char>, text: Seq<char>) -> StepOutcome {
    surface_from(key, path, yaml_payload(text))
}

/// The surface of the document of a directory found by its fields.
pub open spec fn lookup_surface(d: YamlDir, fields: Seq<Seq<char>>, name: Seq<char>, prefix: Seq<char>) -> StepOutcome {
    match find_spec(d, fields, name) {
        Err(e) => Err(e),
        Ok(k) => surface_of(prefix + name, d.files@[k].0@, d.files@[k].1@),
    }
}

/// The surfaces of the documents found for each name, in order.
pub open spec fn lookup_all(d: YamlDir, fields: Seq<Seq<char>>, names: Seq<Seq<char>>, prefix: Seq<char>) -> StepOutcome {
    fold_steps(Seq::new(names.len(), |i: int| lookup_surface(d, fields, names[i], prefix)))
}

fn push_surface(out: &mut Vec<(String, DomainPackTaxonomySurface)>, key: String, path: String, payload: String)
    ensures
        surface_views(final(out)@) == surface_views(old(out)@).push((key@, path@, payload@)),
{
    out.push((key, DomainPackTaxonomySurface { path, canonical_payload: payload }));
    assert(surface_views(out@) =~= surface_views(old(out)@).push((key@, path@, payload@)));
}

/// Adds the surface of a whole document.
fn add_surface(out: &mut Vec<(String, DomainPackTaxonomySurface)>, key: String, path: &String, text: &String) -> (r: Result<(), String>)
    ensures
        match surface_of(key@, path@, text@) {
            Ok(x) => r is Ok && surface_views(final(out)@) == surface_views(old(out)@) + x,
            Err(e) => r matches Err(m) && m@ == e,
        },
{
    match yaml_payload_text(text.as_str()) {
        Some(p) => {
            let ghost k = key@;
            push_surface(out, key, path.clone(), p);
            assert(surface_views(out@) =~= surface_views(old(out)@) + seq![(k, path@, p@)]);
            Ok(())
        },
        None => Err(owned("failed to convert yaml to json")),
    }
}

/// Adds the surface of the document found for one name.
fn add_lookup(
    out: &mut Vec<(String, DomainPackTaxonomySurface)>,
    d: &YamlDir,
    fields: &Vec<String>,
    name: &String,
    prefix: &str,
) -> (r: Result<(), String>)
    ensures
        match lookup_surface(*d, texts(fields@), name@, prefix@) {
            Ok(x) => r is Ok && surface_views(final(out)@) == surface_views(old(out)@) + x,
            Err(e) => r matches Err(m) && m@ == e,
        },
{
    match find_yaml_by_field(d, fields, name.as_str()) {
        Err(e) => Err(e),
        Ok(k) => add_surface(out, join2(prefix, name.as_str()), &d.files[k].0, &d.files[k].1),
    }
}

/// Adds the surfaces of the documents found for each name, in order.
fn add_lookups(
    out: &mut Vec<(String, DomainPackTaxonomySurface)>,
    d: &YamlDir,
    fields: &Vec<String>,
    names: &Vec<String>,
    prefix: &str,
) -> (r: Result<(), String>)
    ensures
        match lookup_all(*d, texts(fields@), texts(names@), prefix@) {
            Ok(x) => r is Ok && surface_views(final(out)@) == surface_views(old(out)@) + x,
            Err(e) => r matches Err(m) && m@ == e,
        },
{
    let ghost steps = Seq::new(names@.len(), |i: int| lookup_surface(*d, texts(fields@), texts(names@)[i], prefix@));
    let ghost start = surface_views(out@);
    proof {
        assert(lookup_all(*d, texts(fields@), texts(names@), prefix@) == fold_steps(steps));
        lemma_fold_start(steps, Seq::empty());
        assert(surface_views(out@).skip(start.len() as int) =~= Seq::<SurfaceEntry>::empty());
    }
    let mut i: usize = 0;
    while i < names.len()
        invariant
            i <= names.len(),
            steps == Seq::new(names@.len(), |i: int| lookup_surface(*d, texts(fields@), texts(names@)[i], prefix@)),
            surface_views(out@).len() >= start.len(),
            surface_views(out@).take(start.len() as int) == start,
            start == surface_views(old(out)@),
            fold_steps(steps) == chain(Ok(surface_views(out@).skip(start.len() as int)), fold_steps(steps.skip(i as int))),
        decreases names.len() - i,
    {
        let ghost before = surface_views(out@);
        let r = add_lookup(out, d, fields, &names[i], prefix);
        proof {
            assert(texts(names@)[i as int] == names@[i as int]@);
        }
        match r {
            Err(e) => {
                proof {
                    lemma_fold_err(steps, i as int, before.skip(start.len() as int), e@);
                }
                return Err(e);
            },
            Ok(()) => {
                proof {
                    let x = steps[i as int]->Ok_0;
                    lemma_fold_ok(steps, i as int, before.skip(start.len() as int), x);
                    assert(surface_views(out@).skip(start.len() as int) =~= before.skip(start.len() as int) + x);
                    assert(surface_views(out@).take(start.len() as int) =~= before.take(start.len() as int));
                }
            },
        }
        i += 1;
    }
    proof {
        lemma_fold_end(steps, surface_views(out@).skip(start.len() as int));
        assert(surface_views(out@) =~= start + surface_views(out@).skip(start.len() as int));
    }
    Ok(())
}

// ── Macros ─────────────────────────────────────────────────────

/// Macro definitions by name: each name with the position of its file.
pub type MacroIndex = Seq<(Seq<char>, int)>;

/// The index has a definition of `f`.
pub open spec fn index_has(idx: MacroIndex, f: Seq<char>) -> bool {
    exists|j: int| 0 <= j < idx.len() && (#[trigger] idx[j]).0 == f
}

/// The position of the file defining `f`.
pub open spec fn index_file(idx: MacroIndex, f: Seq<char>) -> int
    decreases idx.len(),
{
    if idx.len() == 0 {
        0
    } else if idx[0].0 == f {
        idx[0].1
    } else {
        index_file(idx.drop_first(), f)
    }
}

/// The refusal of a macro defined twice.
pub open spec fn duplicate_macro_message(f: Seq<char>) -> Seq<char> {
    "duplicate macro definition "@ + f
}

/// Adds the string keys of a file to the index, refusing a name defined
/// twice.
pub open spec fn add_keys(acc: Result<MacroIndex, Seq<char>>, keys: Seq<Option<Seq<char>>>, fi: int) -> Result<
    MacroIndex,
    Seq<char>,
>
    decreases keys.len(),
{
    if keys.len() == 0 {
        acc
    } else {
        match add_keys(acc, keys.drop_last(), fi) {
            Err(e) => Err(e),
            Ok(a) => match keys.last() {
                None => Ok(a),
                Some(k) => if index_has(a, k) {
                    Err(duplicate_macro_message(k))
                } else {
                    Ok(a.push((k, fi)))
                },
            },
        }
    }
}

/// The index of the macro definitions of the first `n` files; a file that
/// does not parse is refused.
pub open spec fn macro_index_upto(files: Seq<(String, String)>, n: int) -> Result<MacroIndex, Seq<char>>
    decreases n,
{
    if n <= 0 {
        Ok(Seq::empty())
    } else {
        match macro_index_upto(files, n - 1) {
            Err(e) => Err(e),
            Ok(a) => if yaml_error(files[n - 1].1@) is Some {
                Err(parse_message(files[n - 1].0@))
            } else {
                add_keys(Ok(a), yaml_keys(files[n - 1].1@), n - 1)
            },
        }
    }
}

/// The index as texts.
pub open spec fn index_views(v: Seq<(String, usize)>) -> MacroIndex {
    v.map_values(|p: (String, usize)| (p.0@, p.1 as int))
}

fn index_lookup(idx: &Vec<(String, usize)>, f: &str) -> (r: Option<usize>)
    ensures
        r is Some <==> index_has(index_views(idx@), f@),
        r matches Some(p) ==> p as int == index_file(index_views(idx@), f@),
{
    let ghost v = index_views(idx@);
    assert(v.skip(0) =~= v);
    let mut i: usize = 0;
    while i < idx.len()
        invariant
            i <= idx.len(),
            v == index_views(idx@),
            index_file(v, f@) == index_file(v.skip(i as int), f@),
            forall|j: int| 0 <= j < i ==> (#[trigger] v[j]).0 != f@,
        decreases idx.len() - i,
    {
        proof {
            assert(v.skip(i as int)[0] == v[i as int]);
            assert(v.skip(i as int).drop_first() =~= v.skip(i + 1));
        }
        if crate::text::text_eq(idx[i].0.as_str(), f) {
            return Some(idx[i].1);
        }
        i += 1;
    }
    None
}

proof fn lemma_add_keys_err(acc: Result<MacroIndex, Seq<char>>, ks: Seq<Option<Seq<char>>>, fi: int, m: int, e: Seq<char>)
    requires
        0 <= m <= ks.len(),
        add_keys(acc, ks.take(m), fi) == Err::<MacroIndex, Seq<char>>(e),
    ensures
        add_keys(acc, ks, fi) == Err::<MacroIndex, Seq<char>>(e),
    decreases ks.len() - m,
{
    if m < ks.len() {
        assert(ks.take(m + 1).drop_last() =~= ks.take(m));
        lemma_add_keys_err(acc, ks, fi, m + 1, e);
    } else {
        assert(ks.take(m) =~= ks);
    }
}

proof fn lemma_index_err(files: Seq<(String, String)>, n: int, e: Seq<char>)
    requires
        0 <= n <= files.len(),
        macro_index_upto(files, n) == Err::<MacroIndex, Seq<char>>(e),
    ensures
        macro_index_upto(files, files.len() as int) == Err::<MacroIndex, Seq<char>>(e),
    decreases files.len() - n,
{
    if n < files.len() {
        lemma_index_err(files, n + 1, e);
    }
}

fn build_macro_index(d: &YamlDir) -> (r: Result<Vec<(String, usize)>, String>)
    ensures
        match macro_index_upto(d.files@, d.files@.len() as int) {
            Ok(idx) => r matches Ok(v) && index_views(v@) == idx && forall|j: int|
                0 <= j < v@.len() ==> (#[trigger] v@[j]).1 < d.files@.len(),
            Err(e) => r matches Err(m) && m@ == e,
        },
{
    let mut idx: Vec<(String, usize)> = Vec::new();
    assert(index_views(idx@) =~= Seq::<(Seq<char>, int)>::empty());
    let mut n: usize = 0;
    while n < d.files.len()
        invariant
            n <= d.files.len(),
            macro_index_upto(d.files@, n as int) == Ok::<MacroIndex, Seq<char>>(index_views(idx@)),
            forall|j: int| 0 <= j < idx@.len() ==> (#[trigger] idx@[j]).1 < d.files@.len(),
        decreases d.files.len() - n,
    {
        let text = d.files[n].1.as_str();
        match yaml_syntax_error(text) {
            Some(_) => {
                proof {
                    lemma_index_err(d.files@, n + 1, parse_message(d.files@[n as int].0@));
                }
                return Err(join2("failed to parse yaml ", d.files[n].0.as_str()));
            },
            None => {},
        }
        let keys = yaml_key_list(text);
        let ghost ks = opt_texts(keys@);
        let ghost base = index_views(idx@);
        assert(ks.take(0) =~= Seq::<Option<Seq<char>>>::empty());
        let mut m: usize = 0;
        while m < keys.len()
            invariant
                n < d.files.len(),
                m <= keys.len(),
                ks == opt_texts(keys@),
                add_keys(Ok(base), ks.take(m as int), n as int) == Ok::<MacroIndex, Seq<char>>(index_views(idx@)),
                macro_index_upto(d.files@, n as int) == Ok::<MacroIndex, Seq<char>>(base),
                yaml_error(d.files@[n as int].1@) is None,
                ks == yaml_keys(d.files@[n as int].1@),
                forall|j: int| 0 <= j < idx@.len() ==> (#[trigger] idx@[j]).1 < d.files@.len(),
            decreases keys.len() - m,
        {
            proof {
                assert(ks.take(m + 1).drop_last() =~= ks.take(m as int));
                assert(ks.take(m + 1).last() == ks[m as int]);
            }
            match &keys[m] {
                None => {},
                Some(k) => {
                    match index_lookup(&idx, k.as_str()) {
                        Some(_) => {
                            proof {
                                lemma_add_keys_err(Ok(base), ks, n as int, m + 1, duplicate_macro_message(k@));
                                lemma_index_err(d.files@, n + 1, duplicate_macro_message(k@));
                            }
                            return Err(join2("duplicate macro definition ", k.as_str()));
                        },
                        None => {
                            let ghost before = index_views(idx@);
                            idx.push((k.clone(), n));
                            proof {
                                assert(index_views(idx@) =~= before.push((k@, n as int)));
                            }
                        },
                    }
                },
            }
            m += 1;
        }
        proof {
            assert(ks.take(keys.len() as int) =~= ks);
        }
        n += 1;
    }
    Ok(idx)
}

/// The names the pack allows that are defined macros, in the pack's order.
pub open spec fn macro_fqns(idx: MacroIndex, items: Seq<Option<Seq<char>>>) -> Seq<Seq<char>>
    decreases items.len(),
{
    if items.len() == 0 {
        Seq::empty()
    } else {
        let rest = macro_fqns(idx, items.drop_last());
        match items.last() {
            Some(f) => if index_has(idx, f) {
                rest.push(f)
            } else {
                rest
            },
            None => rest,
        }
    }
}

/// The surface of one macro definition.
pub open spec fn macro_surface(files: Seq<(String, String)>, idx: MacroIndex, f: Seq<char>) -> StepOutcome {
    let fi = index_file(idx, f);
    surface_from("macro:"@ + f, files[fi].0@, yaml_entry_payload(files[fi].1@, f))
}

/// The macro surfaces of an owned pack.
pub open spec fn macro_step(src: TaxonomySources, p: Seq<char>) -> StepOutcome {
    match find_spec(src.packs, seq!["id"@], p) {
        Err(e) => Err(e),
        Ok(k) => match macro_index_upto(src.macros.files@, src.macros.files@.len() as int) {
            Err(e) => Err(e),
            Ok(idx) => {
                let fs = macro_fqns(idx, yaml_items(src.packs.files@[k].1@, "allowed_verbs"@));
                fold_steps(Seq::new(fs.len(), |i: int| macro_surface(src.macros.files@, idx, fs[i])))
            },
        },
    }
}

/// The surfaces of an owned pack: the pack, then its macros.
pub open spec fn pack_step(src: TaxonomySources, p: Seq<char>) -> StepOutcome {
    chain(lookup_surface(src.packs, seq!["id"@], p, "pack:"@), macro_step(src, p))
}

/// The surfaces of all owned packs, in order.
pub open spec fn packs_all(src: TaxonomySources, names: Seq<Seq<char>>) -> StepOutcome {
    fold_steps(Seq::new(names.len(), |i: int| pack_step(src, names[i])))
}

fn one_field(f: &str) -> (r: Vec<String>)
    ensures
        texts(r@) == seq![f@],
{
    let mut v: Vec<String> = Vec::new();
    v.push(owned(f));
    assert(texts(v@) =~= seq![f@]);
    v
}

fn two_fields(f: &str, g: &str) -> (r: Vec<String>)
    ensures
        texts(r@) == seq![f@, g@],
{
    let mut v: Vec<String> = Vec::new();
    v.push(owned(f));
    v.push(owned(g));
    assert(texts(v@) =~= seq![f@, g@]);
    v
}

fn add_macros(out: &mut Vec<(String, DomainPackTaxonomySurface)>, src: &TaxonomySources, p: &String) -> (r: Result<(), String>)
    ensures
        match macro_step(*src, p@) {
            Ok(x) => r is Ok && surface_views(final(out)@) == surface_views(old(out)@) + x,
            Err(e) => r matches Err(m) && m@ == e,
        },
{
    let id_field = one_field("id");
    proof {
        reveal_strlit("id");
    }
    let k = match find_yaml_by_field(&src.packs, &id_field, p.as_str()) {
        Err(e) => {
            return Err(e);
        },
        Ok(k) => k,
    };
    let idx = match build_macro_index(&src.macros) {
        Err(e) => {
            return Err(e);
        },
        Ok(v) => v,
    };
    let ghost iv = index_views(idx@);
    let items = yaml_item_list(src.packs.files[k].1.as_str(), "allowed_verbs");
    let ghost it = opt_texts(items@);
    // the defined macros among the allowed verbs
    let mut fqns: Vec<String> = Vec::new();
    let mut i: usize = 0;
    while i < items.len()
        invariant
            i <= items.len(),
            it == opt_texts(items@),
            iv == index_views(idx@),
            texts(fqns@) == macro_fqns(iv, it.take(i as int)),
            forall|q: int| 0 <= q < fqns@.len() ==> index_has(iv, #[trigger] texts(fqns@)[q]),
        decreases items.len() - i,
    {
        proof {
            assert(it.take(i + 1).drop_last() =~= it.take(i as int));
            assert(it.take(i + 1).last() == it[i as int]);
        }
        match &items[i] {
            None => {},
            Some(f) => {
                if index_lookup(&idx, f.as_str()).is_some() {
                    let ghost before = texts(fqns@);
                    fqns.push(f.clone());
                    proof {
                        assert(texts(fqns@) =~= before.push(f@));
                    }
                }
            },
        }
        i += 1;
    }
    proof {
        assert(it.take(items.len() as int) =~= it);
    }
    let ghost fs = texts(fqns@);
    let ghost steps = Seq::new(fs.len(), |i: int| macro_surface(src.macros.files@, iv, fs[i]));
    let ghost start = surface_views(out@);
    proof {
        assert(texts(id_field@) =~= seq!["id"@]);
        assert(macro_step(*src, p@) == fold_steps(steps));
        lemma_fold_start(steps, Seq::empty());
        assert(surface_views(out@).skip(start.len() as int) =~= Seq::<SurfaceEntry>::empty());
    }
    let mut j: usize = 0;
    while j < fqns.len()
        invariant
            j <= fqns.len(),
            fs == texts(fqns@),
            iv == index_views(idx@),
            forall|q: int| 0 <= q < idx@.len() ==> (#[trigger] idx@[q]).1 < src.macros.files@.len(),
            steps == Seq::new(fs.len(), |i: int| macro_surface(src.macros.files@, iv, fs[i])),
            surface_views(out@).len() >= start.len(),
            surface_views(out@).take(start.len() as int) == start,
            start == surface_views(old(out)@),
            fold_steps(steps) == chain(Ok(surface_views(out@).skip(start.len() as int)), fold_steps(steps.skip(j as int))),
            forall|q: int| 0 <= q < fs.len() ==> index_has(iv, #[trigger] fs[q]),
            macro_step(*src, p@) == fold_steps(steps),
        decreases fqns.len() - j,
    {
        let ghost before = surface_views(out@);
        let f = &fqns[j];
        proof {
            assert(fs[j as int] == f@);
        }
        let fi = match index_lookup(&idx, f.as_str()) {
            Some(fi) => fi,
            None => {
                proof {
                    assert(index_has(iv, fs[j as int]));
                }
                return Err(owned("failed to convert yaml to json"));
            },
        };
        proof {
            assert(idx@.len() > 0);
            let w = choose|q: int| 0 <= q < iv.len() && (#[trigger] iv[q]).0 == f@;
            lemma_index_file_in(iv, f@);
            let q2 = choose|q: int| 0 <= q < iv.len() && iv[q].1 == index_file(iv, f@);
            assert(idx@[q2].1 < src.macros.files@.len());
        }
        let r = match yaml_entry_payload_text(src.macros.files[fi].1.as_str(), f.as_str()) {
            Some(payload) => {
                let ghost key = "macro:"@ + f@;
                push_surface(out, join2("macro:", f.as_str()), src.macros.files[fi].0.clone(), payload);
                Ok(())
            },
            None => Err(owned("failed to convert yaml to json")),
        };
        match r {
            Err(e) => {
                proof {
                    lemma_fold_err(steps, j as int, before.skip(start.len() as int), e@);
                }
                return Err(e);
            },
            Ok(()) => {
                proof {
                    let x = steps[j as int]->Ok_0;
                    lemma_fold_ok(steps, j as int, before.skip(start.len() as int), x);
                    assert(surface_views(out@).skip(start.len() as int) =~= before.skip(start.len() as int) + x);
                    assert(surface_views(out@).take(start.len() as int) =~= before.take(start.len() as int));
                }
            },
        }
        j += 1;
    }
    proof {
        lemma_fold_end(steps, surface_views(out@).skip(start.len() as int));
        assert(surface_views(out@) =~= start + surface_views(out@).skip(start.len() as int));
    }
    Ok(())
}

proof fn lemma_index_file_in(idx: MacroIndex, f: Seq<char>)
    requires
        index_has(idx, f),
    ensures
        exists|q: int| 0 <= q < idx.len() && idx[q].1 == index_file(idx, f),
    decreases idx.len(),
{
    if idx[0].0 == f {
        assert(idx[0].1 == index_file(idx, f));
    } else {
        let w = choose|j: int| 0 <= j < idx.len() && (#[trigger] idx[j]).0 == f;
        assert(idx.drop_first()[w - 1] == idx[w]);
        lemma_index_file_in(idx.drop_first(), f);
        let q = choose|q: int| 0 <= q < idx.drop_first().len() && idx.drop_first()[q].1 == index_file(idx.drop_first(), f);
        assert(idx[q + 1] == idx.drop_first()[q]);
    }
}

fn add_pack(out: &mut Vec<(String, DomainPackTaxonomySurface)>, src: &TaxonomySources, p: &String) -> (r: Result<(), String>)
    ensures
        match pack_step(*src, p@) {
            Ok(x) => r is Ok && surface_views(final(out)@) == surface_views(old(out)@) + x,
            Err(e) => r matches Err(m) && m@ == e,
        },
{
    let id_field = one_field("id");
    assert(texts(id_field@) =~= seq!["id"@]);
    let ghost start = surface_views(out@);
    match add_lookup(out, &src.packs, &id_field, p, "pack:") {
        Err(e) => {
            return Err(e);
        },
        Ok(()) => {},
    }
    let ghost mid = surface_views(out@);
    let r = add_macros(out, src, p);
    proof {
        if r is Ok {
            assert(surface_views(out@) =~= start + (mid.skip(start.len() as int) + surface_views(out@).skip(mid.len() as int)));
        }
    }
    r
}

fn add_packs(out: &mut Vec<(String, DomainPackTaxonomySurface)>, src: &TaxonomySources, names: &Vec<String>) -> (r: Result<(), String>)
    ensures
        match packs_all(*src, texts(names@)) {
            Ok(x) => r is Ok && surface_views(final(out)@) == surface_views(old(out)@) + x,
            Err(e) => r matches Err(m) && m@ == e,
        },
{
    let ghost steps = Seq::new(names@.len(), |i: int| pack_step(*src, texts(names@)[i]));
    let ghost start = surface_views(out@);
    proof {
        lemma_fold_start(steps, Seq::empty());
        assert(surface_views(out@).skip(start.len() as int) =~= Seq::<SurfaceEntry>::empty());
    }
    let mut i: usize = 0;
    while i < names.len()
        invariant
            i <= names.len(),
            steps == Seq::new(names@.len(), |i: int| pack_step(*src, texts(names@)[i])),
            packs_all(*src, texts(names@)) == fold_steps(steps),
            surface_views(out@).len() >= start.len(),
            surface_views(out@).take(start.len() as int) == start,
            start == surface_views(old(out)@),
            fold_steps(steps) == chain(Ok(surface_views(out@).skip(start.len() as int)), fold_steps(steps.skip(i as int))),
        decreases names.len() - i,
    {
        let ghost before = surface_views(out@);
        let r = add_pack(out, src, &names[i]);
        proof {
            assert(texts(names@)[i as int] == names@[i as int]@);
        }
        match r {
            Err(e) => {
                proof {
                    lemma_fold_err(steps, i as int, before.skip(start.len() as int), e@);
                }
                return Err(e);
            },
            Ok(()) => {
                proof {
                    let x = steps[i as int]->Ok_0;
                    lemma_fold_ok(steps, i as int, before.skip(start.len() as int), x);
                    assert(surface_views(out@).skip(start.len() as int) =~= before.skip(start.len() as int) + x);
                    assert(surface_views(out@).take(start.len() as int) =~= before.take(start.len() as int));
                }
            },
        }
        i += 1;
    }
    proof {
        lemma_fold_end(steps, surface_views(out@).skip(start.len() as int));
        assert(surface_views(out@) =~= start + surface_views(out@).skip(start.len() as int));
    }
    Ok(())
}

// ── Entity kinds ───────────────────────────────────────────────

/// The string keys among optional ones, in order.
pub open spec fn string_keys(keys: Seq<Option<Seq<char>>>) -> Seq<Seq<char>>
    decreases keys.len(),
{
    if keys.len() == 0 {
        Seq::empty()
    } else {
        let rest = string_keys(keys.drop_last());
        match keys.last() {
            Some(k) => rest.push(k),
            None => rest,
        }
    }
}

/// The first owned kind that is not among the keys.
pub open spec fn first_unknown(owned: Seq<Seq<char>>, keys: Seq<Seq<char>>) -> Option<Seq<char>>
    decreases owned.len(),
{
    if owned.len() == 0 {
        None
    } else if keys.contains(owned[0]) {
        first_unknown(owned.drop_first(), keys)
    } else {
        Some(owned[0])
    }
}

/// The refusal of an owned entity kind the taxonomy does not define.
pub open spec fn unknown_kind_message(k: Seq<char>) -> Seq<char> {
    "domain pack owns unknown entity kind "@ + k
}

/// Every entity kind a pack owns must be defined by the entity taxonomy;
/// the first one that is not is refused.
pub fn validate_owned_entity_kinds(entity_keys: &Vec<String>, owned: &Vec<String>) -> (r: Result<(), String>)
    ensures
        r is Ok <==> forall|k: int| 0 <= k < owned@.len() ==> texts(entity_keys@).contains(#[trigger] owned@[k]@),
        match first_unknown(texts(owned@), texts(entity_keys@)) {
            None => r is Ok,
            Some(x) => r matches Err(e) && e@ == unknown_kind_message(x),
        },
{
    let ghost o = texts(owned@);
    let ghost ks = texts(entity_keys@);
    assert(o.skip(0) =~= o);
    let mut i: usize = 0;
    while i < owned.len()
        invariant
            i <= owned.len(),
            o == texts(owned@),
            ks == texts(entity_keys@),
            first_unknown(o, ks) == first_unknown(o.skip(i as int), ks),
            forall|k: int| 0 <= k < i ==> ks.contains(#[trigger] owned@[k]@),
        decreases owned.len() - i,
    {
        proof {
            assert(o.skip(i as int)[0] == o[i as int]);
            assert(o.skip(i as int).drop_first() =~= o.skip(i + 1));
            assert(o[i as int] == owned@[i as int]@);
        }
        if !crate::text::contains_text(entity_keys, owned[i].as_str()) {
            return Err(join2("domain pack owns unknown entity kind ", owned[i].as_str()));
        }
        i += 1;
    }
    assert(o.skip(i as int).len() == 0);
    Ok(())
}

/// The refusal of an entity taxonomy without an `entities` mapping.
pub open spec fn no_entities_message() -> Seq<char> {
    "entity taxonomy does not declare entities"@
}

/// The entity taxonomy's surface, once the owned kinds are checked.
pub open spec fn entity_step(src: TaxonomySources, owned: Seq<Seq<char>>) -> StepOutcome {
    let path = src.entity_taxonomy_path@;
    let text = src.entity_taxonomy@;
    if yaml_error(text) is Some {
        Err(parse_message(path))
    } else {
        match yaml_field_keys(text, "entities"@) {
            None => Err(no_entities_message()),
            Some(keys) => match first_unknown(owned, string_keys(keys)) {
                Some(k) => Err(unknown_kind_message(k)),
                None => surface_of("ontology:entity_taxonomy"@, path, text),
            },
        }
    }
}

fn strings_of(keys: &Vec<Option<String>>) -> (r: Vec<String>)
    ensures
        texts(r@) == string_keys(opt_texts(keys@)),
{
    let ghost ks = opt_texts(keys@);
    let mut r: Vec<String> = Vec::new();
    let mut i: usize = 0;
    while i < keys.len()
        invariant
            i <= keys.len(),
            ks == opt_texts(keys@),
            texts(r@) == string_keys(ks.take(i as int)),
        decreases keys.len() - i,
    {
        proof {
            assert(ks.take(i + 1).drop_last() =~= ks.take(i as int));
            assert(ks.take(i + 1).last() == ks[i as int]);
        }
        match &keys[i] {
            Some(k) => {
                let ghost before = texts(r@);
                r.push(k.clone());
                assert(texts(r@) =~= before.push(k@));
            },
            None => {},
        }
        i += 1;
    }
    assert(ks.take(keys.len() as int) =~= ks);
    r
}

fn add_entity_taxonomy(out: &mut Vec<(String, DomainPackTaxonomySurface)>, src: &TaxonomySources, kinds: &Vec<String>) -> (r: Result<(), String>)
    ensures
        match entity_step(*src, texts(kinds@)) {
            Ok(x) => r is Ok && surface_views(final(out)@) == surface_views(old(out)@) + x,
            Err(e) => r matches Err(m) && m@ == e,
        },
{
    let text = src.entity_taxonomy.as_str();
    match yaml_syntax_error(text) {
        Some(_) => {
            return Err(join2("failed to parse yaml ", src.entity_taxonomy_path.as_str()));
        },
        None => {},
    }
    let keys = match yaml_field_key_list(text, "entities") {
        None => {
            return Err(owned("entity taxonomy does not declare entities"));
        },
        Some(k) => k,
    };
    let names = strings_of(&keys);
    match validate_owned_entity_kinds(&names, kinds) {
        Err(e) => {
            return Err(e);
        },
        Ok(()) => {},
    }
    add_surface(out, owned("ontology:entity_taxonomy"), &src.entity_taxonomy_path, &src.entity_taxonomy)
}

// ── Hash and order ─────────────────────────────────────────────

/// The text that is hashed: each surface's key and payload, each followed
/// by a line break, in order.
pub open spec fn hash_input(pairs: Seq<(Seq<char>, Seq<char>)>) -> Seq<char>
    decreases pairs.len(),
{
    if pairs.len() == 0 {
        Seq::empty()
    } else {
        hash_input(pairs.drop_last()) + pairs.last().0 + "\n"@ + pairs.last().1 + "\n"@
    }
}

/// Pairs of strings as texts.
pub open spec fn pair_views(v: Seq<(String, String)>) -> Seq<(Seq<char>, Seq<char>)> {
    v.map_values(|p: (String, String)| (p.0@, p.1@))
}

/// The hash of a pack's surfaces: lower-case hex SHA-256 of each key and
/// canonical payload, each followed by a line break, in the order given.
pub fn taxonomy_surface_hash(surfaces: &Vec<(String, String)>) -> (r: String)
    ensures
        r@ == hex_text(sha256(vstd::utf8::encode_utf8(hash_input(pair_views(surfaces@))))),
        sha256_hex_shape(r@),
{
    let ghost pv = pair_views(surfaces@);
    let mut text = String::new();
    let mut i: usize = 0;
    while i < surfaces.len()
        invariant
            i <= surfaces.len(),
            pv == pair_views(surfaces@),
            text@ == hash_input(pv.take(i as int)),
        decreases surfaces.len() - i,
    {
        proof {
            assert(pv.take(i + 1).drop_last() =~= pv.take(i as int));
            assert(pv.take(i + 1).last() == pv[i as int]);
        }
        text.append(surfaces[i].0.as_str());
        text.append("\n");
        text.append(surfaces[i].1.as_str());
        text.append("\n");
        i += 1;
    }
    assert(pv.take(surfaces.len() as int) =~= pv);
    let digest = sha256_digest(text.as_str().as_bytes());
    proof {
        lemma_digest_hex_shape(digest@);
    }
    hex_encode(&digest)
}

/// The surfaces as a map from key to (path, payload); a later surface of a
/// key replaces an earlier one.
pub open spec fn surface_map(e: Seq<SurfaceEntry>) -> Map<Seq<char>, (Seq<char>, Seq<char>)>
    decreases e.len(),
{
    if e.len() == 0 {
        Map::empty()
    } else {
        surface_map(e.drop_last()).insert(e.last().0, (e.last().1, e.last().2))
    }
}

/// The map a list of surfaces stands for, as texts.
pub open spec fn surface_map_of(list: Seq<(String, DomainPackTaxonomySurface)>) -> Map<Seq<char>, (Seq<char>, Seq<char>)> {
    map_of(list).map_values(|s: DomainPackTaxonomySurface| (s.path@, s.canonical_payload@))
}

fn order_surfaces(entries: &Vec<(String, DomainPackTaxonomySurface)>) -> (r: Vec<(String, DomainPackTaxonomySurface)>)
    ensures
        strictly_sorted(keys_of(r@)),
        surface_map_of(r@) == surface_map(surface_views(entries@)),
{
    let ghost ev = surface_views(entries@);
    let mut r: Vec<(String, DomainPackTaxonomySurface)> = Vec::new();
    proof {
        assert(keys_of(r@) =~= Seq::<Seq<char>>::empty());
        assert(surface_map_of(r@) =~= Map::<Seq<char>, (Seq<char>, Seq<char>)>::empty());
        assert(ev.take(0).len() == 0);
    }
    let mut i: usize = 0;
    while i < entries.len()
        invariant
            i <= entries.len(),
            ev == surface_views(entries@),
            strictly_sorted(keys_of(r@)),
            surface_map_of(r@) == surface_map(ev.take(i as int)),
        decreases entries.len() - i,
    {
        proof {
            assert(ev.take(i + 1).drop_last() =~= ev.take(i as int));
            assert(ev.take(i + 1).last() == ev[i as int]);
        }
        let e = &entries[i];
        let ghost old_map = map_of(r@);
        let surface = DomainPackTaxonomySurface { path: e.1.path.clone(), canonical_payload: e.1.canonical_payload.clone() };
        let ghost sv = (surface.path@, surface.canonical_payload@);
        let key = e.0.clone();
        let ghost kv = key@;
        put_ordered(&mut r, key, surface);
        proof {
            assert(surface_map_of(r@) =~= old_map.map_values(|s: DomainPackTaxonomySurface| (s.path@, s.canonical_payload@)).insert(kv, sv));
        }
        i += 1;
    }
    assert(ev.take(entries.len() as int) =~= ev);
    r
}

// ── The reload ─────────────────────────────────────────────────

/// The refusal of a manifest that fails validation.
pub open spec fn invalid_pack_message(pack_id: Seq<char>, m: DomainPackManifest) -> Seq<char> {
    "domain pack "@ + pack_id + " failed validation: "@ + diagnostics_debug(validation_diagnostics(m))
}

/// Whether the pack's own document is found among the domain packs.
pub open spec fn pack_found_step(src: TaxonomySources, pack_id: Seq<char>) -> StepOutcome {
    match find_spec(src.domain_packs, seq!["pack_id"@], pack_id) {
        Err(e) => Err(e),
        Ok(_) => Ok(Seq::empty()),
    }
}

/// Whether the manifest passes validation.
pub open spec fn valid_step(pack_id: Seq<char>, m: DomainPackManifest) -> StepOutcome {
    if validation_diagnostics(m).len() == 0 {
        Ok(Seq::empty())
    } else {
        Err(invalid_pack_message(pack_id, m))
    }
}

/// The surfaces of a pack's taxonomy in the order they are read, or the
/// first refusal: the pack's document must be found and its manifest valid;
/// then come the pack's document, its DAGs, its packs with their macros,
/// its state machines, constellation maps, constellation families and
/// universes, each found by its fields, and last the entity taxonomy, which
/// must define every entity kind the pack owns.
pub open spec fn reload_spec(pack_id: Seq<char>, src: TaxonomySources, m: DomainPackManifest) -> StepOutcome {
    let s0 = chain(pack_found_step(src, pack_id), valid_step(pack_id, m));
    let s1 = chain(s0, lookup_surface(src.domain_packs, seq!["pack_id"@], pack_id, "domain_pack:"@));
    let s2 = chain(s1, lookup_all(src.dag_taxonomies, seq!["dag_id"@, "workspace"@], texts(m.owned_dags@), "dag:"@));
    let s3 = chain(s2, packs_all(src, texts(m.owned_packs@)));
    let s4 = chain(
        s3,
        lookup_all(src.state_machines, seq!["state_machine"@], texts(m.owned_state_machines@), "state_machine:"@),
    );
    let s5 = chain(
        s4,
        lookup_all(
            src.constellation_maps,
            seq!["constellation"@],
            texts(m.owned_constellation_maps@),
            "constellation_map:"@,
        ),
    );
    let s6 = chain(
        s5,
        lookup_all(
            src.constellation_families,
            seq!["family_id"@, "fqn"@],
            texts(m.owned_constellation_families@),
            "constellation_family:"@,
        ),
    );
    let s7 = chain(s6, lookup_all(src.universes, seq!["fqn"@, "universe_id"@], texts(m.owned_universes@), "universe:"@));
    chain(s7, entity_step(src, texts(m.owned_entity_kinds@)))
}

/// The (key, payload) pairs of surfaces.
pub open spec fn key_payloads(v: Seq<(String, DomainPackTaxonomySurface)>) -> Seq<(Seq<char>, Seq<char>)> {
    v.map_values(|p: (String, DomainPackTaxonomySurface)| (p.0@, p.1.canonical_payload@))
}

fn key_payload_list(v: &Vec<(String, DomainPackTaxonomySurface)>) -> (r: Vec<(String, String)>)
    ensures
        pair_views(r@) == key_payloads(v@),
{
    let mut r: Vec<(String, String)> = Vec::new();
    let mut i: usize = 0;
    while i < v.len()
        invariant
            i <= v.len(),
            pair_views(r@) == key_payloads(v@.take(i as int)),
        decreases v.len() - i,
    {
        let ghost before = pair_views(r@);
        r.push((v[i].0.clone(), v[i].1.canonical_payload.clone()));
        assert(pair_views(r@) =~= key_payloads(v@.take(i + 1))) by {
            assert(key_payloads(v@.take(i + 1)) =~= key_payloads(v@.take(i as int)).push(
                (v@[i as int].0@, v@[i as int].1.canonical_payload@),
            ));
            assert(pair_views(r@) =~= before.push((v@[i as int].0@, v@[i as int].1.canonical_payload@)));
        }
        i += 1;
    }
    assert(v@.take(v.len() as int) =~= v@);
    r
}

/// Reload a Domain Pack's taxonomy from its seed files, given the manifest
/// parsed from the pack's own document: the surfaces by key in ascending
/// order, and their hash.
pub fn reload_taxonomy(pack_id: &str, sources: &TaxonomySources, manifest: DomainPackManifest) -> (r: Result<
    DomainPackTaxonomyReload,
    String,
>)
    ensures
        match reload_spec(pack_id@, *sources, manifest) {
            Err(e) => r matches Err(m) && m@ == e,
            Ok(x) => r matches Ok(rl) && {
                &&& rl.manifest == manifest
                &&& strictly_sorted(keys_of(rl.surfaces@))
                &&& surface_map_of(rl.surfaces@) == surface_map(x)
                &&& rl.surface_hash@ == hex_text(
                    sha256(vstd::utf8::encode_utf8(hash_input(key_payloads(rl.surfaces@)))),
                )
                &&& sha256_hex_shape(rl.surface_hash@)
            },
        },
{
    let pack_field = one_field("pack_id");
    assert(texts(pack_field@) =~= seq!["pack_id"@]);
    match find_yaml_by_field(&sources.domain_packs, &pack_field, pack_id) {
        Err(e) => {
            return Err(e);
        },
        Ok(_) => {},
    }
    let report = validate_domain_pack(&manifest);
    if !report.valid {
        let d = debug_diagnostics(&report.diagnostics);
        let head = join3("domain pack ", pack_id, " failed validation: ");
        let e = join2(head.as_str(), d.as_str());
        proof {
            assert(diag_views(report.diagnostics@).len() == report.diagnostics@.len());
            assert(e@ =~= invalid_pack_message(pack_id@, manifest));
        }
        return Err(e);
    }
    let mut out: Vec<(String, DomainPackTaxonomySurface)> = Vec::new();
    assert(surface_views(out@) =~= Seq::<SurfaceEntry>::empty());
    let name = owned(pack_id);
    match add_lookup(&mut out, &sources.domain_packs, &pack_field, &name, "domain_pack:") {
        Err(e) => {
            return Err(e);
        },
        Ok(()) => {},
    }
    let f = two_fields("dag_id", "workspace");
    match add_lookups(&mut out, &sources.dag_taxonomies, &f, &manifest.owned_dags, "dag:") {
        Err(e) => {
            return Err(e);
        },
        Ok(()) => {},
    }
    match add_packs(&mut out, sources, &manifest.owned_packs) {
        Err(e) => {
            return Err(e);
        },
        Ok(()) => {},
    }
    let f = one_field("state_machine");
    match add_lookups(&mut out, &sources.state_machines, &f, &manifest.owned_state_machines, "state_machine:") {
        Err(e) => {
            return Err(e);
        },
        Ok(()) => {},
    }
    let f = one_field("constellation");
    match add_lookups(
        &mut out,
        &sources.constellation_maps,
        &f,
        &manifest.owned_constellation_maps,
        "constellation_map:",
    ) {
        Err(e) => {
            return Err(e);
        },
        Ok(()) => {},
    }
    let f = two_fields("family_id", "fqn");
    match add_lookups(
        &mut out,
        &sources.constellation_families,
        &f,
        &manifest.owned_constellation_families,
        "constellation_family:",
    ) {
        Err(e) => {
            return Err(e);
        },
        Ok(()) => {},
    }
    let f = two_fields("fqn", "universe_id");
    match add_lookups(&mut out, &sources.universes, &f, &manifest.owned_universes, "universe:") {
        Err(e) => {
            return Err(e);
        },
        Ok(()) => {},
    }
    match add_entity_taxonomy(&mut out, sources, &manifest.owned_entity_kinds) {
        Err(e) => {
            return Err(e);
        },
        Ok(()) => {},
    }
    let surfaces = order_surfaces(&out);
    let pairs = key_payload_list(&surfaces);
    let surface_hash = taxonomy_surface_hash(&pairs);
    Ok(DomainPackTaxonomyReload { manifest, surface_hash, surfaces })
}

// ── What a reload always holds ─────────────────────────────────

proof fn lemma_surface_map_has(s: Seq<SurfaceEntry>, i: int)
    requires
        0 <= i < s.len(),
    ensures
        surface_map(s).dom().contains(s[i].0),
    decreases s.len(),
{
    if i < s.len() - 1 {
        lemma_surface_map_has(s.drop_last(), i);
    }
}

proof fn lemma_chain_parts(a: StepOutcome, b: StepOutcome, x: Seq<SurfaceEntry>)
    requires
        chain(a, b) == Ok::<Seq<SurfaceEntry>, Seq<char>>(x),
    ensures
        a is Ok,
        b is Ok,
        forall|e: SurfaceEntry| a->Ok_0.contains(e) ==> x.contains(e),
        forall|e: SurfaceEntry| b->Ok_0.contains(e) ==> x.contains(e),
{
    let xa = a->Ok_0;
    let xb = b->Ok_0;
    assert(x == xa + xb);
    assert forall|e: SurfaceEntry| xa.contains(e) implies x.contains(e) by {
        let k = choose|k: int| 0 <= k < xa.len() && xa[k] == e;
        assert(x[k] == e);
    }
    assert forall|e: SurfaceEntry| xb.contains(e) implies x.contains(e) by {
        let k = choose|k: int| 0 <= k < xb.len() && xb[k] == e;
        assert(x[xa.len() + k] == e);
    }
}

proof fn lemma_fold_parts(s: Seq<StepOutcome>, x: Seq<SurfaceEntry>, i: int)
    requires
        fold_steps(s) == Ok::<Seq<SurfaceEntry>, Seq<char>>(x),
        0 <= i < s.len(),
    ensures
        s[i] is Ok,
        forall|e: SurfaceEntry| s[i]->Ok_0.contains(e) ==> x.contains(e),
    decreases s.len(),
{
    lemma_chain_parts(s[0], fold_steps(s.drop_first()), x);
    if i > 0 {
        let y = fold_steps(s.drop_first())->Ok_0;
        lemma_fold_parts(s.drop_first(), y, i - 1);
        assert(s.drop_first()[i - 1] == s[i]);
    }
}

/// A successful reload is of a valid manifest, and its surfaces include the
/// pack's own document, each DAG it owns, and the entity taxonomy; being a
/// function of the pack id, the files and the manifest, it gives the same
/// result every time on the same files.
pub proof fn lemma_reload_surfaces(pack_id: Seq<char>, src: TaxonomySources, m: DomainPackManifest)
    requires
        reload_spec(pack_id, src, m) is Ok,
    ensures
        validation_diagnostics(m).len() == 0,
        surface_map(reload_spec(pack_id, src, m)->Ok_0).dom().contains("domain_pack:"@ + pack_id),
        surface_map(reload_spec(pack_id, src, m)->Ok_0).dom().contains("ontology:entity_taxonomy"@),
        forall|d: int|
            0 <= d < m.owned_dags@.len() ==> surface_map(reload_spec(pack_id, src, m)->Ok_0).dom().contains(
                "dag:"@ + (#[trigger] m.owned_dags@[d])@,
            ),
{
    let x = reload_spec(pack_id, src, m)->Ok_0;
    let s0 = chain(pack_found_step(src, pack_id), valid_step(pack_id, m));
    let dp = lookup_surface(src.domain_packs, seq!["pack_id"@], pack_id, "domain_pack:"@);
    let s1 = chain(s0, dp);
    let dags = lookup_all(src.dag_taxonomies, seq!["dag_id"@, "workspace"@], texts(m.owned_dags@), "dag:"@);
    let s2 = chain(s1, dags);
    let t3 = packs_all(src, texts(m.owned_packs@));
    let s3 = chain(s2, t3);
    let t4 = lookup_all(src.state_machines, seq!["state_machine"@], texts(m.owned_state_machines@), "state_machine:"@);
    let s4 = chain(s3, t4);
    let t5 = lookup_all(
        src.constellation_maps,
        seq!["constellation"@],
        texts(m.owned_constellation_maps@),
        "constellation_map:"@,
    );
    let s5 = chain(s4, t5);
    let t6 = lookup_all(
        src.constellation_families,
        seq!["family_id"@, "fqn"@],
        texts(m.owned_constellation_families@),
        "constellation_family:"@,
    );
    let s6 = chain(s5, t6);
    let t7 = lookup_all(src.universes, seq!["fqn"@, "universe_id"@], texts(m.owned_universes@), "universe:"@);
    let s7 = chain(s6, t7);
    let ent = entity_step(src, texts(m.owned_entity_kinds@));
    assert(reload_spec(pack_id, src, m) == chain(s7, ent));
    lemma_chain_parts(s7, ent, x);
    let x7 = s7->Ok_0;
    lemma_chain_parts(s6, t7, x7);
    let x6 = s6->Ok_0;
    lemma_chain_parts(s5, t6, x6);
    let x5 = s5->Ok_0;
    lemma_chain_parts(s4, t5, x5);
    let x4 = s4->Ok_0;
    lemma_chain_parts(s3, t4, x4);
    let x3 = s3->Ok_0;
    lemma_chain_parts(s2, t3, x3);
    let x2 = s2->Ok_0;
    lemma_chain_parts(s1, dags, x2);
    let x1 = s1->Ok_0;
    lemma_chain_parts(s0, dp, x1);
    lemma_chain_parts(pack_found_step(src, pack_id), valid_step(pack_id, m), s0->Ok_0);
    // the pack's own document
    let e_dp = dp->Ok_0[0];
    assert(dp->Ok_0.contains(e_dp));
    assert(e_dp.0 == "domain_pack:"@ + pack_id);
    assert(x.contains(e_dp));
    let k1 = choose|k: int| 0 <= k < x.len() && x[k] == e_dp;
    lemma_surface_map_has(x, k1);
    // the entity taxonomy
    let e_ent = ent->Ok_0[0];
    assert(ent->Ok_0.contains(e_ent));
    assert(x.contains(e_ent));
    let k2 = choose|k: int| 0 <= k < x.len() && x[k] == e_ent;
    lemma_surface_map_has(x, k2);
    // each DAG
    let dsteps = Seq::new(
        texts(m.owned_dags@).len(),
        |i: int| lookup_surface(src.dag_taxonomies, seq!["dag_id"@, "workspace"@], texts(m.owned_dags@)[i], "dag:"@),
    );
    assert forall|d: int| 0 <= d < m.owned_dags@.len() implies surface_map(x).dom().contains(
        "dag:"@ + (#[trigger] m.owned_dags@[d])@,
    ) by {
        lemma_fold_parts(dsteps, dags->Ok_0, d);
        let y = dsteps[d]->Ok_0;
        assert(texts(m.owned_dags@)[d] == m.owned_dags@[d]@);
        assert(y.contains(y[0]));
        assert(dags->Ok_0.contains(y[0]));
        assert(x2.contains(y[0]));
        assert(x3.contains(y[0]));
        assert(x4.contains(y[0]));
        assert(x5.contains(y[0]));
        assert(x6.contains(y[0]));
        assert(x7.contains(y[0]));
        assert(x.contains(y[0]));
        let k = choose|k: int| 0 <= k < x.len() && x[k] == y[0];
        lemma_surface_map_has(x, k);
    }
}

} // verus!
