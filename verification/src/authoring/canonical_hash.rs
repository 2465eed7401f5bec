//! Content-addressed hashing for change-set idempotency: content is
//! normalized (line endings, trailing white space per line), JSON and YAML
//! are canonicalized where they parse, and the result is hashed with SHA-256
//! and written as lower-case hex.

use vstd::prelude::*;
use vstd::string::*;

use crate::authoring::types::{artifact_type_text, ArtifactType, ChangeSetArtifact, ChangeSetManifest};
use crate::json::{
    entry_lookup, json_normal, json_parse, json_text, json_value_text, lemma_entry_order_irrelevant, parse_json_text, JsonView,
};
use crate::order::{is_stable_triple_order, stable_order_by_triple, triple_keys};
use crate::text::{
    chars_of, concat_all, flat, join_lines, lemma_concat_push, joined_lines, lemma_flat_take, lemma_split_nl_nonempty, owned,
    split_nl, string_of_chars, texts, trim_end, trim_end_chars,
};

verus! {

broadcast use vstd::string::group_string_axioms;

/// Current hash version prefix.
pub const HASH_VERSION: &'static str = "v1";

/// One character after line-ending normalization: `\r\n` becomes `\n`
/// (the `\r` is dropped), a lone `\r` becomes `\n`.
pub open spec fn eol_part(s: Seq<char>, i: int) -> Seq<char> {
    if s[i] == '\r' {
        if i + 1 < s.len() && s[i + 1] == '\n' {
            Seq::empty()
        } else {
            seq!['\n']
        }
    } else {
        seq![s[i]]
    }
}

/// `s` with every line ending written as `\n`.
pub open spec fn normalize_eol(s: Seq<char>) -> Seq<char> {
    flat(Seq::new(s.len(), |i: int| eol_part(s, i)))
}

/// The lines of a text without `\r` (`str::lines`): split at newlines, one
/// final newline ending the last line.
pub open spec fn lines_of(e: Seq<char>) -> Seq<Seq<char>> {
    if e.len() > 0 && e.last() == '\n' {
        split_nl(e.drop_last())
    } else {
        split_nl(e)
    }
}

/// Content normalized for stable hashing: line endings as `\n`, trailing
/// white space removed from every line, lines joined with `\n`.
pub open spec fn normalized(s: Seq<char>) -> Seq<char> {
    joined_lines(lines_of(normalize_eol(s)).map_values(|l: Seq<char>| trim_end(l)))
}

fn normalize_eol_chars(cs: &Vec<char>) -> (r: Vec<char>)
    ensures
        r@ == normalize_eol(cs@),
{
    let ghost parts = Seq::new(cs@.len(), |i: int| eol_part(cs@, i));
    let mut r: Vec<char> = Vec::new();
    let mut i: usize = 0;
    while i < cs.len()
        invariant
            i <= cs.len(),
            parts == Seq::new(cs@.len(), |i: int| eol_part(cs@, i)),
            r@ == flat(parts.take(i as int)),
        decreases cs.len() - i,
    {
        let ghost before = r@;
        if cs[i] == '\r' {
            if i + 1 < cs.len() && cs[i + 1] == '\n' {
            } else {
                r.push('\n');
            }
        } else {
            r.push(cs[i]);
        }
        proof {
            lemma_flat_take(parts, i as int);
            assert(r@ =~= before + parts[i as int]);
        }
        i += 1;
    }
    assert(parts.take(parts.len() as int) =~= parts);
    r
}

/// Normalize content for stable hashing: line endings to `\n` and trailing
/// white space trimmed from every line.
pub fn normalize_content(content: &str) -> (r: String)
    ensures
        r@ == normalized(content@),
{
    let cs = chars_of(content);
    let e = normalize_eol_chars(&cs);
    let n = e.len();
    let m = if n > 0 && e[n - 1] == '\n' {
        n - 1
    } else {
        n
    };
    let ghost t = e@.take(m as int);
    assert(t == if e@.len() > 0 && e@.last() == '\n' {
        e@.drop_last()
    } else {
        e@
    });
    let mut done: Vec<String> = Vec::new();
    let ghost mut raw: Seq<Seq<char>> = Seq::empty();
    let mut cur: Vec<char> = Vec::new();
    let mut i: usize = 0;
    assert(e@.take(0) =~= Seq::<char>::empty());
    while i < m
        invariant
            i <= m <= e@.len(),
            t == e@.take(m as int),
            split_nl(e@.take(i as int)) == raw.push(cur@),
            texts(done@) == raw.map_values(|l: Seq<char>| trim_end(l)),
        decreases m - i,
    {
        assert(e@.take(i + 1).drop_last() =~= e@.take(i as int));
        assert(e@.take(i + 1).last() == e@[i as int]);
        if e[i] == '\n' {
            let piece = trim_end_chars(&cur);
            let ps = string_of_chars(&piece);
            let ghost d0 = texts(done@);
            let ghost r0 = raw;
            done.push(ps);
            proof {
                assert(texts(done@) =~= d0.push(trim_end(cur@)));
                raw = raw.push(cur@);
                assert(raw.map_values(|l: Seq<char>| trim_end(l)) =~= r0.map_values(|l: Seq<char>| trim_end(l)).push(trim_end(cur@)));
            }
            cur = Vec::new();
            assert(split_nl(e@.take(i + 1)) =~= raw.push(cur@));
        } else {
            let ghost c0 = cur@;
            cur.push(e[i]);
            assert(split_nl(e@.take(i + 1)) =~= raw.push(c0).update(raw.len() as int, c0.push(e@[i as int])));
            assert(split_nl(e@.take(i + 1)) =~= raw.push(cur@));
        }
        i += 1;
    }
    let last = trim_end_chars(&cur);
    let ls = string_of_chars(&last);
    let ghost d0 = texts(done@);
    done.push(ls);
    proof {
        assert(e@.take(m as int) == t);
        assert(texts(done@) =~= d0.push(trim_end(cur@)));
        let all = raw.push(cur@);
        assert(all.map_values(|l: Seq<char>| trim_end(l)) =~= raw.map_values(|l: Seq<char>| trim_end(l)).push(trim_end(cur@)));
        assert(texts(done@) =~= all.map_values(|l: Seq<char>| trim_end(l)));
        assert(lines_of(e@) == split_nl(t));
    }
    join_lines(&done)
}

/// The SHA-256 digest of a byte string, as `sha2::Sha256` computes it.
pub uninterp spec fn sha256(data: Seq<u8>) -> Seq<u8>;

/// `sha2::Sha256::digest`: the 32-byte SHA-256 digest of `data`.
#[verifier::external_body]
pub(crate) fn sha256_digest(data: &[u8]) -> (r: Vec<u8>)
    ensures
        r@ == sha256(data@),
        r@.len() == 32,
{
    <sha2::Sha256 as sha2::Digest>::digest(data).to_vec()
}

/// The lower-case hex digit of a nibble.
pub open spec fn hex_digit(n: u8) -> char {
    if n < 10 {
        (('0' as u8) + n) as char
    } else {
        (('a' as u8) + (n - 10)) as char
    }
}

/// Lower-case hex text of a byte string, two digits per byte, high nibble
/// first.
pub open spec fn hex_text(bytes: Seq<u8>) -> Seq<char> {
    flat(Seq::new(bytes.len(), |i: int| seq![hex_digit(bytes[i] / 16), hex_digit(bytes[i] % 16)]))
}

/// `hex::encode`: the bytes as lower-case hex, two digits per byte.
#[verifier::external_body]
pub(crate) fn hex_encode(bytes: &Vec<u8>) -> (r: String)
    ensures
        r@ == hex_text(bytes@),
{
    hex::encode(bytes)
}

/// A lower-case hex digit.
pub open spec fn lower_hex_char(c: char) -> bool {
    ('0' <= c && c <= '9') || ('a' <= c && c <= 'f')
}

/// Sixty-four lower-case hex digits: how a SHA-256 digest is written.
pub open spec fn sha256_hex_shape(t: Seq<char>) -> bool {
    t.len() == 64 && forall|i: int| 0 <= i < t.len() ==> lower_hex_char(#[trigger] t[i])
}

proof fn lemma_flat_hex(parts: Seq<Seq<char>>)
    requires
        forall|i: int| 0 <= i < parts.len() ==> (#[trigger] parts[i]).len() == 2 && lower_hex_char(parts[i][0])
            && lower_hex_char(parts[i][1]),
    ensures
        flat(parts).len() == 2 * parts.len(),
        forall|k: int| 0 <= k < flat(parts).len() ==> lower_hex_char(#[trigger] flat(parts)[k]),
    decreases parts.len(),
{
    if parts.len() > 0 {
        let rest = parts.drop_last();
        assert forall|i: int| 0 <= i < rest.len() implies (#[trigger] rest[i]).len() == 2 && lower_hex_char(rest[i][0])
            && lower_hex_char(rest[i][1]) by {
            assert(rest[i] == parts[i]);
        }
        lemma_flat_hex(rest);
        let l = parts[parts.len() - 1];
        assert forall|k: int| 0 <= k < flat(parts).len() implies lower_hex_char(#[trigger] flat(parts)[k]) by {
            if k >= flat(rest).len() {
                assert(flat(parts)[k] == l[k - flat(rest).len()]);
            } else {
                assert(flat(parts)[k] == flat(rest)[k]);
            }
        }
    }
}

/// The hex text of a 32-byte digest is 64 lower-case hex digits.
pub proof fn lemma_digest_hex_shape(bytes: Seq<u8>)
    requires
        bytes.len() == 32,
    ensures
        sha256_hex_shape(hex_text(bytes)),
{
    let parts = Seq::new(bytes.len(), |i: int| seq![hex_digit(bytes[i] / 16), hex_digit(bytes[i] % 16)]);
    assert forall|i: int| 0 <= i < parts.len() implies (#[trigger] parts[i]).len() == 2 && lower_hex_char(parts[i][0])
        && lower_hex_char(parts[i][1]) by {
        let hi = bytes[i] / 16;
        let lo = bytes[i] % 16;
        assert(hi < 16 && lo < 16);
    }
    lemma_flat_hex(parts);
}

/// The hash text of already canonical content.
pub open spec fn artifact_hash(content: Seq<char>) -> Seq<char> {
    hex_text(sha256(vstd::utf8::encode_utf8(normalized(content))))
}

/// The content hash of a single artifact: SHA-256 of its normalized UTF-8
/// text, in lower-case hex.
pub fn compute_artifact_hash(content: &str) -> (r: String)
    ensures
        r@ == artifact_hash(content@),
        sha256_hex_shape(r@),
{
    let normalized = normalize_content(content);
    let digest = sha256_digest(normalized.as_str().as_bytes());
    proof {
        lemma_digest_hex_shape(digest@);
    }
    hex_encode(&digest)
}

/// The compact JSON text that `serde_json` writes back for a text it
/// parses as JSON; `None` when the text is not JSON.
pub open spec fn json_canonical(content: Seq<char>) -> Option<Seq<char>> {
    match json_parse(content) {
        Some(v) => Some(json_text(json_normal(v))),
        None => None,
    }
}

/// A JSON text parsed and written back compactly by `serde_json`.
fn json_canonical_text(content: &str) -> (r: Option<String>)
    ensures
        match r {
            Some(t) => json_canonical(content@) == Some(t@),
            None => json_canonical(content@) is None,
        },
{
    match parse_json_text(content) {
        Some(v) => Some(json_value_text(&v)),
        None => None,
    }
}

/// The compact JSON text that `serde_json` writes for a text that
/// `serde_yaml` parses into a JSON value; `None` when it does not parse.
pub uninterp spec fn yaml_canonical(content: Seq<char>) -> Option<Seq<char>>;

/// `serde_yaml::from_str::<serde_json::Value>` followed by
/// `serde_json::to_string` on the value.
#[verifier::external_body]
fn yaml_canonical_text(content: &str) -> (r: Option<String>)
    ensures
        match r {
            Some(t) => yaml_canonical(content@) == Some(t@),
            None => yaml_canonical(content@) is None,
        },
{
    serde_yaml::from_str::<serde_json::Value>(content).ok().and_then(|v| serde_json::to_string(&v).ok())
}

/// A text's canonical JSON form when it has one, else the text itself.
pub open spec fn canonical_or_self(canonical: Option<Seq<char>>, content: Seq<char>) -> Seq<char> {
    match canonical {
        Some(t) => t,
        None => content,
    }
}

/// The canonical JSON form of a text when it is JSON, else the text itself.
pub fn try_canonicalize_json(content: &str) -> (r: String)
    ensures
        r@ == canonical_or_self(json_canonical(content@), content@),
{
    match json_canonical_text(content) {
        Some(t) => t,
        None => owned(content),
    }
}

/// The canonical JSON form of a YAML text when it parses, else the text
/// itself.
pub fn try_canonicalize_yaml(content: &str) -> (r: String)
    ensures
        r@ == canonical_or_self(yaml_canonical(content@), content@),
{
    match yaml_canonical_text(content) {
        Some(t) => t,
        None => owned(content),
    }
}

/// The typed content hash of an artifact.
pub open spec fn typed_hash(content: Seq<char>, t: ArtifactType) -> Seq<char> {
    match t {
        ArtifactType::AttributeJson | ArtifactType::TaxonomyJson | ArtifactType::DocJson => artifact_hash(
            canonical_or_self(json_canonical(content), content),
        ),
        ArtifactType::VerbYaml => artifact_hash(canonical_or_self(yaml_canonical(content), content)),
        ArtifactType::MigrationSql | ArtifactType::MigrationDownSql => artifact_hash(normalized(content)),
    }
}

/// Migrations whose normalized texts agree (line endings, trailing
/// blanks) hash alike; JSON and YAML artifacts whose canonical JSON texts
/// agree hash alike.
pub proof fn lemma_typed_hash_canonical(c1: Seq<char>, c2: Seq<char>, t: ArtifactType)
    requires
        match t {
            ArtifactType::MigrationSql | ArtifactType::MigrationDownSql => normalized(c1) == normalized(c2),
            ArtifactType::VerbYaml => yaml_canonical(c1) is Some && yaml_canonical(c1) == yaml_canonical(c2),
            _ => json_canonical(c1) is Some && json_canonical(c1) == json_canonical(c2),
        },
    ensures
        typed_hash(c1, t) == typed_hash(c2, t),
{
}

/// JSON artifacts whose texts hold objects with the same entries, in
/// whatever order and spacing, hash alike.
pub proof fn lemma_json_key_order(
    c1: Seq<char>,
    c2: Seq<char>,
    es1: Seq<(Seq<char>, JsonView)>,
    es2: Seq<(Seq<char>, JsonView)>,
    t: ArtifactType,
)
    requires
        t == ArtifactType::AttributeJson || t == ArtifactType::TaxonomyJson || t == ArtifactType::DocJson,
        json_parse(c1) == Some(JsonView::Object(es1)),
        json_parse(c2) == Some(JsonView::Object(es2)),
        forall|k: Seq<char>| #[trigger] entry_lookup(es1, k) == entry_lookup(es2, k),
    ensures
        typed_hash(c1, t) == typed_hash(c2, t),
{
    lemma_entry_order_irrelevant(es1, es2);
}

/// The content hash of an artifact with type-aware canonicalization:
/// migrations are normalized, JSON and YAML are re-serialized as canonical
/// JSON when they parse; the result is hashed as by `compute_artifact_hash`.
pub fn compute_artifact_hash_typed(content: &str, artifact_type: ArtifactType) -> (r: String)
    ensures
        r@ == typed_hash(content@, artifact_type),
        sha256_hex_shape(r@),
{
    let canonical = match artifact_type {
        ArtifactType::AttributeJson | ArtifactType::TaxonomyJson | ArtifactType::DocJson => {
            try_canonicalize_json(content)
        },
        ArtifactType::VerbYaml => try_canonicalize_yaml(content),
        ArtifactType::MigrationSql | ArtifactType::MigrationDownSql => normalize_content(content),
    };
    compute_artifact_hash(canonical.as_str())
}

/// A path, or the empty text.
pub open spec fn path_or_empty(p: Option<String>) -> Seq<char> {
    match p {
        Some(t) => t@,
        None => ""@,
    }
}

/// What an artifact adds to a change set's hash input: its type and path,
/// then its normalized content.
pub open spec fn artifact_part(a: ChangeSetArtifact) -> Seq<char> {
    artifact_type_text(a.artifact_type) + ":"@ + path_or_empty(a.path) + "\n"@ + normalized(a.content@) + "\n"@
}

/// The order key of an artifact in a change set's hash: type name, then
/// ordinal, then path.
pub open spec fn hash_order_key(a: ChangeSetArtifact) -> (Seq<char>, int, Seq<char>) {
    (artifact_type_text(a.artifact_type), a.ordinal as int, path_or_empty(a.path))
}

/// The hash input of a change set whose artifacts are taken in order `p`.
pub open spec fn content_hash_input(title: Seq<char>, arts: Seq<ChangeSetArtifact>, p: Seq<usize>) -> Seq<char> {
    HASH_VERSION@ + ":"@ + title + "\n"@ + concat_all(p.map_values(|i: usize| artifact_part(arts[i as int])))
}

/// The content hash of a change set: SHA-256, in lower-case hex, of the
/// hash version, the title, and each artifact (type, path, normalized
/// content) in order of type name, ordinal and path (ties kept in their
/// given order).
pub fn compute_content_hash(manifest: &ChangeSetManifest, artifacts: &Vec<ChangeSetArtifact>) -> (r: String)
    ensures
        exists|p: Seq<usize>|
            is_stable_triple_order(artifacts@.map_values(|a: ChangeSetArtifact| hash_order_key(a)), p) && r@
                == hex_text(sha256(vstd::utf8::encode_utf8(content_hash_input(manifest.title@, artifacts@, p)))),
        sha256_hex_shape(r@),
{
    let mut keys: Vec<(String, i32, String)> = Vec::new();
    let mut i: usize = 0;
    while i < artifacts.len()
        invariant
            i <= artifacts.len(),
            keys@.len() == i,
            forall|k: int|
                0 <= k < i ==> ((#[trigger] keys@[k]).0@, keys@[k].1 as int, keys@[k].2@) == hash_order_key(
                    artifacts@[k],
                ),
        decreases artifacts.len() - i,
    {
        let a = &artifacts[i];
        let path = match &a.path {
            Some(t) => t.clone(),
            None => owned(""),
        };
        keys.push((owned(a.artifact_type.as_str()), a.ordinal, path));
        i += 1;
    }
    assert(triple_keys(keys@) =~= artifacts@.map_values(|a: ChangeSetArtifact| hash_order_key(a)));
    let order = stable_order_by_triple(&keys);
    let ghost parts = order@.map_values(|i: usize| artifact_part(artifacts@[i as int]));
    let mut input = crate::text::join4(HASH_VERSION, ":", manifest.title.as_str(), "\n");
    let ghost head = input@;
    let mut k: usize = 0;
    while k < order.len()
        invariant
            k <= order.len(),
            order@.len() == artifacts@.len(),
            forall|q: int| 0 <= q < order@.len() ==> #[trigger] order@[q] < artifacts@.len(),
            parts == order@.map_values(|i: usize| artifact_part(artifacts@[i as int])),
            input@ == head + concat_all(parts.take(k as int)),
        decreases order.len() - k,
    {
        let a = &artifacts[order[k]];
        let path = match &a.path {
            Some(t) => t.clone(),
            None => owned(""),
        };
        let normalized_content = normalize_content(a.content.as_str());
        let part = crate::text::join6(a.artifact_type.as_str(), ":", path.as_str(), "\n", normalized_content.as_str(), "\n");
        proof {
            crate::text::lemma_concat_take(parts, k as int);
            assert(parts[k as int] == part@);
        }
        input = crate::text::join2(input.as_str(), part.as_str());
        k += 1;
    }
    assert(parts.take(order.len() as int) =~= parts);
    let digest = sha256_digest(input.as_str().as_bytes());
    proof {
        lemma_digest_hex_shape(digest@);
    }
    let r = hex_encode(&digest);
    assert(input@ == content_hash_input(manifest.title@, artifacts@, order@));
    r
}

} // verus!
