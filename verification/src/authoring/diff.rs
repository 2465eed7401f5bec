//! Structural diff between two artifact sets, and the plan summary of one
//! change set. Artifacts are matched by their logical key (type and path, or
//! type and ordinal); when a set holds two artifacts with one key, the later
//! one counts. Entries come in ascending key order.

use vstd::prelude::*;
use vstd::string::*;

use crate::assoc::{keys_of, lemma_map_of_domain, map_of, put_ordered};
use crate::authoring::types::{artifact_type_text, ArtifactType, ChangeSetArtifact, DiffEntry, DiffSummary};
use crate::authoring::validate_stage2::{to_uppercase_text, uppercase};
use crate::order::{lemma_strictly_sorted_unique, strictly_sorted};
use crate::text::{chars_of, contains_infix, has_infix, i32_text, join3, join4, owned, signed_decimal, string_of_chars, text_eq};

verus! {

broadcast use vstd::string::group_string_axioms;

/// The logical key of an artifact: `<type>:<path>`, or `<type>:#<ordinal>`
/// without a path.
pub open spec fn key_of(a: ChangeSetArtifact) -> Seq<char> {
    match a.path {
        Some(p) => artifact_type_text(a.artifact_type) + ":"@ + p@,
        None => artifact_type_text(a.artifact_type) + ":#"@ + signed_decimal(a.ordinal as int),
    }
}

fn artifact_key(artifact: &ChangeSetArtifact) -> (r: String)
    ensures
        r@ == key_of(*artifact),
{
    match &artifact.path {
        Some(p) => join3(artifact.artifact_type.as_str(), ":", p.as_str()),
        None => {
            let n = i32_text(artifact.ordinal);
            join3(artifact.artifact_type.as_str(), ":#", n.as_str())
        },
    }
}

/// The position of the artifact that counts for each key: the last one
/// with that key.
pub open spec fn index_of(arts: Seq<ChangeSetArtifact>) -> Map<Seq<char>, usize>
    decreases arts.len(),
{
    if arts.len() == 0 {
        Map::empty()
    } else {
        index_of(arts.drop_last()).insert(key_of(arts.last()), (arts.len() - 1) as usize)
    }
}

/// The keys of a set in ascending order.
pub open spec fn key_order(s: Set<Seq<char>>) -> Seq<Seq<char>> {
    choose|q: Seq<Seq<char>>| strictly_sorted(q) && q.to_set() == s
}

/// Index artifacts by key, in ascending key order.
fn build_artifact_index(artifacts: &Vec<ChangeSetArtifact>) -> (r: Vec<(String, usize)>)
    ensures
        map_of(r@) == index_of(artifacts@),
        strictly_sorted(keys_of(r@)),
        keys_of(r@) == key_order(index_of(artifacts@).dom()),
        forall|k: int| 0 <= k < r@.len() ==> (#[trigger] r@[k]).1 < artifacts@.len(),
{
    let mut index: Vec<(String, usize)> = Vec::new();
    let mut i: usize = 0;
    while i < artifacts.len()
        invariant
            i <= artifacts.len(),
            strictly_sorted(keys_of(index@)),
            map_of(index@) == index_of(artifacts@.take(i as int)),
            forall|k: int| 0 <= k < index@.len() ==> (#[trigger] index@[k]).1 < i,
        decreases artifacts.len() - i,
    {
        assert(artifacts@.take(i + 1).drop_last() =~= artifacts@.take(i as int));
        assert(artifacts@.take(i + 1).last() == artifacts@[i as int]);
        let key = artifact_key(&artifacts[i]);
        let ghost before = index@;
        put_ordered(&mut index, key, i);
        proof {
            assert forall|k: int| 0 <= k < index@.len() implies (#[trigger] index@[k]).1 < i + 1 by {
                if index@[k] != (key, i) {
                    let q = choose|q: int| 0 <= q < before.len() && before[q] == index@[k];
                    assert(before[q].1 < i);
                }
            }
        }
        i += 1;
    }
    assert(artifacts@.take(artifacts.len() as int) =~= artifacts@);
    proof {
        let m = index_of(artifacts@);
        assert(keys_of(index@).to_set() =~= m.dom()) by {
            assert forall|key: Seq<char>| keys_of(index@).to_set().contains(key) <==> m.dom().contains(key) by {
                lemma_map_of_domain(index@, key);
            }
        }
        let q = key_order(m.dom());
        assert(strictly_sorted(keys_of(index@)) && keys_of(index@).to_set() == m.dom());
        lemma_strictly_sorted_unique(q, keys_of(index@));
    }
    index
}

// ── UTF-8 prefixes ──────────────────────────────────────────────

/// The number of bytes a character takes in UTF-8.
pub open spec fn utf8_width(c: char) -> nat {
    if (c as u32) < 0x80 {
        1
    } else if (c as u32) < 0x800 {
        2
    } else if (c as u32) < 0x10000 {
        3
    } else {
        4
    }
}

/// The number of bytes a text takes in UTF-8.
pub open spec fn byte_len(s: Seq<char>) -> nat
    decreases s.len(),
{
    if s.len() == 0 {
        0
    } else {
        utf8_width(s[0]) + byte_len(s.drop_first())
    }
}

/// The longest leading run of whole characters within `n` bytes.
pub open spec fn byte_prefix(s: Seq<char>, n: int) -> Seq<char>
    decreases s.len(),
{
    if s.len() == 0 || utf8_width(s[0]) > n {
        Seq::empty()
    } else {
        seq![s[0]] + byte_prefix(s.drop_first(), n - utf8_width(s[0]))
    }
}

/// The number of leading bytes a hash is cut to: eight, or all of it.
pub open spec fn cut_len(h: Seq<char>) -> nat {
    if byte_len(h) < 8 {
        byte_len(h)
    } else {
        8
    }
}

/// The first eight bytes of a hash end on a character boundary, so that
/// they can be cut off as text.
pub open spec fn cuttable(h: Seq<char>) -> bool {
    byte_len(byte_prefix(h, cut_len(h) as int)) == cut_len(h)
}

/// The first eight bytes of a hash, as text.
pub open spec fn hash_head(h: Seq<char>) -> Seq<char> {
    byte_prefix(h, cut_len(h) as int)
}

fn char_width(c: char) -> (r: usize)
    ensures
        r == utf8_width(c),
{
    let v = c as u32;
    if v < 0x80 {
        1
    } else if v < 0x800 {
        2
    } else if v < 0x10000 {
        3
    } else {
        4
    }
}

proof fn lemma_byte_prefix_step(s: Seq<char>, i: int, n: int)
    requires
        0 <= i < s.len(),
        byte_len(s.take(i)) + utf8_width(s[i]) <= n,
        byte_prefix(s, n) == s.take(i) + byte_prefix(s.skip(i), n - byte_len(s.take(i))),
    ensures
        byte_prefix(s, n) == s.take(i + 1) + byte_prefix(s.skip(i + 1), n - byte_len(s.take(i + 1))),
{
    lemma_byte_len_take_step(s, i);
    let rest = s.skip(i);
    assert(rest[0] == s[i]);
    assert(rest.drop_first() =~= s.skip(i + 1));
    assert(s.take(i + 1) =~= s.take(i) + seq![s[i]]);
    assert(byte_prefix(rest, n - byte_len(s.take(i))) == seq![s[i]] + byte_prefix(
        s.skip(i + 1),
        n - byte_len(s.take(i)) - utf8_width(s[i]),
    ));
    assert(s.take(i) + (seq![s[i]] + byte_prefix(s.skip(i + 1), n - byte_len(s.take(i + 1))))
        =~= s.take(i + 1) + byte_prefix(s.skip(i + 1), n - byte_len(s.take(i + 1))));
}

proof fn lemma_byte_len_take_step(s: Seq<char>, i: int)
    requires
        0 <= i < s.len(),
    ensures
        byte_len(s.take(i + 1)) == byte_len(s.take(i)) + utf8_width(s[i]),
    decreases i,
{
    if i == 0 {
        assert(s.take(1).drop_first() =~= Seq::<char>::empty());
        assert(s.take(1)[0] == s[0]);
        assert(s.take(0) =~= Seq::<char>::empty());
    } else {
        let t = s.drop_first();
        lemma_byte_len_take_step(t, i - 1);
        assert(s.take(i + 1)[0] == s[0]);
        assert(s.take(i)[0] == s[0]);
        assert(s.take(i + 1).drop_first() =~= t.take(i));
        assert(s.take(i).drop_first() =~= t.take(i - 1));
        assert(t[i - 1] == s[i]);
    }
}

proof fn lemma_byte_len_append(a: Seq<char>, b: Seq<char>)
    ensures
        byte_len(a + b) == byte_len(a) + byte_len(b),
    decreases a.len(),
{
    if a.len() > 0 {
        lemma_byte_len_append(a.drop_first(), b);
        assert((a + b).drop_first() =~= a.drop_first() + b);
    } else {
        assert(a + b =~= b);
    }
}

/// The leading whole characters of a hash within its first eight bytes,
/// and whether they are exactly those eight bytes (or the whole hash).
fn hash_cut(h: &str) -> (r: (String, bool))
    ensures
        r.0@ == hash_head(h@),
        r.1 == cuttable(h@),
{
    let cs = chars_of(h);
    let ghost s = cs@;
    // total byte length, capped at 8
    let mut total: usize = 0;
    let mut j: usize = 0;
    while j < cs.len()
        invariant
            j <= cs.len(),
            s == cs@,
            total <= 8,
            total == if byte_len(s.take(j as int)) < 8 {
                byte_len(s.take(j as int))
            } else {
                8
            },
        decreases cs.len() - j,
    {
        proof {
            lemma_byte_len_take_step(s, j as int);
        }
        let w = char_width(cs[j]);
        total = if total + w >= 8 {
            8
        } else {
            total + w
        };
        j += 1;
    }
    assert(s.take(cs.len() as int) =~= s);
    let n = total;
    let mut out: Vec<char> = Vec::new();
    let mut used: usize = 0;
    let mut i: usize = 0;
    assert(s.skip(0) =~= s);
    assert(s.take(0) =~= Seq::<char>::empty());
    while i < cs.len() && used + char_width(cs[i]) <= n
        invariant
            i <= cs.len(),
            s == cs@,
            n <= 8,
            n == cut_len(s),
            used <= n,
            used == byte_len(s.take(i as int)),
            out@ == s.take(i as int),
            byte_prefix(s, n as int) == s.take(i as int) + byte_prefix(s.skip(i as int), n - used),
        decreases cs.len() - i,
    {
        proof {
            lemma_byte_prefix_step(s, i as int, n as int);
            lemma_byte_len_take_step(s, i as int);
        }
        used = used + char_width(cs[i]);
        out.push(cs[i]);
        assert(out@ =~= s.take(i + 1));
        i += 1;
    }
    proof {
        let rest = s.skip(i as int);
        if i < cs.len() {
            assert(rest[0] == s[i as int]);
        } else {
            assert(rest.len() == 0);
        }
        assert(byte_prefix(rest, n - used) =~= Seq::<char>::empty());
        assert(byte_prefix(s, n as int) =~= s.take(i as int));
    }
    (string_of_chars(&out), used == n)
}

// ── Breaking changes ────────────────────────────────────────────

/// The text of a string field of a JSON document, as `serde_json` reads
/// it: `None` when the text is not JSON, has no such field, or the field is
/// not a string.
pub uninterp spec fn json_string_field(content: Seq<char>, field: Seq<char>) -> Option<Seq<char>>;

/// `serde_json::from_str::<serde_json::Value>` followed by `get(field)` and
/// `as_str`.
#[verifier::external_body]
fn extract_json_field(json_content: &str, field: &str) -> (r: Option<String>)
    ensures
        match r {
            Some(t) => json_string_field(json_content@, field@) == Some(t@),
            None => json_string_field(json_content@, field@) is None,
        },
{
    serde_json::from_str::<serde_json::Value>(json_content).ok()?.get(field)?.as_str().map(String::from)
}

/// DDL that can break readers of a migration.
pub open spec fn breaking_ddl(content: Seq<char>) -> bool {
    let upper = uppercase(content);
    has_infix(upper, "DROP TABLE"@) || has_infix(upper, "DROP COLUMN"@) || has_infix(
        upper,
        "ALTER COLUMN"@,
    ) || has_infix(upper, "RENAME TABLE"@)
}

/// A change from `base` to `target` is breaking: a migration with dropping
/// or altering DDL, or an attribute whose data type changed.
pub open spec fn breaking_change(base: ChangeSetArtifact, target: ChangeSetArtifact) -> bool {
    match target.artifact_type {
        ArtifactType::MigrationSql => breaking_ddl(target.content@),
        ArtifactType::AttributeJson => {
            let b = json_string_field(base.content@, "data_type"@);
            let t = json_string_field(target.content@, "data_type"@);
            b is Some && t is Some && b != t
        },
        _ => false,
    }
}

fn detect_breaking_change(base: &ChangeSetArtifact, target: &ChangeSetArtifact) -> (r: bool)
    ensures
        r == breaking_change(*base, *target),
{
    match target.artifact_type {
        ArtifactType::MigrationSql => {
            let upper = to_uppercase_text(target.content.as_str());
            let u = upper.as_str();
            contains_infix(u, "DROP TABLE") || contains_infix(u, "DROP COLUMN") || contains_infix(
                u,
                "ALTER COLUMN",
            ) || contains_infix(u, "RENAME TABLE")
        },
        ArtifactType::AttributeJson => {
            let b = extract_json_field(base.content.as_str(), "data_type");
            let t = extract_json_field(target.content.as_str(), "data_type");
            match (b, t) {
                (Some(x), Some(y)) => !text_eq(x.as_str(), y.as_str()),
                _ => false,
            }
        },
        _ => false,
    }
}

// ── Diff ────────────────────────────────────────────────────────

/// A diff entry as plain values.
pub struct EntryView {
    pub fqn: Seq<char>,
    pub object_type: Seq<char>,
    pub detail: Option<Seq<char>>,
}

impl View for DiffEntry {
    type V = EntryView;

    open spec fn view(&self) -> EntryView {
        EntryView {
            fqn: self.fqn@,
            object_type: self.object_type@,
            detail: match self.detail {
                Some(d) => Some(d@),
                None => None,
            },
        }
    }
}

pub open spec fn entry_views(v: Seq<DiffEntry>) -> Seq<EntryView> {
    v.map_values(|e: DiffEntry| e@)
}

/// The entries `f` gives for the keys, in order of the keys.
pub open spec fn collect(keys: Seq<Seq<char>>, f: spec_fn(Seq<char>) -> Option<EntryView>) -> Seq<EntryView>
    decreases keys.len(),
{
    if keys.len() == 0 {
        Seq::empty()
    } else {
        let rest = collect(keys.drop_last(), f);
        match f(keys.last()) {
            Some(e) => rest.push(e),
            None => rest,
        }
    }
}

/// The artifact that counts for a key.
pub open spec fn counted(arts: Seq<ChangeSetArtifact>, key: Seq<char>) -> ChangeSetArtifact {
    arts[index_of(arts)[key] as int]
}

/// The entry for an artifact changed from `b` to `t`.
pub open spec fn changed_entry(key: Seq<char>, b: ChangeSetArtifact, t: ChangeSetArtifact) -> EntryView {
    EntryView {
        fqn: key,
        object_type: artifact_type_text(t.artifact_type),
        detail: Some("Hash changed: "@ + hash_head(b.content_hash@) + " → "@ + hash_head(t.content_hash@)),
    }
}

/// The key is in both sets with different hashes, and the change is
/// breaking (or not, by `breaking`).
pub open spec fn changed(
    base: Seq<ChangeSetArtifact>,
    target: Seq<ChangeSetArtifact>,
    key: Seq<char>,
    breaking: bool,
) -> Option<EntryView> {
    if index_of(base).dom().contains(key) && counted(base, key).content_hash@ != counted(
        target,
        key,
    ).content_hash@ && breaking_change(counted(base, key), counted(target, key)) == breaking {
        Some(changed_entry(key, counted(base, key), counted(target, key)))
    } else {
        None
    }
}

/// Added: keys of the target missing from the base.
pub open spec fn diff_added(base: Seq<ChangeSetArtifact>, target: Seq<ChangeSetArtifact>) -> Seq<EntryView> {
    collect(
        key_order(index_of(target).dom()),
        |key: Seq<char>|
            if index_of(base).dom().contains(key) {
                None
            } else {
                Some(
                    EntryView {
                        fqn: key,
                        object_type: artifact_type_text(counted(target, key).artifact_type),
                        detail: Some("New artifact"@),
                    },
                )
            },
    )
}

/// Modified: keys in both with different hashes, not breaking.
pub open spec fn diff_modified(base: Seq<ChangeSetArtifact>, target: Seq<ChangeSetArtifact>) -> Seq<EntryView> {
    collect(key_order(index_of(target).dom()), |key: Seq<char>| changed(base, target, key, false))
}

/// Changes in both with different hashes that are breaking.
pub open spec fn diff_breaking(base: Seq<ChangeSetArtifact>, target: Seq<ChangeSetArtifact>) -> Seq<EntryView> {
    collect(key_order(index_of(target).dom()), |key: Seq<char>| changed(base, target, key, true))
}

/// Removed: keys of the base missing from the target.
pub open spec fn diff_removed(base: Seq<ChangeSetArtifact>, target: Seq<ChangeSetArtifact>) -> Seq<EntryView> {
    collect(
        key_order(index_of(base).dom()),
        |key: Seq<char>|
            if index_of(target).dom().contains(key) {
                None
            } else {
                Some(
                    EntryView {
                        fqn: key,
                        object_type: artifact_type_text(counted(base, key).artifact_type),
                        detail: Some("Removed"@),
                    },
                )
            },
    )
}

// ── Laws of the diff ───────────────────────────────────────────

/// The key and object type of each entry.
pub open spec fn fqn_types(es: Seq<EntryView>) -> Seq<(Seq<char>, Seq<char>)> {
    es.map_values(|e: EntryView| (e.fqn, e.object_type))
}

proof fn lemma_collect_same_keys(
    keys: Seq<Seq<char>>,
    f: spec_fn(Seq<char>) -> Option<EntryView>,
    g: spec_fn(Seq<char>) -> Option<EntryView>,
)
    requires
        forall|i: int| 0 <= i < keys.len() ==> (f(#[trigger] keys[i]) is Some <==> g(keys[i]) is Some),
        forall|i: int|
            0 <= i < keys.len() && f(#[trigger] keys[i]) is Some ==> f(keys[i])->Some_0.fqn == g(keys[i])->Some_0.fqn
                && f(keys[i])->Some_0.object_type == g(keys[i])->Some_0.object_type,
    ensures
        fqn_types(collect(keys, f)) == fqn_types(collect(keys, g)),
    decreases keys.len(),
{
    if keys.len() > 0 {
        let rest = keys.drop_last();
        assert forall|i: int| 0 <= i < rest.len() implies rest[i] == keys[i] by {}
        lemma_collect_same_keys(rest, f, g);
        assert(keys.last() == keys[keys.len() - 1]);
        let cf = collect(rest, f);
        let cg = collect(rest, g);
        match f(keys.last()) {
            Some(e) => {
                assert(fqn_types(cf.push(e)) =~= fqn_types(cf).push((e.fqn, e.object_type)));
                let e2 = g(keys.last())->Some_0;
                assert(fqn_types(cg.push(e2)) =~= fqn_types(cg).push((e2.fqn, e2.object_type)));
            },
            None => {},
        }
    }
}

proof fn lemma_collect_none(keys: Seq<Seq<char>>, f: spec_fn(Seq<char>) -> Option<EntryView>)
    requires
        forall|i: int| 0 <= i < keys.len() ==> f(#[trigger] keys[i]) is None,
    ensures
        collect(keys, f).len() == 0,
    decreases keys.len(),
{
    if keys.len() > 0 {
        let rest = keys.drop_last();
        assert forall|i: int| 0 <= i < rest.len() implies f(#[trigger] rest[i]) is None by {
            assert(rest[i] == keys[i]);
        }
        lemma_collect_none(rest, f);
        assert(f(keys[keys.len() - 1]) is None);
    }
}

proof fn lemma_index_finite(arts: Seq<ChangeSetArtifact>)
    ensures
        index_of(arts).dom().finite(),
    decreases arts.len(),
{
    if arts.len() > 0 {
        lemma_index_finite(arts.drop_last());
    }
}

/// The keys of a finite set, in ascending order, are that set.
proof fn lemma_key_order(s: Set<Seq<char>>)
    requires
        s.finite(),
    ensures
        strictly_sorted(key_order(s)),
        key_order(s).to_set() == s,
{
    let q = crate::order::lemma_sorted_listing(s);
    assert(strictly_sorted(q) && q.to_set() == s);
}

/// The keys a diff from `a` to `b` adds are the keys the diff from `b` to
/// `a` removes, in the same order and with the same object types.
pub proof fn lemma_added_mirrors_removed(a: Seq<ChangeSetArtifact>, b: Seq<ChangeSetArtifact>)
    ensures
        fqn_types(diff_added(a, b)) == fqn_types(diff_removed(b, a)),
{
    let keys = key_order(index_of(b).dom());
    let f = |key: Seq<char>|
        if index_of(a).dom().contains(key) {
            None
        } else {
            Some(
                EntryView {
                    fqn: key,
                    object_type: artifact_type_text(counted(b, key).artifact_type),
                    detail: Some("New artifact"@),
                },
            )
        };
    let g = |key: Seq<char>|
        if index_of(a).dom().contains(key) {
            None
        } else {
            Some(
                EntryView {
                    fqn: key,
                    object_type: artifact_type_text(counted(b, key).artifact_type),
                    detail: Some("Removed"@),
                },
            )
        };
    assert(diff_added(a, b) == collect(keys, f));
    assert(diff_removed(b, a) == collect(keys, g));
    lemma_collect_same_keys(keys, f, g);
}

/// Every removal is among the breaking changes a diff reports.
pub proof fn lemma_removals_are_breaking(a: Seq<ChangeSetArtifact>, b: Seq<ChangeSetArtifact>)
    ensures
        forall|i: int|
            0 <= i < diff_removed(a, b).len() ==> (diff_breaking(a, b) + diff_removed(a, b)).contains(
                #[trigger] diff_removed(a, b)[i],
            ),
{
    let br = diff_breaking(a, b);
    let rm = diff_removed(a, b);
    assert forall|i: int| 0 <= i < rm.len() implies (br + rm).contains(#[trigger] rm[i]) by {
        assert((br + rm)[br.len() + i] == rm[i]);
    }
}

/// A set of artifacts diffed against itself shows nothing added, modified,
/// removed or breaking.
pub proof fn lemma_diff_self_empty(a: Seq<ChangeSetArtifact>)
    ensures
        diff_added(a, a).len() == 0,
        diff_modified(a, a).len() == 0,
        diff_breaking(a, a).len() == 0,
        diff_removed(a, a).len() == 0,
{
    lemma_index_finite(a);
    let dom = index_of(a).dom();
    lemma_key_order(dom);
    let keys = key_order(dom);
    assert forall|i: int| 0 <= i < keys.len() implies dom.contains(#[trigger] keys[i]) by {
        assert(keys.to_set().contains(keys[i]));
    }
    let fa = |key: Seq<char>|
        if index_of(a).dom().contains(key) {
            None
        } else {
            Some(
                EntryView {
                    fqn: key,
                    object_type: artifact_type_text(counted(a, key).artifact_type),
                    detail: Some("New artifact"@),
                },
            )
        };
    let fr = |key: Seq<char>|
        if index_of(a).dom().contains(key) {
            None
        } else {
            Some(
                EntryView {
                    fqn: key,
                    object_type: artifact_type_text(counted(a, key).artifact_type),
                    detail: Some("Removed"@),
                },
            )
        };
    let fm = |key: Seq<char>| changed(a, a, key, false);
    let fb = |key: Seq<char>| changed(a, a, key, true);
    assert(diff_added(a, a) == collect(keys, fa));
    assert(diff_removed(a, a) == collect(keys, fr));
    assert(diff_modified(a, a) == collect(keys, fm));
    assert(diff_breaking(a, a) == collect(keys, fb));
    assert forall|i: int| 0 <= i < keys.len() implies fa(#[trigger] keys[i]) is None by {}
    assert forall|i: int| 0 <= i < keys.len() implies fr(#[trigger] keys[i]) is None by {}
    assert forall|i: int| 0 <= i < keys.len() implies fm(#[trigger] keys[i]) is None by {}
    assert forall|i: int| 0 <= i < keys.len() implies fb(#[trigger] keys[i]) is None by {}
    lemma_collect_none(keys, fa);
    lemma_collect_none(keys, fr);
    lemma_collect_none(keys, fm);
    lemma_collect_none(keys, fb);
}

/// Every artifact hash can be cut to its first eight bytes.
/// A key's hashes can be shown by their first eight bytes when the key is
/// in both sets with different hashes.
pub open spec fn change_cuttable(base: Seq<ChangeSetArtifact>, target: Seq<ChangeSetArtifact>, key: Seq<char>) -> bool {
    index_of(base).dom().contains(key) && counted(base, key).content_hash@ != counted(target, key).content_hash@
        ==> cuttable(counted(base, key).content_hash@) && cuttable(counted(target, key).content_hash@)
}

/// Every changed key's hashes can be cut at eight bytes on a character
/// boundary.
pub open spec fn changes_cuttable(base: Seq<ChangeSetArtifact>, target: Seq<ChangeSetArtifact>) -> bool {
    forall|key: Seq<char>| index_of(target).dom().contains(key) ==> #[trigger] change_cuttable(base, target, key)
}

fn entry(fqn: String, t: ArtifactType, detail: String) -> (r: DiffEntry)
    ensures
        r@ == (EntryView { fqn: fqn@, object_type: artifact_type_text(t), detail: Some(detail@) }),
{
    DiffEntry { fqn, object_type: owned(t.as_str()), detail: Some(detail) }
}

fn push_entry(v: &mut Vec<DiffEntry>, e: DiffEntry)
    ensures
        entry_views(final(v)@) == entry_views(old(v)@).push(e@),
{
    v.push(e);
    assert(entry_views(v@) =~= entry_views(old(v)@).push(e@));
}

/// Diff two artifact sets by key: added (only in the target), modified
/// (hash changed, not breaking), removed (only in the base), and the
/// breaking changes (breaking modifications, then every removal).
pub fn diff_changesets(base: &Vec<ChangeSetArtifact>, target: &Vec<ChangeSetArtifact>) -> (r: DiffSummary)
    requires
        changes_cuttable(base@, target@),
    ensures
        entry_views(r.added@) == diff_added(base@, target@),
        entry_views(r.modified@) == diff_modified(base@, target@),
        entry_views(r.removed@) == diff_removed(base@, target@),
        entry_views(r.breaking_changes@) == diff_breaking(base@, target@) + diff_removed(base@, target@),
{
    let base_map = build_artifact_index(base);
    let target_map = build_artifact_index(target);
    let ghost tk = key_order(index_of(target@).dom());
    let ghost bk = key_order(index_of(base@).dom());
    let mut added: Vec<DiffEntry> = Vec::new();
    let mut modified: Vec<DiffEntry> = Vec::new();
    let mut removed: Vec<DiffEntry> = Vec::new();
    let mut breaking: Vec<DiffEntry> = Vec::new();
    let mut i: usize = 0;
    while i < target_map.len()
        invariant
            i <= target_map.len(),
            tk == keys_of(target_map@),
            tk == key_order(index_of(target@).dom()),
            map_of(target_map@) == index_of(target@),
            map_of(base_map@) == index_of(base@),
            forall|k: int| 0 <= k < target_map@.len() ==> (#[trigger] target_map@[k]).1 < target@.len(),
            forall|k: int| 0 <= k < base_map@.len() ==> (#[trigger] base_map@[k]).1 < base@.len(),
            strictly_sorted(tk),
            changes_cuttable(base@, target@),
            entry_views(added@) == collect(
                tk.take(i as int),
                |key: Seq<char>|
                    if index_of(base@).dom().contains(key) {
                        None
                    } else {
                        Some(
                            EntryView {
                                fqn: key,
                                object_type: artifact_type_text(counted(target@, key).artifact_type),
                                detail: Some("New artifact"@),
                            },
                        )
                    },
            ),
            entry_views(modified@) == collect(tk.take(i as int), |key: Seq<char>| changed(base@, target@, key, false)),
            entry_views(breaking@) == collect(tk.take(i as int), |key: Seq<char>| changed(base@, target@, key, true)),
        decreases target_map.len() - i,
    {
        assert(tk.take(i + 1).drop_last() =~= tk.take(i as int));
        let key = &target_map[i].0;
        let ti = target_map[i].1;
        assert(tk.take(i + 1).last() == key@);
        proof {
            crate::assoc::lemma_map_of_first_sorted(target_map@, i as int);
        }
        assert(index_of(target@)[key@] == ti);
        let t = &target[ti];
        match crate::assoc::find_key(&base_map, key.as_str()) {
            None => {
                proof {
                    lemma_map_of_domain(base_map@, key@);
                }
                push_entry(&mut added, entry(key.clone(), t.artifact_type, owned("New artifact")));
            },
            Some(j) => {
                let bi = base_map[j].1;
                assert(index_of(base@).dom().contains(key@));
                assert(index_of(base@)[key@] == bi);
                let b = &base[bi];
                if !text_eq(b.content_hash.as_str(), t.content_hash.as_str()) {
                    assert(index_of(target@).dom().contains(key@));
                    assert(change_cuttable(base@, target@, key@));
                    let is_breaking = detect_breaking_change(b, t);
                    let (bh, _) = hash_cut(b.content_hash.as_str());
                    let (th, _) = hash_cut(t.content_hash.as_str());
                    let detail = join4("Hash changed: ", bh.as_str(), " → ", th.as_str());
                    let e = entry(key.clone(), t.artifact_type, detail);
                    if is_breaking {
                        push_entry(&mut breaking, e);
                    } else {
                        push_entry(&mut modified, e);
                    }
                }
            },
        }
        i += 1;
    }
    assert(tk.take(target_map.len() as int) =~= tk);
    let mut k: usize = 0;
    while k < base_map.len()
        invariant
            k <= base_map.len(),
            bk == keys_of(base_map@),
            map_of(target_map@) == index_of(target@),
            map_of(base_map@) == index_of(base@),
            forall|q: int| 0 <= q < base_map@.len() ==> (#[trigger] base_map@[q]).1 < base@.len(),
            strictly_sorted(bk),
            entry_views(breaking@) == diff_breaking(base@, target@) + collect(
                bk.take(k as int),
                |key: Seq<char>|
                    if index_of(target@).dom().contains(key) {
                        None
                    } else {
                        Some(
                            EntryView {
                                fqn: key,
                                object_type: artifact_type_text(counted(base@, key).artifact_type),
                                detail: Some("Removed"@),
                            },
                        )
                    },
            ),
            entry_views(removed@) == collect(
                bk.take(k as int),
                |key: Seq<char>|
                    if index_of(target@).dom().contains(key) {
                        None
                    } else {
                        Some(
                            EntryView {
                                fqn: key,
                                object_type: artifact_type_text(counted(base@, key).artifact_type),
                                detail: Some("Removed"@),
                            },
                        )
                    },
            ),
        decreases base_map.len() - k,
    {
        assert(bk.take(k + 1).drop_last() =~= bk.take(k as int));
        let key = &base_map[k].0;
        let bi = base_map[k].1;
        assert(bk.take(k + 1).last() == key@);
        proof {
            crate::assoc::lemma_map_of_first_sorted(base_map@, k as int);
        }
        assert(index_of(base@)[key@] == bi);
        match crate::assoc::find_key(&target_map, key.as_str()) {
            None => {
                proof {
                    lemma_map_of_domain(target_map@, key@);
                }
                let b = &base[bi];
                let e = entry(key.clone(), b.artifact_type, owned("Removed"));
                let e2 = entry(key.clone(), b.artifact_type, owned("Removed"));
                let ghost before = entry_views(breaking@);
                push_entry(&mut removed, e2);
                push_entry(&mut breaking, e);
                assert(entry_views(breaking@) =~= before.push(e@));
            },
            Some(_) => {
                assert(index_of(target@).dom().contains(key@));
            },
        }
        k += 1;
    }
    assert(bk.take(base_map.len() as int) =~= bk);
    DiffSummary { added, modified, removed, breaking_changes: breaking }
}

/// Whether every changed key's hashes can be cut at eight bytes on a
/// character boundary, as the diff needs to show them.
pub fn diff_hashes_cuttable(base: &Vec<ChangeSetArtifact>, target: &Vec<ChangeSetArtifact>) -> (r: bool)
    ensures
        r == changes_cuttable(base@, target@),
{
    let base_map = build_artifact_index(base);
    let target_map = build_artifact_index(target);
    let mut i: usize = 0;
    while i < target_map.len()
        invariant
            i <= target_map.len(),
            map_of(target_map@) == index_of(target@),
            map_of(base_map@) == index_of(base@),
            forall|k: int| 0 <= k < target_map@.len() ==> (#[trigger] target_map@[k]).1 < target@.len(),
            forall|k: int| 0 <= k < base_map@.len() ==> (#[trigger] base_map@[k]).1 < base@.len(),
            strictly_sorted(keys_of(target_map@)),
            forall|q: int| 0 <= q < i ==> change_cuttable(base@, target@, (#[trigger] target_map@[q]).0@),
        decreases target_map.len() - i,
    {
        let key = &target_map[i].0;
        let ti = target_map[i].1;
        proof {
            crate::assoc::lemma_map_of_first_sorted(target_map@, i as int);
        }
        assert(index_of(target@)[key@] == ti);
        let t = &target[ti];
        match crate::assoc::find_key(&base_map, key.as_str()) {
            None => {},
            Some(j) => {
                let bi = base_map[j].1;
                assert(index_of(base@)[key@] == bi);
                let b = &base[bi];
                if !text_eq(b.content_hash.as_str(), t.content_hash.as_str()) {
                    let (_, cb) = hash_cut(b.content_hash.as_str());
                    let (_, ct) = hash_cut(t.content_hash.as_str());
                    if !(cb && ct) {
                        assert(!change_cuttable(base@, target@, key@));
                        return false;
                    }
                }
            },
        }
        i += 1;
    }
    assert forall|key: Seq<char>| index_of(target@).dom().contains(key) implies #[trigger] change_cuttable(
        base@,
        target@,
        key,
    ) by {
        lemma_map_of_domain(target_map@, key);
        let q = choose|q: int| 0 <= q < keys_of(target_map@).len() && keys_of(target_map@)[q] == key;
        assert(target_map@[q].0@ == key);
    }
    true
}

// ── What a diff promises of breaking migrations ────────────────

proof fn lemma_collect_has(keys: Seq<Seq<char>>, f: spec_fn(Seq<char>) -> Option<EntryView>, q: int)
    requires
        0 <= q < keys.len(),
        f(keys[q]) is Some,
    ensures
        collect(keys, f).contains(f(keys[q])->Some_0),
    decreases keys.len(),
{
    let rest = collect(keys.drop_last(), f);
    if q == keys.len() - 1 {
        assert(collect(keys, f) == rest.push(f(keys.last())->Some_0));
        assert(collect(keys, f)[rest.len() as int] == f(keys[q])->Some_0);
    } else {
        assert(keys.drop_last()[q] == keys[q]);
        lemma_collect_has(keys.drop_last(), f, q);
        let t = choose|t: int| 0 <= t < rest.len() && rest[t] == f(keys[q])->Some_0;
        assert(collect(keys, f).len() >= rest.len());
        assert(collect(keys, f)[t] == rest[t]);
    }
}

proof fn lemma_collect_from(keys: Seq<Seq<char>>, f: spec_fn(Seq<char>) -> Option<EntryView>, j: int)
    requires
        0 <= j < collect(keys, f).len(),
    ensures
        exists|t: int| 0 <= t < keys.len() && f(keys[t]) == Some(#[trigger] collect(keys, f)[j]),
    decreases keys.len(),
{
    let rest = collect(keys.drop_last(), f);
    if j < rest.len() {
        lemma_collect_from(keys.drop_last(), f, j);
        let t = choose|t: int| 0 <= t < keys.drop_last().len() && f(keys.drop_last()[t]) == Some(rest[j]);
        assert(keys.drop_last()[t] == keys[t]);
        assert(collect(keys, f)[j] == rest[j]);
    } else {
        assert(collect(keys, f)[j] == f(keys.last())->Some_0);
        assert(keys.last() == keys[keys.len() - 1]);
    }
}

/// A migration changed between two change sets whose new DDL drops a
/// table or column, alters a column or renames a table is reported among
/// the breaking changes of the diff.
pub proof fn lemma_breaking_migration_reported(
    base: Seq<ChangeSetArtifact>,
    target: Seq<ChangeSetArtifact>,
    key: Seq<char>,
)
    requires
        index_of(base).dom().contains(key),
        index_of(target).dom().contains(key),
        counted(base, key).content_hash@ != counted(target, key).content_hash@,
        counted(target, key).artifact_type == ArtifactType::MigrationSql,
        ({
            let upper = uppercase(counted(target, key).content@);
            has_infix(upper, "DROP TABLE"@) || has_infix(upper, "DROP COLUMN"@) || has_infix(upper, "ALTER COLUMN"@)
                || has_infix(upper, "RENAME TABLE"@)
        }),
    ensures
        exists|j: int|
            0 <= j < diff_breaking(base, target).len() && (#[trigger] diff_breaking(base, target)[j]).fqn == key,
        forall|j: int|
            0 <= j < diff_modified(base, target).len() ==> (#[trigger] diff_modified(base, target)[j]).fqn != key,
{
    lemma_index_finite(target);
    let dom = index_of(target).dom();
    lemma_key_order(dom);
    let keys = key_order(dom);
    assert(keys.to_set().contains(key));
    let q = choose|q: int| 0 <= q < keys.len() && keys[q] == key;
    let f = |k: Seq<char>| changed(base, target, k, true);
    assert(breaking_change(counted(base, key), counted(target, key)));
    assert(f(keys[q]) == Some(changed_entry(key, counted(base, key), counted(target, key))));
    lemma_collect_has(keys, f, q);
    assert(diff_breaking(base, target) == collect(keys, f));
    let b = diff_breaking(base, target);
    let t = choose|t: int| 0 <= t < b.len() && b[t] == f(keys[q])->Some_0;
    assert(b[t].fqn == key);
    let g = |k: Seq<char>| changed(base, target, k, false);
    assert(diff_modified(base, target) == collect(keys, g));
    assert forall|j: int| 0 <= j < diff_modified(base, target).len() implies (#[trigger] diff_modified(
        base,
        target,
    )[j]).fqn != key by {
        lemma_collect_from(keys, g, j);
        let u = choose|u: int| 0 <= u < keys.len() && g(keys[u]) == Some(collect(keys, g)[j]);
        assert(collect(keys, g)[j].fqn == keys[u]);
        if keys[u] == key {
            assert(g(keys[u]) is None);
        }
    }
}

/// A migration changed between two change sets whose new DDL neither
/// drops a table or column, nor alters a column, nor renames a table is
/// reported as modified, not as breaking.
pub proof fn lemma_plain_migration_modified(base: Seq<ChangeSetArtifact>, target: Seq<ChangeSetArtifact>, key: Seq<char>)
    requires
        index_of(base).dom().contains(key),
        index_of(target).dom().contains(key),
        counted(base, key).content_hash@ != counted(target, key).content_hash@,
        counted(target, key).artifact_type == ArtifactType::MigrationSql,
        ({
            let upper = uppercase(counted(target, key).content@);
            !has_infix(upper, "DROP TABLE"@) && !has_infix(upper, "DROP COLUMN"@) && !has_infix(
                upper,
                "ALTER COLUMN"@,
            ) && !has_infix(upper, "RENAME TABLE"@)
        }),
    ensures
        exists|j: int|
            0 <= j < diff_modified(base, target).len() && (#[trigger] diff_modified(base, target)[j]).fqn == key,
        forall|j: int|
            0 <= j < diff_breaking(base, target).len() ==> (#[trigger] diff_breaking(base, target)[j]).fqn != key,
{
    lemma_index_finite(target);
    let dom = index_of(target).dom();
    lemma_key_order(dom);
    let keys = key_order(dom);
    assert(keys.to_set().contains(key));
    let q = choose|q: int| 0 <= q < keys.len() && keys[q] == key;
    let g = |k: Seq<char>| changed(base, target, k, false);
    assert(!breaking_change(counted(base, key), counted(target, key)));
    assert(g(keys[q]) == Some(changed_entry(key, counted(base, key), counted(target, key))));
    lemma_collect_has(keys, g, q);
    assert(diff_modified(base, target) == collect(keys, g));
    let m = diff_modified(base, target);
    let t = choose|t: int| 0 <= t < m.len() && m[t] == g(keys[q])->Some_0;
    assert(m[t].fqn == key);
    let f = |k: Seq<char>| changed(base, target, k, true);
    assert(diff_breaking(base, target) == collect(keys, f));
    assert forall|j: int| 0 <= j < diff_breaking(base, target).len() implies (#[trigger] diff_breaking(
        base,
        target,
    )[j]).fqn != key by {
        lemma_collect_from(keys, f, j);
        let u = choose|u: int| 0 <= u < keys.len() && f(keys[u]) == Some(collect(keys, f)[j]);
        assert(collect(keys, f)[j].fqn == keys[u]);
        if keys[u] == key {
            assert(f(keys[u]) is None);
        }
    }
}

// ── Summary ─────────────────────────────────────────────────────

/// A migration whose DDL drops a table or column.
pub open spec fn dropping_migration(a: ChangeSetArtifact) -> bool {
    a.artifact_type == ArtifactType::MigrationSql && (has_infix(uppercase(a.content@), "DROP TABLE"@)
        || has_infix(uppercase(a.content@), "DROP COLUMN"@))
}

/// The summary entries of artifacts, in order: every artifact as added
/// (with its path as detail), or only the dropping migrations as breaking.
pub open spec fn summary_entries(arts: Seq<ChangeSetArtifact>, breaking_only: bool) -> Seq<EntryView>
    decreases arts.len(),
{
    if arts.len() == 0 {
        Seq::empty()
    } else {
        let rest = summary_entries(arts.drop_last(), breaking_only);
        let a = arts.last();
        if !breaking_only {
            rest.push(
                EntryView {
                    fqn: key_of(a),
                    object_type: artifact_type_text(a.artifact_type),
                    detail: match a.path {
                        Some(p) => Some(p@),
                        None => None,
                    },
                },
            )
        } else if dropping_migration(a) {
            rest.push(
                EntryView {
                    fqn: key_of(a),
                    object_type: artifact_type_text(a.artifact_type),
                    detail: Some("Contains potentially breaking DDL"@),
                },
            )
        } else {
            rest
        }
    }
}

/// Summarize one change set for planning: every artifact as added, and the
/// migrations that drop tables or columns as breaking.
pub fn summarize_changeset(artifacts: &Vec<ChangeSetArtifact>) -> (r: DiffSummary)
    ensures
        entry_views(r.added@) == summary_entries(artifacts@, false),
        r.modified@.len() == 0,
        r.removed@.len() == 0,
        entry_views(r.breaking_changes@) == summary_entries(artifacts@, true),
{
    let mut added: Vec<DiffEntry> = Vec::new();
    let mut breaking: Vec<DiffEntry> = Vec::new();
    let mut i: usize = 0;
    while i < artifacts.len()
        invariant
            i <= artifacts.len(),
            entry_views(added@) == summary_entries(artifacts@.take(i as int), false),
            entry_views(breaking@) == summary_entries(artifacts@.take(i as int), true),
        decreases artifacts.len() - i,
    {
        assert(artifacts@.take(i + 1).drop_last() =~= artifacts@.take(i as int));
        assert(artifacts@.take(i + 1).last() == artifacts@[i as int]);
        let a = &artifacts[i];
        let key = artifact_key(a);
        let detail = match &a.path {
            Some(p) => Some(p.clone()),
            None => None,
        };
        push_entry(&mut added, DiffEntry { fqn: key.clone(), object_type: owned(a.artifact_type.as_str()), detail });
        if a.artifact_type == ArtifactType::MigrationSql {
            let upper = to_uppercase_text(a.content.as_str());
            if contains_infix(upper.as_str(), "DROP TABLE") || contains_infix(upper.as_str(), "DROP COLUMN") {
                push_entry(&mut breaking, entry(key, a.artifact_type, owned("Contains potentially breaking DDL")));
            }
        }
        i += 1;
    }
    assert(artifacts@.take(artifacts.len() as int) =~= artifacts@);
    DiffSummary { added, modified: Vec::new(), removed: Vec::new(), breaking_changes: breaking }
}

} // verus!
