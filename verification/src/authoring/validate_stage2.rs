//! The decisions of stage-2 (dry-run) validation: non-transactional DDL in
//! migrations, the ordered migration lists handed to the scratch schema,
//! what the scratch run reports, and the state of dependencies and
//! supersession targets.

use vstd::prelude::*;
use vstd::string::*;

use crate::authoring::errors::{
    D_COMPAT_DEPENDENCY_FAILED, D_COMPAT_DEPENDENCY_UNPUBLISHED, D_COMPAT_SUPERSESSION_CONFLICT,
    D_SCHEMA_APPLY_FAILED, D_SCHEMA_DOWN_FAILED, D_SCHEMA_DOWN_MISSING,
    D_SCHEMA_NON_TRANSACTIONAL_DDL, V_REF_MISSING_DEPENDENCY,
};
use crate::authoring::ports::ScratchRunResult;
use crate::authoring::types::{
    error_views, plain_error, status_name, terminal, ArtifactType, ChangeSetArtifact,
    ChangeSetStatus, ErrorSeverity, ErrorView, ValidationError,
};
use crate::order::{int_keys, is_stable_int_order, stable_order_by_int};
use crate::text::{
    chars_of, contains_infix, decimal, decimal_text, i32_text, signed_decimal, flat, has_infix, join2, join3, lemma_flat_take,
    lemma_split_nl_nonempty, split_nl, string_of_chars, texts,
};

verus! {

broadcast use vstd::string::group_string_axioms;

/// The text of a character string in upper case, as `str::to_uppercase`
/// writes it.
pub uninterp spec fn uppercase(s: Seq<char>) -> Seq<char>;

/// `str::to_uppercase`.
#[verifier::external_body]
pub(crate) fn to_uppercase_text(s: &str) -> (r: String)
    ensures
        r@ == uppercase(s@),
{
    s.to_uppercase()
}

/// A line without its carriage return.
pub open spec fn strip_cr(l: Seq<char>) -> Seq<char> {
    if l.len() > 0 && l.last() == '\r' {
        l.drop_last()
    } else {
        l
    }
}

/// The lines of a text (`str::lines`): split at `\n`, a `\r` before the
/// `\n` removed, and no empty line after a final newline.
pub open spec fn text_lines(s: Seq<char>) -> Seq<Seq<char>> {
    let p = split_nl(s);
    let head = p.drop_last().map_values(|l: Seq<char>| strip_cr(l));
    if p.last().len() > 0 {
        head.push(p.last())
    } else {
        head
    }
}

/// A line whose upper-case text contains `needle`.
pub open spec fn mentions(l: Seq<char>, needle: Seq<char>) -> bool {
    has_infix(uppercase(l), needle)
}

/// A line that mentions `CONCURRENTLY` in any letter case.
pub open spec fn concurrent_line(l: Seq<char>) -> bool {
    mentions(l, "CONCURRENTLY"@)
}

fn line_mentions(line: &Vec<char>, needle: &str) -> (r: bool)
    ensures
        r == mentions(line@, needle@),
{
    let s = string_of_chars(line);
    let u = to_uppercase_text(s.as_str());
    contains_infix(u.as_str(), needle)
}

fn strip_cr_chars(v: &Vec<char>) -> (r: Vec<char>)
    ensures
        r@ == strip_cr(v@),
{
    let mut r: Vec<char> = Vec::new();
    let n = if v.len() > 0 && v[v.len() - 1] == '\r' {
        v.len() - 1
    } else {
        v.len()
    };
    let mut i: usize = 0;
    while i < n
        invariant
            i <= n <= v.len(),
            r@ == v@.take(i as int),
        decreases n - i,
    {
        r.push(v[i]);
        assert(v@.take(i + 1) =~= v@.take(i as int).push(v@[i as int]));
        i += 1;
    }
    r
}

/// `k` is the first line mentioning `needle`.
pub open spec fn is_first_mention(tl: Seq<Seq<char>>, needle: Seq<char>, k: int) -> bool {
    0 <= k < tl.len() && mentions(tl[k], needle) && forall|j: int|
        0 <= j < k ==> !mentions(#[trigger] tl[j], needle)
}

/// The 1-based number of the first line of `s` whose upper-case text
/// contains `needle`.
pub open spec fn first_mention_line(s: Seq<char>, needle: Seq<char>) -> Option<u32> {
    if exists|k: int| is_first_mention(text_lines(s), needle, k) {
        Some(((choose|k: int| is_first_mention(text_lines(s), needle, k)) + 1) as u32)
    } else {
        None
    }
}

/// The 1-based number of the first line of `s` mentioning `CONCURRENTLY`.
pub open spec fn first_concurrent_line(s: Seq<char>) -> Option<u32> {
    first_mention_line(s, "CONCURRENTLY"@)
}

/// The 1-based number of the first line mentioning `CONCURRENTLY` (in any
/// case), if any.
pub fn find_concurrently_line(content: &str) -> (r: Option<u32>)
    ensures
        r == first_concurrent_line(content@),
{
    first_line_mentioning(content, "CONCURRENTLY")
}

/// The 1-based number of the first line whose upper-case text contains
/// `needle`, if any.
pub fn first_line_mentioning(content: &str, needle: &str) -> (r: Option<u32>)
    ensures
        r == first_mention_line(content@, needle@),
        match r {
            Some(n) => exists|k: int|
                0 <= k < text_lines(content@).len() && mentions(text_lines(content@)[k], needle@)
                    && (forall|j: int| 0 <= j < k ==> !mentions(#[trigger] text_lines(content@)[j], needle@))
                    && n == (k + 1) as u32,
            None => forall|k: int|
                0 <= k < text_lines(content@).len() ==> !mentions(#[trigger] text_lines(content@)[k], needle@),
        },
{
    let cs = chars_of(content);
    let ghost mut raw: Seq<Seq<char>> = Seq::empty();
    let mut cur: Vec<char> = Vec::new();
    let mut k: usize = 0;
    let mut i: usize = 0;
    assert(cs@.take(0) =~= Seq::<char>::empty());
    while i < cs.len()
        invariant
            i <= cs.len(),
            cs@ == content@,
            k == raw.len(),
            k + cur@.len() <= i,
            split_nl(cs@.take(i as int)) == raw.push(cur@),
            forall|j: int| 0 <= j < raw.len() ==> !mentions(#[trigger] strip_cr(raw[j]), needle@),
        decreases cs.len() - i,
    {
        assert(cs@.take(i + 1).drop_last() =~= cs@.take(i as int));
        assert(cs@.take(i + 1).last() == cs@[i as int]);
        if cs[i] == '\n' {
            let line = strip_cr_chars(&cur);
            if line_mentions(&line, needle) {
                proof {
                    let p = split_nl(content@);
                    let pt = split_nl(cs@.take(i + 1));
                    assert(pt == raw.push(cur@).push(Seq::empty()));
                    lemma_split_nl_prefix(cs@, i + 1);
                    assert(p[k as int] == pt[k as int]);
                    assert(p.len() >= k + 2);
                    assert forall|j: int| 0 <= j < k implies p[j] == raw[j] by {
                        assert(p[j] == pt[j]);
                    }
                    let tl = text_lines(content@);
                    assert(tl[k as int] == strip_cr(cur@));
                    assert forall|j: int| 0 <= j < k implies !mentions(#[trigger] tl[j], needle@) by {
                        assert(tl[j] == strip_cr(raw[j]));
                    }
                    assert(is_first_mention(tl, needle@, k as int));
                    lemma_first_mention_unique(tl, needle@, k as int);
                }
                return Some((k + 1) as u32);
            }
            proof {
                raw = raw.push(cur@);
            }
            cur = Vec::new();
            k += 1;
        } else {
            let ghost c0 = cur@;
            cur.push(cs[i]);
            assert(split_nl(cs@.take(i + 1)) =~= raw.push(c0).update(raw.len() as int, c0.push(cs@[i as int])));
            assert(split_nl(cs@.take(i + 1)) =~= raw.push(cur@));
        }
        i += 1;
    }
    assert(cs@.take(cs.len() as int) =~= cs@);
    let ghost tl = text_lines(content@);
    if cur.len() > 0 && line_mentions(&cur, needle) {
        proof {
            assert(tl[k as int] == cur@);
            assert forall|j: int| 0 <= j < k implies !mentions(#[trigger] tl[j], needle@) by {
                assert(tl[j] == strip_cr(raw[j]));
            }
            assert(is_first_mention(tl, needle@, k as int));
            lemma_first_mention_unique(tl, needle@, k as int);
        }
        return Some((k + 1) as u32);
    }
    proof {
        assert forall|j: int| 0 <= j < tl.len() implies !mentions(#[trigger] tl[j], needle@) by {
            if j < k {
                assert(tl[j] == strip_cr(raw[j]));
            }
        }
    }
    None
}

/// The first matching line is unique.
pub proof fn lemma_first_mention_unique(tl: Seq<Seq<char>>, needle: Seq<char>, k: int)
    requires
        is_first_mention(tl, needle, k),
    ensures
        forall|j: int| is_first_mention(tl, needle, j) ==> j == k,
{
    assert forall|j: int| is_first_mention(tl, needle, j) implies j == k by {
        if j < k {
            assert(!mentions(tl[j], needle));
        } else if j > k {
            assert(!mentions(tl[k], needle));
        }
    }
}

/// The complete pieces of a prefix are pieces of the whole text: every
/// piece of `s.take(m)` but the last is the piece of `s` at the same place.
pub proof fn lemma_split_nl_prefix(s: Seq<char>, m: int)
    requires
        0 <= m <= s.len(),
    ensures
        split_nl(s.take(m)).len() <= split_nl(s).len(),
        forall|k: int|
            0 <= k < split_nl(s.take(m)).len() - 1 ==> #[trigger] split_nl(s)[k] == split_nl(s.take(m))[k],
    decreases s.len(),
{
    lemma_split_nl_nonempty(s);
    lemma_split_nl_nonempty(s.take(m));
    if m == s.len() {
        assert(s.take(m) =~= s);
    } else {
        let d = s.drop_last();
        assert(s.take(m) =~= d.take(m));
        lemma_split_nl_prefix(d, m);
        lemma_split_nl_nonempty(d);
    }
}

} // verus!

verus! {

// ── Schema safety ───────────────────────────────────────────────

/// The positions of the artifacts of one type, in bundle order.
pub open spec fn positions_of(arts: Seq<ChangeSetArtifact>, t: ArtifactType) -> Seq<usize> {
    flat(Seq::new(arts.len(), |i: int| if arts[i].artifact_type == t { seq![i as usize] } else { Seq::empty() }))
}

/// The ordinals of the artifacts at the given positions.
pub open spec fn ordinals_at(arts: Seq<ChangeSetArtifact>, ps: Seq<usize>) -> Seq<int> {
    ps.map_values(|i: usize| arts[i as int].ordinal as int)
}

/// The name handed to the scratch runner: the path, else `<prefix><ordinal>`.
pub open spec fn run_name(a: ChangeSetArtifact, prefix: Seq<char>) -> Seq<char> {
    match a.path {
        Some(p) => p@,
        None => prefix + signed_decimal(a.ordinal as int),
    }
}

/// The error for a migration that uses CONCURRENTLY.
pub open spec fn concurrently_error(a: ChangeSetArtifact) -> ErrorView {
    ErrorView {
        code: D_SCHEMA_NON_TRANSACTIONAL_DDL@,
        severity: ErrorSeverity::Error,
        message: "Migration contains CONCURRENTLY which cannot run in a transaction: "@ + match a.path {
            Some(p) => p@,
            None => "unknown"@,
        },
        artifact_path: match a.path {
            Some(p) => Some(p@),
            None => None,
        },
        line: first_concurrent_line(a.content@),
        has_context: false,
    }
}

/// What is handed to the scratch schema, and what stops it.
#[derive(Debug, Clone)]
pub struct ScratchPlan {
    /// Forward migrations as (name, SQL), by ordinal.
    pub migrations: Vec<(String, String)>,
    /// Down migrations as (name, SQL), by ordinal.
    pub down_migrations: Vec<(String, String)>,
    /// Errors for migrations with non-transactional DDL.
    pub errors: Vec<ValidationError>,
    /// Whether the scratch run should go ahead.
    pub run_scratch: bool,
}

fn positions_of_type(arts: &Vec<ChangeSetArtifact>, t: ArtifactType) -> (r: Vec<usize>)
    ensures
        r@ == positions_of(arts@, t),
        forall|k: int| 0 <= k < r@.len() ==> #[trigger] r@[k] < arts@.len(),
{
    let ghost parts = Seq::new(arts@.len(), |i: int| if arts@[i].artifact_type == t { seq![i as usize] } else { Seq::<usize>::empty() });
    let mut r: Vec<usize> = Vec::new();
    let mut i: usize = 0;
    while i < arts.len()
        invariant
            i <= arts.len(),
            parts == Seq::new(arts@.len(), |i: int| if arts@[i].artifact_type == t { seq![i as usize] } else { Seq::<usize>::empty() }),
            r@ == flat(parts.take(i as int)),
            forall|k: int| 0 <= k < r@.len() ==> #[trigger] r@[k] < i,
        decreases arts.len() - i,
    {
        if arts[i].artifact_type == t {
            r.push(i);
        }
        proof {
            lemma_flat_take(parts, i as int);
        }
        i += 1;
    }
    assert(parts.take(parts.len() as int) =~= parts);
    r
}

fn run_entries(arts: &Vec<ChangeSetArtifact>, ps: &Vec<usize>, prefix: &str) -> (r: (Vec<(String, String)>, Vec<usize>))
    requires
        forall|k: int| 0 <= k < ps@.len() ==> #[trigger] ps@[k] < arts@.len(),
    ensures
        is_stable_int_order(ordinals_at(arts@, ps@), r.1@),
        r.0@.len() == ps@.len(),
        forall|k: int|
            0 <= k < ps@.len() ==> (#[trigger] r.0@[k]).0@ == run_name(arts@[ps@[r.1@[k] as int] as int], prefix@)
                && r.0@[k].1@ == arts@[ps@[r.1@[k] as int] as int].content@,
{
    let mut ords: Vec<i32> = Vec::new();
    let mut i: usize = 0;
    while i < ps.len()
        invariant
            i <= ps.len(),
            forall|k: int| 0 <= k < ps@.len() ==> #[trigger] ps@[k] < arts@.len(),
            ords@.len() == i,
            forall|k: int| 0 <= k < i ==> #[trigger] ords@[k] == arts@[ps@[k] as int].ordinal,
        decreases ps.len() - i,
    {
        ords.push(arts[ps[i]].ordinal);
        i += 1;
    }
    assert(int_keys(ords@) =~= ordinals_at(arts@, ps@));
    let p = stable_order_by_int(&ords);
    let mut out: Vec<(String, String)> = Vec::new();
    let mut k: usize = 0;
    while k < p.len()
        invariant
            k <= p.len(),
            p@.len() == ps@.len(),
            is_stable_int_order(ordinals_at(arts@, ps@), p@),
            forall|k: int| 0 <= k < ps@.len() ==> #[trigger] ps@[k] < arts@.len(),
            out@.len() == k,
            forall|m: int|
                0 <= m < k ==> (#[trigger] out@[m]).0@ == run_name(arts@[ps@[p@[m] as int] as int], prefix@)
                    && out@[m].1@ == arts@[ps@[p@[m] as int] as int].content@,
        decreases p.len() - k,
    {
        let a = &arts[ps[p[k]]];
        let name = match &a.path {
            Some(path) => path.clone(),
            None => {
                let d = i32_text(a.ordinal);
                join2(prefix, d.as_str())
            },
        };
        out.push((name, a.content.clone()));
        k += 1;
    }
    (out, p)
}

/// Prepare the scratch run: forward and down migrations sorted stably by
/// ordinal, an error for every forward migration that uses CONCURRENTLY
/// (which cannot run in a transaction), and a run only when there are
/// forward migrations and no such error.
pub fn plan_schema_safety(artifacts: &Vec<ChangeSetArtifact>) -> (r: ScratchPlan)
    ensures
        ({
            let fwd = positions_of(artifacts@, ArtifactType::MigrationSql);
            let down = positions_of(artifacts@, ArtifactType::MigrationDownSql);
            &&& r.migrations@.len() == fwd.len()
            &&& r.down_migrations@.len() == down.len()
            &&& exists|p: Seq<usize>|
                #[trigger] is_stable_int_order(ordinals_at(artifacts@, fwd), p) && (forall|k: int|
                    0 <= k < fwd.len() ==> (#[trigger] r.migrations@[k]).0@ == run_name(
                        artifacts@[fwd[p[k] as int] as int],
                        "ordinal_"@,
                    ) && r.migrations@[k].1@ == artifacts@[fwd[p[k] as int] as int].content@)
                        && error_views(r.errors@) == flat(
                        Seq::new(
                            fwd.len(),
                            |m: int|
                                if has_infix(uppercase(artifacts@[fwd[p[m] as int] as int].content@), "CONCURRENTLY"@) {
                                    seq![concurrently_error(artifacts@[fwd[p[m] as int] as int])]
                                } else {
                                    Seq::empty()
                                },
                        ),
                    )
            &&& exists|q: Seq<usize>|
                #[trigger] is_stable_int_order(ordinals_at(artifacts@, down), q) && forall|k: int|
                    0 <= k < down.len() ==> (#[trigger] r.down_migrations@[k]).0@ == run_name(
                        artifacts@[down[q[k] as int] as int],
                        "down_ordinal_"@,
                    ) && r.down_migrations@[k].1@ == artifacts@[down[q[k] as int] as int].content@
            &&& r.run_scratch == (fwd.len() > 0 && r.errors@.len() == 0)
        }),
{
    let fwd = positions_of_type(artifacts, ArtifactType::MigrationSql);
    let down = positions_of_type(artifacts, ArtifactType::MigrationDownSql);
    let (migrations, p) = run_entries(artifacts, &fwd, "ordinal_");
    let (down_migrations, q) = run_entries(artifacts, &down, "down_ordinal_");
    let ghost parts = Seq::new(
        fwd@.len(),
        |m: int|
            if has_infix(uppercase(artifacts@[fwd@[p@[m] as int] as int].content@), "CONCURRENTLY"@) {
                seq![concurrently_error(artifacts@[fwd@[p@[m] as int] as int])]
            } else {
                Seq::<ErrorView>::empty()
            },
    );
    let mut errors: Vec<ValidationError> = Vec::new();
    let mut k: usize = 0;
    while k < p.len()
        invariant
            k <= p.len(),
            p@.len() == fwd@.len(),
            is_stable_int_order(ordinals_at(artifacts@, fwd@), p@),
            forall|i: int| 0 <= i < fwd@.len() ==> #[trigger] fwd@[i] < artifacts@.len(),
            parts == Seq::new(
                fwd@.len(),
                |m: int|
                    if has_infix(uppercase(artifacts@[fwd@[p@[m] as int] as int].content@), "CONCURRENTLY"@) {
                        seq![concurrently_error(artifacts@[fwd@[p@[m] as int] as int])]
                    } else {
                        Seq::<ErrorView>::empty()
                    },
            ),
            error_views(errors@) == flat(parts.take(k as int)),
        decreases p.len() - k,
    {
        let a = &artifacts[fwd[p[k]]];
        let upper = to_uppercase_text(a.content.as_str());
        let ghost before = error_views(errors@);
        if contains_infix(upper.as_str(), "CONCURRENTLY") {
            let path_text = match &a.path {
                Some(path) => path.as_str(),
                None => "unknown",
            };
            let line = find_concurrently_line(a.content.as_str());
            errors.push(
                ValidationError {
                    code: D_SCHEMA_NON_TRANSACTIONAL_DDL.to_owned(),
                    severity: ErrorSeverity::Error,
                    message: join2(
                        "Migration contains CONCURRENTLY which cannot run in a transaction: ",
                        path_text,
                    ),
                    artifact_path: crate::text::copy_opt(&a.path),
                    line,
                    context: None,
                },
            );
        }
        proof {
            lemma_flat_take(parts, k as int);
            assert(error_views(errors@) =~= before + parts[k as int]);
        }
        k += 1;
    }
    assert(parts.take(parts.len() as int) =~= parts);
    let run_scratch = fwd.len() > 0 && errors.len() == 0;
    ScratchPlan { migrations, down_migrations, errors, run_scratch }
}

/// What a scratch run reported.
#[derive(Debug, Clone)]
pub struct ScratchFindings {
    pub errors: Vec<ValidationError>,
    pub warnings: Vec<ValidationError>,
    pub apply_ms: Option<u64>,
}

/// Findings of a completed scratch run.
pub open spec fn apply_errors_of(run: ScratchRunResult) -> Seq<ErrorView> {
    texts(run.apply_errors@).map_values(|m: Seq<char>| plain_error(D_SCHEMA_APPLY_FAILED@, ErrorSeverity::Error, "Scratch schema apply failed: "@ + m))
}

/// Warnings of a completed scratch run: a missing down migration, then each
/// down-migration failure.
pub open spec fn run_warnings_of(run: ScratchRunResult, has_down_migrations: bool) -> Seq<ErrorView> {
    (if has_down_migrations {
        Seq::empty()
    } else {
        seq![plain_error(D_SCHEMA_DOWN_MISSING@, ErrorSeverity::Warning, "No down migration provided for forward migration(s)"@)]
    }) + texts(run.down_errors@).map_values(|m: Seq<char>| plain_error(D_SCHEMA_DOWN_FAILED@, ErrorSeverity::Warning, "Down migration failed in scratch: "@ + m))
}

fn messages_to_errors(msgs: &Vec<String>, code: &str, severity: ErrorSeverity, prefix: &str) -> (r: Vec<ValidationError>)
    ensures
        error_views(r@) == texts(msgs@).map_values(|m: Seq<char>| plain_error(code@, severity, prefix@ + m)),
{
    let mut r: Vec<ValidationError> = Vec::new();
    let mut i: usize = 0;
    while i < msgs.len()
        invariant
            i <= msgs.len(),
            r@.len() == i,
            forall|k: int| 0 <= k < i ==> (#[trigger] r@[k])@ == plain_error(code@, severity, prefix@ + msgs@[k]@),
        decreases msgs.len() - i,
    {
        r.push(
            ValidationError {
                code: code.to_owned(),
                severity,
                message: join2(prefix, msgs[i].as_str()),
                artifact_path: None,
                line: None,
                context: None,
            },
        );
        i += 1;
    }
    assert(error_views(r@) =~= texts(msgs@).map_values(|m: Seq<char>| plain_error(code@, severity, prefix@ + m)));
    r
}

/// Turn the outcome of a scratch run into findings: apply errors, a
/// missing-down warning, down-migration failures and the apply time; a
/// runner failure (its message) is one apply error.
pub fn scratch_findings(outcome: &Result<ScratchRunResult, String>, has_down_migrations: bool) -> (r: ScratchFindings)
    ensures
        match outcome {
            Ok(run) => {
                &&& r.apply_ms == Some(run.apply_ms)
                &&& error_views(r.errors@) == apply_errors_of(*run)
                &&& error_views(r.warnings@) == run_warnings_of(*run, has_down_migrations)
            },
            Err(e) => {
                &&& r.apply_ms is None
                &&& error_views(r.errors@) == seq![plain_error(D_SCHEMA_APPLY_FAILED@, ErrorSeverity::Error, "Scratch schema runner error: "@ + e@)]
                &&& r.warnings@.len() == 0
            },
        },
{
    match outcome {
        Ok(run) => {
            let errors = messages_to_errors(&run.apply_errors, D_SCHEMA_APPLY_FAILED, ErrorSeverity::Error, "Scratch schema apply failed: ");
            let mut warnings: Vec<ValidationError> = Vec::new();
            if !has_down_migrations {
                warnings.push(
                    ValidationError {
                        code: D_SCHEMA_DOWN_MISSING.to_owned(),
                        severity: ErrorSeverity::Warning,
                        message: "No down migration provided for forward migration(s)".to_owned(),
                        artifact_path: None,
                        line: None,
                        context: None,
                    },
                );
            }
            let ghost head = error_views(warnings@);
            let mut downs = messages_to_errors(&run.down_errors, D_SCHEMA_DOWN_FAILED, ErrorSeverity::Warning, "Down migration failed in scratch: ");
            let ghost tail = error_views(downs@);
            let ghost w0 = warnings@;
            let ghost d0 = downs@;
            warnings.append(&mut downs);
            proof {
                assert(warnings@ == w0 + d0);
                assert(error_views(warnings@) =~= head + tail);
                assert(head =~= (if has_down_migrations {
                    Seq::empty()
                } else {
                    seq![plain_error(D_SCHEMA_DOWN_MISSING@, ErrorSeverity::Warning, "No down migration provided for forward migration(s)"@)]
                }));
            }
            ScratchFindings { errors, warnings, apply_ms: Some(run.apply_ms) }
        },
        Err(e) => {
            let mut errors: Vec<ValidationError> = Vec::new();
            errors.push(
                ValidationError {
                    code: D_SCHEMA_APPLY_FAILED.to_owned(),
                    severity: ErrorSeverity::Error,
                    message: join2("Scratch schema runner error: ", e.as_str()),
                    artifact_path: None,
                    line: None,
                    context: None,
                },
            );
            assert(error_views(errors@) =~= seq![plain_error(D_SCHEMA_APPLY_FAILED@, ErrorSeverity::Error, "Scratch schema runner error: "@ + e@)]);
            ScratchFindings { errors, warnings: Vec::new(), apply_ms: None }
        },
    }
}

// ── Compatibility ───────────────────────────────────────────────

/// What the store answered about a change set.
#[derive(Debug, Clone, PartialEq, Eq)]
pub enum ChangeSetLookup {
    /// Its status, and the text of the change set that superseded it.
    Found { status: ChangeSetStatus, superseded_by: Option<String> },
    /// The store's error message.
    Failed { message: String },
}

/// A store error that means the change set does not exist.
pub open spec fn not_found(message: Seq<char>) -> bool {
    has_infix(message, "not found"@) || has_infix(message, "NotFound"@)
}

/// The errors for one dependency of a change set.
pub open spec fn dependency_errors_of(dep_id: Seq<char>, lookup: ChangeSetLookup) -> Seq<ErrorView> {
    match lookup {
        ChangeSetLookup::Found { status, .. } => if status is Published {
            Seq::empty()
        } else if status is Rejected || status is DryRunFailed {
            seq![plain_error(D_COMPAT_DEPENDENCY_FAILED@, ErrorSeverity::Error, "Dependency "@ + dep_id + " is in failed state: "@ + status_name(status))]
        } else {
            seq![plain_error(D_COMPAT_DEPENDENCY_UNPUBLISHED@, ErrorSeverity::Error, "Dependency "@ + dep_id + " is not yet published (status: "@ + status_name(status) + ")"@)]
        },
        ChangeSetLookup::Failed { message } => if not_found(message@) {
            seq![plain_error(V_REF_MISSING_DEPENDENCY@, ErrorSeverity::Error, "Dependency ChangeSet "@ + dep_id + " not found"@)]
        } else {
            seq![plain_error(D_SCHEMA_APPLY_FAILED@, ErrorSeverity::Error, "Error checking dependency "@ + dep_id + ": "@ + message@)]
        },
    }
}

/// The errors for the change set being superseded.
pub open spec fn supersession_errors_of(target_id: Seq<char>, lookup: ChangeSetLookup) -> Seq<ErrorView> {
    match lookup {
        ChangeSetLookup::Found { status, superseded_by } => (match superseded_by {
            Some(by) => seq![plain_error(D_COMPAT_SUPERSESSION_CONFLICT@, ErrorSeverity::Error, "ChangeSet "@ + target_id + " is already superseded by Some("@ + by@ + ")"@)],
            None => Seq::empty(),
        }) + (if terminal(status) {
            Seq::empty()
        } else {
            seq![plain_error(D_COMPAT_SUPERSESSION_CONFLICT@, ErrorSeverity::Error, "Cannot supersede ChangeSet "@ + target_id + " — it is not in a terminal state ("@ + status_name(status) + ")"@)]
        }),
        ChangeSetLookup::Failed { message } => if not_found(message@) {
            seq![plain_error(V_REF_MISSING_DEPENDENCY@, ErrorSeverity::Error, "Supersedes target ChangeSet "@ + target_id + " not found"@)]
        } else {
            seq![plain_error(D_SCHEMA_APPLY_FAILED@, ErrorSeverity::Error, "Error checking supersession target: "@ + message@)]
        },
    }
}

fn plain(code: &str, message: String) -> (r: ValidationError)
    ensures
        r@ == plain_error(code@, ErrorSeverity::Error, message@),
{
    ValidationError { code: code.to_owned(), severity: ErrorSeverity::Error, message, artifact_path: None, line: None, context: None }
}

/// The errors for one dependency: fine when published, failed when
/// rejected or failed, unpublished otherwise; missing or unreadable when
/// the store failed.
pub fn dependency_errors(dep_id: &str, lookup: &ChangeSetLookup) -> (r: Vec<ValidationError>)
    ensures
        error_views(r@) == dependency_errors_of(dep_id@, *lookup),
{
    let mut r: Vec<ValidationError> = Vec::new();
    match lookup {
        ChangeSetLookup::Found { status, .. } => {
            match status {
                ChangeSetStatus::Published => {},
                ChangeSetStatus::Rejected | ChangeSetStatus::DryRunFailed => {
                    let msg = join3("Dependency ", dep_id, " is in failed state: ");
                    let msg = join2(msg.as_str(), status.as_str());
                    r.push(plain(D_COMPAT_DEPENDENCY_FAILED, msg));
                },
                _ => {
                    let msg = join3("Dependency ", dep_id, " is not yet published (status: ");
                    let msg = join3(msg.as_str(), status.as_str(), ")");
                    r.push(plain(D_COMPAT_DEPENDENCY_UNPUBLISHED, msg));
                },
            }
        },
        ChangeSetLookup::Failed { message } => {
            if contains_infix(message.as_str(), "not found") || contains_infix(message.as_str(), "NotFound") {
                r.push(plain(V_REF_MISSING_DEPENDENCY, join3("Dependency ChangeSet ", dep_id, " not found")));
            } else {
                let msg = join3("Error checking dependency ", dep_id, ": ");
                r.push(plain(D_SCHEMA_APPLY_FAILED, join2(msg.as_str(), message.as_str())));
            }
        },
    }
    assert(error_views(r@) =~= dependency_errors_of(dep_id@, *lookup));
    r
}

/// The errors for the change set being superseded: already superseded, or
/// not in a terminal state; missing or unreadable when the store failed.
pub fn supersession_errors(target_id: &str, lookup: &ChangeSetLookup) -> (r: Vec<ValidationError>)
    ensures
        error_views(r@) == supersession_errors_of(target_id@, *lookup),
{
    let mut r: Vec<ValidationError> = Vec::new();
    match lookup {
        ChangeSetLookup::Found { status, superseded_by } => {
            match superseded_by {
                Some(by) => {
                    let msg = join3("ChangeSet ", target_id, " is already superseded by Some(");
                    let msg = join3(msg.as_str(), by.as_str(), ")");
                    r.push(plain(D_COMPAT_SUPERSESSION_CONFLICT, msg));
                },
                None => {},
            }
            if !status.is_terminal() {
                let msg = join3("Cannot supersede ChangeSet ", target_id, " — it is not in a terminal state (");
                let msg = join3(msg.as_str(), status.as_str(), ")");
                r.push(plain(D_COMPAT_SUPERSESSION_CONFLICT, msg));
            }
        },
        ChangeSetLookup::Failed { message } => {
            if contains_infix(message.as_str(), "not found") || contains_infix(message.as_str(), "NotFound") {
                r.push(plain(V_REF_MISSING_DEPENDENCY, join3("Supersedes target ChangeSet ", target_id, " not found")));
            } else {
                r.push(plain(D_SCHEMA_APPLY_FAILED, join2("Error checking supersession target: ", message.as_str())));
            }
        },
    }
    assert(error_views(r@) =~= supersession_errors_of(target_id@, *lookup));
    r
}

/// The compatibility errors of a change set: for each dependency in order,
/// then for the supersession target if there is one.
pub fn validate_compatibility(
    dependencies: &Vec<(String, ChangeSetLookup)>,
    supersedes: &Option<(String, ChangeSetLookup)>,
) -> (r: Vec<ValidationError>)
    ensures
        error_views(r@) == flat(Seq::new(dependencies@.len(), |i: int| dependency_errors_of(dependencies@[i].0@, dependencies@[i].1))) + match supersedes {
            Some(s) => supersession_errors_of(s.0@, s.1),
            None => Seq::empty(),
        },
{
    let ghost parts = Seq::new(dependencies@.len(), |i: int| dependency_errors_of(dependencies@[i].0@, dependencies@[i].1));
    let mut r: Vec<ValidationError> = Vec::new();
    let mut i: usize = 0;
    while i < dependencies.len()
        invariant
            i <= dependencies.len(),
            parts == Seq::new(dependencies@.len(), |i: int| dependency_errors_of(dependencies@[i].0@, dependencies@[i].1)),
            error_views(r@) == flat(parts.take(i as int)),
        decreases dependencies.len() - i,
    {
        let mut more = dependency_errors(dependencies[i].0.as_str(), &dependencies[i].1);
        let ghost a = r@;
        let ghost b = more@;
        r.append(&mut more);
        proof {
            lemma_flat_take(parts, i as int);
            assert(r@ == a + b);
            assert(error_views(r@) =~= error_views(a) + error_views(b));
        }
        i += 1;
    }
    assert(parts.take(parts.len() as int) =~= parts);
    match supersedes {
        Some(s) => {
            let mut more = supersession_errors(s.0.as_str(), &s.1);
            let ghost a = r@;
            let ghost b = more@;
            r.append(&mut more);
            assert(r@ == a + b);
            assert(error_views(r@) =~= error_views(a) + error_views(b));
        },
        None => {
            assert(error_views(r@) =~= error_views(r@) + Seq::<ErrorView>::empty());
        },
    }
    r
}

} // verus!
