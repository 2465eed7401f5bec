//! Stage-1 validation of a change-set bundle, without the registry:
//! artifact integrity (declared artifacts present, declared hashes match,
//! contents parse), reference checks (no dependency declared twice) and
//! semantic checks (migration DDL that needs care, verb contracts and
//! attribute definitions that lack required fields).

use vstd::prelude::*;
use vstd::string::*;

use crate::assoc::{find_key, keys_of, map_of, put_ordered};
use crate::authoring::canonical_hash::{compute_artifact_hash_typed, typed_hash};
use crate::authoring::errors::{
    D_SCHEMA_FORBIDDEN_DDL, D_SCHEMA_NON_TRANSACTIONAL_DDL, V_HASH_MISMATCH, V_HASH_MISSING_ARTIFACT,
    V_PARSE_JSON_SYNTAX, V_PARSE_SQL_SYNTAX, V_PARSE_YAML_SYNTAX, V_REF_CIRCULAR_DEPENDENCY,
    V_TYPE_ATTRIBUTE_MISMATCH, V_TYPE_CONTRACT_INCOMPLETE,
};
use crate::authoring::types::{
    error_views, ArtifactManifestEntry, ArtifactType, ChangeSetArtifact, ChangeSetManifest, ErrorSeverity,
    ErrorView, ValidationError, ValidationReport,
};
use crate::authoring::validate_stage2::{first_line_mentioning, first_mention_line, to_uppercase_text, uppercase};
use crate::gates::{uuid_string, uuid_text};
use crate::order::strictly_sorted;
use crate::text::{
    char_is_whitespace, chars_of, contains_infix, find_infix, has_infix, is_first_occurrence, join2, join3,
    join5, owned, string_of_chars, white_space,
};

verus! {

broadcast use vstd::string::group_string_axioms;

// ── Parsers ─────────────────────────────────────────────────────

/// What `sqlparser` (PostgreSQL dialect) reports for a text that does not
/// parse as SQL: the error's text, and the message of a parser error
/// (`None` for tokenizer and recursion errors); `None` when it parses.
pub uninterp spec fn sql_error(content: Seq<char>) -> Option<(Seq<char>, Option<Seq<char>>)>;

/// `sqlparser::parser::Parser::parse_sql` with the PostgreSQL dialect.
#[verifier::external_body]
fn sql_syntax_error(content: &str) -> (r: Option<(String, Option<String>)>)
    ensures
        match r {
            None => sql_error(content@) is None,
            Some(e) => sql_error(content@) == Some(
                (
                    e.0@,
                    match e.1 {
                        Some(m) => Some(m@),
                        None => None,
                    },
                ),
            ),
        },
{
    let dialect = sqlparser::dialect::PostgreSqlDialect {};
    match sqlparser::parser::Parser::parse_sql(&dialect, content) {
        Ok(_) => None,
        Err(e) => {
            let text = e.to_string();
            match e {
                sqlparser::parser::ParserError::ParserError(m) => Some((text, Some(m))),
                _ => Some((text, None)),
            }
        },
    }
}

/// What `serde_json` reports for a text that does not parse as JSON: the
/// error's text and line; `None` when it parses.
pub uninterp spec fn json_error(content: Seq<char>) -> Option<(Seq<char>, usize)>;

/// `serde_json::from_str::<serde_json::Value>`, keeping only its error.
#[verifier::external_body]
fn json_syntax_error(content: &str) -> (r: Option<(String, usize)>)
    ensures
        match r {
            None => json_error(content@) is None,
            Some(e) => json_error(content@) == Some((e.0@, e.1)),
        },
{
    match serde_json::from_str::<serde_json::Value>(content) {
        Ok(_) => None,
        Err(e) => Some((e.to_string(), e.line())),
    }
}

/// What `serde_yaml` reports for a text that does not parse as YAML: the
/// error's text and line, when it has a location; `None` when it parses.
pub uninterp spec fn yaml_error(content: Seq<char>) -> Option<(Seq<char>, Option<usize>)>;

/// `serde_yaml::from_str::<serde_yaml::Value>`, keeping only its error.
#[verifier::external_body]
pub(crate) fn yaml_syntax_error(content: &str) -> (r: Option<(String, Option<usize>)>)
    ensures
        match r {
            None => yaml_error(content@) is None,
            Some(e) => yaml_error(content@) == Some((e.0@, e.1)),
        },
{
    match serde_yaml::from_str::<serde_yaml::Value>(content) {
        Ok(_) => None,
        Err(e) => {
            let line = e.location().map(|l| l.line());
            Some((e.to_string(), line))
        },
    }
}

/// Whether the JSON document a text holds has the top-level field;
/// `None` when the text is not JSON.
pub uninterp spec fn json_field(content: Seq<char>, field: Seq<char>) -> Option<bool>;

/// `serde_json::from_str::<serde_json::Value>` followed by `get(field)`.
#[verifier::external_body]
fn json_field_present(content: &str, field: &str) -> (r: Option<bool>)
    ensures
        r == json_field(content@, field@),
        r is None <==> json_error(content@) is Some,
{
    serde_json::from_str::<serde_json::Value>(content).ok().map(|v| v.get(field).is_some())
}

/// Whether the YAML document a text holds has the top-level field; `None`
/// when the text is not YAML.
pub uninterp spec fn yaml_field(content: Seq<char>, field: Seq<char>) -> Option<bool>;

/// `serde_yaml::from_str::<serde_yaml::Value>` followed by `get(field)`.
#[verifier::external_body]
fn yaml_field_present(content: &str, field: &str) -> (r: Option<bool>)
    ensures
        r == yaml_field(content@, field@),
        r is None <==> yaml_error(content@) is Some,
{
    serde_yaml::from_str::<serde_yaml::Value>(content).ok().map(|v| v.get(field).is_some())
}

// ── Line numbers of SQL errors ──────────────────────────────────

/// The text with its leading whitespace removed.
pub open spec fn skip_white(s: Seq<char>) -> Seq<char>
    decreases s.len(),
{
    if s.len() > 0 && white_space(s[0]) {
        skip_white(s.drop_first())
    } else {
        s
    }
}

/// The leading run of non-whitespace characters.
pub open spec fn leading_word(s: Seq<char>) -> Seq<char>
    decreases s.len(),
{
    if s.len() == 0 || white_space(s[0]) {
        Seq::empty()
    } else {
        seq![s[0]] + leading_word(s.drop_first())
    }
}

/// The first whitespace-separated word of a text (`split_whitespace().next()`).
pub open spec fn first_word(s: Seq<char>) -> Option<Seq<char>> {
    if skip_white(s).len() == 0 {
        None
    } else {
        Some(leading_word(skip_white(s)))
    }
}

/// The value of a string of decimal digits.
pub open spec fn digits_value(d: Seq<char>) -> nat
    decreases d.len(),
{
    if d.len() == 0 {
        0
    } else {
        digits_value(d.drop_last()) * 10 + ((d.last() as u32) - ('0' as u32)) as nat
    }
}

pub open spec fn all_digits(d: Seq<char>) -> bool {
    forall|i: int| 0 <= i < d.len() ==> '0' <= #[trigger] d[i] <= '9'
}

/// A text read as an unsigned 32-bit number, as `u32::from_str` reads it:
/// an optional `+`, then at least one decimal digit, within range.
pub open spec fn parse_u32(s: Seq<char>) -> Option<u32> {
    let d = if s.len() > 0 && s[0] == '+' {
        s.drop_first()
    } else {
        s
    };
    if d.len() == 0 || !all_digits(d) || digits_value(d) > u32::MAX {
        None
    } else {
        Some(digits_value(d) as u32)
    }
}

/// The line number a parser message gives after `at Line: `, if any.
pub open spec fn line_in_message(m: Seq<char>) -> Option<u32> {
    if has_infix(m, "at Line: "@) {
        let i = choose|i: int| is_first_occurrence(m, "at Line: "@, i);
        match first_word(m.skip(i + 9)) {
            Some(w) => parse_u32(w),
            None => None,
        }
    } else {
        None
    }
}

/// The line number of a SQL error: from the message of a parser error.
pub open spec fn sql_line(detail: Option<Seq<char>>) -> Option<u32> {
    match detail {
        Some(m) => line_in_message(m),
        None => None,
    }
}

proof fn lemma_first_occurrence_unique(s: Seq<char>, t: Seq<char>, i: int)
    requires
        is_first_occurrence(s, t, i),
    ensures
        forall|j: int| is_first_occurrence(s, t, j) ==> j == i,
{
}

fn first_word_of(s: &Vec<char>, from: usize) -> (r: Option<Vec<char>>)
    requires
        from <= s.len(),
    ensures
        match r {
            Some(w) => first_word(s@.skip(from as int)) == Some(w@),
            None => first_word(s@.skip(from as int)) is None,
        },
{
    let mut i: usize = from;
    while i < s.len() && char_is_whitespace(s[i])
        invariant
            from <= i <= s.len(),
            skip_white(s@.skip(from as int)) == skip_white(s@.skip(i as int)),
        decreases s.len() - i,
    {
        assert(s@.skip(i as int).drop_first() =~= s@.skip(i + 1));
        i += 1;
    }
    assert(skip_white(s@.skip(i as int)) == s@.skip(i as int)) by {
        if i < s.len() {
            assert(s@.skip(i as int)[0] == s@[i as int]);
        }
    }
    if i == s.len() {
        assert(s@.skip(i as int).len() == 0);
        return None;
    }
    let start = i;
    let mut w: Vec<char> = Vec::new();
    while i < s.len() && !char_is_whitespace(s[i])
        invariant
            start <= i <= s.len(),
            start < s.len(),
            leading_word(s@.skip(start as int)) == w@ + leading_word(s@.skip(i as int)),
        decreases s.len() - i,
    {
        assert(s@.skip(i as int).drop_first() =~= s@.skip(i + 1));
        assert(s@.skip(i as int)[0] == s@[i as int]);
        let ghost w0 = w@;
        w.push(s[i]);
        assert(w0 + (seq![s@[i as int]] + leading_word(s@.skip(i + 1))) =~= w@ + leading_word(s@.skip(i + 1)));
        i += 1;
    }
    assert(leading_word(s@.skip(i as int)) =~= Seq::<char>::empty()) by {
        if i < s.len() {
            assert(s@.skip(i as int)[0] == s@[i as int]);
        }
    }
    assert(w@ + Seq::<char>::empty() =~= w@);
    Some(w)
}

proof fn lemma_digits_value_step(d: Seq<char>, k: int)
    requires
        0 <= k < d.len(),
    ensures
        digits_value(d.take(k + 1)) == digits_value(d.take(k)) * 10 + ((d[k] as u32) - ('0' as u32)) as nat,
{
    assert(d.take(k + 1).drop_last() =~= d.take(k));
}

fn parse_u32_of(s: &Vec<char>) -> (r: Option<u32>)
    ensures
        r == parse_u32(s@),
{
    let start: usize = if s.len() > 0 && s[0] == '+' {
        1
    } else {
        0
    };
    let ghost d = s@.skip(start as int);
    assert(d =~= if s@.len() > 0 && s@[0] == '+' {
        s@.drop_first()
    } else {
        s@
    });
    if start == s.len() {
        return None;
    }
    let mut value: u64 = 0;
    let mut k: usize = start;
    while k < s.len()
        invariant
            start <= k <= s.len(),
            d == s@.skip(start as int),
            d == if s@.len() > 0 && s@[0] == '+' {
                s@.drop_first()
            } else {
                s@
            },
            all_digits(d.take(k - start)),
            value == digits_value(d.take(k - start)),
            value <= u32::MAX,
        decreases s.len() - k,
    {
        let c = s[k];
        assert(d[k - start] == c);
        if c < '0' || c > '9' {
            assert(!all_digits(d));
            return None;
        }
        proof {
            lemma_digits_value_step(d, k - start);
        }
        let digit = (c as u32 - '0' as u32) as u64;
        let next = value * 10 + digit;
        assert(d.take(k + 1 - start) =~= d.take(k - start).push(c));
        if next > 4294967295 {
            proof {
                lemma_digits_value_prefix_bound(d, (k + 1 - start) as int);
            }
            return None;
        }
        value = next;
        k += 1;
    }
    assert(d.take(k - start) =~= d);
    Some(value as u32)
}

/// A longer run of digits is worth at least as much.
proof fn lemma_digits_value_prefix_bound(d: Seq<char>, k: int)
    requires
        0 <= k <= d.len(),
    ensures
        all_digits(d) ==> digits_value(d.take(k)) <= digits_value(d),
    decreases d.len() - k,
{
    if k < d.len() && all_digits(d) {
        lemma_digits_value_prefix_bound(d, k + 1);
        lemma_digits_value_step(d, k);
        assert('0' <= d[k] <= '9');
    } else if k == d.len() {
        assert(d.take(k) =~= d);
    }
}

fn line_from_message(m: &str) -> (r: Option<u32>)
    ensures
        r == line_in_message(m@),
{
    let cs = chars_of(m);
    let marker = chars_of("at Line: ");
    proof {
        reveal_strlit("at Line: ");
    }
    assert(marker@.len() == 9);
    match find_infix(&cs, &marker) {
        Some(i) => {
            proof {
                lemma_first_occurrence_unique(m@, "at Line: "@, i as int);
                assert(crate::text::occurs_at(cs@, marker@, i as int));
            }
            assert(i + 9 <= cs.len());
            match first_word_of(&cs, i + 9) {
                Some(w) => parse_u32_of(&w),
                None => None,
            }
        },
        None => None,
    }
}

// ── Findings ────────────────────────────────────────────────────

/// A finding with its code, severity, message, path and line.
pub open spec fn finding(
    code: Seq<char>,
    severity: ErrorSeverity,
    message: Seq<char>,
    path: Option<Seq<char>>,
    line: Option<u32>,
) -> ErrorView {
    ErrorView { code, severity, message, artifact_path: path, line, has_context: false }
}

fn make_finding(code: &str, severity: ErrorSeverity, message: String, path: Option<String>, line: Option<u32>) -> (r:
    ValidationError)
    ensures
        r@ == finding(
            code@,
            severity,
            message@,
            match path {
                Some(p) => Some(p@),
                None => None,
            },
            line,
        ),
{
    ValidationError { code: owned(code), severity, message, artifact_path: path, line, context: None }
}

fn push_finding(v: &mut Vec<ValidationError>, e: ValidationError)
    ensures
        error_views(final(v)@) == error_views(old(v)@).push(e@),
{
    v.push(e);
    assert(error_views(v@) =~= error_views(old(v)@).push(e@));
}

/// The syntax errors of an artifact's content, by its type.
pub open spec fn syntax_errors(a: ChangeSetArtifact, path: Seq<char>) -> Seq<ErrorView> {
    match a.artifact_type {
        ArtifactType::MigrationSql | ArtifactType::MigrationDownSql => match sql_error(a.content@) {
            Some((text, detail)) => seq![
                finding(
                    V_PARSE_SQL_SYNTAX@,
                    ErrorSeverity::Error,
                    "SQL parse error in "@ + path + ": "@ + text,
                    Some(path),
                    sql_line(detail),
                ),
            ],
            None => Seq::empty(),
        },
        ArtifactType::VerbYaml => match yaml_error(a.content@) {
            Some((text, line)) => seq![
                finding(
                    V_PARSE_YAML_SYNTAX@,
                    ErrorSeverity::Error,
                    "YAML parse error in "@ + path + ": "@ + text,
                    Some(path),
                    match line {
                        Some(n) => Some(n as u32),
                        None => None,
                    },
                ),
            ],
            None => Seq::empty(),
        },
        _ => match json_error(a.content@) {
            Some((text, line)) => seq![
                finding(
                    V_PARSE_JSON_SYNTAX@,
                    ErrorSeverity::Error,
                    "JSON parse error in "@ + path + ": "@ + text,
                    Some(path),
                    Some(line as u32),
                ),
            ],
            None => Seq::empty(),
        },
    }
}

fn syntax_errors_of(a: &ChangeSetArtifact, path: &str) -> (r: Vec<ValidationError>)
    ensures
        error_views(r@) == syntax_errors(*a, path@),
{
    let mut out: Vec<ValidationError> = Vec::new();
    match a.artifact_type {
        ArtifactType::MigrationSql | ArtifactType::MigrationDownSql => {
            match sql_syntax_error(a.content.as_str()) {
                Some((text, detail)) => {
                    let line = match &detail {
                        Some(m) => line_from_message(m.as_str()),
                        None => None,
                    };
                    let msg = join5("SQL parse error in ", path, ": ", text.as_str(), "");
                    proof {
                        reveal_strlit("");
                        assert(msg@ =~= "SQL parse error in "@ + path@ + ": "@ + text@);
                    }
                    push_finding(&mut out, make_finding(V_PARSE_SQL_SYNTAX, ErrorSeverity::Error, msg, Some(owned(path)), line));
                },
                None => {},
            }
        },
        ArtifactType::VerbYaml => {
            match yaml_syntax_error(a.content.as_str()) {
                Some((text, line)) => {
                    let line32: Option<u32> = match line {
                        Some(n) => Some(#[verifier::truncate] (n as u32)),
                        None => None,
                    };
                    let msg = join5("YAML parse error in ", path, ": ", text.as_str(), "");
                    proof {
                        reveal_strlit("");
                        assert(msg@ =~= "YAML parse error in "@ + path@ + ": "@ + text@);
                    }
                    push_finding(&mut out, make_finding(V_PARSE_YAML_SYNTAX, ErrorSeverity::Error, msg, Some(owned(path)), line32));
                },
                None => {},
            }
        },
        _ => {
            match json_syntax_error(a.content.as_str()) {
                Some((text, line)) => {
                    let msg = join5("JSON parse error in ", path, ": ", text.as_str(), "");
                    proof {
                        reveal_strlit("");
                        assert(msg@ =~= "JSON parse error in "@ + path@ + ": "@ + text@);
                    }
                    push_finding(
                        &mut out,
                        make_finding(
                            V_PARSE_JSON_SYNTAX,
                            ErrorSeverity::Error,
                            msg,
                            Some(owned(path)),
                            Some(#[verifier::truncate] (line as u32)),
                        ),
                    );
                },
                None => {},
            }
        },
    }
    assert(error_views(out@) =~= syntax_errors(*a, path@));
    out
}

// ── Phase 1: artifact integrity ─────────────────────────────────

/// The artifact each path names: the last artifact with that path.
pub open spec fn path_index(arts: Seq<ChangeSetArtifact>) -> Map<Seq<char>, usize>
    decreases arts.len(),
{
    if arts.len() == 0 {
        Map::empty()
    } else {
        let m = path_index(arts.drop_last());
        match arts.last().path {
            Some(p) => m.insert(p@, (arts.len() - 1) as usize),
            None => m,
        }
    }
}

/// The errors of one manifest entry: its artifact is missing; or its
/// declared hash differs from the computed one, and its content does not
/// parse.
pub open spec fn entry_errors(e: ArtifactManifestEntry, arts: Seq<ChangeSetArtifact>) -> Seq<ErrorView> {
    if !path_index(arts).contains_key(e.path@) {
        seq![
            finding(
                V_HASH_MISSING_ARTIFACT@,
                ErrorSeverity::Error,
                "Artifact declared in manifest not found in bundle: "@ + e.path@,
                Some(e.path@),
                None,
            ),
        ]
    } else {
        let a = arts[path_index(arts)[e.path@] as int];
        let computed = typed_hash(a.content@, a.artifact_type);
        (match e.content_hash {
            Some(d) => if computed != d@ {
                seq![
                    finding(
                        V_HASH_MISMATCH@,
                        ErrorSeverity::Error,
                        "Hash mismatch for "@ + e.path@ + ": declared="@ + d@ + ", computed="@ + computed,
                        Some(e.path@),
                        None,
                    ),
                ]
            } else {
                Seq::empty()
            },
            None => Seq::empty(),
        }) + syntax_errors(a, e.path@)
    }
}

/// The integrity errors of all manifest entries, in order.
pub open spec fn integrity_errors(entries: Seq<ArtifactManifestEntry>, arts: Seq<ChangeSetArtifact>) -> Seq<ErrorView>
    decreases entries.len(),
{
    if entries.len() == 0 {
        Seq::empty()
    } else {
        integrity_errors(entries.drop_last(), arts) + entry_errors(entries.last(), arts)
    }
}

/// The paths the manifest declares.
pub open spec fn declared_paths(entries: Seq<ArtifactManifestEntry>) -> Seq<Seq<char>> {
    entries.map_values(|e: ArtifactManifestEntry| e.path@)
}

/// Warnings for artifacts with a path the manifest does not declare.
pub open spec fn orphan_warnings(arts: Seq<ChangeSetArtifact>, declared: Seq<Seq<char>>) -> Seq<ErrorView>
    decreases arts.len(),
{
    if arts.len() == 0 {
        Seq::empty()
    } else {
        let rest = orphan_warnings(arts.drop_last(), declared);
        match arts.last().path {
            Some(p) => if !declared.contains(p@) {
                rest.push(
                    finding(
                        "V:WARN:ORPHAN_ARTIFACT"@,
                        ErrorSeverity::Warning,
                        "Artifact present in bundle but not declared in manifest: "@ + p@,
                        Some(p@),
                        None,
                    ),
                )
            } else {
                rest
            },
            None => rest,
        }
    }
}

fn index_by_path(artifacts: &Vec<ChangeSetArtifact>) -> (r: Vec<(String, usize)>)
    ensures
        map_of(r@) == path_index(artifacts@),
        forall|k: int| 0 <= k < r@.len() ==> (#[trigger] r@[k]).1 < artifacts@.len(),
{
    let mut index: Vec<(String, usize)> = Vec::new();
    let mut i: usize = 0;
    while i < artifacts.len()
        invariant
            i <= artifacts.len(),
            strictly_sorted(keys_of(index@)),
            map_of(index@) == path_index(artifacts@.take(i as int)),
            forall|k: int| 0 <= k < index@.len() ==> (#[trigger] index@[k]).1 < i,
        decreases artifacts.len() - i,
    {
        assert(artifacts@.take(i + 1).drop_last() =~= artifacts@.take(i as int));
        assert(artifacts@.take(i + 1).last() == artifacts@[i as int]);
        match &artifacts[i].path {
            Some(p) => {
                let ghost before = index@;
                let key = p.clone();
                let ghost kv = key;
                put_ordered(&mut index, key, i);
                proof {
                    assert forall|k: int| 0 <= k < index@.len() implies (#[trigger] index@[k]).1 < i + 1 by {
                        if index@[k] != (kv, i) {
                            let q = choose|q: int| 0 <= q < before.len() && before[q] == index@[k];
                            assert(before[q].1 < i);
                        }
                    }
                }
            },
            None => {},
        }
        i += 1;
    }
    assert(artifacts@.take(artifacts.len() as int) =~= artifacts@);
    index
}

fn check_entry(entry: &ArtifactManifestEntry, artifacts: &Vec<ChangeSetArtifact>, index: &Vec<(String, usize)>, errors: &mut Vec<ValidationError>)
    requires
        map_of(index@) == path_index(artifacts@),
        forall|k: int| 0 <= k < index@.len() ==> (#[trigger] index@[k]).1 < artifacts@.len(),
    ensures
        error_views(final(errors)@) == error_views(old(errors)@) + entry_errors(*entry, artifacts@),
{
    let ghost before = error_views(errors@);
    match find_key(index, entry.path.as_str()) {
        None => {
            let msg = join2("Artifact declared in manifest not found in bundle: ", entry.path.as_str());
            push_finding(
                errors,
                make_finding(V_HASH_MISSING_ARTIFACT, ErrorSeverity::Error, msg, Some(entry.path.clone()), None),
            );
        },
        Some(j) => {
            let a = &artifacts[index[j].1];
            let ghost mid = before;
            match &entry.content_hash {
                Some(declared) => {
                    let computed = compute_artifact_hash_typed(a.content.as_str(), a.artifact_type);
                    if !crate::text::text_eq(computed.as_str(), declared.as_str()) {
                        let msg = crate::text::join6(
                            "Hash mismatch for ",
                            entry.path.as_str(),
                            ": declared=",
                            declared.as_str(),
                            ", computed=",
                            computed.as_str(),
                        );
                        push_finding(
                            errors,
                            make_finding(V_HASH_MISMATCH, ErrorSeverity::Error, msg, Some(entry.path.clone()), None),
                        );
                    }
                },
                None => {},
            }
            let ghost after_hash = error_views(errors@);
            let syn = syntax_errors_of(a, entry.path.as_str());
            assert forall|j: int| 0 <= j < syn@.len() implies !(#[trigger] syn@[j])@.has_context by {
                assert(error_views(syn@)[j] == syn@[j]@);
            }
            let mut k: usize = 0;
            while k < syn.len()
                invariant
                    k <= syn.len(),
                    forall|j: int| 0 <= j < syn@.len() ==> !(#[trigger] syn@[j])@.has_context,
                    error_views(errors@) == after_hash + error_views(syn@).take(k as int),
                decreases syn.len() - k,
            {
                let ghost prev = error_views(errors@);
                push_finding(errors, make_finding(syn[k].code.as_str(), syn[k].severity, syn[k].message.clone(), match &syn[k].artifact_path {
                    Some(p) => Some(p.clone()),
                    None => None,
                }, syn[k].line));
                assert(error_views(syn@).take(k + 1) =~= error_views(syn@).take(k as int).push(syn@[k as int]@));
                assert(prev.push(syn@[k as int]@) =~= after_hash + error_views(syn@).take(k + 1));
                k += 1;
            }
            assert(error_views(syn@).take(syn.len() as int) =~= error_views(syn@));
        },
    }
    assert(error_views(errors@) =~= before + entry_errors(*entry, artifacts@));
}

// ── Phase 2: references ─────────────────────────────────────────

/// Errors for dependencies declared more than once: one for each repeat.
pub open spec fn duplicate_errors(deps: Seq<u128>) -> Seq<ErrorView>
    decreases deps.len(),
{
    if deps.len() == 0 {
        Seq::empty()
    } else {
        let rest = duplicate_errors(deps.drop_last());
        if deps.drop_last().contains(deps.last()) {
            rest.push(
                finding(
                    V_REF_CIRCULAR_DEPENDENCY@,
                    ErrorSeverity::Error,
                    "Duplicate dependency: "@ + uuid_text(deps.last()),
                    None,
                    None,
                ),
            )
        } else {
            rest
        }
    }
}

// ── Phase 3: semantics ──────────────────────────────────────────

/// The warnings for migration DDL that needs care: `CONCURRENTLY`, `DROP
/// TABLE`, `DROP COLUMN`.
pub open spec fn ddl_warnings(content: Seq<char>, path: Option<Seq<char>>) -> Seq<ErrorView> {
    let upper = uppercase(content);
    (if has_infix(upper, "CONCURRENTLY"@) {
        seq![
            finding(
                D_SCHEMA_NON_TRANSACTIONAL_DDL@,
                ErrorSeverity::Warning,
                "Migration contains CONCURRENTLY — cannot run in a transaction"@,
                path,
                first_mention_line(content, uppercase("CONCURRENTLY"@)),
            ),
        ]
    } else {
        Seq::empty()
    }) + (if has_infix(upper, "DROP TABLE"@) {
        seq![
            finding(
                D_SCHEMA_FORBIDDEN_DDL@,
                ErrorSeverity::Warning,
                "Migration contains DROP TABLE — must declare breaking_change=true"@,
                path,
                first_mention_line(content, uppercase("DROP TABLE"@)),
            ),
        ]
    } else {
        Seq::empty()
    }) + (if has_infix(upper, "DROP COLUMN"@) {
        seq![
            finding(
                D_SCHEMA_FORBIDDEN_DDL@,
                ErrorSeverity::Warning,
                "Migration contains DROP COLUMN — must declare breaking_change=true"@,
                path,
                first_mention_line(content, uppercase("DROP COLUMN"@)),
            ),
        ]
    } else {
        Seq::empty()
    })
}

/// The YAML document has the top-level field.
pub open spec fn yaml_has(content: Seq<char>, field: Seq<char>) -> bool {
    yaml_field(content, field) == Some(true)
}

/// The errors of an incomplete verb contract: no `fqn` and not both
/// `domain` and `action`; no `description`. None when it is not YAML.
pub open spec fn contract_errors(content: Seq<char>, path: Option<Seq<char>>) -> Seq<ErrorView> {
    if yaml_error(content) is Some {
        Seq::empty()
    } else {
        (if !(yaml_has(content, "fqn"@) || yaml_has(content, "domain"@) && yaml_has(content, "action"@)) {
            seq![
                finding(
                    V_TYPE_CONTRACT_INCOMPLETE@,
                    ErrorSeverity::Error,
                    "Verb contract must have either 'fqn' or both 'domain' and 'action'"@,
                    path,
                    None,
                ),
            ]
        } else {
            Seq::empty()
        }) + (if !yaml_has(content, "description"@) {
            seq![
                finding(
                    V_TYPE_CONTRACT_INCOMPLETE@,
                    ErrorSeverity::Error,
                    "Verb contract must have a 'description' field"@,
                    path,
                    None,
                ),
            ]
        } else {
            Seq::empty()
        })
    }
}

/// The errors of an attribute definition without `fqn` or `data_type`.
/// None when it is not JSON.
pub open spec fn attribute_errors(content: Seq<char>, path: Option<Seq<char>>) -> Seq<ErrorView> {
    if json_error(content) is Some {
        Seq::empty()
    } else {
        (if json_field(content, "fqn"@) != Some(true) {
            seq![
                finding(
                    V_TYPE_ATTRIBUTE_MISMATCH@,
                    ErrorSeverity::Error,
                    "Attribute definition must have 'fqn' field"@,
                    path,
                    None,
                ),
            ]
        } else {
            Seq::empty()
        }) + (if json_field(content, "data_type"@) != Some(true) {
            seq![
                finding(
                    V_TYPE_ATTRIBUTE_MISMATCH@,
                    ErrorSeverity::Error,
                    "Attribute definition must have 'data_type' field"@,
                    path,
                    None,
                ),
            ]
        } else {
            Seq::empty()
        })
    }
}

pub open spec fn path_view(p: Option<String>) -> Option<Seq<char>> {
    match p {
        Some(t) => Some(t@),
        None => None,
    }
}

/// The semantic findings of the artifacts, as (errors, warnings), in order.
pub open spec fn semantic_findings(arts: Seq<ChangeSetArtifact>) -> (Seq<ErrorView>, Seq<ErrorView>)
    decreases arts.len(),
{
    if arts.len() == 0 {
        (Seq::empty(), Seq::empty())
    } else {
        let (e, w) = semantic_findings(arts.drop_last());
        let a = arts.last();
        match a.artifact_type {
            ArtifactType::MigrationSql => (e, w + ddl_warnings(a.content@, path_view(a.path))),
            ArtifactType::VerbYaml => (e + contract_errors(a.content@, path_view(a.path)), w),
            ArtifactType::AttributeJson => (e + attribute_errors(a.content@, path_view(a.path)), w),
            _ => (e, w),
        }
    }
}

fn opt_path(p: &Option<String>) -> (r: Option<String>)
    ensures
        path_view(r) == path_view(*p),
{
    match p {
        Some(t) => Some(t.clone()),
        None => None,
    }
}

fn check_forbidden_ddl(sql_content: &str, path: &Option<String>, warnings: &mut Vec<ValidationError>)
    ensures
        error_views(final(warnings)@) == error_views(old(warnings)@) + ddl_warnings(sql_content@, path_view(*path)),
{
    let ghost before = error_views(warnings@);
    let upper = to_uppercase_text(sql_content);
    let u = upper.as_str();
    let ghost w1 = before;
    if contains_infix(u, "CONCURRENTLY") {
        let needle = to_uppercase_text("CONCURRENTLY");
        let line = first_line_mentioning(sql_content, needle.as_str());
        push_finding(
            warnings,
            make_finding(
                D_SCHEMA_NON_TRANSACTIONAL_DDL,
                ErrorSeverity::Warning,
                owned("Migration contains CONCURRENTLY — cannot run in a transaction"),
                opt_path(path),
                line,
            ),
        );
    }
    let ghost w2 = error_views(warnings@);
    if contains_infix(u, "DROP TABLE") {
        let needle = to_uppercase_text("DROP TABLE");
        let line = first_line_mentioning(sql_content, needle.as_str());
        push_finding(
            warnings,
            make_finding(
                D_SCHEMA_FORBIDDEN_DDL,
                ErrorSeverity::Warning,
                owned("Migration contains DROP TABLE — must declare breaking_change=true"),
                opt_path(path),
                line,
            ),
        );
    }
    let ghost w3 = error_views(warnings@);
    if contains_infix(u, "DROP COLUMN") {
        let needle = to_uppercase_text("DROP COLUMN");
        let line = first_line_mentioning(sql_content, needle.as_str());
        push_finding(
            warnings,
            make_finding(
                D_SCHEMA_FORBIDDEN_DDL,
                ErrorSeverity::Warning,
                owned("Migration contains DROP COLUMN — must declare breaking_change=true"),
                opt_path(path),
                line,
            ),
        );
    }
    assert(error_views(warnings@) =~= before + ddl_warnings(sql_content@, path_view(*path)));
}

fn validate_verb_contract_completeness(yaml_content: &str, path: &Option<String>, errors: &mut Vec<ValidationError>)
    ensures
        error_views(final(errors)@) == error_views(old(errors)@) + contract_errors(yaml_content@, path_view(*path)),
{
    let ghost before = error_views(errors@);
    let has_domain = match yaml_field_present(yaml_content, "domain") {
        Some(b) => b,
        None => {
            assert(error_views(errors@) =~= before + contract_errors(yaml_content@, path_view(*path)));
            return;
        },
    };
    let has_action = yaml_field_present(yaml_content, "action") == Some(true);
    let has_fqn = yaml_field_present(yaml_content, "fqn") == Some(true);
    let has_description = yaml_field_present(yaml_content, "description") == Some(true);
    if !(has_fqn || has_domain && has_action) {
        push_finding(
            errors,
            make_finding(
                V_TYPE_CONTRACT_INCOMPLETE,
                ErrorSeverity::Error,
                owned("Verb contract must have either 'fqn' or both 'domain' and 'action'"),
                opt_path(path),
                None,
            ),
        );
    }
    if !has_description {
        push_finding(
            errors,
            make_finding(
                V_TYPE_CONTRACT_INCOMPLETE,
                ErrorSeverity::Error,
                owned("Verb contract must have a 'description' field"),
                opt_path(path),
                None,
            ),
        );
    }
    assert(error_views(errors@) =~= before + contract_errors(yaml_content@, path_view(*path)));
}

fn validate_attribute_type_consistency(json_content: &str, path: &Option<String>, errors: &mut Vec<ValidationError>)
    ensures
        error_views(final(errors)@) == error_views(old(errors)@) + attribute_errors(json_content@, path_view(*path)),
{
    let ghost before = error_views(errors@);
    let has_fqn = match json_field_present(json_content, "fqn") {
        Some(b) => b,
        None => {
            assert(error_views(errors@) =~= before + attribute_errors(json_content@, path_view(*path)));
            return;
        },
    };
    let has_type = json_field_present(json_content, "data_type") == Some(true);
    if !has_fqn {
        push_finding(
            errors,
            make_finding(
                V_TYPE_ATTRIBUTE_MISMATCH,
                ErrorSeverity::Error,
                owned("Attribute definition must have 'fqn' field"),
                opt_path(path),
                None,
            ),
        );
    }
    if !has_type {
        push_finding(
            errors,
            make_finding(
                V_TYPE_ATTRIBUTE_MISMATCH,
                ErrorSeverity::Error,
                owned("Attribute definition must have 'data_type' field"),
                opt_path(path),
                None,
            ),
        );
    }
    assert(error_views(errors@) =~= before + attribute_errors(json_content@, path_view(*path)));
}

// ── The stage ───────────────────────────────────────────────────

/// The errors of stage 1, in order: integrity, then duplicate
/// dependencies, then semantics.
pub open spec fn stage1_errors(manifest: ChangeSetManifest, arts: Seq<ChangeSetArtifact>) -> Seq<ErrorView> {
    integrity_errors(manifest.artifacts@, arts) + duplicate_errors(manifest.depends_on@)
        + semantic_findings(arts).0
}

/// The warnings of stage 1, in order: orphan artifacts, then semantics.
pub open spec fn stage1_warnings(manifest: ChangeSetManifest, arts: Seq<ChangeSetArtifact>) -> Seq<ErrorView> {
    orphan_warnings(arts, declared_paths(manifest.artifacts@)) + semantic_findings(arts).1
}

/// Run stage-1 validation on a manifest and its artifacts. The report is
/// ok exactly when there are no errors.
pub fn validate_stage1(manifest: &ChangeSetManifest, artifacts: &Vec<ChangeSetArtifact>) -> (r: ValidationReport)
    ensures
        error_views(r.errors@) == stage1_errors(*manifest, artifacts@),
        error_views(r.warnings@) == stage1_warnings(*manifest, artifacts@),
        r.ok == (r.errors@.len() == 0),
{
    let mut errors: Vec<ValidationError> = Vec::new();
    let mut warnings: Vec<ValidationError> = Vec::new();
    // Phase 1: every declared artifact is there, matches its hash and parses.
    let index = index_by_path(artifacts);
    let mut i: usize = 0;
    while i < manifest.artifacts.len()
        invariant
            i <= manifest.artifacts.len(),
            map_of(index@) == path_index(artifacts@),
            forall|k: int| 0 <= k < index@.len() ==> (#[trigger] index@[k]).1 < artifacts@.len(),
            error_views(errors@) == integrity_errors(manifest.artifacts@.take(i as int), artifacts@),
        decreases manifest.artifacts.len() - i,
    {
        assert(manifest.artifacts@.take(i + 1).drop_last() =~= manifest.artifacts@.take(i as int));
        assert(manifest.artifacts@.take(i + 1).last() == manifest.artifacts@[i as int]);
        check_entry(&manifest.artifacts[i], artifacts, &index, &mut errors);
        i += 1;
    }
    assert(manifest.artifacts@.take(manifest.artifacts.len() as int) =~= manifest.artifacts@);
    // Artifacts the manifest does not declare.
    let mut declared: Vec<String> = Vec::new();
    let mut d: usize = 0;
    while d < manifest.artifacts.len()
        invariant
            d <= manifest.artifacts.len(),
            declared@.len() == d,
            forall|k: int| 0 <= k < d ==> (#[trigger] declared@[k])@ == manifest.artifacts@[k].path@,
        decreases manifest.artifacts.len() - d,
    {
        declared.push(manifest.artifacts[d].path.clone());
        d += 1;
    }
    assert(crate::text::texts(declared@) =~= declared_paths(manifest.artifacts@));
    let mut o: usize = 0;
    while o < artifacts.len()
        invariant
            o <= artifacts.len(),
            crate::text::texts(declared@) == declared_paths(manifest.artifacts@),
            error_views(warnings@) == orphan_warnings(artifacts@.take(o as int), declared_paths(manifest.artifacts@)),
        decreases artifacts.len() - o,
    {
        assert(artifacts@.take(o + 1).drop_last() =~= artifacts@.take(o as int));
        assert(artifacts@.take(o + 1).last() == artifacts@[o as int]);
        match &artifacts[o].path {
            Some(p) => {
                if !crate::text::contains_text(&declared, p.as_str()) {
                    let msg = join2("Artifact present in bundle but not declared in manifest: ", p.as_str());
                    push_finding(
                        &mut warnings,
                        make_finding("V:WARN:ORPHAN_ARTIFACT", ErrorSeverity::Warning, msg, Some(p.clone()), None),
                    );
                }
            },
            None => {},
        }
        o += 1;
    }
    assert(artifacts@.take(artifacts.len() as int) =~= artifacts@);
    // Phase 2: dependencies declared twice.
    let ghost after_integrity = error_views(errors@);
    let mut j: usize = 0;
    while j < manifest.depends_on.len()
        invariant
            j <= manifest.depends_on.len(),
            after_integrity == integrity_errors(manifest.artifacts@, artifacts@),
            error_views(errors@) == after_integrity + duplicate_errors(manifest.depends_on@.take(j as int)),
        decreases manifest.depends_on.len() - j,
    {
        let deps = &manifest.depends_on;
        assert(deps@.take(j + 1).drop_last() =~= deps@.take(j as int));
        assert(deps@.take(j + 1).last() == deps@[j as int]);
        let dep = deps[j];
        let mut seen = false;
        let mut q: usize = 0;
        while q < j
            invariant
                q <= j < deps.len(),
                seen == exists|t: int| 0 <= t < q && deps@[t] == dep,
            decreases j - q,
        {
            if deps[q] == dep {
                seen = true;
            }
            q += 1;
        }
        assert(seen == deps@.take(j as int).contains(dep)) by {
            if seen {
                let t = choose|t: int| 0 <= t < j && deps@[t] == dep;
                assert(deps@.take(j as int)[t] == dep);
            }
        }
        if seen {
            let id = uuid_string(dep);
            let msg = join2("Duplicate dependency: ", id.as_str());
            let ghost prev = error_views(errors@);
            push_finding(&mut errors, make_finding(V_REF_CIRCULAR_DEPENDENCY, ErrorSeverity::Error, msg, None, None));
            assert(error_views(errors@) =~= after_integrity + duplicate_errors(deps@.take(j + 1)));
        }
        j += 1;
    }
    assert(manifest.depends_on@.take(manifest.depends_on.len() as int) =~= manifest.depends_on@);
    // Phase 3: semantics.
    let ghost base_errors = error_views(errors@);
    let ghost base_warnings = error_views(warnings@);
    let mut s: usize = 0;
    while s < artifacts.len()
        invariant
            s <= artifacts.len(),
            error_views(errors@) == base_errors + semantic_findings(artifacts@.take(s as int)).0,
            error_views(warnings@) == base_warnings + semantic_findings(artifacts@.take(s as int)).1,
        decreases artifacts.len() - s,
    {
        assert(artifacts@.take(s + 1).drop_last() =~= artifacts@.take(s as int));
        assert(artifacts@.take(s + 1).last() == artifacts@[s as int]);
        let a = &artifacts[s];
        let ghost (e0, w0) = semantic_findings(artifacts@.take(s as int));
        match a.artifact_type {
            ArtifactType::MigrationSql => {
                check_forbidden_ddl(a.content.as_str(), &a.path, &mut warnings);
                assert(base_warnings + w0 + ddl_warnings(a.content@, path_view(a.path)) =~= base_warnings + (w0
                    + ddl_warnings(a.content@, path_view(a.path))));
            },
            ArtifactType::VerbYaml => {
                validate_verb_contract_completeness(a.content.as_str(), &a.path, &mut errors);
                assert(base_errors + e0 + contract_errors(a.content@, path_view(a.path)) =~= base_errors + (e0
                    + contract_errors(a.content@, path_view(a.path))));
            },
            ArtifactType::AttributeJson => {
                validate_attribute_type_consistency(a.content.as_str(), &a.path, &mut errors);
                assert(base_errors + e0 + attribute_errors(a.content@, path_view(a.path)) =~= base_errors + (e0
                    + attribute_errors(a.content@, path_view(a.path))));
            },
            _ => {},
        }
        s += 1;
    }
    assert(artifacts@.take(artifacts.len() as int) =~= artifacts@);
    let ok = errors.len() == 0;
    ValidationReport { ok, errors, warnings }
}

// ── What stage 1 promises of verb contracts ─────────────────────

/// The error of a verb contract naming neither an `fqn` nor both a
/// `domain` and an `action`.
pub open spec fn incomplete_contract_error(path: Option<Seq<char>>) -> ErrorView {
    ErrorView {
        code: V_TYPE_CONTRACT_INCOMPLETE@,
        severity: ErrorSeverity::Error,
        message: "Verb contract must have either 'fqn' or both 'domain' and 'action'"@,
        artifact_path: path,
        line: None,
        has_context: false,
    }
}

proof fn lemma_semantic_errors_include(arts: Seq<ChangeSetArtifact>, i: int, e: ErrorView)
    requires
        0 <= i < arts.len(),
        arts[i].artifact_type == ArtifactType::VerbYaml,
        contract_errors(arts[i].content@, path_view(arts[i].path)).contains(e),
    ensures
        semantic_findings(arts).0.contains(e),
    decreases arts.len(),
{
    let prev = semantic_findings(arts.drop_last()).0;
    let all = semantic_findings(arts).0;
    if i == arts.len() - 1 {
        let c = contract_errors(arts[i].content@, path_view(arts[i].path));
        assert(all == prev + c);
        let t = choose|t: int| 0 <= t < c.len() && c[t] == e;
        assert(all[prev.len() + t] == e);
    } else {
        assert(arts.drop_last()[i] == arts[i]);
        lemma_semantic_errors_include(arts.drop_last(), i, e);
        let t = choose|t: int| 0 <= t < prev.len() && prev[t] == e;
        assert(all.len() >= prev.len());
        assert(all[t] == prev[t]);
    }
}

/// A YAML verb contract with no `fqn` field and no `action` field (a
/// `domain` alone does not do) is incomplete: stage 1 reports the
/// contract error for it, so the report is not ok.
pub proof fn lemma_contract_needs_fqn_or_action(manifest: ChangeSetManifest, arts: Seq<ChangeSetArtifact>, i: int)
    requires
        0 <= i < arts.len(),
        arts[i].artifact_type == ArtifactType::VerbYaml,
        yaml_error(arts[i].content@) is None,
        yaml_field(arts[i].content@, "fqn"@) != Some(true),
        yaml_field(arts[i].content@, "action"@) != Some(true),
    ensures
        stage1_errors(manifest, arts).contains(incomplete_contract_error(path_view(arts[i].path))),
        stage1_errors(manifest, arts).len() > 0,
{
    let e = incomplete_contract_error(path_view(arts[i].path));
    let c = contract_errors(arts[i].content@, path_view(arts[i].path));
    assert(c[0] == e);
    lemma_semantic_errors_include(arts, i, e);
    let a = integrity_errors(manifest.artifacts@, arts) + duplicate_errors(manifest.depends_on@);
    let sem = semantic_findings(arts).0;
    assert(stage1_errors(manifest, arts) == a + sem);
    let t = choose|t: int| 0 <= t < sem.len() && sem[t] == e;
    assert((a + sem)[a.len() + t] == e);
}

/// A YAML verb contract that names an `fqn`, or both a `domain` and an
/// `action`, and has a `description` gets no contract error.
pub proof fn lemma_complete_contract_accepted(content: Seq<char>, path: Option<Seq<char>>)
    requires
        yaml_field(content, "fqn"@) == Some(true) || (yaml_field(content, "domain"@) == Some(true) && yaml_field(
            content,
            "action"@,
        ) == Some(true)),
        yaml_field(content, "description"@) == Some(true),
    ensures
        contract_errors(content, path).len() == 0,
{
}

} // verus!
