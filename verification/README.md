# sem_os_policy

The governance and projection plane of the semantic registry, written in
Verus: every function in `src/` carries a `requires`/`ensures` contract that
Verus proves, and the library's laws (what every operation keeps, what two
calls agree on) stand there as public proof functions.

## Layout

- `src/` — the verified library.
  - `abac`, `enforce`: attribute-based access decisions and read enforcement.
  - `gates`: publish gates (technical, governance, extended) and the
    derivation-cycle check.
  - `affinity`: the verb↔data affinity graph, its indexes, chain discovery
    and data footprints.
  - `authoring`: change-set bundles, canonical hashing, stage 1 and stage 2
    validation, diffs, and the publish state machines.
  - `domain_pack`, `domain_pack_reload`: Domain Pack manifest validation and
    taxonomy reloads from seed documents.
  - `diagram`, `mermaid`: diagram models and their Mermaid text.
  - `context_resolution`, `context_policy`, `grounding`, `observatory`,
    `acp_projection`, `derivation`: context resolution, prompt-context
    policy, grounded actions, orientation deltas, ACP projection envelopes
    and derivation evaluation gates.
  - `json`: JSON values as the library reads them, their normal form
    (objects keyed in ascending order), and the bytes and text `serde_json`
    writes for them.
  - `text`, `order`, `assoc`: string, ordering and association-list helpers
    with their specifications.
  - `outside`: the few trusted declarations of outside types and calls
    (clock, random ids, JSON values).
- `tests/` — tests that run the compiled library against concrete values.
- `app/` — the I/O around the library: the authoring store and the async
  governance verbs that drive the library's state machines, reading seed
  files from disk, serde copies of the library's types, the retention run,
  and utterance scoring, which works on floating point.

## Trust

Calls into `sha2`, `hex`, `serde_json`, `serde_yaml`, `sqlparser`, `uuid`,
`chrono` and a few `std` string functions sit behind `external_body`
wrappers; each wrapper's doc comment says what its contract claims of the
outside function.
