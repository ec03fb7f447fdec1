# fm_application

The application layer of a file manager, as a library whose behaviour is
stated in `requires` / `ensures` contracts and proved with Verus.

- `src/` is the verified library: operation planning (transfer strategies,
  archive formats, conflict and commit decisions, the recipe each request
  needs, undo evidence and its safety checks, depth-first walks), operation
  listing and paging, search and semantic-search admission rules, the
  semantic component lifecycle and its error reports, the semantic
  capability fake, grounded retrieval (question and history limits, context
  packing, query planning, citations, retrieval fingerprints, saved
  conversations), PowerPoint preview budgets and sessions, plugin
  enablement and description, platform capability and error mapping, and
  S3 connection parameters.
- `src/` calls `sha2`, `zip`, `image` and `quick_xml` through small trusted
  wrappers whose contracts name or state what those crates return.
- `tests/` runs the library with those crates linked.
- `app/` holds what cannot be verified: JSON persistence and decoding with
  `serde`, identifiers from `uuid`, host detection, and rank fusion over
  floating-point scores.
