# work_review

A verified library for two parts of a work-tracking assistant:

* **Daily report blocks.** Statistics blocks of a saved daily report are
  wrapped in `<!-- WR_BLOCK_START:NAME -->` / `<!-- WR_BLOCK_END:NAME -->`
  markers; when the report is read, every known block is rendered again from
  the current statistics (`report_blocks`, `report_render`, `localize`,
  `stats`). `report_laws` proves that a report without markers is returned
  unchanged, that a wrapped block shows the fresh rendering in place, that
  rendering one block twice with the same text changes nothing, and that
  rendering a whole report again with the same statistics changes nothing
  (the argument is in `report_stability`). `localize` and `stats` are
  minimal stand-ins for the application's translation helpers and
  statistics records, which are not part of this crate: they hold what the
  blocks read and render it in a simple form of their own.
* **Agent conversation memory and loop decisions.** `memory` keeps a bounded
  window of messages, folds the older half into a summary and selects the
  newest messages that fit a byte budget; `memory_laws` proves the window
  bound, the budget bound, that the context stops at the first message that
  does not fit, and that the summary only grows. `executor` holds the
  decisions of the agent loop; the model calls, tool runs and clock belong to
  the caller.

`src/` is verified with Verus. `app/` holds what stays in ordinary Rust:
serde forms of the library's types, the floating-point category shares, the
`HashMap` form of the name overrides and the asynchronous agent loop.
