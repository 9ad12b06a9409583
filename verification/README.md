# meetily

The rules of a meeting recorder, written and proved in Verus.

- `src/audio`: watching devices, starting and taking down a recording session, choosing what
  is captured, and recovering recordings that were interrupted.
- `src/cli`: the command line: which options go together, the course of a recording and of the
  work on saved meetings, the keyboard, the lists, and the status line.
- `src/database`: tags, and the statements that are handed to the database.
- `src/summary`: tagging by a language model, the file of a summary, and the context and
  attachments that go into a summary.
- `src/text.rs`, `src/clock.rs`, `src/ids.rs`: text, moments and identifiers.

A public function states in its `ensures` what it returns, over spec functions that stand
beside it. Public proof functions whose names begin with `law_` state what holds of several
functions together.

Input and output stand in `app`: it carries out the steps that the library decides on and
hands back what came of them. What the library takes on trust from other crates is marked
`external_body` or `assume_specification`, with a comment on what is claimed.
