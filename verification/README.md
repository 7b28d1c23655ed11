# approved_template

Narrow editing of approved document templates. A template is addressed by the digest of its
structure, and the places in it by their address, the hash of the text that stands there and the
digest of the labels around it. A request is checked as a whole, and applied as a whole or not at
all.

## Layout

- `src/` is the library, verified with Verus.
  - `model` holds what template editing reads of a document; `table` finds cells; `text` holds text
    helpers.
  - `digest` and `label` hash structure, texts and labels; `protection` decides which documents are
    too complex to edit; `inspect` lists what can be registered as a target.
  - `request`, `report` and `json` are the request and the answers; `preflight` checks a request;
    `edit` and `apply` turn an accepted request into steps for a document engine and say what
    follows from how they go.
  - `laws`, `digest_laws`, `encoding_laws`, `reading_laws`, `label_laws`, `protection_laws`,
    `apply_laws` and `repeat_laws` state and prove what holds of all this together.
- `tests/` runs the library.
- `app/` decodes requests, measures text, and drives a document engine.

SHA-256 comes from `sha2`, JSON from `serde_json`. What is believed of them without proof stands in
`digest` (`sha256_digest`) and `json` (the functions marked `external_body`).
