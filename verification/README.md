# chan_sccp

Configuration, media preferences and directory pages of an SCCP channel driver,
as a verified Rust library. Every function in `src/` carries its contract and is
proved with Verus, but for three wrappers and one specification of a standard
function, whose contracts are believed:

- `text::quote`, the text of `{:?}`, and `text::to_lowercase`, whose results are
  named (`quoted`, `lowercase`);
- `parse_form` in `http/directory.rs`, the pairs of a form that `form_urlencoded`
  reads, named `form_fields`; an empty query has none;
- `String::push`, which adds a character at the end (`text.rs`).

| Where | What |
| --- | --- |
| `src/text.rs`, `number.rs`, `address.rs` | texts, numbers, IP and socket addresses |
| `src/station.rs` | what stations are told: codecs, buttons, tones, soft keys |
| `src/config/` | sections, templates, overlays, options, devices, lines, bindings, canonical text, realtime rows, providers, convergence |
| `src/media/` | codec preferences and the negotiation of audio and video formats |
| `src/http/` | phone directory requests and pages |
| `tests/` | ordinary tests of the library |
| `app/` | traits of other crates, files, clocks and locks around the library |

Contracts are stated over mathematical views of the types. What holds of several
functions at once is stated in public proof functions whose names begin with
`law_`, among them:

- accepted configurations are sound (`config/soundness.rs`,
  `config/appearance.rs`);
- the order of sections in a text does not matter, templates included
  (`config/shuffle.rs`, over `config/order.rs`), nor does the spelling of options
  (`config/restatement.rs`);
- every accepted text has a canonical form, which configures the same and is
  canonical (`config/restatement.rs`, over `config/fidelity.rs` and
  `config/meaning.rs`);
- the values of private options do not reach diagnostics (`config/secrecy.rs`);
- a preference that is written is read back, and negotiated formats are mutual
  (`media/`);
- every directory record is on one page, and fits a phone (`http/directory.rs`).
