# normalized_path

Cross-platform, optionally case-insensitive normalization of single path elements
(one name between separators), written in Verus.

A name is decoded (lossily, for bytes), decomposed to NFD, trimmed of `White_Space`
characters that are not controls, mapped from fullwidth ASCII forms to ASCII,
validated (no empty name, `.`, `..`, `/`, NUL, control character, byte order mark or
unassigned character) and composed to NFC. Control characters and byte order marks are
rejected wherever they stand in the name; they are neither trimmed nor replaced. Case-insensitive names are then case-folded
with a fix-up for dotless ı and dots above soft-dotted letters. Each path element also
carries an OS-compatible form.

## Layout

- `src/` -- the verified library.
  - `normalize.rs` -- fullwidth mapping, trimming, validation, case-fold fix-up and the
    two normalization pipelines, each with a contract over character sequences.
  - `os.rs` -- Windows, Apple and this platform's OS-compatible forms.
  - `path_element.rs` -- `PathElementGeneric` and its aliases, constructors, getters,
    equality and ordering, with a type invariant tying the stored forms to the original.
  - `unicode.rs` -- NFD, NFC, case folding and character properties from ICU4X, behind
    trusted wrappers whose results are named by uninterpreted spec functions.
  - `java_modified_utf8.rs` -- CESU-8 (Java Modified UTF-8) encoding and lossy decoding.
  - `utils.rs` -- substring bookkeeping (`SubstringOrOwned`, which records a form as a
    UTF-8 byte range of the original, and `cow`).
  - `laws.rs` -- properties that relate several functions, proved as lemmas.
  - `error.rs`, `case_sensitivity.rs` -- error and case-sensitivity types.
- `tests/` -- unit tests and property checks on sample names.
- `app/` -- the unverified shell: the process-wide Java Modified UTF-8 flag, JNI
  detection, `OsStr` constructors and `Display` for errors.
