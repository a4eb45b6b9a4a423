# lxp

A command-line client for the LetterXpress print and mail service, whose
decisions are specified and proved with Verus.

- `src/` is the verified library:
  - `lxpconfig` keeps named account profiles in a table sorted by name and the
    selected profile (a `Vec` kept sorted, with that as its invariant, in
    place of a `BTreeMap` keyed by strings, of which little can be proved);
    every change states how the selection and the profiles change, and the
    laws of the store are proved over its model.
  - `submissions` fingerprints a submission (account, mode, document) with
    SHA-256, names its receipts and decides on each attempt to create one.
  - `lxpapi` plans the service calls and bodies and judges responses: HTTP
    status, size limit, service envelope, upload confirmation and the live-mode
    guard.
  - `lxpcommands` carries out profile commands, provides the client of the
    selected account or of environment credentials, and names and decodes
    downloaded invoices.
  - `delivery` decides which files of a directory are sent, hands them out
    one at a time and stops at the first failure; it is the step function of
    sending one file (live guard, header check, receipt, upload, recorded
    acceptance) and of watching a directory (claim, submit, archive, stop on
    failure). Laws state that an upload only follows the guard, the header
    check and the receipt, and that a send finishes only once the confirmed
    job's identifier is recorded.
  - `documents` checks PDF headers and extensions, encodes uploads in Base64
    with their MD5 checksum and decodes Base64; decoding and encoding are
    proved inverse to each other.
  - `lxptypes`, `clidef`, `logger` and `text` hold the data types, command
    options and character-level helpers.
- Besides the crates of the original, the library uses `md-5`: the service
  expects each upload's `base64_file_checksum`, the MD5 digest of the encoded
  document, and the library computes it with that crate.
- `app/` is the program around it: argument parsing, files, HTTP and directory
  watching.
- `tests/` exercises the library on concrete values.
