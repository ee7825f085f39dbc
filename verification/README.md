# nitum_pdf_core

The verified core of Nitum PDF, a desktop PDF viewer and PAdES signer.
Everything under `src/` is checked by Verus: each public function states in
its contract what it returns, and the properties the application relies on
are stated as proof functions (`law_*`).

## What `src/` holds

- `viewer`: page navigation and zoom, which never leave the document.
- `document`: the opened document, its title, the open-document use case,
  and what the viewer does with the engine's answer to an open request.
- `update`: which published release is an update for this machine, package
  names, the published SHA-256 and the check of the downloaded bytes, which
  installer runs a package, when an automatic check is due (at most once a
  day), and the steps of installing and restarting into an update.
- `signing`: the decisions around signing and verifying (requests that would
  overwrite the source, levels, timestamps, certification, the document
  security store, chains and revocation evidence).
- `stamp`: the lines a visible signature carries.
- `stores`: the identity and visual-signature stores' rules, including the
  check and PNG normalisation of an imported picture, and the laws that an
  import never changes a stored file and reuses the copy of the same content.
- `tokens`, `token_crypto`: which smart-card tokens are offered, and the
  DigestInfo and DER encodings sent to and read from them.
- `summary`: the texts and verdict rows shown to the person.
- `order`, `text`: a stable sort and the text helpers the rest uses.

Calls into other crates (`semver`, `sha2`, `x509-cert`, `der`, `image`) sit
behind small trusted wrappers whose contracts name their results; the
verified code around them is exact over those names.

## What `app/` holds

File, network, device and process work: reading and writing the stores,
PDFium rendering, the PKCS#11 session, the GitHub release download and the
installer. It calls the library for every decision. The desktop window and
the PAdES signing engine are not part of this build.
