# wipestation

Domain logic of a drive-sanitization station, with its behaviour stated in
Verus contracts and proved: which erasure method a device gets, how a bench's
drive bays are numbered and bound to devices, how enclosure hardware is
matched against a model catalog, the job lifecycle, offline licence leases
and attestation chains, detached Ed25519 signatures over canonical
certificate bytes, lead election among stations, and where station
configuration is kept.

## Layout

- `src/` — the verified library. Each module states its model in spec
  functions and views; laws that span several functions are public proof
  functions named `law_*`.
  - `method` — method selection from capabilities, media, classification and intent.
  - `bay`, `bay_build`, `bay_resolve`, `bay_validate` — bench topologies:
    grids and numbering runs, presets, renumbering, bay-to-device
    resolution, and validation before save.
  - `catalog`, `catalog_match` — the enclosure model catalog: expansion,
    overlay, search and conservative identity matching.
  - `job`, `runner`, `certificate`, `manifest` — the job state machine, the
    step function that decides each move of an erasure attempt (the caller
    performs the backend work and feeds the outcome back), what a
    certificate takes from its job, its co-signatures, and destruction
    manifests awaiting a supervisor's co-signature.
  - `license`, `license_chain`, `license_station`, `attestation_report` —
    entitlements, offline lease evaluation with anti-rollback, the vendor
    attestation chain, and what a verifier is told about it.
  - `cert`, `crypto` — signature blocks; `crypto` holds the trusted wrappers
    around `sha2`, `hex`, `base64`, `ed25519-dalek` and `rand_core`.
  - `store`, `fleet`, `mock`, `device`, `error`, `text`, `sorted_ids`.
- `tests/` — tests of the library through its public interface.
- `app/` — the command line around the library: argument handling, file
  reading, JSON shapes (serde copies of the library's types) and canonical
  JSON encoding.
