# ipatool

A verified library for working with iOS app packages (IPA files) and for the decisions of
a small download service built around them.

- `src/` is the library, written in Verus: every function carries a contract that Verus
  proves. It covers Mach-O encryption checks, `.sinf` injection plans, writing signatures
  and `iTunesMetadata.plist` into an IPA, IPA inspection and metadata, OTA install
  manifests and configuration profiles, reading Apple's store replies, the download flow
  and job states, version-history merging, download links and install tokens, file
  naming and passwords, batch downloads and subscriptions, the community archive of
  delisted apps (candidates, archive entries, contributions) and the server's
  administrator command line.
- Calls into the `zip`, `plist`, `serde_json`, `base64`, `bcrypt` and `sha2` crates go
  through a few trusted wrappers; each contract states what the crate does on the inputs
  its `requires` admits, and its doc comment says what is left unsaid.  Where a crate
  would panic (the ZIP writer on an entry name over 65535 bytes) the wrapper's `requires`
  leaves that input out and verified code checks it first.  Within `src/`, the wrappers
  are the only unproved parts; `app/` is ordinary, unverified Rust.
- `app/` is ordinary Rust around the library: JSON conversions and serde shapes, the
  browser-facing entry points that answer in JSON, file reads and the local archive on
  disk, the environment and event-stream glue of the service, and the host loops that
  drive the library's decision steps (download, sign-in, retries, purchase status, session
  refresh) against a store and transport that the service supplies.
- `tests/` exercises the library on concrete inputs.
