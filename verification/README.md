# gh-agent-screenshot

Uploads images to a GitHub issue or pull request through the Git Data API (blobs, a
tree, a commit and a ref under `refs/uploads/<issue|pr>/<n>`), prints or posts the
markdown that embeds them, and prunes upload refs that have grown old.

## Layout

- `src/` is the library, verified with Verus:
  - `cli.rs`: the command-line arguments and the choices they make (write mode, target,
    repository name, prune mode, where the markdown goes).
  - `upload.rs`: embed links, percent-encoding, the markdown, and `UploadPlan`, the
    upload as a state machine from the outcome of each API call to the next call.
  - `prune.rs`: `PrunePlan`, the prune as a state machine, with the age arithmetic and
    the report it prints.
  - `git_data_api.rs`: the REST requests (method, URL, body), how a response status is
    judged, and how text is appended to an existing body.
  - `auth.rs`: the token from the output of `gh auth token`.
  - `text.rs`, `order.rs`: string helpers and the byte order of names.
- `app/` is the program around it: argument parsing, HTTP, JSON, files, the clock, and
  the loops that carry out the actions the plans ask for.
- `tests/` runs the library on concrete values.
