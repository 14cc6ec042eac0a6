# s3_downloader

The verified core of a small desktop client that downloads one S3 object at a
time through the locally installed AWS command line tool.

- `src/` is the library, checked by Verus:
  - `text.rs`: whitespace trimming, lexicographic order, sorted name sets,
    decimal rendering.
  - `profiles.rs`: the profile names that `~/.aws/config` declares.
  - `json.rs`: JSON values as the library reads them, and the calls into
    `serde_json` that decode them.
  - `cli.rs`: the arguments of each AWS command, what a run's outcome means,
    and the interpretation of the bucket and version listings.
  - `models.rs`: the form state and the validated download request.
  - `app.rs`: the state transitions of the application, stated as functions
    over the model, and the laws they obey.
- `app/` is the GPUI program around it: it runs the commands, reads the
  configuration file and the environment, and draws the form.
- `tests/` exercise the library on concrete values.
