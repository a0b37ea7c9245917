# dprint-plugin-golangci

A [dprint](https://dprint.dev/) plugin that runs
[golangci-lint](https://golangci-lint.run/) on Go files, applies the fixes it
can make and reports the issues it cannot fix.

## Layout

- `src/` is the verified library (Verus): the configuration section and its
  resolution, the golangci-lint arguments, the issue report, the version
  detection, the release/cache names, finding the binary in a release
  archive and the install steps, and what the
  plugin answers once golangci-lint has run. Every public function states
  its result in its contract; the laws that relate functions are public
  proof functions next to them.
- `app/` is the program around it: the dprint process handler, the
  stand-alone line protocol, running golangci-lint, downloading releases and
  writing the binary out,
  reading and writing files, and the serde copies of the library's types.
- `tests/` exercises the library on concrete values.

## Configuration

| key          | type    | default | meaning                                  |
|--------------|---------|---------|------------------------------------------|
| `configPath` | string  | none    | golangci-lint configuration file         |
| `fix`        | boolean | `true`  | let golangci-lint fix what it can        |
| `version`    | string  | latest  | golangci-lint release to install         |

Any other key, or a value of the wrong type, is reported as a diagnostic.
