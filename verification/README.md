# clipdate

Keeps self-contained command line tools up to date that are published as GitHub
releases: it finds the installed version of each tool, compares it with the
latest release, downloads the asset for the machine, holds it to the checksum
file of the release, takes the executable out of its archive and puts it in
place of the former one.

- `src/` is the library. It makes every decision and is verified with Verus: each
  function states in its contract what it returns, and public proof functions
  state what holds of the library as a whole. Outside crates (`semver`, `regex`,
  `sha2`, `hex`, `zip`, `tar`, `flate2`, `reqwest`, `anyhow`) are called through small
  functions whose contracts are assumed; each says so above its definition.
- `app/` is the program: arguments, environment, requests, files and output. It
  is built with the target triple in the variable `CLIPDATE_TARGET`.
- `tests/` runs the library on concrete values.

| Module      | Contents                                                        |
|-------------|-----------------------------------------------------------------|
| `text`      | searches, cuts and replacements in strings                      |
| `platform`  | what assets call the machine                                    |
| `template`  | templates of file names                                         |
| `tool`      | the configured tools, their assets and executables              |
| `version`   | semantic versions, and how the installed one is found           |
| `release`   | the latest release                                              |
| `download`  | downloads                                                       |
| `checksum`  | checksum files                                                  |
| `archive`   | zip and gzipped tar archives                                    |
| `update`    | one update, as a machine of states, events and actions          |
| `history`   | what holds of every run of an update                            |
| `report`    | what the user is shown                                          |
| `client`    | the headers of requests                                         |
| `paths`     | where tools are installed                                       |
| `error`     | what can go wrong                                               |
