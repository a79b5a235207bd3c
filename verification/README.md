# releasaurus

Release planning for repositories that hold one or many packages: which
commits belong to which package, what each package's next version is, how
the changelog entries read, and which release pull requests to open.

The library (`src/`) is written in Verus and every function in it is
proved against its contract:

- `commit`, `group`, `analyzer`, `strategy`, `version`: conventional commit
  parsing, changelog groups, and the next version of a package (stable,
  versioned prerelease or static prerelease).
- `config`, `resolver`, `cli`: the configuration file's model, command line
  overrides, and the resolution of both with the documented precedence.
- `packages`, `paths`, `manifest`: which commits touch a package, where
  commits are read from, and the manifest files each package updates.
- `release_pr`, `publish`: release pull request content, the steps that
  create or update a release pull request one forge reply at a time, and
  the metadata read back from merged pull requests.
- `laws`: properties proved across these operations (precedence and
  collection of overrides, commits that are skipped or reworded,
  partitioning of pull requests and where each package's part goes,
  changelog normalization and its idempotence, the order of group
  headings, when configuration resolution fails).

Calls into `semver`, `next_version`, `git-conventional`, `regex`,
`git-url-parse` and `serde_json` go through small trusted wrappers whose
contracts say what those crates document. Where a crate panics on some
input (`git-url-parse` on short Azure DevOps URLs and on `ssh` URLs whose
path is empty after normalization), the wrapper requires that the input
is left out, and the library recognizes such inputs from the crate's own
normalization and refuses them with an error before the call.

`app/` is the command line program: argument parsing, reading
`releasaurus.toml`, reading a local git repository, rendering the changelog
template and printing JSON.
