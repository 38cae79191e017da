# nix-update-git

Finds git references in Nix files (flake inputs, fetcher calls, package
builders' sources) and proposes updates to newer tags, branch heads and the
hashes that go with them.

- `src/` is the verified library (Verus): the Nix syntax tree and its
  attribute sets, the forges and their URLs, the update rules, patch
  normalization, hashing formats, the git prefetch decisions
  (`prefetch::machine`), applying updates to a file (`apply`), and the
  rendering of diffs. Each public function states its result in its
  contract; the `law_*` proof functions state properties that span calls.
- `app/` is the command-line program around it: argument parsing, file and
  network access, running `git`, and prompting.
- `tests/` runs the library on concrete inputs.
