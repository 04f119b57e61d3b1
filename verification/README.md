# neogh

A Neovim plugin that shows the review comments and the GitHub Actions status of the pull
request of the current branch in a sidebar, with navigation between stacked pull requests.

The crate is in two parts.

- `src/` is the library, verified with Verus: the comment and workflow models, the
  reading of GitHub's GraphQL replies into threads and suites, the sorting of threads,
  the rendering of both sidebars with their line maps, the navigators, the detection of
  pull request chains as a state machine, and the plugin state with the decision taken
  on every command (`plugin/`). Each public function states its result in `ensures`;
  the laws that relate several functions are public proof functions (`lemma_*`).
- `app/` is the plugin around it: Neovim commands, keymaps, windows and autocommands,
  the `gh` command line tool, the GraphQL requests through octocrab, and the threads
  that fetch in the background.

Calls into outside crates that the library makes (`chrono` for parsing
time stamps, `regex` for removing HTML from comment bodies) go through small trusted
wrappers whose contracts are stated next to them.
