# iws

A multi-repo workspace manager: a workspace is a set of git worktrees, one
per repository of a project, each on the workspace's branch.

- `src/` is the verified library (Verus): the project and workspace records
  (`config`, `workspace`, on an ordered `name_map`), the meaning of git's and
  gh's answers (`git`), the checks, branch choices and texts of the commands,
  and the steps of `new`, `pr` and `done` as functions from what happened to
  what to do next (`commands`, `templates`), the interactive browser as a state machine
  (`tui`) and the texts of its screen (`screen`), the command line (`cli`),
  text and path helpers (`text`, `path`), and properties across operations
  (`laws`).
- `app/` is the program around it: argument parsing, TOML files, running
  git and gh, and the terminal.

The coding assistant that workspaces are prepared for is configured through
the environment: `IWS_ASSISTANT` (program), `IWS_ASSISTANT_LABEL` (display
name), `IWS_NOTES_FILE` (the notes document written into each workspace),
`IWS_ASSISTANT_DIR` and `IWS_ASSISTANT_FILE` (the document that points the
assistant at the notes).
