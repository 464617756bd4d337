# RepoKai

A GitHub repository browser for the terminal: a three-panel view of your
repositories (list, info, README), with publishing of a local git repository,
cloning, editing of a repository's description and visibility, and opening a
repository in the browser.

## Layout

- `src/` is the library, verified with Verus. It holds the browser's state and
  every decision it makes, with their contracts:
  - `browser.rs`: the browser state (`App`), sorting, selection, scrolling,
    mouse hit-testing and the info panel layout;
  - `input.rs`: what a key or a mouse action does to the state, and which work
    (a fetch, a git command, opening a URL) it asks the program to carry out;
  - `prompt.rs`: the publish / clone / edit prompts and their fields;
  - `paths.rs`: `~` expansion, path completion and the path Backspace;
  - `text.rs`, `order.rs`: word wrapping, trimming, case-insensitive stable sort;
  - `token.rs`: the search for a GitHub token (environment, keychain, `gh`);
  - `api.rs`, `codec.rs`: GitHub request bodies, pagination, README decoding;
  - `publish.rs`, `command.rs`: the git commands of publishing and cloning, and
    how their outcomes are judged;
  - `model.rs`, `error.rs`: repositories, options and errors.
  - `view.rs`: the texts the screen shows (info lines, prompt marks, list
    padding) and the rows a plain README takes.
- `app/` is the program around it: the terminal, the GitHub client, running
  commands and reading directories, and drawing the screen.
- `tests/` exercises the library on concrete values.

## Keys

| Key | Action |
|-----|--------|
| Up/Down | Navigate repo list (in the info panel: its lines; in the README: scroll) |
| Enter | Load README |
| j/k | Scroll README |
| Tab / Shift-Tab | Next / previous panel |
| s | Toggle recent / a-z order |
| v | Toggle your repositories / starred ones |
| r | Refresh |
| o | Open repo in browser |
| p | Publish local repo |
| c | Clone selected repo |
| e | Edit repo settings |
| q/Esc | Quit |
