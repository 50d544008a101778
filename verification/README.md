# worktree-prune

Removes Git worktrees together with the Cargo target directories kept outside them. The rules that
decide what may go are a verified library; a thin program around it talks to Git, the disk and the
terminal.

## Layout

- `src/` decides. It never touches the disk.
  - `bytes`, `text`, `path`: byte strings, text and absolute paths.
  - `resolve`: resolution of a path through symbolic links, one question at a time.
  - `config`: the target directory that a Cargo configuration file sets.
  - `entry`, `repo`, `inventory`, `status`: what there is, whose it is, and in which state.
  - `safety`, `plan`, `plan_laws`: what may be removed, and the plan to remove it.
  - `disk`, `command`, `size`: checks of a directory tree, results of commands, sizes.
  - `execute`, `execute_laws`: carrying a plan out, one request at a time.
  - `picker`, `picker_laws`, `screen`: the interactive choice and what it shows.
  - `args`, `session`: the options, and a run from its inventory to its end.
- `app/` acts: command line, Git, files, terminal.
- `tests/` run the library on concrete values.

## Where leftovers are looked for

Beside every registered worktree; in `.worktrees` and `worktrees` of the main checkout; and in
`worktrees` of every hidden directory of the main checkout but Git's own, where tools keep theirs.

## What is proved

Each function states what it returns for every input. Beyond that, public proof functions state what
holds of the whole, among others:

- The main checkout, Git's data, locked worktrees, the directory that the program works in and the
  one that the user is in, with all above them, are in no plan, forced or not.
- Without force, a planned worktree is clean and its commits are reachable elsewhere.
- One refusal blocks the whole plan, and a blocked plan removes nothing.
- A target directory that is removed lies below the base and holds nothing of the main checkout, of
  Git's data or of any other worktree, also in an inventory taken just before.
- A dry run removes nothing, and an error ends an execution.
- What an interactive session carries out was planned anew after it was confirmed.

`String::push`, `String::from_utf8`, `String::from_utf8_lossy` and the parser of the `toml` crate are
trusted as their documentation describes them.
