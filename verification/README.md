# ipak

ipak is a lightweight package manager and project tool: it creates, builds,
packages and installs projects, keeps lists of installed packages for the
user and for the system, and checks dependencies and conflicts on install
and removal.

The crate is written in Verus. `src/` is the library. Its functions are
verified against their contracts, except a few small wrappers around calls
into std and the outside crates (file-format detection, TOML, regular
expressions, gitignore matching, Markdown layout, the clock, lower-casing and
`String::push`), whose contracts are taken on trust:

- `version` — versions, their order, and version ranges (parsing, bounds,
  membership, text);
- `index`, `depend` — the index of installed packages and the dependency
  graph: installability, removability, conflicts and the install order;
- `pkg`, `list` — package metadata, the package lists and how they are shown;
- `project`, `args`, `templates`, `init` — the commands, the options they
  resolve to, the shell commands that run a project's scripts, the files of
  project templates, and the detection of a project's language and manifest;
- `archive`, `paths`, `lock` — archive kinds and entry names, the paths of
  ipak's files, and the lock timeout;
- `color`, `question`, `shell`, `messages`, `text` — terminal colours, answers
  typed by the user, facts read from the system, and text helpers.

`app/` is the program around the library: the command line, YAML files,
archives on disk, running scripts, and the questions asked on the terminal.
`tests/` exercises the library on concrete values.
