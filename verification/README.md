# novashell_lib

The core of Nova, a Wayland desktop shell that draws transparent overlay
widgets (clock, system monitor, media player, audio visualiser, volume,
battery, launcher, command output) from a YAML configuration and CSS, with
hot-reload and a command line that talks to the running daemon over a Unix
socket.

The library in `src/` is written in Verus. Its own functions carry contracts
and are proved against them. The calls it makes into other crates and into
parts of std that Verus does not specify (`indexmap`, `quick-xml`, `chrono`,
path and case operations, the system clock) go through small wrappers marked
`#[verifier::external_body]`: their contracts are trusted, not proved, and
each one's doc comment says what it claims and what it leaves unsaid.

- `config/` — the configuration model and its defaults, where the config file
  is looked for, and the hot-reload watcher's decisions (which file changes
  reload what, debounced).
- `template.rs`, `xml.rs`, `factory.rs` — widget templates: `{var}`
  interpolation, the element tree a template describes, what each element's
  attributes mean, which variables drive which attributes and refresh timers.
- `css.rs` — expanding `@import`s, one file at a time, with the expansion's
  result stated as a function of the files' contents.
- `ipc.rs`, `cli.rs`, `daemon.rs` — the command line, the IPC protocol, the
  daemon's answer to each command and what its main loop does for it.
- `state.rs` — the daemon state: the widget registry and widget visibility.
- `renderer.rs` — which screens and widget instances get windows, anchors and
  sizes, where a widget's definition comes from, which windows a request
  addresses.
- `widgets/` — the built-in widgets' settings, data-source names, and the
  logic behind what they show (battery and volume readings, media reports,
  `.desktop` entries, colours).
- `plugin.rs` — the metadata and widget definitions plugins contribute.
- `text.rs`, `strmap.rs`, `ordered.rs`, `paths.rs` — strings, small maps and
  ordered maps, and paths, with their models.

`app/` is the `nova` program around the library: argument parsing, file and
socket I/O, the GTK windows and widgets, plugin loading, and the data sources
that read the system. `tests/` exercises the library on concrete values.
