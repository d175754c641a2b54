# memory_plugins

Plugins that analyse memory images of Windows and Mac systems, with machine-checked
contracts. Each plugin states in a specification what it reports of an image, and
Verus proves that its code reports exactly that.

## Layout

* `src/context.rs` – an image: layers of bytes, symbol tables, modules, typed objects.
* `src/symbols/` – what is read off an image beyond its bytes: processes, queues,
  registry hives, security tokens, executable images.
* `src/plugins/` – the plugin interface, the registry of plugins, and the plugins
  themselves under `windows/` and `mac/`.
* `src/text.rs`, `src/time.rs`, `src/addresses.rs`, `src/digest.rs`, `src/patterns.rs`,
  `src/lists.rs`, `src/renderers.rs`, `src/config.rs`, `src/error.rs` – what plugins are
  built on.
* `tests/` – tests on small images.
* `app/` – running a plugin and writing the files it recovers to disk.

A report is a table of values together with the files recovered for it. Nothing in
`src/` touches the file system: the output directory is described by the names that it
holds, and files are kept beside the report until `app/` writes them.
