# zed_angular

The decisions behind the Angular language-server extension for the Zed editor, written in
Verus and proved against their contracts.

- `src/version.rs`: reading the Angular major out of an npm range spec, and the table of
  known-good `@angular/language-server` / `typescript` pairs per major.
- `src/settings.rs`: the user's `initialization_options`, the feature flags forwarded to the
  server, and the Angular version found in a project's `package.json`.
- `src/json.rs`: a JSON document model and writing a value at a dot-delimited path.
- `src/config.rs`: the nested workspace configuration (inlay hints on by default, user keys
  on top).
- `src/server.rs`: choosing between a pinned, a project-local and a managed language server,
  and the server's command line.
- `src/install.rs`: installing the managed server, as a state machine whose requests the
  caller carries out.
- `src/completion.rs`: completion labels highlighted by kind.
- `app/lib.rs`: the Zed extension itself, which talks to the Zed host, npm and the file
  system and hands plain values to the library.

