# companion

Desktop companion that shows the status of the subagents running in OpenCode.
The runtime plugin writes `${TMPDIR}/opencode-subagent-statusline/pid-<PID>/state.json`;
the companion finds the latest such file, watches it (with `notify`, or by
polling when that fails) and forwards each new state to its frontend.

Layout:

- `src/` — the verified library (Verus):
  - `window.rs`: which saved window positions are restored;
  - `paths.rs`: state directory and file names, decimal text and parsing of PIDs;
  - `process.rs`: recognising the main process, choosing the latest state
    directory, modification times, counting subagents (through `serde_json`);
  - `state.rs`: the statusline state model, child deletion, the application state;
  - `watcher.rs`: watcher bookkeeping, the debounce of change notifications,
    the polling fallback, and the events sent to the frontend.
- `app/` — the Tauri application: commands, file-system access, the watch
  loops, and the serde forms of the state.
- `tests/` — tests of the library.
