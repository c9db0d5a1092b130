# tauri-kit

Building blocks for desktop apps, verified with [Verus](https://github.com/verus-lang/verus).

| Part | What it gives an app |
|---|---|
| credentials | Secrets in the OS credential store. Test runs and debug builds get their own entries, so they never overwrite or clear the secrets of the installed app. |
| files | Crash-safe file writes: write, flush to the device, then rename into place, so a crash leaves the old content or the new. A startup sweep removes only its own leftovers. |
| sidecar | Bundled helper processes: started without a console window, waited for until they are ready or have exited, and stopped together with everything they started. |

`src/` is the library: what is done, and in which order, with the proofs. It holds

- `credentials`, `keyring`: service names, operations on secrets, how a store's replies are read;
- `files`, `disk`, `sweep`: plans of writes, what a crash can leave behind, leftovers;
- `output`, `spawn`, `readiness`, `lines`, `shutdown`, `tree`, `timing`: helper processes.

`app/` carries the plans and machines of the library out: it reads and writes files, starts and
signals processes, and installs the platform's credential store. `tests/` exercises the library,
with the in-memory store of `keyring-core` in the place of a real one.
