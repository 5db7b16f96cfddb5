# cyrene_compass

The verified core of Cyrene Compass, a Fluent-style quick launcher for Windows
desktops and touch screens: a floating ball that opens a 3×3 compass of actions,
and a desktop compass that opens while Tab is held.

- `src/` is the library, checked by Verus:
  - `geometry` – restoring and clamping the ball's position, monitor rectangles,
    and the layout of the main window when it changes mode;
  - `compass` – choosing a direction from the cursor offset, with exact sector
    boundaries;
  - `gesture` – the long-press-Tab state machine (keyboard hook and controller);
  - `command` – `%VAR%` expansion, command-line splitting, where a program is
    searched for, how an action is started (batch, PowerShell, program,
    elevated) and the messages when the shell refuses a launch;
  - `update` – the release check over the API and its mirror, trusted update
    addresses, the download over mirrors, installer checks and the allowed
    external links;
  - `appearance` – image data URLs and the Windows accent colour;
  - `startup` – start at log-on, the elevated helper, the single-instance
    handshake and the window styles;
  - `text` – character-level string operations and decimal formatting.
- `app/` is the Tauri program around it: windows, Win32 calls, files, network
  and process spawning.
- `tests/` runs the library on concrete values.
