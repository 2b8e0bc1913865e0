# whatstauri

The decision logic of WhatsTauri, a Tauri 2 desktop wrapper around
WhatsApp Web for Linux, written in Verus and proved against its contracts.

- `src/` is the verified library:
  - `unread`: unread count from the document title, and the state that only
    reports changes;
  - `last_message`, `tray`, `badge`, `notifications`: the texts shown in the
    tray menu, the tooltip, the badge and native notifications;
  - `config`: `config.toml` settings with their defaults, NVIDIA detection
    from sysfs vendor ids, and the environment workarounds they select;
  - `links`: the in-app navigation allowlist;
  - `window`: the throttle on opening links in the system browser, the
    crash-loop guard of the web process, download notification texts;
  - `wipe`: the retry policy of the data wipe;
  - `text`: character-level helpers (trimming, search, decimal numbers).
- `app/` is the Tauri shell: window, tray, D-Bus notifications, file and
  environment access, and the badge rasteriser (floating point).
- `tests/` exercise the library on concrete values.

The TOML, URL and PNG parsers and `str::to_uppercase` are called through
functions whose contracts name their results; everything computed from those
results is verified.
