# alas-launcher

The decisions behind a desktop launcher for AzurLaneAutoScript, verified with Verus: which leftover
processes may be stopped, when a start of the backend counts, what the tray menu shows, when the user
is notified, how the scheduler is reached, and how the repository is updated and patched.

## Layout

- `src/` is the verified library. It performs no input or output: what has to be read, spawned or
  waited for is handed in as plain values, and what has to be done next is handed back as a value.
  - `backend` – starts, stops, and what comes in between them
  - `stale_cleanup`, `child_process`, `platform` – processes, process groups, ports and paths
  - `alas_tasks`, `menu_model`, `notify`, `tray` – tasks, menus and notifications
  - `pywebio`, `control_api` – the two ways to control the scheduler
  - `setup`, `update`, `patch`, `deploy_config` – the repository and its configuration
  - `shell_settings`, `shell_menu`, `page` – settings, their menu, and the pages of the launcher
  - `json`, `text` – documents and texts
- `tests/` runs the library on concrete values, with the crates that it calls.
- `app/` is the program around the library: windows, menus, files, sockets and processes.

## What is trusted

Verus believes the contracts of the functions marked `external_body` and of the specification of
`String::push`. They call `serde_json`, `serde_yaml` and `base64`. Of the readers of the three they
claim that what comes out depends on the text alone; of the text that `base64` writes for bytes, and
`serde_json` for a string, what it is; and of `base64` also that reading gives back what was written.
Everything else in `src/` is proved.
