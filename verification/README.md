# PulseHub

PulseHub configures the Logitech G102 LIGHTSYNC mouse (`046d:c092`) on
Windows: DPI and DPI-cycle levels, report rate, button mappings, application
profiles with automatic switching, portable configuration transfer and a
background agent that the settings window talks to over a local pipe.

This crate holds the logic of the tool as a Verus library, with contracts that
Verus proves, and a thin program around it.

## Layout

- `src/` – the verified library.
  - `hidpp.rs`, `g102.rs` – HID++ 2.0 framing, the feature table, DPI sensors and
    onboard-profile sectors (CRC, patching, guarded writes with read-back and
    restore). Every exchange with the mouse is kept in a ghost log, so the
    contracts say which requests were sent and what the answers give.
  - `discovery.rs`, `probe.rs`, `device.rs` – report-descriptor parsing and the HID
    collection list.
  - `config.rs`, `profile.rs`, `model.rs` – the configuration document, its
    validation, migration and the atomic save and load through a store.
  - `ipc.rs`, `client.rs`, `cli.rs` – the agent protocol, its frames and the
    command-line client.
  - `agent.rs`, `coordinator.rs`, `local_log.rs` – the agent's decisions:
    foreground targets, switch guard, retry backoff, device health and log
    retention, as step functions from state and event to state and action.
  - `gui.rs`, `draft.rs`, `panel.rs` – the rules behind the settings window:
    drafts, imports and what each panel shows.
  - `fmt.rs`, `text.rs` – decimal and hexadecimal text.
- `tests/` – tests of the library on concrete values, with scripted devices.
- `app/` – the program: HID access, the pipe, threads, timers, files and the
  Windows registry, calling into the library for every decision.
