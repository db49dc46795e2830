# sequent_gateway

A Modbus TCP ↔ I²C gateway for Sequent Microsystems Raspberry Pi HATs
(relays, analog I/O, opto-isolated inputs, open-drain outputs), with its
protocol logic, board drivers and configuration rules verified by Verus.

## Layout

- `src/` — the verified library.
  - `modbus`, `slave_map`, `databank` — the Modbus TCP request handler,
    unit-ID routing and the register image it serves.
  - `hal/` — the board trait and the I²C drivers (generic TOML-described
    driver, Mega-Industrial and PCA9535 relay boards) over an `I2cBus`.
  - `cache`, `channel_watchdog`, `i2c_recovery`, `poll`, `health` — write-on-
    change caching, per-channel fault tracking, bus recovery decisions, the
    phases of the 10 Hz poll cycle and the health report.
  - `board_def`, `board_registry`, `config`, `cli`, `gateway` — board
    definitions, the registry of boards, configuration and start-up choices.
  - `configure/` — the configuration wizard's state machine and install
    decisions; `validate/` — the hardware validation scenario, checks,
    the checks of every test category (the Modbus tests as state machines
    driven by the application), the Modbus client and the report.
  - `text`, `ranking` — small verified string helpers, and the listing
    order and sort used for board files.
- `app/` — the executable: argument parsing, files, sockets, the I²C
  device, GPIO recovery, the terminal UI, logging and threads.
- `tests/` — tests of the library.

Validation runs one scenario, built from the board definitions chosen on
the command line (or interactively); there are no scenario files, and the
gateway it spawns gets exactly the arguments `gateway_args` lists.
