# dongle

The decisions of a keyboard dongle, verified with Verus: a BLE central that
relays one bonded keyboard to a USB host.

- `src/` is the library. Each module is plain computation with a contract; the
  state machines name the next step and take in what came of it. The functions
  whose names begin with `law_` state what holds of the dongle as a whole.
- `app/` is the firmware around it: it performs the steps on the BLE host, the
  bond storage and the USB side, and reports back.
- `tests/` runs the library on concrete values, with the real HCI parser.

Four calls go to outside crates from `src/`, each in one function marked
`external_body` with its contract stated beside it: walking advertising reports
and the code of an authentication failure (`bt-hci`), and the default event
lengths and the random address type (`trouble-host`).
