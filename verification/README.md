# whatcable

Shows, in plain English, what each USB-C cable plugged into a Mac can do.

- `src/` is the verified library (Verus): USB Power Delivery VDO decoding
  (`pd_vdo`), the vendor table (`vendor_db`), the registry records and their
  labels (`models`, with `f64` display modelled exactly in `float_text`),
  reading `ioreg -a` property lists into those records (`plist_tree`,
  `ioreg`, `usb_devices`), each port's bus index from the `hpm<N>` entry
  above it in the registry (`registry_path`), the per-port summary
  (`port_summary`), fixture anonymization (`anonymize`) and the library-wide
  properties (`laws`). Every function carries a contract over spec functions;
  the calls into `plist` and `regex` go through the few trusted wrappers
  that `plist_tree` and `anonymize` declare.
- `app/` is the command line: it runs `ioreg` (the controller classes and the
  whole IOService plane), prints the summaries or JSON,
  and, invoked as `export-fixtures`, writes (optionally anonymized) fixtures.
- `tests/` exercises the library on concrete values.
