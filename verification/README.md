# mochios_settings

The logic of the mochiOS Settings application, written in Verus and proved against its
contracts.

- `src/` is the verified library: reading and writing the configuration files of the
  settings (`preferences`, `values`, `stored`, `config_write`), when the settings shown are
  saved (`autosave`), the replies of the account service and the steps of adding a user
  (`accounts`), application metadata, sorting and file associations (`applications`),
  capability grants (`grants`), dates (`datetime`), the sections of the window
  (`sections`) and the decisions shown on its pages (`pages`). `text` holds the
  character-level helpers they share.
- `tests/` runs the library on concrete values.
- `app/` is the window itself and everything that touches the system: files, the account
  service, Wi-Fi, the toolkit and the floating-point settings. It calls the library for
  every decision.
