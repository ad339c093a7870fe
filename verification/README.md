# atriumd

A bridge between a Home Assistant instance and the Atrium panel. It keeps a
WebSocket connection to Home Assistant, projects the instance's rooms and
entities into the tabs and rows the panel draws, and turns the panel's actions
into service calls, speaking one JSON object per line on stdin and stdout.

## Layout

- `src/` is the library, written in Verus and verified: what an address means
  (`url`), which entities are shown (`filter`), how an entity is drawn
  (`model`, `device_icons`, `icons`, `text`), how rooms become tabs
  (`registry`, `sort`, with its laws in `projection`), how dashboard
  preferences are adopted (`prefs`), how an action becomes a service call
  (`action`, over the exact binary64 model of `number`), what each message of
  the Home Assistant protocol means (`client`), the keyring helper's rules
  (`keyring`), and the daemon's decisions: its state (`daemon`), its handling
  of commands and events (`control`) and of the connection's life
  (`lifecycle`). JSON values are modelled in `json`, the panel's protocol in
  `protocol`, the settings in `config`.
- `app/` runs it: the WebSocket session, the keyring helper process, the
  settings file, the serde forms of the library's types, and `main`.
- `tests/` exercises the library on concrete values.
