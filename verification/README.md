# nordlayer_kde

A KDE system-tray companion for the NordLayer command-line client.

- `src/` is the library, verified with Verus:
  - `text.rs`: whitespace trimming, ASCII case folding, substring search and
    line splitting, specified over `Seq<char>`;
  - `parser.rs`: readers for `nordlayer status` and `nordlayer gateways`
    output (template and plain-text forms, and `PRIVATE|<id>|<name>` /
    `SHARED|<id>|<name>` gateway records);
  - `cli.rs`: which binary runs and how a finished run is read;
  - `tray.rs`: the tray's state, its menu (entries and what each does),
    the steps that carry out an action, icon colours and
    notification texts;
  - `laws.rs`: properties that span these functions.
- `app/main.rs` is the program: it runs the client, shows notifications and
  serves the tray over D-Bus with `ksni` and `notify-rust`.
- `tests/` exercises the library.
