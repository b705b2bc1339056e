# yaal

The verified core of a keyboard driven application launcher whose entries
come from plugin libraries.

- `src/` is the library, verified with Verus:
  - `text`: splitting a query at its first space, prefix and substring tests;
  - `store`: a text keyed map held as a vector of pairs with distinct keys;
  - `config`: the configuration model, the table of plugin settings, the
    window settings and the configuration errors;
  - `plugin`: plugins and their entries;
  - `loader`: which files are plugin libraries, and the settings text a
    plugin is initialised with;
  - `entries` and `routing`: which plugins answer a query, with what text,
    and which of their entries are kept;
  - `listing`: which entries the result list shows for the typed text;
  - `keys`: the keyboard handling of the result list and the search bar.
- `app/` is the GTK program around it: reading the configuration file,
  loading plugin libraries and calling into them, and the window.
- `tests/` runs the library on concrete values.
