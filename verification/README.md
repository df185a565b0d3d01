# filament_tracker

A self-hosted filament inventory: spools with their brand, material and
colour, pictures, product links and weighings.

- `src/` is the verified library (Verus): reading the settings, parsing and
  writing decimal integers, trimming form text, the SQL text for the
  reference tables and the spool list (with its whitelisted ordering), the
  decisions on the add/edit spool forms and the names pictures are stored
  under. Laws are public proof functions named `law_*`.
- `app/` is the web service around it (axum, sqlx on SQLite, Tera): the
  handlers do the database and file I/O, render the templates and read the
  floating-point weights.
- `tests/` runs the library on concrete values.
