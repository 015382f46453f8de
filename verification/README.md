# ares_options

Slicer option handling for Orca-style printer, process and filament
profiles, verified with Verus.

The library reads option values (JSON values keyed by option name) and
decides what the slicer does with them: which filament each extrusion role
uses, how the legacy and prime tower options are normalized, how extruder
variants map to per-variant option vectors, how filament overrides are
merged into machine values, which exhaust fan, chamber and bed temperatures
apply, and how the `; CONFIG_BLOCK_START` block of a G-code file is written
(entries sorted by key, each key once, secrets and `nil` values left out).

Layout:

- `src/` — the verified library. Every public function states in its
  contract what it returns for every input, over spec functions on `Seq`,
  `Map` and integer models; laws that relate several calls are public proof
  functions next to the code they speak of.
- `tests/` — tests on concrete values.
- `app/` — the host side: conversion from `serde_json` values, the serde
  forms of the option types, the serializer that feeds option groups into
  the config block, and the float arithmetic (number text, the normalized
  resolution, fan speed numbers) that the library leaves to its caller.
