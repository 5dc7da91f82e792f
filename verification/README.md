# madoi

A viewer for rocket flight logs: a JSON list of telemetry records
(`id`, `value`, `timestamp`) is read, split into series, and plotted with the
phases of the flight (stages, programs, statuses, RCS) shown as spans.

- `src/` is the verified library (Verus): the record model, reading values
  from their text, selecting and parsing series, the vessel metadata, and the
  spans of a series. Timestamps are a type parameter the library never
  computes on.
- `app/` is the program around it: JSON and file loading, the floating-point
  work (time span of the log, normalisation, max-Q, relative times) and the
  egui user interface.
- `tests/` exercises the library on concrete logs.
