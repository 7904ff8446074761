# rf_console

Display and decision logic of an RF survey console, written in Verus and
verified: every public function states in its contract what it returns or
changes, and the properties that span several functions are proved as
`law_*` proof functions.

Layout:

- `src/` — the verified library.
  - `text`, `labels`, `palette`, `heartbeat`: formatting of counts, sizes,
    durations and clock times; labels and colours of bands, severities,
    event types, alerts and SDR slots.
  - `parsing`, `filters`: integer parsing as `str::parse` does it; the event
    filter editor (splitting a filter into operator, field and text and
    building it back) and its value suggestions.
  - `weather`: which weather alerts are in force.
  - `watchdog`, `feed`: the WATCHDOG view state — live tail, event query
    filters and paging, facet clicks, dashboard counters, threat score and
    feeds.
  - `rules`: alert and custom-event rule conditions (types, editor
    defaults, summaries in words) and the rule list's editor and two-step
    delete state.
  - `waterfall`, `iq`, `tuning`: the scrolling waterfall history, the I/Q
    capture reader and viewer windows, frequency digits and band toggles.
  - `dispatch`, `grants`, `talkgroups`, `tg_groups`: the P25 dispatch log,
    grant rows, the talkgroup directory (search, department tree, name and
    department caches) and the user's watch groups.
  - `operations`, `targets`, `suggest`, `recording`, `sweep`: the operation
    lifecycle and its create forms, the observation-target form, sorted suggestion lists, manual
    recording plans and the sweep timer.
- `tests/` — tests of the library on concrete values.
- `app/` — glue that is not verified: reading the heartbeat JSON, the clock
  and capture files, and the floating-point colour and tuning helpers.
