# warmane_tui

A terminal dashboard for the Warmane realms: realm status and player counts, population
statistics, and the latest news, refreshed every ten seconds.

- `src/` is the verified library. `text` holds the character-level operations (search,
  trimming, number parsing and printing) with their specifications; `html` reaches the
  `scraper` crate; `status`, `statistics` and `news` read the pages; `table`, `app` and
  `view` hold the dashboard's state, its transitions and the rows it shows; `net` decides
  the retries of a fetch and the steps of the logon-server probe; `laws` proves what holds
  across these operations.
- `app/` is the program: terminal set-up, the event loop, HTTP, TCP and `ping`, and drawing.
- `tests/` runs the library on concrete pages and states.
