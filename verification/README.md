# balloon_predictor

The decision logic of a high-altitude balloon trajectory predictor, with
its behaviour stated in Verus contracts and proved.

- `src/` is the verified library:
  - `tawhiri`: reading a Tawhiri-style prediction request (which error answers
    it, in which order), splitting a trajectory into stages, KML markers and
    attachment names;
  - `error`: API error kinds, their HTTP statuses and response bodies;
  - `runs`: choosing the GFS model run, from the NOMADS availability page or
    conservatively without it;
  - `forecast`, `gefs`, `ensemble`: which forecast files a launch needs, their
    URLs and cache names, GEFS members and Monte Carlo sample counts;
  - `terrain`, `balloon`: elevation sources and balloon classes;
  - `time`, `calendar`, `text`: instants in UTC (calendar work goes through
    `chrono`), and the string helpers the rest is built on.
- `app/` is the HTTP service and the desktop workflows around it: network and
  file I/O, the floating-point physics and coordinates, and the trajectory
  engine of the core crate.
- `tests/` runs the library on concrete values.
