# galactic_trader

Verified pieces of an intraday equity trading system, written in Verus: the
session clock, text and flag parsing, entry gates, action configs and their
research overrides, live-loop decisions and dashboard navigation, each stated
as a contract and proved. The engine that scores and trades (indicators, scoring,
sizing, backtest replay and metrics) is not part of this crate.

- `src/` is the verified library:
  - `clock`: US/Eastern session clock (regular trading hours, Eastern dates and
    minutes, market open/close instants, bucket alignment). The time-zone table
    is chrono-tz's, reached through three small trusted wrappers.
  - `hm`, `text`: "HH:MM" settings and the text primitives they rest on
    (Unicode trimming, Rust's `u32` parsing rules).
  - `config`: strategy action configs as JSON documents and the overrides of a
    research run: session and scoring settings, sizing and hold parameters,
    disabling and enabling actions, sign-mirrored short twins of long entry
    windows, patches, setting a parameter by JSON pointer, entry windows. Numbers keep the form they were
    written in and the bits of their `f64` reading, so they are copied and
    negated exactly, never computed on.
  - `indicator_cfg`: indicator configs and the indicators a research run adds
    or reweighs.
  - `live`: the live trading loop as a state machine (bars, positions,
    heartbeats, hot-reloaded configs, shutdown) returning the actions to take.
  - `gates`: per-day session state and the reasons an entry is blocked.
  - `session_close`: the session-close exit action.
  - `plan`, `order`: building per-phase action lists (registry lookup, stable
    priority order).
  - `bars`: which one-minute bars form each coarser bar; which bars of a fetch
    are kept; which replayed trades belong to the target day.
  - `feed`: reconnect backoff, history paging, retries and request windows.
  - `warmup`: the live loop's warm-up history fetch as a state machine (IEX
    pages, the fallback to lagged SIP bars, the page limit, the bars kept).
  - `config_view`: the lines of the dashboard's config view (actions by phase,
    indicators by timescale, parameters by key).
  - `runtime`: live-loop decisions (capacity, stale feed, missed close,
    diagnostics throttling, config swaps).
  - `dashboard`: navigation state of the terminal dashboard.
  - `broker`: waiting for order fills, classifying failed closes.
  - `overrides`: the replay runner's override flags (per-ticker settings,
    indicator weights and additions, hold tiers).
  - `model`, `errors`, `account`, `cli`: shared vocabulary, error messages,
    account record, command-line helpers.
- `tests/` runs the library on concrete values.
- `app/` is a small program around it: streaming bars into the dashboard
  through the live state machine (polling promoted configs when a database is
  set), fetching history, printing a config's view, applying research overrides
  to a config file, and settling the capital budget, with the network (alpaca),
  database (postgres) and terminal I/O that the library leaves out, and the one
  override that computes on a floating-point number (the VPIN gate's score).
