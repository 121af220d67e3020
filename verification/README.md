# rtengine

The decision core of an intraday trading engine, verified with Verus.

- `src/` is the library. It decides: which strategies run and on which charts, what
  an indicator filter says, when an entry is allowed and what it trades, which level
  cuts a position, what the operator's requests do to the document, how contracts
  are resolved from the contract master, and how closed trades are grouped.
  Prices and indicator values enter it as order keys (`num::Num`), which compare as
  the values do.
- `app/` is the server around it: floating-point arithmetic, indicator studies, the
  broker session, the state file, the engine loops and the HTTP API.
- `tests/` runs the library on concrete values.

Laws that relate several operations stand beside the functions they speak of, as
public proof functions named `law_*`.
