# options-scanner

An options-chain scanner. The library under `src/` is written in Verus and
proved against its contracts; `app/` is the program around it.

`src/` holds the whole-number logic of the scanner:

- `types`: option and strategy types and their display names.
- `dates`: dates as day numbers; expiration and earnings dates from UNIX
  timestamps and `YYYY-MM-DD` text (through chrono).
- `tickers`: the ticker universe read from a CSV list, and the S&P 500 list
  read from the constituents table of a web page, sorted and without repeats.
- `scan`: which expirations to fetch for a ticker, and which repeated
  findings to drop.
- `strategies`: strategy names, descriptions and their whole-number rules
  (days to expiration, volume, how many legs are listed).
- `data`: request retries, the per-second request rate, Tradier reply
  fields, Yahoo sign-in crumbs, the earnings date of a quote-summary reply
  (through serde_json), and the table of earnings dates.
- `alerts`: which webhook service a URL points at.
- `tui::app`: the state of the terminal interface and what each key does.
- `config`: API and cache settings and the whole-number defaults.
- `text`: character-level helpers (trimming, searching, ordering, numerals).

`app/` holds what works on floating-point prices (Black-Scholes pricing,
Greeks, implied volatility and the strategies' scoring), the network and
database access, the configuration file, and the terminal drawing.
