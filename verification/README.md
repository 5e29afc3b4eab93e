# wxmatch

Downloads, caches, normalizes and compares the weather observations of a station, and answers
questions about its days: what happened on one, how likely one is to reach a high, and which past
days looked like it.

The library under `src/` is written in Verus. It holds the rules of the project, each with its
contract: reading the raw files of the four services (`iem`, `ncei`, `ghcnh`, `nws`, with `fields`,
`json`, `metar` and `evaluate`), the observation model and its rows (`domain`, `rows`, `readback`,
`source`), what is built from observations (`engine`, `dataset`), the search for analogs and the
probabilities (`analogs`, `probability`), the layout of the cache and its manifests (`paths`,
`cache`, `manifest`, `report`), the steps of fetching (`fetch`), the commands (`cli`) and what they
print (`inspect`, `query`). `text`, `numeral`, `order`, `reading` and `calendar` are what these rest
on.

Measured values are `Reading`s: the bits of a double-precision number. The order of readings is
part of the library. What rounds - sums, unit conversions, reading a decimal numeral - is asked of
an `Arithmetic`, and contracts say which of its operations gives each value, on which arguments.

Dates, time zones, delimited text and JSON come from `chrono`, `chrono-tz`, `csv` and
`serde_json`, each behind a wrapper whose contract states what is relied on.

`app/` is the program: the command line, requests, files, logging, the Parquet and JSON forms of the
records, and the floating-point `Arithmetic`. `tests/` runs the library.
