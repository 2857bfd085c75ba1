# Launcher extensions

Four extensions for the Portunus launcher, written as a verified library with a
thin layer around it:

| module | what it does |
|---|---|
| `cheatsh` | cheat.sh lookups over a cached list of sheets, with a structured preview |
| `emoji` | emoji by name or keyword, copied on Enter |
| `gh` | GitHub: live searches, dashboards, previews, and the pages that results lead to |
| `ytm` | YouTube Music: songs and the queue, through a companion in the browser |

`src/` is verified with Verus. It holds everything that is decided: which rows
are shown and in which order, which pages and texts an action leads to, what is
asked of an API and what is kept of its answers, how a README's links are made
absolute, how timestamps are read. Each function states exactly what it returns,
over sequences of characters; the proof functions whose names start with `law_`
state what holds across functions.

| shared module | what it holds |
|---|---|
| `text` | the operations on strings that the extensions are built from |
| `encode` | percent encoding, HTML escaping, base 64 |
| `number` | decimal rounding as double-precision numbers give it |
| `json` | JSON values, as far as they are read and written |
| `host` | rows, actions, effects, previews and requests, shared with the launcher |

`app/` is the layer around it: it talks to the launcher through the trait
`Host`, reads and writes JSON, computes the floating-point scores, and runs the
steps that the library names one after the other.

`tests/` holds tests of the library on concrete values.
