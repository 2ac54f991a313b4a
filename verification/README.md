# map_game

The rules engine of an alternate-history grand strategy game in which a
language model plays the rest of the world. The player's directives reach the
model, and the model acts on the game through a fixed set of tools: it reads
countries and the world situation, declares wars, mobilizes, sues for peace,
trades, forms alliances, passes policies, sets budgets and advances turns.

## Layout

- `src/` — the library, verified with Verus.
  - `game/` — the world: countries (`country`), wars (`war`), diplomatic
    actions (`diplomacy`), the game state with its queries, diplomatic
    relations and calendar (`state`), in which no two countries and no two
    wars share an identifier, the war resolution of a turn
    (`economy`), the closing of a turn (`turn`) and the laws that span these
    operations (`laws`).
  - `tools/` — the catalogue of tools (`catalog`) and their handlers
    (`executors`), each of which checks its arguments in order, answers the
    first failure with its error and leaves the state as it was, and
    otherwise states exactly what it changes.
  - `context`, `advisor` — the instructions given to the simulation engine and
    to the strategic advisor.
  - `directive` — the exchange with the engine that carries out a directive.
  - `llm` — the choice of the service that runs the engine.
  - `text`, `search` — text ordering and rendering, and searching lists.
- `app/` — the program around the library: the commands of the front end,
  the services that run the engine (HTTP), saved games (SQLite), the JSON
  of the tools, and the computations on real numbers (economic growth,
  battles, trust and stability).
- `tests/` — tests of the library.

Real-valued quantities (GDP, strengths, percentages, trust) are carried by the
library as `Real`, the bit pattern of a binary64 number; every computation on
them is done in `app/`.
