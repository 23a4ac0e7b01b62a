# firecore_battle

Pokemon battles: the rules of a battle as a library whose behaviour is stated
in contracts and proved with Verus.

- `src/` is the verified library.
  - `types`, `moves`: the type chart and how effective moves are.
  - `pokemon`, `party`, `player`: pokemon in battle with their stat stages,
    parties with their active slots, and the players.
  - `select`: what players select and what they are told.
  - `queue`: the order in which the actions of a turn are carried out.
  - `target`: who a move is aimed at.
  - `engine`: checking selections (a confirmed move costs a PP) and applying
    the results of actions.
  - `usage`: what the uses of a move give against a target, and carrying a
    move out against its targets.
  - `host`: the battle host, a state machine that answers the players, tells
    them what happens and steps through a turn; `state`: a generic phased state.
  - `ai`: an AI player's picture of the battle and its choices.
  - `scripting`, `items`, `endpoint`, `dex`, `random`, `data`: the
    values these work with, and the calls into the pokedex and `rand`.
- `app/` runs battles: in-process connections, the loops that drive the host
  and the AI, looking moves up and running scripts, the damage formulas
  (floating point), timers, and loading move files.
- `tests/` exercises the library on concrete battles.
