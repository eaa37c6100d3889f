# Borg the Spire

A Slay the Spire combat simulator with machine-checked contracts, and a small command line
around it that talks to CommunicationMod.

- `src/` is the library, verified with Verus: the cards, powers and monsters of a combat,
  the actions that change it and the runner that works through them, the conditions that
  strategies test, the bookkeeping that lets a seed answer the same random question the
  same way across playouts, playing a combat out with a strategy and a seed, the search
  for the points a combat can reach by the player's first choices, and the reading of
  CommunicationMod's game state.
- `tests/` runs the library on concrete combats.
- `app/` is the program: argument handling, file and terminal I/O, the serde copies of the
  CommunicationMod messages, random number generators, the seeds and the random strategy
  that playouts use, and the scores of finished combats (which are floating point).
