# tabs_army

A random army builder for a roster of game units, shown in a browser page.

`src/` is the verified library (Verus):

- `unit`, `roster`: the units and the roster, with the selection rules
  ("enable all", "disable all", a faction, a click on one unit) and their
  descriptions.
- `catalogue`: the roster of the game and the faction names.
- `price`: the budget control, stepping by 50 between 50 and 20000.
- `army`: the draft of an army: the candidates (enabled, affordable, sorted
  by cost), the weightings, and one round of the draft; what was spent and
  what is left always make up the budget.
- `sort`: a stable insertion sort of positions, proved unique.
- `layout`: the contents of the unit table and of the army table.
- `text`: decimal numbers, `true`/`false`, dictionary order of text.
- `random`: the calls into `rand` (weighted distribution, uniform draw).

`app/` builds the page with `web-sys` and `wasm-bindgen`, keeps the roster
and the price between clicks, and repeats draft rounds until the draft ends.
