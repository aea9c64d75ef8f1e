# dnd5e

The rules and content behind a Dungeons & Dragons 5th edition character sheet, written
in Verus: every function states what it computes in its `requires` / `ensures`, and
Verus proves it.

## Layout

- `ability`, `proficiency`, `roll`, `damage`, `text` — abilities and skills, the
  proficiency bonus, dice, and numbers as text.
- `condition`, `criteria`, `mutator`, `character`, `item`, `content` — conditions
  (exhaustion among them), requirements such as wearing armor, the parts a character is
  built from, and the game content (classes, lineages, items and so on).
- `currency`, `purchase`, `equipment_choice` — coin purses, buying items, starting
  equipment.
- `hit_points`, `rest`, `uses` — damage and healing, rests, limited uses.
- `generation` — ability scores by point buy or from the standard array.
- `display`, `order`, `actions`, `spells`, `spell_sections`, `spell_text` — what the sheet
  shows: the actions panel and how it groups features, the spells panel and its sections,
  and the texts of rows and details.

Laws that relate several functions are public proof functions named `law_*` (and the
`lemma_*` of `order`, which show that the listing order is a total order).

Two calls leave the library, each behind a function whose contract Verus trusts:
`roll::Roll::roll` draws faces with `rand`, and section titles are upper-cased with
`convert_case` (as are ability abbreviations in the spell rows).

The tests under `tests/` run the library on concrete values.
