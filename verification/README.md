# trilogy_save

Reading and editing Mass Effect trilogy save games, with the byte-level
reading and the editing rules proved with Verus.

- `src/` is the verified library:
  - `cursor`, `save_data`, `text_encoding`, `index_map` and `mass_effect_3`
    read a Mass Effect 3 save game field by field; every reader states how
    many bytes it takes and what value they encode, or which error it gives.
  - `me1_le`, `me2_general`, `me3_general`, `talents`, `items`, `plot`,
    `bonus_powers`, `selection` and `head_morph` hold the edits of the
    general, talent, power and inventory pages, each with the exact change it
    makes to the save game.
  - `raw_plot`, `label_list`, `plot_filter`, `plot_category` and `inventory`
    hold the plot and item lists: which plots are listed under a filter, in
    which order, and how missing plots are made room for.
  - `text` and `markup` hold the small text rules (tree node labels, code
    spans, the change log).
- `tests/` runs the library on concrete values.
- `app/` is a command-line front end: it reads a Mass Effect 3 save game,
  applies general edits given as options, and prints the result.
