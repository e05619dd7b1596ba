# fastpotify

The UI model of a Spotify client, verified with Verus.

- `src/page.rs`: the screens (`Page`, `QueueTab`), the text they are stored
  under, and what a Spotify URI opens; decoding the stored text of a screen
  gives the screen back.
- `src/loadable.rs`: a value fetched in the background.
- `src/paged_list.rs`: offset- and cursor-paginated lists.
- `src/sparse_view.rs`, `src/sparse_list.rs`, `src/sparse_laws.rs`: the
  sparse list that holds 100-row pages by offset, its model, and what every
  operation keeps (the loaded count, the rows, the missing pages).
- `src/filters.rs`, `src/selection.rs`, `src/ui.rs`: filters, table sorts,
  selections and other plain UI values.
- `app/lib.rs`: the serde forms of the table sort, and in-place iteration.
