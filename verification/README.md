# black_jack_rust

A web game of Blackjack. Jack, Queen and King count 10 points; an Ace always
counts 1.

- `src/` is the verified library: cards and their stored names (`card`), the
  52-card deck (`deck`), and the table with the round's rules (`game`):
  opening a round, the player's draws, the dealer's turn (he draws until he
  has 17 or more) and the settlement of the stake.
- `app/` is the web server: HTTP handlers, the SQLite store and the page
  template. It reads the stored state, lets the library decide, and stores
  and shows the result. Cards are picked at random by SQLite.
- `tests/` exercises the library on concrete rounds.
