# chess

The game of chess as a verified library, with a small networked console
client around it.

## Layout

- `src/logic.rs`: how each piece moves (`Player::play_isvalid`) and which
  squares it passes over (`Player::play_path`, `Player::castle_path`), each
  stated as a specification function, with the laws that a path ends on its
  destination and that Black pawns move as White ones mirrored.
- `src/rules.rs`: the rules of a game as mathematical statements: what a move
  checks (`move_plan`), what it changes (`committed`), when a king is attacked
  (`attacks`, `first_attacker`), what a move answers (`play_spec`), what every
  square holds after a move (`square_after`), what every game keeps
  (`game_wf`), and the proofs of the laws of play (`lemma_play_laws`,
  `lemma_turns_alternate`, `lemma_swap_round_trip`).
- `src/game.rs`: the board (`Game`): starting position, moves in coordinates
  and in algebraic notation, check detection, turns.
- `src/network.rs`: the messages of network play (`Comm`) and the server's
  registry of games (`Games`), with `Games::handle` deciding what the server
  does with each message.
- `src/render.rs`: the commands sent to the display.
- `app/`: the program: a loopback server, a client that reads moves from the
  console, and a display that prints what moved.

## Rules in brief

Rows run from 0 (White's home row) to 7, columns from 0 to 7. A move is
refused when the square holds no piece of the side to move, when the piece may
not move there, when it would land on its own side, when a piece stands on a
square it passes over, or when it would leave its own king attacked; a refused
move changes nothing.

Pawns step one row straight forward onto an empty square, two from their
start row when both squares are empty (leaving an en-passant marker of their
side for one turn), and take one row forward diagonally; a pawn that lands on
a marker takes the pawn that passed, which leaves the board. Kings step one
square in any direction; queens move along rows, columns and diagonals. An
unmoved king castles by moving from its square onto the corner of its home row
where an unmoved rook of its side stands, with the squares between empty: the
king lands two columns towards the rook and the rook next to it on the other
side. A king may not castle while in check or over a square an enemy piece
attacks. En-passant markers stand in nobody's way: pieces pass over them and
attack through them. Promotion is not recognised.
