//! The rules a game is played by, as mathematical statements: what stands
//! where, what a move checks and changes, when a king is attacked, and what
//! every game keeps.

use vstd::prelude::*;

use crate::game::{MoveIllegal, MoveValid};
use crate::logic::{
    castle_path_spec, castle_shape, col_dist, item_path, on_diagonal, on_line, player_move, rook_path_spec, Item, MoveType,
    Player,
};
use crate::{BoardLayout, Capture, Position};

verus! {

/// A board as rows of squares.
pub type Grid = Seq<Seq<Option<Player>>>;

/// The square lies on the board.
pub open spec fn on_board(p: Position) -> bool {
    0 <= p.0 < 8 && 0 <= p.1 < 8
}

/// The board viewed as rows of squares.
pub open spec fn grid(b: BoardLayout) -> Grid {
    Seq::new(8, |i: int| b@[i]@)
}

/// What stands on a square.
pub open spec fn square(b: Grid, p: Position) -> Option<Player> {
    b[p.0 as int][p.1 as int]
}

/// The board with one square replaced.
pub open spec fn put(b: Grid, p: Position, v: Option<Player>) -> Grid {
    b.update(p.0 as int, b[p.0 as int].update(p.1 as int, v))
}

/// The board has eight rows of eight squares.
pub open spec fn well_shaped(b: Grid) -> bool {
    b.len() == 8 && forall|i: int| 0 <= i < 8 ==> #[trigger] b[i].len() == 8
}

/// A piece of the given side and kind.
pub open spec fn piece(white: bool, item: Item) -> Player {
    if white {
        Player::White(item)
    } else {
        Player::Black(item)
    }
}

/// The two pieces belong to the same side.
pub open spec fn same_side(a: Player, b: Player) -> bool {
    a.white() == b.white()
}

/// The square holds a king of the given side.
pub open spec fn is_king_of(x: Option<Player>, white: bool) -> bool {
    x matches Some(p) && p.item() is King && p.white() == white
}

/// The square holds a king.
pub open spec fn is_king(x: Option<Player>) -> bool {
    x matches Some(p) && p.item() is King
}

/// The square holds an en-passant marker.
pub open spec fn is_marker(x: Option<Player>) -> bool {
    x matches Some(p) && p.item() is EnPass
}

/// The home row of a side.
pub open spec fn home_row(white: bool) -> Seq<Option<Player>> {
    seq![
        Some(piece(white, Item::Rook(false))),
        Some(piece(white, Item::Knight)),
        Some(piece(white, Item::Bishop)),
        Some(piece(white, Item::Queen)),
        Some(piece(white, Item::King(false))),
        Some(piece(white, Item::Bishop)),
        Some(piece(white, Item::Knight)),
        Some(piece(white, Item::Rook(false))),
    ]
}

/// A row of eight pawns of a side.
pub open spec fn pawn_row(white: bool) -> Seq<Option<Player>> {
    Seq::new(8, |j: int| Some(piece(white, Item::Pawn)))
}

/// An empty row.
pub open spec fn empty_row() -> Seq<Option<Player>> {
    Seq::new(8, |j: int| None)
}

/// The starting position: White on rows 0 and 1, Black on rows 6 and 7.
pub open spec fn initial_grid() -> Grid {
    seq![
        home_row(true),
        pawn_row(true),
        empty_row(),
        empty_row(),
        empty_row(),
        empty_row(),
        pawn_row(false),
        home_row(false),
    ]
}

/// The starting position is symmetric: the square `r` rows from White's
/// side holds the piece of the same kind, of the other side, as the square `r`
/// rows from Black's; the four middle rows are empty; White fills rows 0 and 1,
/// with its king on column 4 and its pawns on row 1.
pub proof fn lemma_initial_position(p: Position)
    requires
        on_board(p),
    ensures
        square(initial_grid(), p) matches Some(x) ==> square(initial_grid(), ((7 - p.0) as i8, p.1)) matches Some(
            y,
        ) && x.item() == y.item() && x.white() != y.white(),
        square(initial_grid(), p) is None <==> 2 <= p.0 <= 5,
        square(initial_grid(), p) matches Some(x) ==> (x.white() <==> p.0 <= 1),
        p.0 == 1 || p.0 == 6 ==> (square(initial_grid(), p) matches Some(x) && x.item() == Item::Pawn),
        square(initial_grid(), p) matches Some(x) && x.item() is King ==> p.1 == 4 && (p.0 == 0 || p.0 == 7),
{
    assert(p.0 == 0 || p.0 == 1 || p.0 == 2 || p.0 == 3 || p.0 == 4 || p.0 == 5 || p.0 == 6 || p.0 == 7);
}

/// The index of a square when the board is read row by row.
pub open spec fn index_of(p: Position) -> int {
    8 * p.0 + p.1
}

/// The square with the given index when the board is read row by row.
pub open spec fn square_of(k: int) -> Position {
    ((k / 8) as i8, (k % 8) as i8)
}

/// What a game holds, as mathematical values. `active` is a pawn of the side
/// to move; `check` is the king of the side in check.
pub struct GameView {
    pub board: Grid,
    pub captured: Seq<Player>,
    pub active: Player,
    pub check: Option<Player>,
    pub id: u64,
}

/// Each side has exactly one king on the board.
pub open spec fn one_king_each(b: Grid) -> bool {
    &&& exists|s: Position| on_board(s) && #[trigger] is_king_of(square(b, s), true)
    &&& exists|s: Position| on_board(s) && #[trigger] is_king_of(square(b, s), false)
    &&& forall|s: Position, t: Position, w: bool|
        on_board(s) && on_board(t) && #[trigger] is_king_of(square(b, s), w) && #[trigger] is_king_of(square(b, t), w)
            ==> s == t
}

/// Every en-passant marker belongs to the side that has just moved, and the
/// square it names is on the board and holds a pawn of that side.
pub open spec fn markers_valid(b: Grid, active: Player) -> bool {
    forall|s: Position|
        on_board(s) && #[trigger] is_marker(square(b, s)) ==> {
            let m = square(b, s)->Some_0;
            let t = m.item()->EnPass_0;
            &&& m.white() != active.white()
            &&& on_board(t)
            &&& square(b, t) == Some(piece(m.white(), Item::Pawn))
        }
}

/// The state of a game that play keeps: a full board with one king per side,
/// en-passant markers that name a pawn, and the king of the side that has just
/// moved not in check.
pub open spec fn game_wf(g: GameView) -> bool {
    &&& well_shaped(g.board)
    &&& one_king_each(g.board)
    &&& markers_valid(g.board, g.active)
    &&& forall|s: Position| !#[trigger] attacks(g.board, s, opponent_king(g.board, g.active))
}

/// The row a side's pieces start on.
pub open spec fn home_rank(white: bool) -> i8 {
    if white {
        0
    } else {
        7
    }
}

/// The square of a side's king.
pub open spec fn king_square(b: Grid, white: bool) -> Position {
    choose|s: Position| on_board(s) && is_king_of(square(b, s), white)
}

/// The king of the side `active` stands for.
pub open spec fn own_king(b: Grid, active: Player) -> Position {
    king_square(b, active.white())
}

/// The king of the side other than the one `active` stands for.
pub open spec fn opponent_king(b: Grid, active: Player) -> Position {
    king_square(b, !active.white())
}

/// The side to move after `active`.
pub open spec fn flip(active: Player) -> Player {
    match active {
        Player::Black(i) => Player::White(i),
        Player::White(i) => Player::Black(i),
    }
}

/// The square holds a piece; an en-passant marker is no piece and stands in
/// nobody's way.
pub open spec fn occupied(x: Option<Player>) -> bool {
    x is Some && !is_marker(x)
}

/// The first square of `path`, from index `k` on, that holds a piece.
pub open spec fn first_occupied(b: Grid, path: Seq<Position>, k: int) -> Option<Position>
    decreases path.len() - k,
{
    if k < 0 || k >= path.len() {
        None
    } else if occupied(square(b, path[k])) {
        Some(path[k])
    } else {
        first_occupied(b, path, k + 1)
    }
}

/// The square that blocks a move along `path`: the first occupied square
/// before the last one (the destination).
pub open spec fn first_blocker(b: Grid, path: Seq<Position>) -> Option<Position> {
    if path.len() == 0 {
        None
    } else {
        first_occupied(b, path.drop_last(), 0)
    }
}

/// The piece on `s` gives check to the king on `king`: it belongs to the other
/// side, may move there as a regular capturing move, and nothing stands in
/// its way.
pub open spec fn attacks(b: Grid, s: Position, king: Position) -> bool {
    &&& on_board(s)
    &&& square(b, s) matches Some(p)
    &&& square(b, king) matches Some(k)
    &&& p.white() != k.white()
    &&& player_move(p, s, king, true) == Some(MoveType::Regular)
    &&& first_blocker(b, item_path(p.item(), s, king)) is None
}

/// The first square, row by row from index `k` on, whose piece checks the
/// king on `king`.
pub open spec fn first_attacker(b: Grid, king: Position, k: int) -> Option<Position>
    decreases 64 - k,
{
    if k < 0 || k >= 64 {
        None
    } else if attacks(b, square_of(k), king) {
        Some(square_of(k))
    } else {
        first_attacker(b, king, k + 1)
    }
}

/// The squares a move passes over, ending where the piece lands: those of the
/// piece's path, or, for a double step and for castling, every square along
/// the column or row up to the destination.
pub open spec fn move_path(p: Player, from: Position, to: Position, mt: MoveType) -> Seq<Position> {
    match mt {
        MoveType::Castle => rook_path_spec(from, to),
        MoveType::Double(_) => rook_path_spec(from, to),
        _ => item_path(p.item(), from, to),
    }
}

/// The board with the king on `from` moved to `s`, to test whether `s` is
/// attacked.
pub open spec fn king_moved_to(b: Grid, from: Position, s: Position, p: Player) -> Grid {
    put(put(b, from, None), s, Some(p))
}

/// Whether castling would take the king out of check or over an attacked
/// square: the first piece that attacks the king where it stands, with that
/// square, or else the first that would attack it on the square it passes
/// over (where the rook lands), with that square.
pub open spec fn castle_check(b: Grid, p: Player, from: Position, to: Position) -> Option<(Position, Position)> {
    let passed = castle_path_spec(p, from, to).1;
    match first_attacker(b, from, 0) {
        Some(c) => Some((c, from)),
        None => match first_attacker(king_moved_to(b, from, passed, p), passed, 0) {
            Some(c) => Some((c, passed)),
            None => None,
        },
    }
}

/// What a move is checked against before anything changes: the piece on
/// `from` must belong to the side to move and may make the move (capturing
/// when `to` holds a piece of the other side); `to` may not hold a piece of
/// its own side unless castling; castling starts on the side's home row and
/// ends on a rook of its side that has not moved; nothing may stand between
/// the squares; a king may not castle out of check or over an attacked square.
/// Gives the piece and the kind of move, or the refusal.
pub open spec fn move_plan(g: GameView, from: Position, to: Position) -> Result<(Player, MoveType), MoveIllegal> {
    match square(g.board, from) {
        None => Err(MoveIllegal::Invalid),
        Some(p) => if !same_side(p, g.active) {
            Err(MoveIllegal::Invalid)
        } else {
            let target = square(g.board, to);
            let capturing = target matches Some(q) && !same_side(q, p);
            match player_move(p, from, to, capturing) {
                None => Err(MoveIllegal::Invalid),
                Some(mt) => if target matches Some(q) && mt != MoveType::Castle && same_side(p, q) {
                    Err(MoveIllegal::Invalid)
                } else if mt == MoveType::Castle && !(from.0 == home_rank(p.white()) && target == Some(
                    piece(p.white(), Item::Rook(false)),
                )) {
                    Err(MoveIllegal::Invalid)
                } else {
                    match first_blocker(g.board, move_path(p, from, to, mt)) {
                        Some(s) => Err(MoveIllegal::Blocked(s)),
                        None => if mt == MoveType::Castle && castle_check(g.board, p, from, to) is Some {
                            let (c, k) = castle_check(g.board, p, from, to)->Some_0;
                            Err(MoveIllegal::Check(c, k))
                        } else {
                            Ok((p, mt))
                        },
                    }
                }
            }
        }
    }
}

/// The piece lands on `to` (except when castling). What stood there is
/// captured; when it is an en-passant marker and the piece is a pawn, the
/// pawn on the square the marker names is captured and removed (a marker
/// under any other piece is simply covered).
pub open spec fn capture_step(b: Grid, to: Position, p: Player, mt: MoveType) -> (Grid, Option<Capture>) {
    if mt is Castle {
        (b, None)
    } else {
        let b1 = put(b, to, Some(p));
        match square(b, to) {
            None => (b1, None),
            Some(q) => match q.item() {
                Item::EnPass(pos) => if p.item() is Pawn {
                    (put(b1, pos, None), Some((square(b1, pos).unwrap(), pos)))
                } else {
                    (b1, None)
                },
                _ => (b1, Some((q, to))),
            },
        }
    }
}

/// The rest of the move: castling puts king and rook on their castling squares;
/// a double step leaves an en-passant marker of the pawn's side naming `to`
/// on the square passed over; a promotion puts a queen on `to`; `from` is emptied.
pub open spec fn place_step(b: Grid, from: Position, to: Position, p: Player, mt: MoveType) -> Grid {
    match mt {
        MoveType::Castle => {
            let (kp, rp) = castle_path_spec(p, from, to);
            put(
                put(put(put(b, from, None), to, None), kp, Some(piece(p.white(), Item::King(true)))),
                rp,
                Some(piece(p.white(), Item::Rook(true))),
            )
        },
        MoveType::Double(pos) => put(put(b, pos, Some(piece(p.white(), Item::EnPass(to)))), from, None),
        MoveType::Upgrade => put(put(b, to, Some(piece(p.white(), Item::Queen))), from, None),
        MoveType::Regular => put(b, from, None),
    }
}

/// The square holds an en-passant marker of the side other than `active`'s.
pub open spec fn stale_marker(x: Option<Player>, active: Player) -> bool {
    x matches Some(q) && q.item() is EnPass && q.white() != active.white()
}

/// The board with the en-passant markers of the side other than `active`'s
/// removed, among the first `k` squares read row by row.
pub open spec fn clear_markers_upto(b: Grid, active: Player, k: int) -> Grid {
    Seq::new(
        8,
        |i: int|
            Seq::new(
                8,
                |j: int|
                    if 8 * i + j < k && stale_marker(b[i][j], active) {
                        None
                    } else {
                        b[i][j]
                    },
            ),
    )
}

/// The board with all en-passant markers of the side other than `active`'s removed.
pub open spec fn clear_markers(b: Grid, active: Player) -> Grid {
    clear_markers_upto(b, active, 64)
}

/// The board after a planned move, before the check test, and what it captured.
pub open spec fn committed(g: GameView, from: Position, to: Position, p: Player, mt: MoveType) -> (Grid, Option<Capture>) {
    let (b1, cap) = capture_step(g.board, to, p, mt);
    (clear_markers(place_step(b1, from, to, p, mt), g.active), cap)
}

/// The pieces taken so far, after a move that captured `cap`.
pub open spec fn record_capture(captured: Seq<Player>, cap: Option<Capture>) -> Seq<Player> {
    match cap {
        Some(c) => captured.push(c.0),
        None => captured,
    }
}

/// A move and what it gave: the game after it and the answer.
/// A planned move that leaves the mover's own king attacked is refused with
/// the attacker and that king's square. Otherwise the turn passes, and the
/// answer names the first piece that now checks the other king, if any.
/// A refused move leaves the game as it was.
pub open spec fn play_spec(g: GameView, from: Position, to: Position) -> (GameView, Result<MoveValid, MoveIllegal>) {
    match move_plan(g, from, to) {
        Err(e) => (g, Err(e)),
        Ok((p, mt)) => {
            let (nb, cap) = committed(g, from, to, p, mt);
            let me = king_square(nb, g.active.white());
            let them = king_square(nb, !g.active.white());
            match first_attacker(nb, me, 0) {
                Some(c) => (g, Err(MoveIllegal::Check(c, me))),
                None => {
                    let chk = first_attacker(nb, them, 0);
                    (
                        GameView {
                            board: nb,
                            captured: record_capture(g.captured, cap),
                            active: flip(g.active),
                            check: if chk is Some {
                                square(nb, them)
                            } else {
                                None
                            },
                            id: g.id,
                        },
                        Ok(
                            MoveValid {
                                item: p,
                                cap: cap,
                                check: match chk {
                                    Some(c) => Some((c, them)),
                                    None => None,
                                },
                                mt: mt,
                                mv: (from, to),
                            },
                        ),
                    )
                },
            }
        },
    }
}

/// The conditions under which play does its work: the game is well formed;
/// `from` is on the board; `to` is on the board once `from` holds a piece of
/// the side to move.
pub open spec fn play_allowed(g: GameView, from: Position, to: Position) -> bool {
    &&& game_wf(g)
    &&& on_board(from)
    &&& (square(g.board, from) matches Some(p) && same_side(p, g.active)) ==> on_board(to)
}


/// The king squares among the first `k` squares read row by row, in that order.
pub open spec fn kings_upto(b: Grid, k: int) -> Seq<Position>
    decreases k,
{
    if k <= 0 {
        Seq::empty()
    } else if is_king(square(b, square_of(k - 1))) {
        kings_upto(b, k - 1).push(square_of(k - 1))
    } else {
        kings_upto(b, k - 1)
    }
}

/// The king squares read row by row, from row `r` on stopping at the end of
/// the first row by which two have been found.
pub open spec fn kings_found(b: Grid, r: int) -> Seq<Position>
    decreases 8 - r,
{
    if r >= 8 || kings_upto(b, 8 * r).len() == 2 {
        kings_upto(b, 8 * r)
    } else {
        kings_found(b, r + 1)
    }
}

/// When no row before row `end` completes two kings and row `end` does (or is
/// the last), the scan from row `r` stops at row `end`.
pub(crate) proof fn lemma_kings_found_at(b: Grid, r: int, end: int)
    requires
        1 <= r <= end <= 8,
        forall|q: int| r <= q < end ==> #[trigger] kings_upto(b, 8 * q).len() != 2,
        end == 8 || kings_upto(b, 8 * end).len() == 2,
    ensures
        kings_found(b, r) == kings_upto(b, 8 * end),
    decreases end - r,
{
    if r < end {
        assert(kings_upto(b, 8 * r).len() != 2);
        lemma_kings_found_at(b, r + 1, end);
    }
}

/// Reading the board row by row visits every square once.
pub(crate) proof fn lemma_square_index(k: int)
    requires
        0 <= k < 64,
    ensures
        on_board(square_of(k)),
        index_of(square_of(k)) == k,
{
}

pub(crate) proof fn lemma_index_square(s: Position)
    requires
        on_board(s),
    ensures
        0 <= index_of(s) < 64,
        square_of(index_of(s)) == s,
{
}

/// Every square of a piece's path lies on the board when both ends do and,
/// for a bishop, the move is diagonal.
pub(crate) proof fn lemma_path_on_board(item: Item, from: Position, to: Position)
    requires
        on_board(from),
        on_board(to),
        item == Item::Bishop ==> on_diagonal(from, to),
    ensures
        forall|i: int| 0 <= i < item_path(item, from, to).len() ==> on_board(#[trigger] item_path(item, from, to)[i]),
{
    let path = item_path(item, from, to);
    assert forall|i: int| 0 <= i < path.len() implies on_board(#[trigger] path[i]) by {
        if on_line(from, to) || item == Item::Bishop || (item is Queen && on_diagonal(from, to)) {
        }
    }
}

/// What the kinds of moves look like: promotion is never recognised; only a
/// king that has not moved castles, from column 4 onto a corner of its row;
/// a bishop's accepted move is diagonal; and a double step is a pawn's from
/// its start row onto an empty square, naming the square passed over.
pub proof fn lemma_player_move_shape(p: Player, from: Position, to: Position, capturing: bool)
    ensures
        p.item() == Item::Bishop && player_move(p, from, to, capturing) is Some ==> on_diagonal(from, to),
        !(player_move(p, from, to, capturing) matches Some(MoveType::Upgrade)),
        player_move(p, from, to, capturing) matches Some(MoveType::Castle) ==> {
            &&& p.item() == Item::King(false)
            &&& castle_shape(p.item(), from, to)
        },
        player_move(p, from, to, capturing) matches Some(MoveType::Double(pos)) ==> {
            &&& p.item() == Item::Pawn
            &&& !capturing
            &&& from.1 == to.1
            &&& pos.1 == from.1
            &&& if p.white() {
                from.0 == 1 && to.0 == 3 && pos.0 == 2
            } else {
                from.0 == 6 && to.0 == 4 && pos.0 == 5
            }
        },
{
}

/// No square of `path` from index `k` on holds a piece when none is found
/// (an en-passant marker may stand there).
pub(crate) proof fn lemma_first_occupied_none(b: Grid, path: Seq<Position>, k: int)
    requires
        0 <= k,
        first_occupied(b, path, k) is None,
    ensures
        forall|i: int| k <= i < path.len() ==> !occupied(square(b, #[trigger] path[i])),
    decreases path.len() - k,
{
    if k < path.len() {
        lemma_first_occupied_none(b, path, k + 1);
    }
}

/// The square of the pawn an en-passant capture takes: the square named by
/// the marker on `to`, when a pawn lands on it.
pub open spec fn en_passant_square(b: Grid, to: Position, p: Player, mt: MoveType) -> Option<Position> {
    if mt != MoveType::Castle && is_marker(square(b, to)) && p.item() is Pawn {
        Some(square(b, to)->Some_0.item()->EnPass_0)
    } else {
        None
    }
}

/// What a move that passes its checks starts from: the piece and the two
/// squares differ; it takes no king; a double step passes over a square that
/// holds no piece and lands on an empty one; castling moves an unmoved king,
/// not in check, from its home square to an unmoved rook of its side, with no
/// piece on the king's and rook's new squares and the square the king passes
/// over not attacked; an en-passant capture takes a pawn of the other side.
pub(crate) proof fn lemma_plan_facts(g: GameView, from: Position, to: Position, p: Player, mt: MoveType)
    requires
        play_allowed(g, from, to),
        move_plan(g, from, to) == Ok::<(Player, MoveType), MoveIllegal>((p, mt)),
    ensures
        on_board(to),
        from != to,
        square(g.board, from) == Some(p),
        same_side(p, g.active),
        !is_marker(Some(p)),
        mt != MoveType::Upgrade,
        mt != MoveType::Castle ==> !is_king(square(g.board, to)),
        mt matches MoveType::Double(pos) ==> {
            &&& p.item() == Item::Pawn
            &&& on_board(pos)
            &&& pos != from
            &&& pos != to
            &&& !occupied(square(g.board, pos))
            &&& square(g.board, to) is None
        },
        mt == MoveType::Castle ==> {
            let (kp, rp) = castle_path_spec(p, from, to);
            &&& p.item() == Item::King(false)
            &&& square(g.board, to) == Some(piece(p.white(), Item::Rook(false)))
            &&& on_board(kp) && on_board(rp)
            &&& kp != from && kp != to && rp != from && rp != to && kp != rp
            &&& !occupied(square(g.board, kp))
            &&& !occupied(square(g.board, rp))
            &&& castle_check(g.board, p, from, to) is None
        },
        en_passant_square(g.board, to, p, mt) matches Some(e) ==> {
            &&& on_board(e)
            &&& e != to
            &&& e != from
            &&& square(g.board, e) == Some(piece(!g.active.white(), Item::Pawn))
        },
{
    let b = g.board;
    let target = square(b, to);
    let capturing = target matches Some(q) && !same_side(q, p);
    lemma_player_move_shape(p, from, to, capturing);
    let path = move_path(p, from, to, mt);
    assert(first_blocker(b, path) is None);
    if path.len() > 0 {
        lemma_first_occupied_none(b, path.drop_last(), 0);
    }
    if is_marker(Some(p)) {
        assert(is_marker(square(b, from)));
    }
    if mt != MoveType::Castle && is_king(target) {
        // a king of the other side would be attacked by the mover
        let q = target->Some_0;
        assert(!same_side(q, p));
        assert(mt == MoveType::Regular);
        assert(attacks(b, from, to));
        assert(is_king_of(target, !g.active.white()));
        let k = opponent_king(b, g.active);
        assert(on_board(k) && is_king_of(square(b, k), !g.active.white()));
        assert(to == k);
        assert(!attacks(b, from, k));
    }
    if let MoveType::Double(pos) = mt {
        assert(path.drop_last()[0] == path[0]);
        assert(path[0] == pos);
    }
    if mt == MoveType::Castle {
        assert(castle_shape(p.item(), from, to));
        assert(path.len() == col_dist(from, to));
        assert(path.drop_last()[0] == path[0]);
        assert(path.drop_last()[1] == path[1]);
        assert(path[0] == castle_path_spec(p, from, to).1);
        assert(path[1] == castle_path_spec(p, from, to).0);
    }
    if let Some(e) = en_passant_square(b, to, p, mt) {
        assert(is_marker(square(b, to)));
    }
}

/// Swapping back undoes a swap: putting `v` on a square and then putting
/// back what the square held gives the board it started from, and the second
/// swap hands back `v` (what `Game::swap_pos` returns is what stood there).
pub proof fn lemma_swap_round_trip(b: Grid, at: Position, v: Option<Player>)
    requires
        well_shaped(b),
        on_board(at),
    ensures
        put(put(b, at, v), at, square(b, at)) == b,
        square(put(b, at, v), at) == v,
{
    assert(put(put(b, at, v), at, square(b, at)) =~~= b);
}

/// The check scan finds the first attacker reading the board row by row: the
/// square it names, from index `k` on, attacks the king and no square between
/// index `k` and it does; when it names none, no square from index `k` on
/// attacks the king.
pub proof fn lemma_first_attacker(b: Grid, king: Position, k: int)
    requires
        0 <= k <= 64,
    ensures
        first_attacker(b, king, k) matches Some(c) ==> attacks(b, c, king) && on_board(c) && k <= index_of(c)
            && forall|s: Position| k <= index_of(s) < index_of(c) && on_board(s) ==> !#[trigger] attacks(b, s, king),
        first_attacker(b, king, k) is None ==> forall|s: Position|
            index_of(s) >= k ==> !#[trigger] attacks(b, s, king),
        k == 0 && first_attacker(b, king, k) is None ==> forall|s: Position| !#[trigger] attacks(b, s, king),
    decreases 64 - k,
{
    if k < 64 {
        lemma_first_attacker(b, king, k + 1);
        lemma_square_index(k);
        assert forall|s: Position| index_of(s) >= k && first_attacker(b, king, k) is None implies !#[trigger] attacks(
            b,
            s,
            king,
        ) by {
            if on_board(s) && index_of(s) == k {
                lemma_index_square(s);
            }
        }
        if let Some(c) = first_attacker(b, king, k) {
            assert forall|s: Position| k <= index_of(s) < index_of(c) && on_board(s) implies !#[trigger] attacks(
                b,
                s,
                king,
            ) by {
                if index_of(s) == k {
                    lemma_index_square(s);
                }
            }
        }
    } else {
        assert forall|s: Position| index_of(s) >= k implies !#[trigger] attacks(b, s, king) by {
            if on_board(s) {
                lemma_index_square(s);
            }
        }
    }
}

/// What stands on square `s` after a planned move, before the check test.
/// Castling empties the king's and the rook's squares and puts them, marked
/// as moved, on their castling squares. Any other move empties `from`, puts
/// the piece on `to`, leaves a marker of the pawn's side on the square a
/// double step passes over, and empties the square of a pawn taken en
/// passant. Every other square keeps what it held, except the en-passant
/// markers of the side that did not move, which are removed.
pub open spec fn square_after(g: GameView, from: Position, to: Position, p: Player, mt: MoveType, s: Position) -> Option<Player> {
    let b = g.board;
    let rest = if stale_marker(square(b, s), g.active) {
        None
    } else {
        square(b, s)
    };
    if mt == MoveType::Castle {
        let (kp, rp) = castle_path_spec(p, from, to);
        if s == rp {
            Some(piece(p.white(), Item::Rook(true)))
        } else if s == kp {
            Some(piece(p.white(), Item::King(true)))
        } else if s == from || s == to {
            None
        } else {
            rest
        }
    } else if s == from {
        None
    } else if mt matches MoveType::Double(pos) && s == pos {
        Some(piece(p.white(), Item::EnPass(to)))
    } else if s == to {
        Some(p)
    } else if en_passant_square(b, to, p, mt) == Some(s) {
        None
    } else {
        rest
    }
}

/// The board a planned move leaves is full and holds, square by square,
/// what `square_after` says.
pub(crate) proof fn lemma_square_after(g: GameView, from: Position, to: Position, p: Player, mt: MoveType)
    requires
        play_allowed(g, from, to),
        move_plan(g, from, to) == Ok::<(Player, MoveType), MoveIllegal>((p, mt)),
    ensures
        well_shaped(committed(g, from, to, p, mt).0),
        forall|s: Position|
            on_board(s) ==> #[trigger] square(committed(g, from, to, p, mt).0, s) == square_after(g, from, to, p, mt, s),
{
    lemma_plan_facts(g, from, to, p, mt);
    let b = g.board;
    let (b1, cap) = capture_step(b, to, p, mt);
    let b2 = place_step(b1, from, to, p, mt);
    let nb = clear_markers(b2, g.active);
    let e = en_passant_square(b, to, p, mt);
    assert(well_shaped(b1));
    assert forall|s: Position| on_board(s) implies #[trigger] square(b1, s) == (if mt == MoveType::Castle {
        square(b, s)
    } else if s == to {
        Some(p)
    } else if e == Some(s) {
        None
    } else {
        square(b, s)
    }) by {
        if e is Some {
            assert(is_marker(square(b, to)));
        }
    }
    assert(well_shaped(b2));
    assert forall|s: Position| on_board(s) implies #[trigger] square(b2, s) == (if mt == MoveType::Castle {
        let (kp, rp) = castle_path_spec(p, from, to);
        if s == rp {
            Some(piece(p.white(), Item::Rook(true)))
        } else if s == kp {
            Some(piece(p.white(), Item::King(true)))
        } else if s == from || s == to {
            None
        } else {
            square(b, s)
        }
    } else if s == from {
        None
    } else if mt matches MoveType::Double(pos) && s == pos {
        Some(piece(p.white(), Item::EnPass(to)))
    } else {
        square(b1, s)
    }) by {}
    assert(well_shaped(nb));
    assert forall|s: Position| on_board(s) implies #[trigger] square(nb, s) == square_after(g, from, to, p, mt, s) by {
        assert(square(nb, s) == (if stale_marker(square(b2, s), g.active) {
            None
        } else {
            square(b2, s)
        }));
    }
}

/// A move that passes its checks leaves a full board with one king per side,
/// whose en-passant markers all belong to the side that moved.
pub(crate) proof fn lemma_committed_wf(g: GameView, from: Position, to: Position, p: Player, mt: MoveType)
    requires
        play_allowed(g, from, to),
        move_plan(g, from, to) == Ok::<(Player, MoveType), MoveIllegal>((p, mt)),
    ensures
        well_shaped(committed(g, from, to, p, mt).0),
        one_king_each(committed(g, from, to, p, mt).0),
        markers_valid(committed(g, from, to, p, mt).0, flip(g.active)),
        forall|s: Position|
            on_board(s) ==> #[trigger] square(committed(g, from, to, p, mt).0, s) == square_after(g, from, to, p, mt, s),
{
    lemma_plan_facts(g, from, to, p, mt);
    lemma_square_after(g, from, to, p, mt);
    let b = g.board;
    let nb = committed(g, from, to, p, mt).0;
    let e = en_passant_square(b, to, p, mt);
    let (kp, rp) = castle_path_spec(p, from, to);
    // the kings after the move: the moved piece, or a king that did not move
    assert forall|s: Position, w: bool| on_board(s) && #[trigger] is_king_of(square(nb, s), w) implies (
    if mt == MoveType::Castle {
        (s == kp && p.white() == w) || (s != from && s != to && s != rp && s != kp && is_king_of(square(b, s), w))
    } else {
        (s == to && is_king_of(Some(p), w)) || (s != from && s != to && e != Some(s) && is_king_of(square(b, s), w))
    }) by {
        assert(square(nb, s) == square_after(g, from, to, p, mt, s));
    }
    let wk = choose|s: Position| on_board(s) && #[trigger] is_king_of(square(b, s), true);
    let bk = choose|s: Position| on_board(s) && #[trigger] is_king_of(square(b, s), false);
    assert(square(nb, wk) == square_after(g, from, to, p, mt, wk));
    assert(square(nb, bk) == square_after(g, from, to, p, mt, bk));
    if mt == MoveType::Castle {
        assert(square(nb, kp) == square_after(g, from, to, p, mt, kp));
        assert(is_king_of(square(nb, kp), p.white()));
        if p.white() {
            assert(is_king_of(square(nb, bk), false));
        } else {
            assert(is_king_of(square(nb, wk), true));
        }
    } else {
        assert(square(nb, to) == square_after(g, from, to, p, mt, to));
        if wk == from {
            assert(is_king_of(square(nb, to), true));
        } else {
            assert(is_king_of(square(nb, wk), true));
        }
        if bk == from {
            assert(is_king_of(square(nb, to), false));
        } else {
            assert(is_king_of(square(nb, bk), false));
        }
    }
    assert forall|s: Position, t: Position, w: bool|
        on_board(s) && on_board(t) && #[trigger] is_king_of(square(nb, s), w) && #[trigger] is_king_of(square(nb, t), w)
            implies s == t by {
        if mt == MoveType::Castle {
            if s == kp && t != kp {
                assert(is_king_of(square(b, from), w));
                assert(is_king_of(square(b, t), w));
            } else if t == kp && s != kp {
                assert(is_king_of(square(b, from), w));
                assert(is_king_of(square(b, s), w));
            }
        } else {
            if s == to && t != to {
                assert(is_king_of(square(b, from), w));
                assert(is_king_of(square(b, t), w));
            } else if t == to && s != to {
                assert(is_king_of(square(b, from), w));
                assert(is_king_of(square(b, s), w));
            }
        }
    }
    // the only marker left is the one a double step just made
    assert forall|s: Position| on_board(s) && #[trigger] is_marker(square(nb, s)) implies {
        let m = square(nb, s)->Some_0;
        let t = m.item()->EnPass_0;
        &&& m.white() != flip(g.active).white()
        &&& on_board(t)
        &&& square(nb, t) == Some(piece(m.white(), Item::Pawn))
    } by {
        assert(square(nb, s) == square_after(g, from, to, p, mt, s));
        if is_marker(square(b, s)) {
            assert(stale_marker(square(b, s), g.active));
        }
        assert(square(nb, to) == square_after(g, from, to, p, mt, to));
    }
}

/// The move is refused as invalid before anything else is looked at: `from`
/// is empty or holds a piece of the side not to move, the piece may not make
/// the move, or `to` holds a piece of its own side and the move is no castling.
pub open spec fn refused_as_invalid(g: GameView, from: Position, to: Position) -> bool {
    match square(g.board, from) {
        None => true,
        Some(p) => {
            let target = square(g.board, to);
            let capturing = target matches Some(q) && !same_side(q, p);
            ||| !same_side(p, g.active)
            ||| player_move(p, from, to, capturing) is None
            ||| (target matches Some(q) && same_side(q, p) && player_move(p, from, to, capturing) != Some(
                MoveType::Castle,
            ))
        }
    }
}

/// `s` is a square the piece on `from` passes over on its way to `to`: on
/// the path of the move it may make there, before the destination.
pub open spec fn on_the_way(g: GameView, from: Position, to: Position, s: Position) -> bool {
    exists|i: int| 0 <= i < planned_path(g, from, to).len() - 1 && #[trigger] planned_path(g, from, to)[i] == s
}

/// The path of the move the piece on `from` may make to `to`.
pub open spec fn planned_path(g: GameView, from: Position, to: Position) -> Seq<Position> {
    let p = square(g.board, from)->Some_0;
    let capturing = square(g.board, to) matches Some(q) && !same_side(q, p);
    move_path(p, from, to, player_move(p, from, to, capturing)->Some_0)
}

/// A square found by `first_occupied` holds a piece and lies on the path at
/// or after index `k`.
pub(crate) proof fn lemma_first_occupied_some(b: Grid, path: Seq<Position>, k: int)
    requires
        0 <= k,
        first_occupied(b, path, k) is Some,
    ensures
        occupied(square(b, first_occupied(b, path, k)->Some_0)),
        exists|i: int| k <= i < path.len() && #[trigger] path[i] == first_occupied(b, path, k)->Some_0,
    decreases path.len() - k,
{
    if k < path.len() && !occupied(square(b, path[k])) {
        lemma_first_occupied_some(b, path, k + 1);
        let i = choose|i: int| k + 1 <= i < path.len() && #[trigger] path[i] == first_occupied(b, path, k)->Some_0;
        assert(path[i] == first_occupied(b, path, k)->Some_0);
    } else {
        assert(path[k] == first_occupied(b, path, k)->Some_0);
    }
}

/// What every move does, as play carries it out: a refused move changes
/// nothing; a move is refused as invalid when it starts from an empty square
/// or a piece of the side not to move, the piece may not move so, or it lands
/// on its own side without castling; a blocked move names an occupied square
/// on the way. An accepted move passes the turn and changes the board exactly
/// as `square_after` says: the piece lands on `to` (castling puts king and
/// rook on their castling squares instead), what stood on `to` is captured
/// (through an en-passant marker, the pawn it names, which leaves the board),
/// and the captured piece is recorded. Castling happens only with the king
/// out of check and the square it passes over not attacked. The mover's king
/// is never left in check, and the answer tells exactly whether the other
/// king is.
pub proof fn lemma_play_laws(g: GameView, from: Position, to: Position)
    requires
        play_allowed(g, from, to),
    ensures
        game_wf(play_spec(g, from, to).0),
        // a refused move changes nothing
        play_spec(g, from, to).1 is Err ==> play_spec(g, from, to).0 == g,
        // when a move is refused as invalid
        refused_as_invalid(g, from, to) ==> play_spec(g, from, to).1 == Err::<MoveValid, MoveIllegal>(
            MoveIllegal::Invalid,
        ),
        // a blocked move names an occupied square on the way
        play_spec(g, from, to).1 matches Err(MoveIllegal::Blocked(s)) ==> occupied(square(g.board, s))
            && on_the_way(g, from, to, s),
        // the turn passes
        play_spec(g, from, to).1 matches Ok(mv) ==> play_spec(g, from, to).0.active == flip(g.active),
        // the piece on `from` moved to `to`
        play_spec(g, from, to).1 matches Ok(mv) ==> mv.item == square(g.board, from)->Some_0 && mv.mv == (from, to),
        // what every square holds afterwards
        play_spec(g, from, to).1 matches Ok(mv) ==> forall|s: Position|
            on_board(s) ==> #[trigger] square(play_spec(g, from, to).0.board, s) == square_after(
                g,
                from,
                to,
                mv.item,
                mv.mt,
                s,
            ),
        play_spec(g, from, to).1 matches Ok(mv) ==> (mv.mt != MoveType::Castle ==> square(
            play_spec(g, from, to).0.board,
            to,
        ) == Some(mv.item) && square(play_spec(g, from, to).0.board, from) is None),
        // castling: an unmoved king onto an unmoved rook of its side; both land,
        // marked as moved, on their castling squares
        play_spec(g, from, to).1 matches Ok(mv) ==> mv.mt == MoveType::Castle ==> {
            &&& mv.item.item() == Item::King(false)
            &&& square(g.board, to) == Some(piece(mv.item.white(), Item::Rook(false)))
            &&& square(play_spec(g, from, to).0.board, castle_path_spec(mv.item, from, to).0) == Some(
                piece(mv.item.white(), Item::King(true)),
            )
            &&& square(play_spec(g, from, to).0.board, castle_path_spec(mv.item, from, to).1) == Some(
                piece(mv.item.white(), Item::Rook(true)),
            )
            &&& square(play_spec(g, from, to).0.board, from) is None
            &&& square(play_spec(g, from, to).0.board, to) is None
            &&& mv.cap is None
            // the king was not in check, and the square it passed over was not attacked
            &&& forall|s: Position| !#[trigger] attacks(g.board, s, from)
            &&& forall|s: Position|
                !#[trigger] attacks(
                    king_moved_to(g.board, from, castle_path_spec(mv.item, from, to).1, mv.item),
                    s,
                    castle_path_spec(mv.item, from, to).1,
                )
        },
        // what is captured
        play_spec(g, from, to).1 matches Ok(mv) ==> (square(g.board, to) is None ==> mv.cap is None
            && play_spec(g, from, to).0.captured == g.captured),
        play_spec(g, from, to).1 matches Ok(mv) ==> (square(g.board, to) matches Some(q) ==> (!is_marker(
            Some(q),
        ) && mv.mt != MoveType::Castle ==> mv.cap == Some((q, to)) && play_spec(g, from, to).0.captured
            == g.captured.push(q))),
        play_spec(g, from, to).1 matches Ok(mv) ==> en_passant_square(g.board, to, mv.item, mv.mt) matches Some(e) ==> {
            &&& mv.cap == Some((piece(!g.active.white(), Item::Pawn), e))
            &&& square(play_spec(g, from, to).0.board, e) is None
        },
        play_spec(g, from, to).1 matches Ok(mv) ==> play_spec(g, from, to).0.captured == record_capture(
            g.captured,
            mv.cap,
        ),
        // the mover's king is not left in check
        play_spec(g, from, to).1 is Ok ==> forall|s: Position|
            !#[trigger] attacks(play_spec(g, from, to).0.board, s, own_king(play_spec(g, from, to).0.board, g.active)),
        // the check reported is exactly whether the other king is attacked
        play_spec(g, from, to).1 matches Ok(mv) ==> (mv.check is Some <==> exists|s: Position|
            #[trigger] attacks(play_spec(g, from, to).0.board, s, opponent_king(play_spec(g, from, to).0.board, g.active))),
        play_spec(g, from, to).1 matches Ok(mv) ==> (play_spec(g, from, to).0.check is Some <==> mv.check is Some),
        // the king named in check is the other side's, on the square the answer names
        play_spec(g, from, to).1 matches Ok(mv) ==> (play_spec(g, from, to).0.check matches Some(k) ==> {
            &&& k.item() is King
            &&& k.white() != g.active.white()
            &&& mv.check matches Some(c) && square(play_spec(g, from, to).0.board, c.1) == Some(k)
        }),
        play_spec(g, from, to).1 matches Ok(mv) ==> (mv.check matches Some(c) ==> c.1 == opponent_king(
            play_spec(g, from, to).0.board,
            g.active,
        ) && attacks(play_spec(g, from, to).0.board, c.0, c.1)),
{
    match move_plan(g, from, to) {
        Err(e) => {
            if let MoveIllegal::Blocked(s) = e {
                let p = square(g.board, from)->Some_0;
                let capturing = square(g.board, to) matches Some(q) && !same_side(q, p);
                let path = move_path(p, from, to, player_move(p, from, to, capturing)->Some_0);
                assert(first_blocker(g.board, path) == Some(s));
                assert(path.len() > 0);
                lemma_first_occupied_some(g.board, path.drop_last(), 0);
                let i = choose|i: int| 0 <= i < path.drop_last().len() && #[trigger] path.drop_last()[i] == s;
                assert(path[i] == s);
                assert(planned_path(g, from, to)[i] == s);
            }
        },
        Ok((p, mt)) => {
            lemma_plan_facts(g, from, to, p, mt);
            lemma_committed_wf(g, from, to, p, mt);
            let (nb, cap) = committed(g, from, to, p, mt);
            let me = king_square(nb, g.active.white());
            let them = king_square(nb, !g.active.white());
            lemma_first_attacker(nb, me, 0);
            lemma_first_attacker(nb, them, 0);
            // the other side's king is where `them` names
            if g.active.white() {
                assert(is_king_of(square(nb, them), false));
            } else {
                assert(is_king_of(square(nb, them), true));
            }
            if let Some(c) = first_attacker(nb, them, 0) {
                assert(attacks(nb, c, opponent_king(nb, g.active)));
            }
            let (kp, rp) = castle_path_spec(p, from, to);
            assert(square(nb, to) == square_after(g, from, to, p, mt, to));
            assert(square(nb, from) == square_after(g, from, to, p, mt, from));
            if mt == MoveType::Castle {
                lemma_first_attacker(g.board, from, 0);
                lemma_first_attacker(king_moved_to(g.board, from, rp, p), rp, 0);
                assert(square(nb, kp) == square_after(g, from, to, p, mt, kp));
                assert(square(nb, rp) == square_after(g, from, to, p, mt, rp));
            }
            if let Some(e) = en_passant_square(g.board, to, p, mt) {
                assert(square(nb, e) == square_after(g, from, to, p, mt, e));
                assert(square(put(g.board, to, Some(p)), e) == square(g.board, e));
            }
        },
    }
}

/// Turns alternate: after an accepted move, the side that moved may not move
/// again; such a move is refused as invalid and changes nothing.
pub proof fn lemma_turns_alternate(g: GameView, from: Position, to: Position, from2: Position, to2: Position)
    requires
        play_allowed(g, from, to),
        play_spec(g, from, to).1 is Ok,
        square(play_spec(g, from, to).0.board, from2) matches Some(p) && p.white() == g.active.white(),
    ensures
        play_spec(play_spec(g, from, to).0, from2, to2) == (
        play_spec(g, from, to).0,
        Err::<MoveValid, MoveIllegal>(MoveIllegal::Invalid),
        ),
{
    lemma_play_laws(g, from, to);
}

} // verus!
