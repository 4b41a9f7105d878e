use vstd::prelude::*;

use crate::Position;
use vstd::std_specs::cmp::PartialEqSpecImpl;

verus! {

/// The kinds of pieces. `King` and `Rook` carry whether they have moved;
/// `EnPass` is the marker a pawn leaves behind after a double step, holding
/// the square of that pawn.
#[derive(Debug, Clone, Copy, Eq)]
pub enum Item {
    Pawn,
    King(bool),
    Queen,
    Rook(bool),
    Knight,
    Bishop,
    EnPass(Position),
}

/// A piece together with the side it belongs to.
#[derive(Debug, Clone, Copy, Eq)]
pub enum Player {
    Black(Item),
    White(Item),
}

/// The kinds of moves that the board has to carry out differently.
#[derive(Debug, Clone, Copy, Eq)]
pub enum MoveType {
    Regular,
    /// rook or king castling
    Castle,
    /// a pawn's double step, holding the square of its en-passant marker
    Double(Position),
    /// a pawn's promotion
    Upgrade,
}

impl Player {
    /// Whether the piece is White's.
    pub open spec fn white(self) -> bool {
        self is White
    }

    /// The kind of the piece.
    pub open spec fn item(self) -> Item {
        match self {
            Player::Black(i) => i,
            Player::White(i) => i,
        }
    }
}


/// The distance between two coordinates.
pub open spec fn dist(a: i8, b: i8) -> int {
    if a <= b { b - a } else { a - b }
}

/// The number of rows between two squares.
pub open spec fn row_dist(from: Position, to: Position) -> int {
    dist(from.0, to.0)
}

/// The number of columns between two squares.
pub open spec fn col_dist(from: Position, to: Position) -> int {
    dist(from.1, to.1)
}

/// The two squares share a row or a column.
pub open spec fn on_line(from: Position, to: Position) -> bool {
    from.0 == to.0 || from.1 == to.1
}

/// The two squares lie on one diagonal (a square lies on its own).
pub open spec fn on_diagonal(from: Position, to: Position) -> bool {
    row_dist(from, to) == col_dist(from, to)
}

/// The two squares are a knight's jump apart.
pub open spec fn knight_jump(from: Position, to: Position) -> bool {
    ||| row_dist(from, to) == 2 && col_dist(from, to) == 1
    ||| row_dist(from, to) == 1 && col_dist(from, to) == 2
}

/// The shape of a castling move on a home row (row 0 or 7): a rook from its
/// corner onto the king's square (column 4), or a king from column 4 onto its
/// rook's corner. Other pieces never castle.
pub open spec fn castle_shape(item: Item, from: Position, to: Position) -> bool {
    &&& (to.0 == 0 || to.0 == 7)
    &&& from.0 == to.0
    &&& match item {
        Item::Rook(_) => to.1 == 4 && (from.1 == 0 || from.1 == 7),
        Item::King(_) => from.1 == 4 && (to.1 == 0 || to.1 == 7),
        _ => false,
    }
}

/// A rook's move: along a row or a column. A rook's castling shape lies on
/// its row, so it is a move along the row.
pub open spec fn rook_move(from: Position, to: Position) -> Option<MoveType> {
    if on_line(from, to) {
        Some(MoveType::Regular)
    } else {
        None
    }
}

/// A king's move: one square in any direction; or, for a king that has not
/// moved, castling from column 4 onto a corner of its row.
pub open spec fn king_move(from: Position, to: Position, hasmoved: bool) -> Option<MoveType> {
    if row_dist(from, to) < 2 && col_dist(from, to) < 2 {
        Some(MoveType::Regular)
    } else if castle_shape(Item::King(hasmoved), from, to) && !hasmoved {
        Some(MoveType::Castle)
    } else {
        None
    }
}

/// How many rows a pawn advances: upwards for White, downwards for Black
/// (`inverted`).
pub open spec fn pawn_advance(from: Position, to: Position, inverted: bool) -> int {
    if inverted { from.0 - to.0 } else { to.0 - from.0 }
}

/// A pawn's move: one row forward diagonally when capturing; when not
/// capturing, two rows straight from its start row (row 1 for White, row 6
/// for Black), which leaves an en-passant marker on the square passed over,
/// or one row straight.
pub open spec fn pawn_move(from: Position, to: Position, inverted: bool, capturing: bool) -> Option<MoveType> {
    let fwd = pawn_advance(from, to, inverted);
    let c = col_dist(from, to);
    if fwd == 1 && c == 1 {
        if capturing { Some(MoveType::Regular) } else { None }
    } else if fwd == 2 && c == 0 && from.0 == (if inverted { 6i8 } else { 1i8 }) && !capturing {
        if inverted {
            Some(MoveType::Double(((from.0 - 1) as i8, from.1)))
        } else {
            Some(MoveType::Double(((to.0 - 1) as i8, from.1)))
        }
    } else if fwd == 1 && c == 0 && !capturing {
        Some(MoveType::Regular)
    } else {
        None
    }
}

/// The moves of a queen, knight and bishop. A queen moves along a line or a
/// diagonal (a king's step is one of those). Pawns, kings, rooks and
/// en-passant markers have no move here.
pub open spec fn item_move(item: Item, from: Position, to: Position) -> Option<MoveType> {
    if from == to {
        None
    } else {
        match item {
            Item::Queen => if on_line(from, to) || on_diagonal(from, to) {
                Some(MoveType::Regular)
            } else {
                None
            },
            Item::Knight => if knight_jump(from, to) { Some(MoveType::Regular) } else { None },
            Item::Bishop => if on_diagonal(from, to) { Some(MoveType::Regular) } else { None },
            _ => None,
        }
    }
}

/// The move that a piece may make from `from` to `to`, if any.
pub open spec fn player_move(p: Player, from: Position, to: Position, capturing: bool) -> Option<MoveType> {
    match p.item() {
        Item::Pawn => pawn_move(from, to, !p.white(), capturing),
        Item::King(hasmoved) => king_move(from, to, hasmoved),
        Item::Rook(_) => rook_move(from, to),
        i => item_move(i, from, to),
    }
}

/// `a` moved `k` steps up (`forward`) or down.
pub open spec fn step(a: i8, forward: bool, k: int) -> int {
    if forward { a + k } else { a - k }
}

/// The squares a rook passes over on its way, ending at the destination's row
/// (or column, when the rows agree). Empty when the two squares are equal.
pub open spec fn rook_path_spec(from: Position, to: Position) -> Seq<Position> {
    if from.0 != to.0 {
        Seq::new(
            row_dist(from, to) as nat,
            |k: int| (step(from.0, from.0 < to.0, k + 1) as i8, from.1),
        )
    } else {
        Seq::new(
            col_dist(from, to) as nat,
            |k: int| (from.0, step(from.1, from.1 < to.1, k + 1) as i8),
        )
    }
}

/// The squares a bishop passes over: one step per row towards the
/// destination's row, each step also one column towards its column (to the
/// right when the columns agree).
pub open spec fn bishop_path_spec(from: Position, to: Position) -> Seq<Position> {
    Seq::new(
        row_dist(from, to) as nat,
        |k: int| (step(from.0, from.0 <= to.0, k + 1) as i8, step(from.1, from.1 <= to.1, k + 1) as i8),
    )
}

/// The squares a queen passes over: a rook's path along a line, a bishop's
/// along a diagonal, otherwise only the destination.
pub open spec fn queen_path_spec(from: Position, to: Position) -> Seq<Position> {
    if on_line(from, to) {
        rook_path_spec(from, to)
    } else if on_diagonal(from, to) {
        bishop_path_spec(from, to)
    } else {
        seq![to]
    }
}

/// The squares a piece passes over on its way from `from`, the last one being
/// where it lands. Queens, rooks and bishops slide; pawns, kings, knights and
/// en-passant markers have only the destination.
pub open spec fn item_path(item: Item, from: Position, to: Position) -> Seq<Position> {
    match item {
        Item::Queen => queen_path_spec(from, to),
        Item::Rook(_) => rook_path_spec(from, to),
        Item::Bishop => bishop_path_spec(from, to),
        _ => seq![to],
    }
}

/// The squares king and rook land on when castling, in that order: on the
/// side's home row, towards the rook's corner (column 7 or the other one).
pub open spec fn castle_path_spec(p: Player, from: Position, to: Position) -> (Position, Position) {
    let home: i8 = if p.white() { 0 } else { 7 };
    let rook_col = match p.item() {
        Item::Rook(_) => from.1,
        _ => to.1,
    };
    if rook_col == 7 {
        ((home, 6), (home, 5))
    } else {
        ((home, 2), (home, 3))
    }
}


/// The path of a move a piece may make ends on the destination, and every
/// square of it lies between the two ends, row by row and column by column.
pub proof fn lemma_path_reaches_destination(p: Player, from: Position, to: Position, capturing: bool)
    requires
        player_move(p, from, to, capturing) is Some,
        from != to,
    ensures
        item_path(p.item(), from, to).len() > 0,
        item_path(p.item(), from, to).last() == to,
        forall|i: int|
            0 <= i < item_path(p.item(), from, to).len() ==> {
                let s = #[trigger] item_path(p.item(), from, to)[i];
                &&& dist(s.0, to.0) <= row_dist(from, to)
                &&& dist(s.1, to.1) <= col_dist(from, to)
            },
{
}


/// A knight jumps two rows and one column, or one row and two columns: every
/// such jump is accepted as a regular move, and nothing else is, so a knight
/// never moves along a row or a column.
pub proof fn lemma_knight_jumps(p: Player, from: Position, to: Position, capturing: bool)
    requires
        p.item() == Item::Knight,
    ensures
        player_move(p, from, to, capturing) is Some <==> {
            ||| (to.0 - from.0 == 2 || from.0 - to.0 == 2) && (to.1 - from.1 == 1 || from.1 - to.1 == 1)
            ||| (to.0 - from.0 == 1 || from.0 - to.0 == 1) && (to.1 - from.1 == 2 || from.1 - to.1 == 2)
        },
        player_move(p, from, to, capturing) is Some ==> player_move(p, from, to, capturing) == Some(
            MoveType::Regular,
        ),
        from.0 == to.0 || from.1 == to.1 ==> player_move(p, from, to, capturing) is None,
{
}

/// A rook moves along its row or its column, and nowhere else; its moves are
/// regular ones (castling is the king's move).
pub proof fn lemma_rook_moves(p: Player, from: Position, to: Position, capturing: bool)
    requires
        p.item() is Rook,
    ensures
        player_move(p, from, to, capturing) is Some <==> from.0 == to.0 || from.1 == to.1,
        player_move(p, from, to, capturing) is Some ==> player_move(p, from, to, capturing) == Some(
            MoveType::Regular,
        ),
{
}

/// A bishop moves along a diagonal to another square, and nowhere else.
pub proof fn lemma_bishop_moves(p: Player, from: Position, to: Position, capturing: bool)
    requires
        p.item() == Item::Bishop,
    ensures
        player_move(p, from, to, capturing) is Some <==> from != to && (to.0 - from.0 == to.1 - from.1
            || to.0 - from.0 == from.1 - to.1),
        player_move(p, from, to, capturing) is Some ==> player_move(p, from, to, capturing) == Some(
            MoveType::Regular,
        ),
{
}

/// A queen moves along its row, its column or a diagonal to another square,
/// and nowhere else.
pub proof fn lemma_queen_moves(p: Player, from: Position, to: Position, capturing: bool)
    requires
        p.item() == Item::Queen,
    ensures
        player_move(p, from, to, capturing) is Some <==> from != to && (from.0 == to.0 || from.1 == to.1 || to.0
            - from.0 == to.1 - from.1 || to.0 - from.0 == from.1 - to.1),
        player_move(p, from, to, capturing) is Some ==> player_move(p, from, to, capturing) == Some(
            MoveType::Regular,
        ),
{
}

/// A king steps to a square at most one row and one column away; a king that
/// has not moved also castles, from column 4 of row 0 or 7 onto a corner of
/// that row; it has no other move.
pub proof fn lemma_king_moves(p: Player, from: Position, to: Position, capturing: bool)
    requires
        p.item() is King,
    ensures
        player_move(p, from, to, capturing) == Some(MoveType::Regular) <==> -1 <= to.0 - from.0 <= 1 && -1
            <= to.1 - from.1 <= 1,
        player_move(p, from, to, capturing) == Some(MoveType::Castle) <==> {
            &&& p.item() == Item::King(false)
            &&& from.0 == to.0
            &&& (from.0 == 0 || from.0 == 7)
            &&& from.1 == 4
            &&& (to.1 == 0 || to.1 == 7)
        },
        player_move(p, from, to, capturing) is None || player_move(p, from, to, capturing) == Some(
            MoveType::Regular,
        ) || player_move(p, from, to, capturing) == Some(MoveType::Castle),
{
}

/// A pawn moves one row forward (up for White, down for Black): straight onto
/// a square it does not capture on, or one column aside when it captures; from
/// its start row (1 for White, 6 for Black) it may also move two rows straight
/// without capturing, naming the square it passes over. It has no other move.
pub proof fn lemma_pawn_moves(p: Player, from: Position, to: Position, capturing: bool)
    requires
        p.item() == Item::Pawn,
    ensures
        ({
            let fwd = if p.white() { to.0 - from.0 } else { from.0 - to.0 };
            &&& player_move(p, from, to, capturing) == Some(MoveType::Regular) <==> fwd == 1 && (
            (capturing && (to.1 - from.1 == 1 || from.1 - to.1 == 1)) || (!capturing && to.1 == from.1))
            &&& (player_move(p, from, to, capturing) matches Some(MoveType::Double(q))) <==> !capturing && fwd
                == 2 && to.1 == from.1 && from.0 == (if p.white() { 1int } else { 6int })
            &&& player_move(p, from, to, capturing) matches Some(MoveType::Double(q)) ==> q == (
                (if p.white() { 2i8 } else { 5i8 }),
                from.1,
            )
            &&& player_move(p, from, to, capturing) is None || player_move(p, from, to, capturing) == Some(
                MoveType::Regular,
            ) || player_move(p, from, to, capturing) is Some && player_move(
                p,
                from,
                to,
                capturing,
            )->Some_0 is Double
        }),
{
}

/// An en-passant marker never moves.
pub proof fn lemma_marker_stays(p: Player, from: Position, to: Position, capturing: bool)
    requires
        p.item() is EnPass,
    ensures
        player_move(p, from, to, capturing) is None,
{
}

/// Castling puts the king two columns from its square towards the rook's
/// corner, and the rook on the square the king passed over, both on the row
/// the king stands on.
pub proof fn lemma_castle_squares(p: Player, from: Position, to: Position)
    requires
        p.item() is King,
        from.0 == (if p.white() { 0i8 } else { 7i8 }),
        from.1 == 4,
        to.1 == 0 || to.1 == 7,
    ensures
        castle_path_spec(p, from, to).0.0 == from.0,
        castle_path_spec(p, from, to).1.0 == from.0,
        to.1 == 7 ==> castle_path_spec(p, from, to).0.1 == from.1 + 2 && castle_path_spec(p, from, to).1.1
            == from.1 + 1,
        to.1 == 0 ==> castle_path_spec(p, from, to).0.1 == from.1 - 2 && castle_path_spec(p, from, to).1.1
            == from.1 - 1,
{
}

/// A queen or a rook moving along a row passes over every square of the row
/// between the two, one column at a time, and ends on the destination.
pub proof fn lemma_slide_along_row(item: Item, from: Position, to: Position)
    requires
        item is Queen || item is Rook,
        from.0 == to.0,
        from.1 != to.1,
    ensures
        item_path(item, from, to).len() == (if from.1 < to.1 { to.1 - from.1 } else { from.1 - to.1 }),
        forall|i: int|
            0 <= i < item_path(item, from, to).len() ==> #[trigger] item_path(item, from, to)[i] == (
                from.0,
                (if from.1 < to.1 { from.1 + i + 1 } else { from.1 - i - 1 }) as i8,
            ),
{
}

/// A queen or a rook moving along a column passes over every square of the
/// column between the two, one row at a time, and ends on the destination.
pub proof fn lemma_slide_along_column(item: Item, from: Position, to: Position)
    requires
        item is Queen || item is Rook,
        from.1 == to.1,
        from.0 != to.0,
    ensures
        item_path(item, from, to).len() == (if from.0 < to.0 { to.0 - from.0 } else { from.0 - to.0 }),
        forall|i: int|
            0 <= i < item_path(item, from, to).len() ==> #[trigger] item_path(item, from, to)[i] == (
                (if from.0 < to.0 { from.0 + i + 1 } else { from.0 - i - 1 }) as i8,
                from.1,
            ),
{
}

/// A queen or a bishop moving along a diagonal passes over every square of
/// the diagonal between the two, one row and one column at a time, and ends
/// on the destination.
pub proof fn lemma_slide_along_diagonal(item: Item, from: Position, to: Position)
    requires
        item is Queen || item is Bishop,
        from.0 != to.0,
        to.0 - from.0 == to.1 - from.1 || to.0 - from.0 == from.1 - to.1,
    ensures
        item_path(item, from, to).len() == (if from.0 < to.0 { to.0 - from.0 } else { from.0 - to.0 }),
        forall|i: int|
            0 <= i < item_path(item, from, to).len() ==> #[trigger] item_path(item, from, to)[i] == (
                (if from.0 < to.0 { from.0 + i + 1 } else { from.0 - i - 1 }) as i8,
                (if from.1 < to.1 { from.1 + i + 1 } else { from.1 - i - 1 }) as i8,
            ),
{
}

/// Pawns, kings, knights and en-passant markers pass over nothing: their path
/// is the destination alone.
pub proof fn lemma_steppers_path(item: Item, from: Position, to: Position)
    requires
        !(item is Queen || item is Rook || item is Bishop),
    ensures
        item_path(item, from, to) == seq![to],
{
}

/// A square seen from the other end of the board: row `r` becomes `7 - r`.
pub open spec fn mirror(p: Position) -> Position {
    ((7 - p.0) as i8, p.1)
}

/// A move kind seen from the other end of the board.
pub open spec fn mirror_move(m: Option<MoveType>) -> Option<MoveType> {
    match m {
        Some(MoveType::Double(q)) => Some(MoveType::Double(mirror(q))),
        _ => m,
    }
}

/// Black pawns move exactly as White ones seen from the other end of the
/// board (for every row whose mirror is a square).
pub proof fn lemma_pawn_mirror(from: Position, to: Position, capturing: bool)
    requires
        from.0 >= -120,
        to.0 >= -120,
    ensures
        player_move(Player::Black(Item::Pawn), from, to, capturing) == mirror_move(
            player_move(Player::White(Item::Pawn), mirror(from), mirror(to), capturing),
        ),
{
}

enum PawnMove {
    Single,
    Double,
    Capture,
}

spec fn pawn_step(from: Position, to: Position, inverted: bool) -> Option<PawnMove> {
    let fwd = pawn_advance(from, to, inverted);
    let c = col_dist(from, to);
    if fwd == 1 && c == 1 {
        Some(PawnMove::Capture)
    } else if fwd == 2 && c == 0 && from.0 == (if inverted { 6i8 } else { 1i8 }) {
        Some(PawnMove::Double)
    } else if fwd == 1 && c == 0 {
        Some(PawnMove::Single)
    } else {
        None
    }
}

fn abs(v: i16) -> (r: i16)
    requires
        v > i16::MIN,
    ensures
        r == (if v < 0 { -v } else { v as int }),
{
    if v < 0 {
        -v
    } else {
        v
    }
}

fn abs_pos(from: Position, to: Position) -> (r: (i16, i16))
    ensures
        r.0 == row_dist(from, to),
        r.1 == col_dist(from, to),
{
    let r = abs(to.0 as i16 - from.0 as i16);
    let c = abs(to.1 as i16 - from.1 as i16);
    (r, c)
}

impl Item {
    /// Castling is recognised only on the home row: a rook from its corner
    /// onto the king's square, or a king from its square onto a corner.
    fn castling_logic(&self, from: Position, to: Position) -> (r: bool)
        ensures
            r == castle_shape(*self, from, to),
    {
        if to.0 != 0 && to.0 != 7 {
            return false;
        } //not on home row?
        if from.0 != to.0 {
            return false;
        }
        match *self {
            Item::Rook(_) => to.1 == 4 && (from.1 == 0 || from.1 == 7), //castling? to king
            Item::King(_) => from.1 == 4 && (to.1 == 0 || to.1 == 7), //castling? to rook
            _ => false,
        }
    }

    fn rook_logic(&self, from: Position, to: Position, hasmoved: bool) -> (r: Option<MoveType>)
        ensures
            r == rook_move(from, to),
    {
        if to.0 == from.0 || to.1 == from.1 {
            Some(MoveType::Regular)
        } else if self.castling_logic(from, to) && !hasmoved {
            Some(MoveType::Castle)
        } else {
            None
        }
    }

    fn king_logic(&self, from: Position, to: Position, hasmoved: bool) -> (r: Option<MoveType>)
        ensures
            r == (if row_dist(from, to) < 2 && col_dist(from, to) < 2 {
                Some(MoveType::Regular)
            } else if castle_shape(*self, from, to) && !hasmoved {
                Some(MoveType::Castle)
            } else {
                None
            }),
    {
        let (r, c) = abs_pos(from, to);
        if r < 2 && c < 2 {
            Some(MoveType::Regular)
        } else if self.castling_logic(from, to) && !hasmoved {
            Some(MoveType::Castle)
        } else {
            None
        }
    }

    fn bishop_logic(&self, from: Position, to: Position) -> (r: bool)
        ensures
            r == on_diagonal(from, to),
    {
        let (r, c) = abs_pos(from, to);
        r == c
    }

    fn pawn_logic(&self, from: Position, to: Position, inverted: bool) -> (r: Option<PawnMove>)
        ensures
            r == pawn_step(from, to, inverted),
    {
        let (_, c) = abs_pos(from, to);
        let fwd: i16 = if !inverted {
            to.0 as i16 - from.0 as i16
        } else {
            from.0 as i16 - to.0 as i16
        };
        let start: i8 = if !inverted { 1 } else { 6 };
        if fwd == 1 && c == 1 {
            Some(PawnMove::Capture)
        } else if fwd == 2 && c == 0 && from.0 == start {
            Some(PawnMove::Double)
        } else if fwd == 1 && c == 0 {
            Some(PawnMove::Single)
        } else {
            None
        }
    }

    fn knight_logic(&self, from: Position, to: Position) -> (r: bool)
        ensures
            r == knight_jump(from, to),
    {
        let (r, c) = abs_pos(from, to);
        if r < 1 || c < 1 || r > 2 || c > 2 {
            false
        } else {
            if r == 2 && c == 1 {
                true
            } else if r == 1 && c == 2 {
                true
            } else {
                false
            }
        }
    }

    fn play_isvalid(&self, from: Position, to: Position) -> (r: Option<MoveType>)
        ensures
            r == item_move(*self, from, to),
    {
        if from.0 == to.0 && from.1 == to.1 {
            return None;
        }
        match *self {
            Item::Queen => {
                match self.rook_logic(from, to, true) {
                    Some(MoveType::Regular) => {
                        return Some(MoveType::Regular);
                    },
                    _ => (),
                }
                match self.king_logic(from, to, true) {
                    Some(MoveType::Regular) => {
                        return Some(MoveType::Regular);
                    },
                    _ => (),
                }
                if self.bishop_logic(from, to) {
                    Some(MoveType::Regular)
                } else {
                    None
                }
            },
            Item::Knight => {
                if self.knight_logic(from, to) {
                    Some(MoveType::Regular)
                } else {
                    None
                }
            },
            Item::Bishop => {
                if self.bishop_logic(from, to) {
                    Some(MoveType::Regular)
                } else {
                    None
                }
            },
            _ => None,
        }
    }

    fn pawn_isvalid(&self, from: Position, to: Position, inverted: bool, capturing: bool) -> (r: Option<MoveType>)
        ensures
            r == pawn_move(from, to, inverted, capturing),
    {
        if let Some(res) = self.pawn_logic(from, to, inverted) {
            match res {
                PawnMove::Single => {
                    if capturing {
                        None
                    } else {
                        Some(MoveType::Regular)
                    }
                },
                PawnMove::Double => {
                    if capturing {
                        None
                    } else if inverted {
                        Some(MoveType::Double((from.0 - 1, from.1)))
                    } else {
                        Some(MoveType::Double((to.0 - 1, from.1)))
                    }
                },
                PawnMove::Capture => {
                    if capturing {
                        Some(MoveType::Regular)
                    } else {
                        None
                    }
                },
            }
        } else {
            None
        }
    }

    // pathing

    fn queen_path(&self, from: Position, to: Position) -> (v: Vec<Position>)
        ensures
            v@ == queen_path_spec(from, to),
    {
        match self.rook_logic(from, to, true) {
            Some(MoveType::Regular) => {
                return self.rook_path(from, to);
            },
            _ => (),
        }
        if self.bishop_logic(from, to) {
            self.bishop_path(from, to)
        } else {
            vec![to]
        }
    }

    fn rook_path(&self, from: Position, to: Position) -> (v: Vec<Position>)
        ensures
            v@ == rook_path_spec(from, to),
    {
        let mut v: Vec<Position> = Vec::new();
        if from.0 != to.0 {
            let up = from.0 < to.0;
            let n = abs(to.0 as i16 - from.0 as i16);
            let mut k: i16 = 1;
            while k <= n
                invariant
                    1 <= k <= n + 1,
                    n == row_dist(from, to),
                    from.0 != to.0,
                    up == (from.0 < to.0),
                    v@ == rook_path_spec(from, to).take(k - 1),
                decreases n + 1 - k,
            {
                let r: i16 = if up { from.0 as i16 + k } else { from.0 as i16 - k };
                v.push((r as i8, from.1));
                assert(v@ =~= rook_path_spec(from, to).take(k as int));
                k += 1;
            }
            assert(v@ =~= rook_path_spec(from, to));
        } else {
            let right = from.1 < to.1;
            let n = abs(to.1 as i16 - from.1 as i16);
            let mut k: i16 = 1;
            while k <= n
                invariant
                    1 <= k <= n + 1,
                    n == col_dist(from, to),
                    from.0 == to.0,
                    right == (from.1 < to.1),
                    v@ == rook_path_spec(from, to).take(k - 1),
                decreases n + 1 - k,
            {
                let c: i16 = if right { from.1 as i16 + k } else { from.1 as i16 - k };
                v.push((from.0, c as i8));
                assert(v@ =~= rook_path_spec(from, to).take(k as int));
                k += 1;
            }
            assert(v@ =~= rook_path_spec(from, to));
        }
        v
    }

    fn bishop_path(&self, from: Position, to: Position) -> (v: Vec<Position>)
        ensures
            v@ == bishop_path_spec(from, to),
    {
        let mut v: Vec<Position> = Vec::new();
        let up = from.0 <= to.0;
        let right = from.1 <= to.1;
        let n = abs(to.0 as i16 - from.0 as i16);
        let mut k: i16 = 1;
        while k <= n
            invariant
                1 <= k <= n + 1,
                n == row_dist(from, to),
                up == (from.0 <= to.0),
                right == (from.1 <= to.1),
                v@ == bishop_path_spec(from, to).take(k - 1),
            decreases n + 1 - k,
        {
            let r: i16 = if up { from.0 as i16 + k } else { from.0 as i16 - k };
            let c: i16 = if right { from.1 as i16 + k } else { from.1 as i16 - k };
            v.push((r as i8, c as i8));
            assert(v@ =~= bishop_path_spec(from, to).take(k as int));
            k += 1;
        }
        assert(v@ =~= bishop_path_spec(from, to));
        v
    }

    /// gets play path, to be checked later for if legal
    fn play_path(&self, from: Position, to: Position) -> (v: Vec<Position>)
        ensures
            v@ == item_path(*self, from, to),
    {
        match *self {
            Item::Queen => self.queen_path(from, to),
            Item::Rook(_) => self.rook_path(from, to),
            Item::Bishop => self.bishop_path(from, to),
            _ => vec![to], //single space destination
        }
    }
}

impl Player {
    /// The piece's kind.
    pub fn get_item(&self) -> (r: Item)
        ensures
            r == self.item(),
    {
        match *self {
            Player::Black(item) => item,
            Player::White(item) => item,
        }
    }

    /// Whether the piece is White's.
    pub fn is_white(&self) -> (r: bool)
        ensures
            r == self.white(),
    {
        match *self {
            Player::Black(_) => false,
            Player::White(_) => true,
        }
    }

    /// check play logic for valid moves
    pub fn play_isvalid(&self, from: Position, to: Position, capturing: bool) -> (r: Option<MoveType>)
        ensures
            r == player_move(*self, from, to, capturing),
    {
        match *self {
            Player::Black(item) => {
                match item {
                    Item::Pawn => item.pawn_isvalid(from, to, true, capturing),
                    Item::King(hasmoved) => item.king_logic(from, to, hasmoved),
                    Item::Rook(hasmoved) => item.rook_logic(from, to, hasmoved),
                    _ => item.play_isvalid(from, to),
                }
            },
            Player::White(item) => {
                match item {
                    Item::Pawn => item.pawn_isvalid(from, to, false, capturing),
                    Item::King(hasmoved) => item.king_logic(from, to, hasmoved),
                    Item::Rook(hasmoved) => item.rook_logic(from, to, hasmoved),
                    _ => item.play_isvalid(from, to),
                }
            },
        }
    }

    /// The squares the piece passes over from `from`, ending where it lands.
    pub fn play_path(&self, from: Position, to: Position) -> (v: Vec<Position>)
        ensures
            v@ == item_path(self.item(), from, to),
    {
        match *self {
            Player::Black(item) => item.play_path(from, to),
            Player::White(item) => item.play_path(from, to),
        }
    }

    /// special pathing for castling, returns tuple of new positions for (king,rook)
    pub fn castle_path(&self, from: Position, to: Position) -> (r: (Position, Position))
        ensures
            r == castle_path_spec(*self, from, to),
    {
        match *self {
            Player::Black(item) => {
                match item {
                    Item::Rook(_) => {
                        if from.1 == 7 {
                            ((7, 6), (7, 5))
                        } else {
                            ((7, 2), (7, 3))
                        }
                    },
                    _ => {
                        if to.1 == 7 {
                            ((7, 6), (7, 5))
                        } else {
                            ((7, 2), (7, 3))
                        }
                    },
                }
            },
            Player::White(item) => {
                match item {
                    Item::Rook(_) => {
                        if from.1 == 7 {
                            ((0, 6), (0, 5))
                        } else {
                            ((0, 2), (0, 3))
                        }
                    },
                    _ => {
                        if to.1 == 7 {
                            ((0, 6), (0, 5))
                        } else {
                            ((0, 2), (0, 3))
                        }
                    },
                }
            },
        }
    }
}

impl PartialEq for Item {
    fn eq(&self, other: &Item) -> (r: bool) {
        match (self, other) {
            (Item::Pawn, Item::Pawn) => true,
            (Item::King(a), Item::King(b)) => *a == *b,
            (Item::Queen, Item::Queen) => true,
            (Item::Rook(a), Item::Rook(b)) => *a == *b,
            (Item::Knight, Item::Knight) => true,
            (Item::Bishop, Item::Bishop) => true,
            (Item::EnPass(p), Item::EnPass(q)) => p.0 == q.0 && p.1 == q.1,
            _ => false,
        }
    }
}

impl PartialEqSpecImpl for Item {
    open spec fn obeys_eq_spec() -> bool {
        true
    }

    open spec fn eq_spec(&self, other: &Item) -> bool {
        *self == *other
    }
}

impl PartialEq for Player {
    fn eq(&self, other: &Player) -> (r: bool) {
        match (self, other) {
            (Player::Black(a), Player::Black(b)) => a.eq(b),
            (Player::White(a), Player::White(b)) => a.eq(b),
            _ => false,
        }
    }
}

impl PartialEqSpecImpl for Player {
    open spec fn obeys_eq_spec() -> bool {
        true
    }

    open spec fn eq_spec(&self, other: &Player) -> bool {
        *self == *other
    }
}

impl PartialEq for MoveType {
    fn eq(&self, other: &MoveType) -> (r: bool) {
        match (self, other) {
            (MoveType::Regular, MoveType::Regular) => true,
            (MoveType::Castle, MoveType::Castle) => true,
            (MoveType::Double(p), MoveType::Double(q)) => p.0 == q.0 && p.1 == q.1,
            (MoveType::Upgrade, MoveType::Upgrade) => true,
            _ => false,
        }
    }
}

impl PartialEqSpecImpl for MoveType {
    open spec fn obeys_eq_spec() -> bool {
        true
    }

    open spec fn eq_spec(&self, other: &MoveType) -> bool {
        *self == *other
    }
}

} // verus!
