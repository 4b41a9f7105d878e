use vstd::prelude::*;

use crate::logic::{castle_path_spec, Item, MoveType, Player};
use crate::rules::{
    clear_markers, clear_markers_upto, committed, first_attacker, first_blocker, first_occupied, game_wf, grid,
    index_of, initial_grid, is_king, is_king_of, is_marker, king_square, kings_found, kings_upto,
    lemma_committed_wf, lemma_kings_found_at,
    lemma_index_square, lemma_path_on_board, lemma_plan_facts, lemma_play_laws, lemma_player_move_shape,
    en_passant_square, king_moved_to, occupied, on_the_way, piece, refused_as_invalid, square_after,
    lemma_square_index, move_plan, on_board, opponent_king, own_king, play_allowed, play_spec, put,
    record_capture, same_side, square, square_of, well_shaped, attacks, flip, GameView,
};
use crate::{an_position, ANPosition, BoardLayout, Capture, Move, Position};

verus! {

/// A chess game: the board, the pieces taken so far, whose turn it is, which
/// side is in check and the game's id (0 until it is started).
#[derive(Debug)]
pub struct Game {
    board: BoardLayout,
    captured: Vec<Player>,
    active: Player,
    check: Option<Player>,
    id: u64,
}

impl View for Game {
    type V = GameView;

    closed spec fn view(&self) -> GameView {
        GameView {
            board: grid(self.board),
            captured: self.captured@,
            active: self.active,
            check: self.check,
            id: self.id,
        }
    }
}

impl Game {
    /// Whether the game holds a state that play keeps.
    pub open spec fn wf(&self) -> bool {
        game_wf(self@)
    }

    /// The starting position.
    pub fn build_board() -> (board: BoardLayout)
        ensures
            grid(board) == initial_grid(),
    {
        let mut board: BoardLayout = [[None; 8]; 8];

        //setup pawns row
        board[1] = [Some(Player::White(Item::Pawn)); 8];
        board[6] = [Some(Player::Black(Item::Pawn)); 8];

        //setup home row
        board[0] = [
            Some(Player::White(Item::Rook(false))),
            Some(Player::White(Item::Knight)),
            Some(Player::White(Item::Bishop)),
            Some(Player::White(Item::Queen)),
            Some(Player::White(Item::King(false))),
            Some(Player::White(Item::Bishop)),
            Some(Player::White(Item::Knight)),
            Some(Player::White(Item::Rook(false))),
        ];

        board[7] = [
            Some(Player::Black(Item::Rook(false))),
            Some(Player::Black(Item::Knight)),
            Some(Player::Black(Item::Bishop)),
            Some(Player::Black(Item::Queen)),
            Some(Player::Black(Item::King(false))),
            Some(Player::Black(Item::Bishop)),
            Some(Player::Black(Item::Knight)),
            Some(Player::Black(Item::Rook(false))),
        ];
        assert(grid(board) =~~= initial_grid());
        board
    }

    /// A new game in the starting position, White to move, not started.
    pub fn new() -> (g: Game)
        ensures
            g@ == (GameView {
                board: initial_grid(),
                captured: Seq::empty(),
                active: Player::White(Item::Pawn),
                check: None,
                id: 0,
            }),
            g.wf(),
    {
        let board = Game::build_board();
        let g = Game { board: board, captured: Vec::new(), active: Player::White(Item::Pawn), check: None, id: 0 };
        proof {
            assert(g@.captured =~= Seq::empty());
            assert(on_board((0, 4)) && is_king_of(square(g@.board, (0, 4)), true));
            assert(on_board((7, 4)) && is_king_of(square(g@.board, (7, 4)), false));
            assert forall|s: Position, t: Position, w: bool|
                on_board(s) && on_board(t) && #[trigger] is_king_of(square(g@.board, s), w)
                    && #[trigger] is_king_of(square(g@.board, t), w) implies s == t by {
                assert(s.0 == 0 || s.0 == 7);
                assert(s.1 == 4);
                assert(t.0 == 0 || t.0 == 7);
                assert(t.1 == 4);
            }
            assert forall|s: Position| on_board(s) implies !#[trigger] is_marker(square(g@.board, s)) by {
                assert(0 <= s.0 < 8);
            }
        }
        g
    }

    /// Starts the game under the given id.
    pub fn start(&mut self, id: u64)
        ensures
            final(self)@ == (GameView { id: id, ..old(self)@ }),
    {
        self.id = id;
    }

    /// Whether the game has been started, that is, has an id above 0.
    pub fn is_started(&mut self) -> (r: bool)
        ensures
            r == (old(self)@.id > 0),
            final(self)@ == old(self)@,
    {
        if self.id > 0 {
            true
        } else {
            false
        }
    }

    /// What stands on a square.
    pub fn get_player(&self, at: Position) -> (r: &Option<Player>)
        requires
            on_board(at),
        ensures
            *r == square(self@.board, at),
    {
        &self.board[at.0 as usize][at.1 as usize]
    }

    /// swap out destination, and return what stood there
    fn swap_pos(&mut self, at: Position, p: Option<Player>) -> (oldp: Option<Player>)
        requires
            on_board(at),
        ensures
            oldp == square(old(self)@.board, at),
            final(self)@ == (GameView { board: put(old(self)@.board, at, p), ..old(self)@ }),
    {
        let r = at.0 as usize;
        let c = at.1 as usize;
        let oldp = self.board[r][c];
        let mut row = self.board[r];
        row[c] = p;
        self.board[r] = row;
        assert(grid(self.board) =~~= put(grid(old(self).board), at, p));
        oldp
    }

    /// Plays the piece on `from` to `to`. A refused move leaves the game as it
    /// was; an accepted one passes the turn and tells what was captured and
    /// whether the other king is now in check.
    pub fn play(&mut self, from: Position, to: Position) -> (r: Result<MoveValid, MoveIllegal>)
        requires
            play_allowed(old(self)@, from, to),
        ensures
            (final(self)@, r) == play_spec(old(self)@, from, to),
            final(self).wf(),
            // a refused move changes nothing
            r is Err ==> final(self)@ == old(self)@,
            // when a move is refused as invalid
            refused_as_invalid(old(self)@, from, to) ==> r == Err::<MoveValid, MoveIllegal>(
                MoveIllegal::Invalid,
            ),
            // a blocked move names an occupied square on the way
            r matches Err(MoveIllegal::Blocked(s)) ==> occupied(square(old(self)@.board, s))
                && on_the_way(old(self)@, from, to, s),
            // the turn passes
            r matches Ok(mv) ==> final(self)@.active == flip(old(self)@.active),
            // the piece on `from` moved to `to`
            r matches Ok(mv) ==> mv.item == square(old(self)@.board, from)->Some_0 && mv.mv == (from, to),
            // what every square holds afterwards
            r matches Ok(mv) ==> forall|s: Position|
                on_board(s) ==> #[trigger] square(final(self)@.board, s) == square_after(
                    old(self)@,
                    from,
                    to,
                    mv.item,
                    mv.mt,
                    s,
                ),
            r matches Ok(mv) ==> (mv.mt != MoveType::Castle ==> square(
                final(self)@.board,
                to,
            ) == Some(mv.item) && square(final(self)@.board, from) is None),
            // castling: an unmoved king onto an unmoved rook of its side; both land,
            // marked as moved, on their castling squares
            r matches Ok(mv) ==> mv.mt == MoveType::Castle ==> {
                &&& mv.item.item() == Item::King(false)
                &&& square(old(self)@.board, to) == Some(piece(mv.item.white(), Item::Rook(false)))
                &&& square(final(self)@.board, castle_path_spec(mv.item, from, to).0) == Some(
                    piece(mv.item.white(), Item::King(true)),
                )
                &&& square(final(self)@.board, castle_path_spec(mv.item, from, to).1) == Some(
                    piece(mv.item.white(), Item::Rook(true)),
                )
                &&& square(final(self)@.board, from) is None
                &&& square(final(self)@.board, to) is None
                &&& mv.cap is None
                // the king was not in check, and the square it passed over was not attacked
                &&& forall|s: Position| !#[trigger] attacks(old(self)@.board, s, from)
                &&& forall|s: Position|
                    !#[trigger] attacks(
                        king_moved_to(old(self)@.board, from, castle_path_spec(mv.item, from, to).1, mv.item),
                        s,
                        castle_path_spec(mv.item, from, to).1,
                    )
            },
            // what is captured
            r matches Ok(mv) ==> (square(old(self)@.board, to) is None ==> mv.cap is None
                && final(self)@.captured == old(self)@.captured),
            r matches Ok(mv) ==> (square(old(self)@.board, to) matches Some(q) ==> (!is_marker(
                Some(q),
            ) && mv.mt != MoveType::Castle ==> mv.cap == Some((q, to)) && final(self)@.captured
                == old(self)@.captured.push(q))),
            r matches Ok(mv) ==> en_passant_square(old(self)@.board, to, mv.item, mv.mt) matches Some(e) ==> {
                &&& mv.cap == Some((piece(!old(self)@.active.white(), Item::Pawn), e))
                &&& square(final(self)@.board, e) is None
            },
            r matches Ok(mv) ==> final(self)@.captured == record_capture(
                old(self)@.captured,
                mv.cap,
            ),
            // the mover's king is not left in check
            r is Ok ==> forall|s: Position|
                !#[trigger] attacks(final(self)@.board, s, own_king(final(self)@.board, old(self)@.active)),
            // the check reported is exactly whether the other king is attacked
            r matches Ok(mv) ==> (mv.check is Some <==> exists|s: Position|
                #[trigger] attacks(final(self)@.board, s, opponent_king(final(self)@.board, old(self)@.active))),
            r matches Ok(mv) ==> (final(self)@.check is Some <==> mv.check is Some),
            // the king named in check is the other side's, on the square the answer names
            r matches Ok(mv) ==> (final(self)@.check matches Some(k) ==> {
                &&& k.item() is King
                &&& k.white() != old(self)@.active.white()
                &&& mv.check matches Some(c) && square(final(self)@.board, c.1) == Some(k)
            }),
            r matches Ok(mv) ==> (mv.check matches Some(c) ==> c.1 == opponent_king(
                final(self)@.board,
                old(self)@.active,
            ) && attacks(final(self)@.board, c.0, c.1)),
    {
        let r = self.make_move(from, to);
        proof {
            lemma_play_laws(old(self)@, from, to);
        }
        r
    }

    /// The move itself: the checks, the board changes, the check test, and
    /// the undoing of a move that leaves the mover's king attacked.
    fn make_move(&mut self, from: Position, to: Position) -> (r: Result<MoveValid, MoveIllegal>)
        requires
            play_allowed(old(self)@, from, to),
        ensures
            (final(self)@, r) == play_spec(old(self)@, from, to),
            final(self).wf(),
    {
        let ghost g0 = self@;
        let (player, mt) = match self.plan(from, to) {
            Err(e) => return Err(e),
            Ok(planned) => planned,
        };
        proof {
            let capturing = square(g0.board, to) matches Some(q) && !same_side(q, player);
            lemma_player_move_shape(player, from, to, capturing);
            lemma_plan_facts(g0, from, to, player, mt);
            lemma_committed_wf(g0, from, to, player, mt);
            lemma_play_laws(g0, from, to);
        }
        let saved = self.board; //copy the board, to swap back to if needed

        // determine capture
        let cap: Option<Capture> = match mt {
            MoveType::Castle => None,
            _ => {
                if let Some(q) = self.swap_pos(to, Some(player)) { //captured
                    match q.get_item() {
                        Item::EnPass(pos) => {
                            //a pawn takes the pawn that passed; any other piece covers the marker
                            if let Item::Pawn = player.get_item() {
                                assert(en_passant_square(g0.board, to, player, mt) == Some(pos));
                                let p = self.swap_pos(pos, None).unwrap();
                                self.captured.push(p);
                                Some((p, pos))
                            } else {
                                None
                            }
                        },
                        _ => {
                            self.captured.push(q);
                            Some((q, to))
                        },
                    }
                } else {
                    None
                }
            },
        };

        // movetypes need different handling for board mutation
        match mt {
            MoveType::Castle => {
                let (kp, rp) = player.castle_path(from, to);
                self.swap_pos(from, None);
                self.swap_pos(to, None);
                if player.is_white() {
                    self.swap_pos(kp, Some(Player::White(Item::King(true))));
                    self.swap_pos(rp, Some(Player::White(Item::Rook(true))));
                } else {
                    self.swap_pos(kp, Some(Player::Black(Item::King(true))));
                    self.swap_pos(rp, Some(Player::Black(Item::Rook(true))));
                }
            },
            MoveType::Double(pos) => {
                //swap in the enpass ghost, of the pawn's side
                let ghost_marker = match player {
                    Player::White(_) => Player::White(Item::EnPass(to)),
                    Player::Black(_) => Player::Black(Item::EnPass(to)),
                };
                self.swap_pos(pos, Some(ghost_marker));
                self.swap_pos(from, None);
            },
            MoveType::Upgrade => {
                if player.is_white() {
                    self.swap_pos(to, Some(Player::White(Item::Queen)));
                } else {
                    self.swap_pos(to, Some(Player::Black(Item::Queen)));
                }
                self.swap_pos(from, None);
            },
            MoveType::Regular => { //clear the space it came from
                self.swap_pos(from, None);
            },
        }

        self.clear_en_passant();
        let ghost nb = self@.board;
        assert(nb == committed(g0, from, to, player, mt).0);

        //look for potential king checks
        //start with collecting the two kings' positions
        let kings = self.get_kings();
        proof {
            let wk = choose|s: Position| on_board(s) && #[trigger] is_king_of(square(nb, s), true);
            let bk = choose|s: Position| on_board(s) && #[trigger] is_king_of(square(nb, s), false);
            assert(is_king(square(nb, wk)));
            assert(is_king(square(nb, bk)));
            if kings@.len() < 2 {
                assert(kings@.contains(wk));
                assert(kings@.contains(bk));
            }
            assert(is_king(square(nb, kings@[0])));
            assert(is_king(square(nb, kings@[1])));
            assert(index_of(kings@[0]) < index_of(kings@[1]));
        }
        let k0 = kings[0];
        let k1 = kings[1];
        proof {
            let c0 = square(nb, k0)->Some_0.white();
            let c1 = square(nb, k1)->Some_0.white();
            assert(is_king_of(square(nb, k0), c0));
            assert(is_king_of(square(nb, k1), c1));
            if c0 == c1 {
                assert(k0 == k1);
            }
            assert(c0 != c1);
        }
        let first_white = self.get_player(k0).unwrap().is_white();
        let (rkme, rkthem) = if first_white == self.active.is_white() {
            (k0, k1)
        } else {
            (k1, k0)
        };
        proof {
            let w = g0.active.white();
            assert(is_king_of(square(nb, rkme), w));
            assert(is_king_of(square(nb, rkthem), !w));
            assert(rkme == king_square(nb, w));
            assert(rkthem == king_square(nb, !w));
        }
        let me_check = self.check_isvalid(rkme);
        let them_check = self.check_isvalid(rkthem);

        if let Some(check) = me_check { //put myself in check?
            self.board = saved; // swap back the board as it was
            if cap.is_some() {
                self.captured.pop();
            } //pop off captured player if needed
            assert(self@.board =~~= g0.board);
            assert(self@.captured =~= g0.captured);
            return Err(MoveIllegal::Check(check, rkme));
        } else { //move is totally valid
            //flip active player
            match self.active {
                Player::Black(item) => {
                    self.active = Player::White(item);
                },
                Player::White(item) => {
                    self.active = Player::Black(item);
                },
            }
            if let Some(check) = them_check {
                self.check = Some(self.get_player(rkthem).unwrap());
                return Ok(MoveValid { item: player, cap: cap, check: Some((check, rkthem)), mt: mt, mv: (from, to) });
            } else {
                self.check = None;
                return Ok(MoveValid { item: player, cap: cap, check: None, mt: mt, mv: (from, to) });
            }
        }
    }

    /// Whether the move would take a piece of the other side.
    fn capturing(&self, from: Position, to: Position) -> (r: bool)
        requires
            on_board(to),
            square(self@.board, to) is Some ==> on_board(from) && square(self@.board, from) is Some,
        ensures
            r == self.capturing_spec(from, to),
    {
        if let Some(p) = *self.get_player(to) {
            let mover = self.get_player(from).unwrap();
            let res = p.is_white() != mover.is_white();
            return res;
        }
        false
    }

    /// `to` holds a piece of the side other than that of the piece on `from`.
    spec fn capturing_spec(&self, from: Position, to: Position) -> bool {
        square(self@.board, to) matches Some(q) && !same_side(q, square(self@.board, from)->Some_0)
    }

    /// The first square of the path, short of its last, that holds a piece.
    fn blocker(&self, path: Vec<Position>) -> (r: Option<Position>)
        requires
            forall|i: int| 0 <= i < path@.len() ==> on_board(#[trigger] path@[i]),
        ensures
            r == first_blocker(self@.board, path@),
    {
        let ghost full = path@;
        let mut path = path;
        if path.len() == 0 {
            return None;
        }
        path.pop();
        assert(path@ =~= full.drop_last());
        let mut k: usize = 0;
        let mut found: Option<Position> = None;
        while k < path.len() && found.is_none()
            invariant
                k <= path@.len(),
                path@ == full.drop_last(),
                forall|i: int| 0 <= i < full.len() ==> on_board(#[trigger] full[i]),
                full.len() > 0,
                found is None ==> first_occupied(self@.board, path@, 0) == first_occupied(
                    self@.board,
                    path@,
                    k as int,
                ),
                found is Some ==> first_occupied(self@.board, path@, 0) == found,
            decreases path@.len() - k + (if found is None { 1int } else { 0int }),
        {
            let n = path[k];
            assert(full[k as int] == n);
            // an en-passant marker stands in nobody's way
            let in_way = match *self.get_player(n) {
                Some(q) => match q.get_item() {
                    Item::EnPass(_) => false,
                    _ => true,
                },
                None => false,
            };
            if in_way {
                assert(first_occupied(self@.board, path@, k as int) == Some(n));
                found = Some(n);
            } else {
                k += 1;
            }
        }
        found
    }

    /// What a move is checked against before anything changes.
    fn plan(&self, from: Position, to: Position) -> (r: Result<(Player, MoveType), MoveIllegal>)
        requires
            well_shaped(self@.board),
            on_board(from),
            (square(self@.board, from) matches Some(p) && same_side(p, self@.active)) ==> on_board(to),
        ensures
            r == move_plan(self@, from, to),
    {
        if let Some(player) = *self.get_player(from) {
            //current active player is playing?
            if player.is_white() != self.active.is_white() {
                return Err(MoveIllegal::Invalid);
            }
            // is play logically validated?
            if let Some(mt) = player.play_isvalid(from, to, self.capturing(from, to)) {
                //only "to" other player's pieces, or nothing at all? unless castling!
                if let Some(oppo) = *self.get_player(to) {
                    match mt {
                        MoveType::Castle => (),
                        _ => {
                            if player.is_white() == oppo.is_white() {
                                return Err(MoveIllegal::Invalid);
                            }
                        },
                    }
                }
                //castling starts on the home row and ends on an unmoved rook of its side
                if let MoveType::Castle = mt {
                    let home: i8 = if player.is_white() {
                        0
                    } else {
                        7
                    };
                    let unmoved_rook = match *self.get_player(to) {
                        Some(q) => q.is_white() == player.is_white() && match q.get_item() {
                            Item::Rook(moved) => !moved,
                            _ => false,
                        },
                        None => false,
                    };
                    if from.0 != home || !unmoved_rook {
                        return Err(MoveIllegal::Invalid);
                    }
                }
                proof {
                    lemma_player_move_shape(player, from, to, self.capturing_spec(from, to));
                    lemma_path_on_board(player.item(), from, to);
                    lemma_path_on_board(Item::Rook(false), from, to);
                }
                let path = match mt {
                    //a double step and castling pass over every square along the column or row
                    MoveType::Castle => Player::White(Item::Rook(false)).play_path(from, to),
                    MoveType::Double(_) => Player::White(Item::Rook(false)).play_path(from, to),
                    _ => player.play_path(from, to),
                };
                let res = self.blocker(path);
                if let Some(b) = res {
                    return Err(MoveIllegal::Blocked(b));
                }
                //no castling out of check, nor over an attacked square
                if let MoveType::Castle = mt {
                    if let Some(c) = self.check_isvalid(from) {
                        return Err(MoveIllegal::Check(c, from));
                    }
                    let (_, passed) = player.castle_path(from, to);
                    let mut probe = Game {
                        board: self.board,
                        captured: Vec::new(),
                        active: self.active,
                        check: None,
                        id: self.id,
                    };
                    probe.swap_pos(from, None);
                    probe.swap_pos(passed, Some(player));
                    assert(probe@.board == king_moved_to(self@.board, from, passed, player));
                    if let Some(c) = probe.check_isvalid(passed) {
                        return Err(MoveIllegal::Check(c, passed));
                    }
                }
                return Ok((player, mt));
            }
        }
        Err(MoveIllegal::Invalid)
    }

    /// get kings' positions: the king squares read row by row, stopping at the
    /// end of the row where the second one is found
    fn get_kings(&self) -> (kings: Vec<Position>)
        requires
            well_shaped(self@.board),
        ensures
            forall|i: int|
                0 <= i < kings@.len() ==> on_board(#[trigger] kings@[i]) && is_king(square(self@.board, kings@[i])),
            forall|i: int, j: int| 0 <= i < j < kings@.len() ==> index_of(kings@[i]) < index_of(kings@[j]),
            kings@.len() < 2 ==> forall|s: Position|
                on_board(s) && #[trigger] is_king(square(self@.board, s)) ==> kings@.contains(s),
            kings@ == kings_found(self@.board, 1),
    {
        let mut kings: Vec<Position> = Vec::new();
        let mut k: usize = 0;
        let mut done = false;
        while k < 64 && !done
            invariant
                k <= 64,
                well_shaped(self@.board),
                done ==> kings@.len() == 2,
                forall|i: int|
                    0 <= i < kings@.len() ==> on_board(#[trigger] kings@[i]) && is_king(square(self@.board, kings@[i]))
                        && index_of(kings@[i]) < k,
                forall|i: int, j: int| 0 <= i < j < kings@.len() ==> index_of(kings@[i]) < index_of(kings@[j]),
                forall|s: Position|
                    on_board(s) && #[trigger] is_king(square(self@.board, s)) && index_of(s) < k ==> kings@.contains(s),
                kings@ == kings_upto(self@.board, k as int),
                !done ==> forall|q: int| 1 <= q && 8 * q <= k ==> #[trigger] kings_upto(self@.board, 8 * q).len() != 2,
                done ==> kings@ == kings_found(self@.board, 1),
            decreases 64 - k + (if done { 0int } else { 1int }),
        {
            let i = k / 8;
            let j = k % 8;
            let s: Position = (i as i8, j as i8);
            proof {
                lemma_square_index(k as int);
                assert(s == square_of(k as int));
            }
            let ghost before = kings@;
            if let Some(p) = *self.get_player(s) {
                match p.get_item() {
                    Item::King(_) => kings.push(s),
                    _ => (),
                }
            }
            proof {
                assert forall|t: Position|
                    on_board(t) && #[trigger] is_king(square(self@.board, t)) && index_of(t) < k + 1 implies kings@.contains(t) by {
                    if index_of(t) < k {
                        assert(before.contains(t));
                        let n = choose|n: int| 0 <= n < before.len() && before[n] == t;
                        assert(kings@[n] == t);
                    } else {
                        lemma_index_square(t);
                        assert(kings@[kings@.len() - 1] == t);
                    }
                }
            }
            assert(kings@ =~= kings_upto(self@.board, k + 1));
            if j == 7 && kings.len() == 2 {
                proof {
                    lemma_kings_found_at(self@.board, 1, (k + 1) / 8);
                }
                done = true;
            }
            k += 1;
        }
        proof {
            if !done {
                lemma_kings_found_at(self@.board, 1, 8);
            }
            if kings@.len() < 2 {
                assert forall|t: Position| on_board(t) && #[trigger] is_king(square(self@.board, t)) implies kings@.contains(t) by {
                    lemma_index_square(t);
                }
            }
        }
        kings
    }

    /// The first piece, row by row, that checks the king on `king`.
    fn check_isvalid(&self, king: Position) -> (r: Option<Position>)
        requires
            well_shaped(self@.board),
            on_board(king),
            square(self@.board, king) is Some,
        ensures
            r == first_attacker(self@.board, king, 0),
    {
        let kp = self.get_player(king).unwrap();
        let king_white = kp.is_white();
        let mut k: usize = 0;
        while k < 64
            invariant
                k <= 64,
                well_shaped(self@.board),
                on_board(king),
                square(self@.board, king) == Some(kp),
                king_white == kp.white(),
                first_attacker(self@.board, king, 0) == first_attacker(self@.board, king, k as int),
            decreases 64 - k,
        {
            let i = k / 8;
            let j = k % 8;
            let s: Position = (i as i8, j as i8);
            assert(s == square_of(k as int));
            if let Some(p) = *self.get_player(s) {
                if p.is_white() != king_white {
                    if let Some(mt) = p.play_isvalid(s, king, true) {
                        match mt {
                            MoveType::Regular => {
                                proof {
                                    lemma_player_move_shape(p, s, king, true);
                                    lemma_path_on_board(p.item(), s, king);
                                }
                                let path = p.play_path(s, king);
                                if self.blocker(path).is_none() {
                                    return Some(s);
                                }
                            },
                            _ => (),
                        }
                    }
                }
            }
            k += 1;
        }
        None
    }

    /// must clear out all en passant ghost holders for opposing side, we had our chance
    fn clear_en_passant(&mut self)
        requires
            well_shaped(old(self)@.board),
        ensures
            final(self)@ == (GameView { board: clear_markers(old(self)@.board, old(self)@.active), ..old(self)@ }),
    {
        let ghost g0 = self@;
        let active_white = self.active.is_white();
        assert(self@.board =~~= clear_markers_upto(g0.board, g0.active, 0));
        let mut k: usize = 0;
        while k < 64
            invariant
                k <= 64,
                well_shaped(g0.board),
                active_white == g0.active.white(),
                self@ == (GameView { board: clear_markers_upto(g0.board, g0.active, k as int), ..g0 }),
            decreases 64 - k,
        {
            let i = k / 8;
            let j = k % 8;
            let s: Position = (i as i8, j as i8);
            proof {
                lemma_square_index(k as int);
                assert(s == square_of(k as int));
            }
            let ghost cur = self@.board;
            if let Some(p) = *self.get_player(s) {
                match p.get_item() {
                    Item::EnPass(_) => {
                        if p.is_white() != active_white {
                            self.swap_pos(s, None);
                        }
                    },
                    _ => (),
                }
            }
            assert(self@.board =~~= clear_markers_upto(g0.board, g0.active, k + 1));
            k += 1;
        }
    }

    /// A pawn of the side to move.
    pub fn get_active(&self) -> (r: Player)
        ensures
            r == self@.active,
    {
        self.active
    }

    /// The king of the side in check, if a side is in check.
    pub fn in_check(&self) -> (r: Option<Player>)
        ensures
            r == self@.check,
    {
        self.check
    }

    /// Whether `play(from, to)` may be called on this game: it is exactly
    /// the condition under which play does its work.
    pub fn may_play(&self, from: Position, to: Position) -> (r: bool)
        requires
            self.wf(),
        ensures
            r == play_allowed(self@, from, to),
    {
        if !(0 <= from.0 && from.0 < 8 && 0 <= from.1 && from.1 < 8) {
            return false;
        }
        let to_on_board = 0 <= to.0 && to.0 < 8 && 0 <= to.1 && to.1 < 8;
        if let Some(p) = *self.get_player(from) {
            if p.is_white() == self.active.is_white() && !to_on_board {
                return false;
            }
        }
        true
    }

    /// Plays a move given in algebraic notation, rank `n` being row `n - 1`.
    pub fn play_an(&mut self, from: ANPosition, to: ANPosition) -> (r: Result<MoveValid, MoveIllegal>)
        requires
            from.1 > i8::MIN,
            to.1 > i8::MIN,
            play_allowed(old(self)@, an_position(from), an_position(to)),
        ensures
            (final(self)@, r) == play_spec(old(self)@, an_position(from), an_position(to)),
            final(self).wf(),
    {
        let f: Position = (from.1 - 1, from.0.column());
        let t: Position = (to.1 - 1, to.0.column());
        self.play(f, t)
    }
}

/// A move that the board carried out.
#[derive(Debug, Clone, Copy)]
pub struct MoveValid {
    pub item: Player,
    pub cap: Option<Capture>,
    /// from piece and to king
    pub check: Option<Move>,
    pub mt: MoveType,
    /// from,to; for render
    pub mv: Move,
}

/// Why a move was refused.
#[derive(Debug, Clone, Copy)]
pub enum MoveIllegal {
    Blocked(Position),
    /// the attacking piece and the king it attacks (when castling, the square
    /// the king stands on or would pass over)
    Check(Position, Position),
    /// not a valid move, according to logic
    Invalid,
}

} // verus!
