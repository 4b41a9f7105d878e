use vstd::prelude::*;

use crate::logic::{Item, Player};
use crate::{Move, Position};

verus! {

/// Messages between the players and the server.
#[derive(Debug, Clone, Copy)]
pub enum Comm {
    /// from, to
    Move(Position, Position),
    StartGame(Option<u64>),
    EndGame,
}

/// The id under which the server keeps a connected player or a game.
pub type Eid = usize;

/// A game the server relays: its two players, once attached, the moves
/// played so far and its id.
#[derive(Debug)]
pub struct NetGame {
    pub white: Option<Eid>,
    pub black: Option<Eid>,
    pub moves: Vec<Move>,
    pub id: u64,
}

/// A relayed game as mathematical values.
pub struct NetGameView {
    pub white: Option<Eid>,
    pub black: Option<Eid>,
    pub moves: Seq<Move>,
    pub id: u64,
}

impl View for NetGame {
    type V = NetGameView;

    open spec fn view(&self) -> NetGameView {
        NetGameView { white: self.white, black: self.black, moves: self.moves@, id: self.id }
    }
}

/// A game with no players and no moves yet.
pub open spec fn fresh_game(id: u64) -> NetGameView {
    NetGameView { white: None, black: None, moves: Seq::empty(), id: id }
}

/// The games the server relays, each under its own entity id.
pub struct Games {
    slots: Vec<Option<NetGame>>,
}

impl View for Games {
    type V = Map<Eid, NetGameView>;

    closed spec fn view(&self) -> Map<Eid, NetGameView> {
        Map::new(
            |e: Eid| e < self.slots@.len() && self.slots@[e as int] is Some,
            |e: Eid| self.slots@[e as int]->Some_0@,
        )
    }
}

/// The smallest entity id that no game holds.
pub open spec fn is_lowest_free(games: Map<Eid, NetGameView>, e: Eid) -> bool {
    &&& !games.contains_key(e)
    &&& forall|n: Eid| n < e ==> games.contains_key(n)
}

/// A fresh game id; any value may come back.
#[verifier::external_body]
fn random_game_id() -> u64 {
    rand::random::<u64>()
}

impl Games {
    /// No games.
    pub fn new() -> (g: Games)
        ensures
            g@ == Map::<Eid, NetGameView>::empty(),
    {
        let g = Games { slots: Vec::new() };
        assert(g@ =~= Map::<Eid, NetGameView>::empty());
        g
    }

    /// Adds a fresh game with the given id under the smallest free entity id,
    /// and returns that entity id.
    pub fn insert_with_id(&mut self, id: u64) -> (e: Eid)
        ensures
            is_lowest_free(old(self)@, e),
            final(self)@ == old(self)@.insert(e, fresh_game(id)),
    {
        let game = NetGame { white: None, black: None, moves: Vec::new(), id: id };
        assert(game@ =~= fresh_game(id));
        let mut k: usize = 0;
        while k < self.slots.len()
            invariant
                k <= self.slots@.len(),
                self@ == old(self)@,
                self.slots@ == old(self).slots@,
                forall|n: Eid| n < k ==> old(self)@.contains_key(n),
                game@ == fresh_game(id),
            decreases self.slots@.len() - k,
        {
            if self.slots[k].is_none() {
                self.slots.set(k, Some(game));
                assert(self@ =~= old(self)@.insert(k, fresh_game(id)));
                return k;
            }
            k += 1;
        }
        let e = self.slots.len();
        self.slots.push(Some(game));
        assert(self@ =~= old(self)@.insert(e, fresh_game(id)));
        e
    }

    /// Adds a fresh game under a random game id and the smallest free entity
    /// id, and returns that entity id.
    pub fn insert(&mut self) -> (e: Eid)
        ensures
            is_lowest_free(old(self)@, e),
            final(self)@ == old(self)@.insert(e, fresh_game(final(self)@[e].id)),
    {
        let id = random_game_id();
        self.insert_with_id(id)
    }
}


/// Attaching player `p` to game `e`: the player becomes Black when the game
/// has a White player already, White otherwise. Gives the side the player got
/// and the last move of the game; a game that does not exist gives nothing.
pub open spec fn attach_spec(games: Map<Eid, NetGameView>, e: Eid, p: Eid) -> (Map<Eid, NetGameView>, (Option<Player>, Option<Move>)) {
    if games.contains_key(e) {
        let g = games[e];
        let last = if g.moves.len() > 0 {
            Some(g.moves.last())
        } else {
            None
        };
        if g.white is Some {
            (games.insert(e, NetGameView { black: Some(p), ..g }), (Some(Player::Black(Item::Pawn)), last))
        } else {
            (games.insert(e, NetGameView { white: Some(p), ..g }), (Some(Player::White(Item::Pawn)), last))
        }
    } else {
        (games, (None, None))
    }
}

/// Recording move `m` by player `pid` in game `gid`. Gives the player to pass
/// the move on to: the other one, once both have joined; a game that does not
/// exist records nothing.
pub open spec fn update_spec(games: Map<Eid, NetGameView>, gid: Eid, m: Move, pid: Eid) -> (Map<Eid, NetGameView>, Option<Eid>) {
    if games.contains_key(gid) {
        let g = games[gid];
        let other = if g.white is Some && g.black is Some {
            if g.white == Some(pid) {
                g.black
            } else {
                g.white
            }
        } else {
            None
        };
        (games.insert(gid, NetGameView { moves: g.moves.push(m), ..g }), other)
    } else {
        (games, None)
    }
}

/// `e` is the smallest entity id of a game with game id `id`.
pub open spec fn is_first_with_id(games: Map<Eid, NetGameView>, e: Eid, id: u64) -> bool {
    &&& games.contains_key(e)
    &&& games[e].id == id
    &&& forall|n: Eid| n < e && games.contains_key(n) ==> #[trigger] games[n].id != id
}

/// The smallest entity id of a game with the given game id, if any.
pub open spec fn find_spec(games: Map<Eid, NetGameView>, id: u64) -> Option<Eid> {
    if exists|e: Eid| games.contains_key(e) && #[trigger] games[e].id == id {
        Some(choose|e: Eid| is_first_with_id(games, e, id))
    } else {
        None
    }
}

/// A game with a given id has a first one among the games with that id, at
/// or below its entity id.
pub proof fn lemma_first_with_id_exists(games: Map<Eid, NetGameView>, e: Eid, id: u64)
    requires
        games.contains_key(e),
        games[e].id == id,
    ensures
        exists|f: Eid| f <= e && #[trigger] is_first_with_id(games, f, id),
    decreases e,
{
    if exists|n: Eid| n < e && games.contains_key(n) && #[trigger] games[n].id == id {
        let n = choose|n: Eid| n < e && games.contains_key(n) && #[trigger] games[n].id == id;
        lemma_first_with_id_exists(games, n, id);
    } else {
        assert(is_first_with_id(games, e, id));
    }
}

impl Games {
    /// Takes game `e` out of its slot, leaving the slot empty.
    fn take(&mut self, e: Eid) -> (g: NetGame)
        requires
            old(self)@.contains_key(e),
        ensures
            g@ == old(self)@[e],
            final(self).slots@ == old(self).slots@.update(e as int, None),
    {
        let mut slot: Option<NetGame> = None;
        std::mem::swap(&mut slot, &mut self.slots[e]);
        slot.unwrap()
    }

    /// Puts game `g` into slot `e`, which was emptied by `take`.
    fn put_back(&mut self, e: Eid, g: NetGame, Ghost(before): Ghost<Map<Eid, NetGameView>>)
        requires
            e < old(self).slots@.len(),
            before.contains_key(e),
            old(self)@ == before.remove(e),
        ensures
            final(self)@ == before.insert(e, g@),
    {
        let ghost prev = self@;
        self.slots.set(e, Some(g));
        assert forall|n: Eid| n != e implies #[trigger] self@.contains_key(n) == before.contains_key(n) && (
        self@.contains_key(n) ==> self@[n] == before[n]) by {
            assert(prev.contains_key(n) == before.remove(e).contains_key(n));
            if prev.contains_key(n) {
                assert(prev[n] == before.remove(e)[n]);
            }
        }
        assert(self@ =~= before.insert(e, g@));
    }

    /// currently returns the side they are on, and the last move played in the game
    pub fn attach(&mut self, e: Eid, p: Eid) -> (r: (Option<Player>, Option<Move>))
        ensures
            (final(self)@, r) == attach_spec(old(self)@, e, p),
    {
        if e >= self.slots.len() || self.slots[e].is_none() {
            return (None, None);
        }
        let ghost before = self@;
        let mut g = self.take(e);
        assert(self@ =~= before.remove(e));
        let n = g.moves.len();
        let last_move = if n > 0 {
            Some(g.moves[n - 1])
        } else {
            None
        };
        let side = if g.white.is_some() {
            g.black = Some(p);
            Some(Player::Black(Item::Pawn))
        } else {
            g.white = Some(p);
            Some(Player::White(Item::Pawn))
        };
        self.put_back(e, g, Ghost(before));
        (side, last_move)
    }

    /// Records a move and gives the player to pass it on to.
    pub fn update(&mut self, gid: Eid, m: Move, pid: Eid) -> (r: Option<Eid>)
        ensures
            (final(self)@, r) == update_spec(old(self)@, gid, m, pid),
    {
        if gid >= self.slots.len() || self.slots[gid].is_none() {
            return None;
        }
        let ghost before = self@;
        let mut g = self.take(gid);
        assert(self@ =~= before.remove(gid));
        g.moves.push(m);
        let other = if g.white.is_some() && g.black.is_some() {
            if g.white == Some(pid) {
                g.black
            } else {
                g.white
            }
        } else {
            None
        };
        self.put_back(gid, g, Ghost(before));
        other
    }

    /// The smallest entity id of a game with the given game id, if any.
    pub fn find_game(&self, id: u64) -> (r: Option<Eid>)
        ensures
            r == find_spec(self@, id),
    {
        let mut k: usize = 0;
        while k < self.slots.len()
            invariant
                k <= self.slots@.len(),
                forall|n: Eid| n < k && self@.contains_key(n) ==> #[trigger] self@[n].id != id,
            decreases self.slots@.len() - k,
        {
            if let Some(g) = &self.slots[k] {
                if g.id == id {
                    proof {
                        assert(is_first_with_id(self@, k, id));
                        let f = choose|f: Eid| is_first_with_id(self@, f, id);
                        if f < k {
                            assert(self@[f].id != id);
                        } else if f > k {
                            assert(self@[k].id != id);
                        }
                    }
                    return Some(k);
                }
            }
            k += 1;
        }
        None
    }

    /// Removes game `e`.
    pub fn remove(&mut self, e: Eid)
        ensures
            final(self)@ == old(self)@.remove(e),
    {
        if e < self.slots.len() {
            self.slots.set(e, None);
        }
        assert(self@ =~= old(self)@.remove(e));
    }
}



/// A game just opened can be joined by its id: looking the id up finds that
/// game or one opened before it under a smaller entity id.
pub proof fn lemma_opened_game_is_found(games: Map<Eid, NetGameView>, e: Eid, id: u64)
    requires
        is_lowest_free(games, e),
    ensures
        find_spec(games.insert(e, fresh_game(id)), id) matches Some(f) && f <= e,
{
    let gs = games.insert(e, fresh_game(id));
    assert(gs.contains_key(e) && gs[e].id == id);
    lemma_first_with_id_exists(gs, e, id);
    let f = find_spec(gs, id)->Some_0;
    assert(is_first_with_id(gs, f, id));
    if f > e {
        assert(gs[e].id != id);
    }
}

/// The first player to join a game without players plays White, the second
/// Black.
pub proof fn lemma_first_white_then_black(games: Map<Eid, NetGameView>, e: Eid, p1: Eid, p2: Eid)
    requires
        games.contains_key(e),
        games[e].white is None,
    ensures
        attach_spec(games, e, p1).1.0 == Some(Player::White(Item::Pawn)),
        attach_spec(attach_spec(games, e, p1).0, e, p2).1.0 == Some(Player::Black(Item::Pawn)),
{
}

/// Recording a move in an existing game always appends it to the game's
/// moves, whoever has joined; the players, the game id and every other game
/// stay as they were. The move is passed on exactly when both players have
/// joined, to one of them, and a player joining afterwards learns it as the
/// last move.
pub proof fn lemma_update_appends(games: Map<Eid, NetGameView>, gid: Eid, m: Move, pid: Eid, q: Eid)
    requires
        games.contains_key(gid),
    ensures
        update_spec(games, gid, m, pid).0.contains_key(gid),
        update_spec(games, gid, m, pid).0[gid].moves == games[gid].moves.push(m),
        update_spec(games, gid, m, pid).0[gid].white == games[gid].white,
        update_spec(games, gid, m, pid).0[gid].black == games[gid].black,
        update_spec(games, gid, m, pid).0[gid].id == games[gid].id,
        forall|e: Eid|
            e != gid ==> (#[trigger] update_spec(games, gid, m, pid).0.contains_key(e) == games.contains_key(e)) && (
            games.contains_key(e) ==> update_spec(games, gid, m, pid).0[e] == games[e]),
        update_spec(games, gid, m, pid).1 is Some <==> games[gid].white is Some && games[gid].black is Some,
        update_spec(games, gid, m, pid).1 matches Some(o) ==> Some(o) == games[gid].white || Some(o)
            == games[gid].black,
        attach_spec(update_spec(games, gid, m, pid).0, gid, q).1.1 == Some(m),
{
    let gs = update_spec(games, gid, m, pid).0;
    assert forall|e: Eid| e != gid implies (#[trigger] gs.contains_key(e) == games.contains_key(e)) && (
    games.contains_key(e) ==> gs[e] == games[e]) by {}
}

/// A move from a player who has a game never disconnects the player: the
/// server passes it on to the other player once both have joined, and keeps
/// reading otherwise; the player keeps its game and the move is recorded.
pub proof fn lemma_move_keeps_player(games: Map<Eid, NetGameView>, g: Eid, pid: Eid, f: Position, t: Position, n: u64)
    ensures
        !(handle_spec(games, Some(g), pid, Comm::Move(f, t), n).2 is Disconnect),
        handle_spec(games, Some(g), pid, Comm::Move(f, t), n).2 is Forward || handle_spec(
            games,
            Some(g),
            pid,
            Comm::Move(f, t),
            n,
        ).2 is Continue,
        handle_spec(games, Some(g), pid, Comm::Move(f, t), n).1 == Some(g),
        games.contains_key(g) ==> (handle_spec(games, Some(g), pid, Comm::Move(f, t), n).2 is Continue <==> !(
        games[g].white is Some && games[g].black is Some)),
        games.contains_key(g) ==> handle_spec(games, Some(g), pid, Comm::Move(f, t), n).0[g].moves
            == games[g].moves.push((f, t)),
{
}

/// Looking up a game id gives a game with that id, and no game under a
/// smaller entity id has it; it gives nothing exactly when no game has it.
pub proof fn lemma_find_first(games: Map<Eid, NetGameView>, id: u64)
    ensures
        find_spec(games, id) matches Some(e) ==> {
            &&& games.contains_key(e)
            &&& games[e].id == id
            &&& forall|n: Eid| n < e && #[trigger] games.contains_key(n) ==> games[n].id != id
        },
        find_spec(games, id) is None <==> forall|e: Eid| #[trigger] games.contains_key(e) ==> games[e].id != id,
{
    if exists|e: Eid| games.contains_key(e) && #[trigger] games[e].id == id {
        let e = choose|e: Eid| games.contains_key(e) && #[trigger] games[e].id == id;
        lemma_first_with_id_exists(games, e, id);
        let f = find_spec(games, id)->Some_0;
        assert(is_first_with_id(games, f, id));
    }
}

/// Attaching a player to a game seats it as White when nobody is White yet,
/// and as Black otherwise, keeping the other seat, the moves and the game id,
/// and reports the last move recorded; every other game stays as it was.
/// Attaching to a game that does not exist changes nothing.
pub proof fn lemma_attach_seats(games: Map<Eid, NetGameView>, e: Eid, p: Eid)
    ensures
        games.contains_key(e) ==> {
            let (gs, (side, last)) = attach_spec(games, e, p);
            &&& gs.contains_key(e)
            &&& gs[e].moves == games[e].moves
            &&& gs[e].id == games[e].id
            &&& games[e].white is None ==> gs[e].white == Some(p) && gs[e].black == games[e].black && side
                == Some(Player::White(Item::Pawn))
            &&& games[e].white is Some ==> gs[e].white == games[e].white && gs[e].black == Some(p) && side
                == Some(Player::Black(Item::Pawn))
            &&& games[e].moves.len() == 0 ==> last is None
            &&& games[e].moves.len() > 0 ==> last == Some(games[e].moves[games[e].moves.len() - 1])
            &&& forall|n: Eid| n != e ==> (#[trigger] gs.contains_key(n) == games.contains_key(n)) && (
            games.contains_key(n) ==> gs[n] == games[n])
        },
        !games.contains_key(e) ==> attach_spec(games, e, p) == (games, (None::<Player>, None::<Move>)),
{
    if games.contains_key(e) {
        let gs = attach_spec(games, e, p).0;
        assert forall|n: Eid| n != e implies (#[trigger] gs.contains_key(n) == games.contains_key(n)) && (
        games.contains_key(n) ==> gs[n] == games[n]) by {}
    }
}

/// Where some entity id is free, a smallest one is.
pub proof fn lemma_lowest_free_exists(games: Map<Eid, NetGameView>, e: Eid)
    requires
        !games.contains_key(e),
    ensures
        exists|f: Eid| #[trigger] is_lowest_free(games, f),
    decreases e,
{
    if exists|n: Eid| n < e && !#[trigger] games.contains_key(n) {
        let n = choose|n: Eid| n < e && !#[trigger] games.contains_key(n);
        lemma_lowest_free_exists(games, n);
    } else {
        assert(is_lowest_free(games, e));
    }
}

/// The server's answers to the other messages. A request to join a game by
/// id seats the player in the first game with that id and makes it the
/// player's game, or changes nothing when there is none. A request for a new
/// game opens an empty one, with the given game id, under an entity id no game
/// had, and makes it the player's game. Ending a game removes it and passes the
/// end on to both its players; without a game the player is disconnected. The
/// server keeps reading from the player after a join or a new game.
pub proof fn lemma_handle_other_messages(games: Map<Eid, NetGameView>, gid: Option<Eid>, pid: Eid, id: u64, n: u64)
    ensures
        find_spec(games, id) matches Some(e) ==> {
            let r = handle_spec(games, gid, pid, Comm::StartGame(Some(id)), n);
            &&& r.1 == Some(e)
            &&& r.2 is Continue
            &&& games[e].id == id
            &&& r.0.contains_key(e)
            &&& r.0[e].white == Some(pid) || r.0[e].black == Some(pid)
        },
        find_spec(games, id) is None ==> handle_spec(games, gid, pid, Comm::StartGame(Some(id)), n) == (
            games,
            gid,
            ServerAction::Continue,
        ),
        (exists|f: Eid| !games.contains_key(f)) ==> {
            let r = handle_spec(games, gid, pid, Comm::StartGame(None), n);
            &&& r.1 matches Some(e) && !games.contains_key(e) && is_lowest_free(games, e) && r.0 == games.insert(
                e,
                fresh_game(n),
            )
            &&& r.2 is Continue
        },
        gid matches Some(g) ==> {
            let r = handle_spec(games, gid, pid, Comm::EndGame, n);
            &&& !r.0.contains_key(g)
            &&& forall|e: Eid| e != g ==> (#[trigger] r.0.contains_key(e) == games.contains_key(e)) && (
            games.contains_key(e) ==> r.0[e] == games[e])
            &&& games.contains_key(g) ==> r.2 == ServerAction::End(games[g].white, games[g].black)
            &&& !games.contains_key(g) ==> r.2 == ServerAction::End(None, None)
        },
        gid is None ==> handle_spec(games, gid, pid, Comm::EndGame, n) == (games, gid, ServerAction::Disconnect),
{
    lemma_find_first(games, id);
    if let Some(e) = find_spec(games, id) {
        lemma_attach_seats(games, e, pid);
    }
    if exists|f: Eid| !games.contains_key(f) {
        let f = choose|f: Eid| !games.contains_key(f);
        lemma_lowest_free_exists(games, f);
    }
    if let Some(g) = gid {
        let r = handle_spec(games, gid, pid, Comm::EndGame, n);
        assert forall|e: Eid| e != g implies (#[trigger] r.0.contains_key(e) == games.contains_key(e)) && (
        games.contains_key(e) ==> r.0[e] == games[e]) by {}
    }
}

/// What the server does after a message from a player.
#[derive(Debug, Clone, Copy)]
pub enum ServerAction {
    /// keep reading from the player
    Continue,
    /// pass the message on to this player, then keep reading
    Forward(Eid),
    /// the game has ended: pass the message on to these players (White's,
    /// Black's), then stop reading
    End(Option<Eid>, Option<Eid>),
    /// stop reading from the player
    Disconnect,
}

/// The smallest entity id that no game holds.
pub open spec fn lowest_free(games: Map<Eid, NetGameView>) -> Eid {
    choose|e: Eid| is_lowest_free(games, e)
}

/// How the server answers message `msg` from player `pid`, whose game is
/// `gid`: the games after it, the player's game after it, and what to do.
/// A move is recorded in the player's game and passed on to the other player;
/// without a game the player is disconnected. A request to join a game by id
/// attaches the player to the first game with that id, if there is one; a
/// request without an id opens a new game (with id `new_id`) for the player.
/// The end of a game is passed on to both players and the game removed.
pub open spec fn handle_spec(
    games: Map<Eid, NetGameView>,
    gid: Option<Eid>,
    pid: Eid,
    msg: Comm,
    new_id: u64,
) -> (Map<Eid, NetGameView>, Option<Eid>, ServerAction) {
    match msg {
        Comm::Move(f, t) => match gid {
            Some(g) => {
                let (gs, other) = update_spec(games, g, (f, t), pid);
                (gs, gid, match other {
                    Some(o) => ServerAction::Forward(o),
                    None => ServerAction::Continue,
                })
            },
            None => (games, gid, ServerAction::Disconnect),
        },
        Comm::StartGame(Some(id)) => match find_spec(games, id) {
            Some(e) => (attach_spec(games, e, pid).0, Some(e), ServerAction::Continue),
            None => (games, gid, ServerAction::Continue),
        },
        Comm::StartGame(None) => {
            let e = lowest_free(games);
            (games.insert(e, fresh_game(new_id)), Some(e), ServerAction::Continue)
        },
        Comm::EndGame => match gid {
            Some(g) => {
                let players = if games.contains_key(g) {
                    (games[g].white, games[g].black)
                } else {
                    (None, None)
                };
                (games.remove(g), gid, ServerAction::End(players.0, players.1))
            },
            None => (games, gid, ServerAction::Disconnect),
        },
    }
}

impl Games {
    /// The players of game `e`: White's and Black's.
    fn players(&self, e: Eid) -> (r: (Option<Eid>, Option<Eid>))
        ensures
            r == (if self@.contains_key(e) {
                (self@[e].white, self@[e].black)
            } else {
                (None, None)
            }),
    {
        if e < self.slots.len() {
            if let Some(g) = &self.slots[e] {
                return (g.white, g.black);
            }
        }
        (None, None)
    }

    /// Answers a message from player `pid`, whose game is `gid`; a new game
    /// gets a random game id.
    pub fn handle(&mut self, gid: Option<Eid>, pid: Eid, msg: Comm) -> (r: (Option<Eid>, ServerAction))
        ensures
            exists|new_id: u64| (final(self)@, r.0, r.1) == handle_spec(old(self)@, gid, pid, msg, new_id),
    {
        let ghost mut new_id: u64 = 0;
        let r = match msg {
            Comm::Move(f, t) => {
                if let Some(g) = gid {
                    let other = self.update(g, (f, t), pid);
                    if let Some(o) = other { //pass along new move
                        (gid, ServerAction::Forward(o))
                    } else {
                        (gid, ServerAction::Continue)
                    }
                } else {
                    (gid, ServerAction::Disconnect)
                }
            },
            Comm::StartGame(g) => {
                if let Some(id) = g {
                    if let Some(e) = self.find_game(id) {
                        self.attach(e, pid);
                        (Some(e), ServerAction::Continue)
                    } else {
                        (gid, ServerAction::Continue)
                    }
                } else { //generate a game id
                    let e = self.insert();
                    proof {
                        new_id = self@[e].id;
                    }
                    (Some(e), ServerAction::Continue)
                }
            },
            Comm::EndGame => { //end current game
                if let Some(g) = gid {
                    let (white, black) = self.players(g);
                    self.remove(g);
                    (gid, ServerAction::End(white, black))
                } else {
                    (gid, ServerAction::Disconnect)
                }
            },
        };
        assert((self@, r.0, r.1) == handle_spec(old(self)@, gid, pid, msg, new_id));
        r
    }
}

} // verus!
