use vstd::prelude::*;
use crate::game::Update;
use crate::net::game::OnlineGame;
use crate::net::{ClientId, Command, GameId, PlayerRole, Response};

verus! {

/// What is to be sent after a request has been carried out.
#[derive(Clone, Debug, PartialEq, Eq)]
pub enum Dispatch {
    /// A message for every client that is connected.
    ToAll(Response),
    /// A message for one client.
    ToOne(ClientId, Response),
    /// A message for each of the clients listed.
    ToEach(Vec<ClientId>, Response),
    /// Nothing.
    Nothing,
    /// Nothing; the request named a game that does not exist, and serving
    /// is to start afresh.
    Halt,
}

/// The games of the server. The first game made has the number 1, and each
/// later one the next number.
pub struct GameManager {
    pub(crate) games: Vec<OnlineGame>,
}

impl GameManager {
    /// Game number `k + 1` stands in place `k`. This holds of every value
    /// that `new` and `handle` give.
    pub open(crate) spec fn wf(self) -> bool {
        forall|k: int| 0 <= k < self.games@.len() ==> (#[trigger] self.games@[k]).id == k + 1
    }

    /// The games, in the order in which they were made.
    pub open(crate) spec fn games(self) -> Seq<OnlineGame> {
        self.games@
    }

    /// Whether there is a game with the number `id`.
    pub open spec fn has_game(self, id: GameId) -> bool {
        1 <= id <= self.games().len()
    }

    /// The game with the number `id`.
    pub open spec fn game(self, id: GameId) -> OnlineGame
        recommends
            self.has_game(id),
    {
        self.games()[id - 1]
    }

    /// Whether all games but the one with the number `id` are the same
    /// here and in `other`, and as many.
    pub open spec fn same_but(self, other: GameManager, id: GameId) -> bool {
        &&& self.games().len() == other.games().len()
        &&& forall|k: int|
            0 <= k < self.games().len() && k != id - 1 ==> #[trigger] self.games()[k]
                == other.games()[k]
    }

    /// A server without games.
    pub fn new() -> (manager: GameManager)
        ensures
            manager.wf(),
            manager.games().len() == 0,
    {
        GameManager { games: Vec::new() }
    }

    /// How many games there are; also the number of the newest.
    pub fn game_count(&self) -> (n: usize)
        ensures
            n == self.games().len(),
    {
        self.games.len()
    }

    /// Looks up the game with the number `id`.
    pub fn get_game(&self, id: GameId) -> (game: Option<&OnlineGame>)
        requires
            self.wf(),
        ensures
            game is Some <==> self.has_game(id),
            game matches Some(g) ==> *g == self.game(id) && g.id == id,
    {
        if id >= 1 && id as usize <= self.games.len() {
            Some(&self.games[(id - 1) as usize])
        } else {
            None
        }
    }

    /// Carries out the request `cmd` of client `client_id` and says what
    /// is to be sent. `coin` decides a random seat.
    ///
    /// A new game gets the next number and is announced to all. A client
    /// that joins a game is told its role; one that is refused is told
    /// nothing, and neither is one that asks for a game that does not
    /// exist. A move is played on the board of its game, and everyone who
    /// takes part is sent the squares that changed, none where the move
    /// was not legal; a move for a game that does not exist is passed
    /// over.
    pub fn handle(&mut self, client_id: ClientId, cmd: Command, coin: bool) -> (out: Dispatch)
        requires
            old(self).wf(),
            cmd is NewGame ==> old(self).games().len() < u32::MAX,
            cmd matches Command::JoinGame(p) ==> p.side != PlayerRole::Both,
        ensures
            final(self).wf(),
            match cmd {
                Command::NewGame(params) => {
                    let id = (old(self).games().len() + 1) as u32;
                    &&& final(self).games().len() == old(self).games().len() + 1
                    &&& forall|k: int|
                        0 <= k < old(self).games().len() ==> #[trigger] final(self).games()[k]
                            == old(self).games()[k]
                    &&& final(self).game(id).id == id
                    &&& final(self).game(id).chess@ == crate::game::start_position()
                    &&& !final(self).game(id)._started
                    &&& final(self).game(id).seats().participants().len() == 0
                    &&& final(self).game(id)._time == params.time
                    &&& final(self).game(id)._time_inc == params.time_inc
                    &&& out == Dispatch::ToAll(Response::GameCreated(id, client_id))
                },
                Command::JoinGame(p) => if old(self).has_game(p.game_id) {
                    let before = old(self).game(p.game_id);
                    let after = final(self).game(p.game_id);
                    &&& final(self).same_but(*old(self), p.game_id)
                    &&& after.seats() == before.seats().joined(client_id, p.side, coin)
                    &&& after.chess == before.chess
                    &&& after.id == before.id
                    &&& after._started == before._started
                    &&& after._time == before._time
                    &&& after._time_inc == before._time_inc
                    &&& out == (match before.seats().answer(p.side, coin) {
                        Ok(role) => Dispatch::ToOne(
                            client_id,
                            Response::GameJoined(p.game_id, client_id, role),
                        ),
                        Err(_) => Dispatch::Nothing,
                    })
                } else {
                    final(self).games() == old(self).games() && out == Dispatch::Halt
                },
                Command::Move(id, mv) => if old(self).has_game(id) {
                    let before = old(self).game(id);
                    let after = final(self).game(id);
                    &&& final(self).same_but(*old(self), id)
                    &&& after.chess@ == before.chess@.after(mv)
                    &&& after.seats() == before.seats()
                    &&& after.id == before.id
                    &&& after._started == before._started
                    &&& after._time == before._time
                    &&& after._time_inc == before._time_inc
                    &&& out matches Dispatch::ToEach(to, Response::Update(diff))
                    &&& to@ == before.seats().participants()
                    &&& diff@ == (if before.chess@.is_legal(mv.src, mv.dst) {
                        before.chess@.diff(mv.src, mv.dst)
                    } else {
                        Seq::<Update>::empty()
                    })
                } else {
                    final(self).games() == old(self).games() && out == Dispatch::Nothing
                },
            },
    {
        match cmd {
            Command::NewGame(params) => {
                let id: GameId = (self.games.len() + 1) as u32;
                self.games.push(OnlineGame::new(id, &params));
                Dispatch::ToAll(Response::GameCreated(id, client_id))
            },
            Command::JoinGame(p) => {
                if p.game_id < 1 || p.game_id as usize > self.games.len() {
                    return Dispatch::Halt;
                }
                let game = &mut self.games[(p.game_id - 1) as usize];
                match game.seat(client_id, p.side, coin) {
                    Ok(role) => Dispatch::ToOne(
                        client_id,
                        Response::GameJoined(p.game_id, client_id, role),
                    ),
                    Err(_) => Dispatch::Nothing,
                }
            },
            Command::Move(id, mv) => {
                if id < 1 || id as usize > self.games.len() {
                    return Dispatch::Nothing;
                }
                let game = &mut self.games[(id - 1) as usize];
                let to = game.get_participants();
                let diff = game.make_move(mv);
                assert(diff@.len() == 0 ==> diff@ =~= Seq::<Update>::empty());
                Dispatch::ToEach(to, Response::Update(diff))
            },
        }
    }
}

} // verus!
