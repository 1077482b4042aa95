use vstd::prelude::*;
use core::time::Duration;
use std::time::SystemTime;
use crate::chessmove::ChessMove;
use crate::game::{Chess, Update};
use crate::net::{ClientId, GameId, NewGameParams, PlayerRole};

verus! {

/// `std::time::SystemTime`, a reading of the system clock. Nothing is said
/// of what a reading holds.
#[verifier::external_type_specification]
#[verifier::external_body]
pub struct ExSystemTime(SystemTime);

/// `SystemTime::now` of the standard library reads the system clock.
/// Nothing is claimed of the reading: two calls may give any two values.
pub assume_specification[ SystemTime::now ]() -> (now: SystemTime)
;

/// `Duration::subsec_nanos` of the standard library gives the part of a
/// duration below one second, in nanoseconds, which its documentation
/// bounds by one billion.
pub assume_specification[ Duration::subsec_nanos ](d: &Duration) -> (n: u32)
    ensures
        n < 1_000_000_000,
;

/// `SystemTime::duration_since` of the standard library, asked for the
/// time that has passed between `std::time::UNIX_EPOCH` and `now`. There
/// is none where the clock stood before that moment. Nothing is claimed of
/// the duration.
#[verifier::external_body]
fn since_epoch(now: &SystemTime) -> (passed: Option<Duration>) {
    match now.duration_since(std::time::UNIX_EPOCH) {
        Ok(d) => Some(d),
        Err(_) => None,
    }
}

/// Tosses a coin by the clock: whether the nanoseconds of the current
/// second are odd. A clock that stands before 1970 gives `false`. Either
/// side may come up at any call; `coin_of` says which side comes of which
/// reading.
pub fn toss() -> (coin: bool) {
    let now = SystemTime::now();
    let nanos = match since_epoch(&now) {
        Some(d) => Some(d.subsec_nanos()),
        None => None,
    };
    coin_of(nanos)
}

/// The side of the coin that a reading of the clock gives: `true` where
/// there is a reading and its nanoseconds are odd.
pub open spec fn coin_side(nanos: Option<u32>) -> bool {
    nanos matches Some(n) && n % 2 == 1
}

/// Turns a reading of the clock into a side of the coin: `true` for an odd
/// number of nanoseconds, `false` for an even one and for no reading.
pub fn coin_of(nanos: Option<u32>) -> (coin: bool)
    ensures
        coin == coin_side(nanos),
{
    match nanos {
        Some(n) => n % 2 != 0,
        None => false,
    }
}

/// Why a client could not take a seat.
#[derive(Copy, Clone, Debug, PartialEq, Eq, Structural)]
pub enum JoinError {
    /// Someone plays Black already.
    BlackTaken,
    /// Someone plays White already.
    WhiteTaken,
    /// Both seats are taken.
    GameFull,
}

/// A game on the server: the position, the two players, and those who
/// watch.
pub struct OnlineGame {
    pub id: GameId,
    pub chess: Chess,
    pub _started: bool,
    pub white_player: Option<ClientId>,
    pub black_player: Option<ClientId>,
    pub spectators: Vec<ClientId>,
    pub _time: u32,
    pub _time_inc: u32,
}

/// The seats of a game and those who watch it.
pub struct Seats {
    pub white: Option<ClientId>,
    pub black: Option<ClientId>,
    pub spectators: Seq<ClientId>,
}

impl Seats {
    /// The answer to the client who asks for `side`, where `coin` decides a
    /// random seat: the role it gets, or why it gets none.
    pub open spec fn answer(self, side: PlayerRole, coin: bool) -> Result<PlayerRole, JoinError>
        recommends
            side != PlayerRole::Both,
    {
        match side {
            PlayerRole::Black => if self.black is Some {
                Err(JoinError::BlackTaken)
            } else {
                Ok(PlayerRole::Black)
            },
            PlayerRole::White => if self.white is Some {
                Err(JoinError::WhiteTaken)
            } else {
                Ok(PlayerRole::White)
            },
            PlayerRole::Random => if self.white is Some && self.black is Some {
                Err(JoinError::GameFull)
            } else if coin {
                Ok(PlayerRole::White)
            } else {
                Ok(PlayerRole::Black)
            },
            _ => Ok(PlayerRole::Spectator),
        }
    }

    /// The seats after `client` has asked for `side`. A refused client
    /// changes nothing. A client that asks for a colour takes that seat; one
    /// that watches is added behind the other spectators. A client that
    /// asks for a random seat first takes the seat beside a player who is
    /// alone, then the seat of that player too where it was White's, and
    /// last the seat that `coin` names: White's for `true`, Black's for
    /// `false`.
    pub open spec fn joined(self, client: ClientId, side: PlayerRole, coin: bool) -> Seats
        recommends
            side != PlayerRole::Both,
    {
        if self.answer(side, coin) is Err {
            self
        } else {
            match side {
                PlayerRole::Black => Seats { black: Some(client), ..self },
                PlayerRole::White => Seats { white: Some(client), ..self },
                PlayerRole::Random => {
                    let beside = if self.white is Some {
                        Seats { black: Some(client), ..self }
                    } else {
                        self
                    };
                    let both = if beside.black is Some {
                        Seats { white: Some(client), ..beside }
                    } else {
                        beside
                    };
                    if coin {
                        Seats { white: Some(client), ..both }
                    } else {
                        Seats { black: Some(client), ..both }
                    }
                },
                _ => Seats { spectators: self.spectators.push(client), ..self },
            }
        }
    }

    /// What comes of the request of `client` for `side`: the answer and
    /// the seats afterwards.
    pub open spec fn outcome(self, client: ClientId, side: PlayerRole, coin: bool) -> (
        Result<PlayerRole, JoinError>,
        Seats,
    ) {
        (self.answer(side, coin), self.joined(client, side, coin))
    }

    /// Everyone who takes part: White, then Black, then those who watch.
    pub open spec fn participants(self) -> Seq<ClientId> {
        (match self.white {
            Some(w) => seq![w],
            None => Seq::empty(),
        }) + (match self.black {
            Some(b) => seq![b],
            None => Seq::empty(),
        }) + self.spectators
    }
}

impl OnlineGame {
    /// The seats of the game.
    pub open spec fn seats(self) -> Seats {
        Seats { white: self.white_player, black: self.black_player, spectators: self.spectators@ }
    }

    /// A game that nobody has joined yet, in the starting position, with
    /// the clocks that `params` asks for.
    pub fn new(id: GameId, params: &NewGameParams) -> (game: OnlineGame)
        ensures
            game.id == id,
            game.chess@ == crate::game::start_position(),
            !game._started,
            game.white_player is None,
            game.black_player is None,
            game.spectators@.len() == 0,
            game._time == params.time,
            game._time_inc == params.time_inc,
    {
        OnlineGame {
            id,
            chess: Chess::new(),
            _started: false,
            white_player: None,
            black_player: None,
            spectators: Vec::new(),
            _time: params.time,
            _time_inc: params.time_inc,
        }
    }

    /// Starts the game if both players are there and it has not started
    /// yet, and says whether it did.
    pub fn _start_game(&mut self) -> (started: bool)
        ensures
            started == (old(self).white_player is Some && old(self).black_player is Some
                && !old(self)._started),
            final(self)._started == (old(self)._started || started),
            final(self).seats() == old(self).seats(),
            final(self).chess == old(self).chess,
            final(self).id == old(self).id,
            final(self)._time == old(self)._time,
            final(self)._time_inc == old(self)._time_inc,
    {
        if self.white_player.is_some() && self.black_player.is_some() && !self._started {
            self._started = true;
            true
        } else {
            false
        }
    }

    /// Seats `client_id` as `side` and gives the role it got. A seat that
    /// is taken is refused, and so is a random seat in a full game; a
    /// refusal changes nothing. A random seat is picked by the clock, so
    /// that either seat may come of it; all else is as `seat` says.
    pub fn add_player(&mut self, client_id: ClientId, side: PlayerRole) -> (r: Result<
        PlayerRole,
        JoinError,
    >)
        requires
            side != PlayerRole::Both,
        ensures
            (r, final(self).seats()) == old(self).seats().outcome(client_id, side, true) || (
            r,
            final(self).seats(),
            ) == old(self).seats().outcome(client_id, side, false),
            side != PlayerRole::Random ==> (r, final(self).seats()) == old(self).seats().outcome(
                client_id,
                side,
                false,
            ),
            final(self).chess == old(self).chess,
            final(self).id == old(self).id,
            final(self)._started == old(self)._started,
            final(self)._time == old(self)._time,
            final(self)._time_inc == old(self)._time_inc,
    {
        let coin = match side {
            PlayerRole::Random => toss(),
            _ => false,
        };
        self.seat(client_id, side, coin)
    }

    /// Seats `client_id` as `side` and gives the role it got, with `coin`
    /// to pick a random seat: White's for `true`, Black's for `false`. A
    /// seat that is taken is refused, and so is a random seat in a full
    /// game; a refusal changes nothing.
    pub fn seat(&mut self, client_id: ClientId, side: PlayerRole, coin: bool) -> (r: Result<
        PlayerRole,
        JoinError,
    >)
        requires
            side != PlayerRole::Both,
        ensures
            r == old(self).seats().answer(side, coin),
            final(self).seats() == old(self).seats().joined(client_id, side, coin),
            final(self).chess == old(self).chess,
            final(self).id == old(self).id,
            final(self)._started == old(self)._started,
            final(self)._time == old(self)._time,
            final(self)._time_inc == old(self)._time_inc,
    {
        match side {
            PlayerRole::Black => {
                if self.black_player.is_some() {
                    Err(JoinError::BlackTaken)
                } else {
                    self.black_player = Some(client_id);
                    Ok(PlayerRole::Black)
                }
            },
            PlayerRole::White => {
                if self.white_player.is_some() {
                    Err(JoinError::WhiteTaken)
                } else {
                    self.white_player = Some(client_id);
                    Ok(PlayerRole::White)
                }
            },
            PlayerRole::Random => {
                if self.white_player.is_some() && self.black_player.is_some() {
                    return Err(JoinError::GameFull);
                }
                if self.white_player.is_some() {
                    self.black_player = Some(client_id);
                }
                if self.black_player.is_some() {
                    self.white_player = Some(client_id);
                }
                if coin {
                    self.white_player = Some(client_id);
                    Ok(PlayerRole::White)
                } else {
                    self.black_player = Some(client_id);
                    Ok(PlayerRole::Black)
                }
            },
            _ => {
                self.spectators.push(client_id);
                Ok(PlayerRole::Spectator)
            },
        }
    }

    /// Everyone who is to hear of a move: White, Black, and those who
    /// watch, in this order.
    pub fn get_participants(&self) -> (clients: Vec<ClientId>)
        ensures
            clients@ == self.seats().participants(),
    {
        let mut clients: Vec<ClientId> = Vec::new();
        if let Some(w) = self.white_player {
            clients.push(w);
        }
        if let Some(b) = self.black_player {
            clients.push(b);
        }
        let ghost players = clients@;
        let mut i: usize = 0;
        while i < self.spectators.len()
            invariant
                i <= self.spectators@.len(),
                clients@ == players + self.spectators@.take(i as int),
            decreases self.spectators@.len() - i,
        {
            clients.push(self.spectators[i]);
            assert(self.spectators@.take(i + 1) =~= self.spectators@.take(i as int).push(
                self.spectators@[i as int],
            ));
            i = i + 1;
        }
        assert(self.spectators@.take(self.spectators@.len() as int) =~= self.spectators@);
        clients
    }

    /// Plays `chessmove` on the board of the game and gives back the
    /// squares that changed; none where the move is not legal.
    pub fn make_move(&mut self, chessmove: ChessMove) -> (updated: Vec<Update>)
        ensures
            final(self).chess@ == old(self).chess@.after(chessmove),
            old(self).chess@.is_legal(chessmove.src, chessmove.dst) ==> updated@
                == old(self).chess@.diff(chessmove.src, chessmove.dst),
            !old(self).chess@.is_legal(chessmove.src, chessmove.dst) ==> updated@.len() == 0
                && final(self).chess == old(self).chess,
            final(self).seats() == old(self).seats(),
            final(self).id == old(self).id,
            final(self)._started == old(self)._started,
            final(self)._time == old(self)._time,
            final(self)._time_inc == old(self)._time_inc,
    {
        self.chess.make_move(chessmove)
    }
}

} // verus!
