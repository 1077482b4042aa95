use vstd::prelude::*;
use crate::chessmove::ChessMove;
use crate::game::Update;

pub mod buffer;
pub mod frame;
pub mod game;
pub mod manager;

verus! {

/// Names a game on the server.
pub type GameId = u32;

/// Names a connected client.
pub type ClientId = usize;

/// The largest frame, in bytes.
pub const BUF_LEN: usize = 64;

/// First byte of the message that greets a client with its number.
pub const LOGIN: u8 = 0xF0;

/// First byte of a request for a new game.
pub const NEW_GAME: u8 = 0xA;

/// First byte of a request to play a move.
pub const MAKE_MOVE: u8 = 0xC;

/// First byte of the message that announces a new game.
pub const GAME_CREATED: u8 = 0x81;

/// First byte of a request to join a game, and of the answer to it.
pub const JOIN_GAME: u8 = 0x82;

/// First byte of the message that reports what a move has changed.
pub const BOARD_UPDATED: u8 = 0x82;

/// The byte that separates the parts of a message.
pub const SEPARATOR: u8 = 0x20;

/// What a client asks of a new game.
#[derive(Copy, Clone, Debug, PartialEq, Eq, Structural)]
pub struct NewGameParams {
    /// The variant of chess; only standard chess is played.
    pub mode: u8,
    /// Time on each clock, in seconds.
    pub time: u32,
    /// Time added after each move, in seconds.
    pub time_inc: u32,
}

/// The part that a client takes, or asks to take, in a game.
#[derive(Copy, Clone, Debug, PartialEq, Eq, Structural)]
pub enum PlayerRole {
    Black,
    White,
    Random,
    Spectator,
    Both,
}

impl PlayerRole {
    /// The byte that stands for the role on the wire.
    pub open spec fn code(self) -> u8 {
        match self {
            PlayerRole::Black => 0,
            PlayerRole::White => 1,
            PlayerRole::Random => 2,
            PlayerRole::Spectator => 3,
            PlayerRole::Both => 4,
        }
    }

    /// The role that the byte `b` stands for; a byte that stands for none
    /// makes a spectator.
    pub open spec fn of_code(b: u8) -> PlayerRole {
        if b == 0 {
            PlayerRole::Black
        } else if b == 1 {
            PlayerRole::White
        } else if b == 2 {
            PlayerRole::Random
        } else if b == 4 {
            PlayerRole::Both
        } else {
            PlayerRole::Spectator
        }
    }

    /// Encodes the role in one byte.
    pub fn as_byte(self) -> (b: u8)
        ensures
            b == self.code(),
            PlayerRole::of_code(b) == self,
    {
        match self {
            PlayerRole::Black => 0,
            PlayerRole::White => 1,
            PlayerRole::Random => 2,
            PlayerRole::Spectator => 3,
            PlayerRole::Both => 4,
        }
    }

    /// Reads a role from its byte.
    pub fn from_byte(b: u8) -> (role: PlayerRole)
        ensures
            role == PlayerRole::of_code(b),
    {
        match b {
            0 => PlayerRole::Black,
            1 => PlayerRole::White,
            2 => PlayerRole::Random,
            3 => PlayerRole::Spectator,
            4 => PlayerRole::Both,
            _ => PlayerRole::Spectator,
        }
    }
}

/// What a client asks when it joins a game.
#[derive(Copy, Clone, Debug, PartialEq, Eq, Structural)]
pub struct JoinGameParams {
    pub game_id: GameId,
    pub side: PlayerRole,
}

/// A request of a client, as read from one frame.
#[derive(Copy, Clone, Debug, PartialEq, Eq, Structural)]
pub enum Command {
    NewGame(NewGameParams),
    JoinGame(JoinGameParams),
    Move(GameId, ChessMove),
}

impl Command {
    /// The name of the request in words.
    pub open spec fn label_of(self) -> Seq<char> {
        match self {
            Command::NewGame(_) => "New Game"@,
            Command::JoinGame(_) => "Join Game"@,
            Command::Move(_, _) => "Make Chess Move"@,
        }
    }

    /// Gives the name of the request in words.
    pub fn label(&self) -> (text: &'static str)
        ensures
            text@ == self.label_of(),
    {
        match self {
            Command::NewGame(_) => "New Game",
            Command::JoinGame(_) => "Join Game",
            Command::Move(_, _) => "Make Chess Move",
        }
    }
}

/// What the server tells its clients.
#[derive(Clone, Debug, PartialEq, Eq)]
pub enum Response {
    /// The squares that a move has changed, each with what it holds now.
    Update(Vec<Update>),
    /// A game was created, with the client that asked for it.
    GameCreated(GameId, ClientId),
    /// A client has joined a game in the given role.
    GameJoined(GameId, ClientId, PlayerRole),
}

/// A message from the server to one client.
#[derive(Clone, Debug, PartialEq, Eq)]
pub struct ServerToClientMessage {
    pub msg: Response,
}

/// Byte number `k` of `x`, the lowest first.
pub open spec fn le_byte(x: int, k: int) -> u8 {
    if k == 0 {
        (x % 256) as u8
    } else if k == 1 {
        (x / 256 % 256) as u8
    } else if k == 2 {
        (x / 65536 % 256) as u8
    } else {
        (x / 16777216 % 256) as u8
    }
}

/// The four lowest bytes of `x`, the lowest first.
pub open spec fn le_bytes(x: int) -> Seq<u8> {
    seq![le_byte(x, 0), le_byte(x, 1), le_byte(x, 2), le_byte(x, 3)]
}

/// The number that four bytes write, the lowest first.
pub open spec fn le_value(b: Seq<u8>) -> int {
    b[0] + b[1] * 256 + b[2] * 65536 + b[3] * 16777216
}

/// Appends to `out` the four bytes of `x`, the lowest first.
pub fn push_le_bytes(out: &mut Vec<u8>, x: u32)
    ensures
        final(out)@ == old(out)@ + le_bytes(x as int),
{
    out.push((x % 256) as u8);
    out.push((x / 256 % 256) as u8);
    out.push((x / 65536 % 256) as u8);
    out.push((x / 16777216 % 256) as u8);
    assert(out@ =~= old(out)@ + le_bytes(x as int));
}

/// Reads the number that the four bytes of `bytes` from `at` on write, the
/// lowest first.
pub fn read_le_bytes(bytes: &Vec<u8>, at: usize) -> (x: u32)
    requires
        at + 4 <= bytes@.len(),
    ensures
        x == le_value(bytes@.subrange(at as int, at + 4)),
{
    let n = bytes.len();
    assert(at + 4 <= n);
    let b0 = bytes[at] as u32;
    let b1 = bytes[at + 1] as u32;
    let b2 = bytes[at + 2] as u32;
    let b3 = bytes[at + 3] as u32;
    b0 + b1 * 256 + b2 * 65536 + b3 * 16777216
}

/// Writing a number in four bytes and reading them gives the number back.
pub proof fn lemma_le_round_trip(x: int)
    requires
        0 <= x < 0x1_0000_0000,
    ensures
        le_bytes(x).len() == 4,
        le_value(le_bytes(x)) == x,
{
}

} // verus!
