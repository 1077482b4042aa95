use vstd::prelude::*;
use crate::game::Update;
use crate::net::{
    push_le_bytes, ClientId, GameId, PlayerRole, Response, BOARD_UPDATED, BUF_LEN, GAME_CREATED,
    JOIN_GAME, SEPARATOR,
};
use crate::pieces::occupant_code;

verus! {

/// The bytes of one frame: `len` bytes at the front of `buf`.
pub struct Buffer {
    pub buf: [u8; BUF_LEN],
    pub len: usize,
}

impl Buffer {
    /// The bytes that the buffer holds.
    pub open spec fn content(self) -> Seq<u8> {
        self.buf@.take(self.len as int)
    }

    /// An empty buffer.
    pub fn new() -> (b: Buffer)
        ensures
            b.len == 0,
            b.content().len() == 0,
            forall|i: int| 0 <= i < BUF_LEN ==> b.buf@[i] == 0,
    {
        Buffer { buf: [0;BUF_LEN], len: 0 }
    }

    /// Fills the buffer with the frame that carries `data`: one byte that
    /// gives the length of `data`, then `data`.
    pub fn frame(&mut self, data: &Vec<u8>)
        requires
            data@.len() < BUF_LEN,
        ensures
            final(self).len == data@.len() + 1,
            final(self).content() == seq![data@.len() as u8] + data@,
    {
        let n = data.len();
        self.buf[0] = n as u8;
        self.len = n + 1;
        let mut i: usize = 0;
        while i < n
            invariant
                i <= n,
                n == data@.len(),
                n < BUF_LEN,
                self.len == n + 1,
                self.buf@[0] == n as u8,
                forall|k: int| 0 <= k < i ==> self.buf@[k + 1] == data@[k],
            decreases n - i,
        {
            self.buf[i + 1] = data[i];
            i = i + 1;
        }
        assert(self.content() =~= seq![data@.len() as u8] + data@);
    }

    /// Copies out the bytes that the buffer holds.
    pub fn to_vec(&self) -> (bytes: Vec<u8>)
        requires
            self.len <= BUF_LEN,
        ensures
            bytes@ == self.content(),
    {
        let mut bytes: Vec<u8> = Vec::new();
        let mut i: usize = 0;
        while i < self.len
            invariant
                i <= self.len <= BUF_LEN,
                bytes@ == self.buf@.take(i as int),
            decreases self.len - i,
        {
            bytes.push(self.buf[i]);
            assert(bytes@ =~= self.buf@.take(i + 1));
            i = i + 1;
        }
        bytes
    }
}

/// The two bytes that stand for one changed square: its storage position,
/// then the byte of what it holds now, 0 for nothing.
pub open spec fn update_code(u: Update) -> Seq<u8> {
    seq![u.0.index() as u8, occupant_code(u.1)]
}

/// The bytes that stand for the changed squares `diff`: two for each, in
/// their order.
pub open spec fn diff_code(diff: Seq<Update>) -> Seq<u8>
    decreases diff.len(),
{
    if diff.len() == 0 {
        Seq::empty()
    } else {
        diff_code(diff.drop_last()) + update_code(diff.last())
    }
}

/// Encodes what a move has changed: for each square one byte that names it
/// and one for what it holds now.
pub fn encode_diff(diff: &Vec<Update>) -> (bytes: Vec<u8>)
    ensures
        bytes@ == diff_code(diff@),
        bytes@.len() == 2 * diff@.len(),
{
    let mut bytes: Vec<u8> = Vec::new();
    let mut i: usize = 0;
    while i < diff.len()
        invariant
            i <= diff@.len(),
            bytes@ == diff_code(diff@.take(i as int)),
            bytes@.len() == 2 * i,
        decreases diff@.len() - i,
    {
        let (tile, occupant) = diff[i];
        proof {
            assert(diff@.take(i + 1).drop_last() =~= diff@.take(i as int));
            assert(diff@.take(i + 1).last() == diff@[i as int]);
        }
        let ghost before = bytes@;
        bytes.push(tile.to_index());
        bytes.push(
            match occupant {
                Some(p) => p.as_byte(),
                None => 0,
            },
        );
        assert(bytes@ =~= before + update_code(diff@[i as int]));
        i = i + 1;
    }
    assert(diff@.take(diff@.len() as int) =~= diff@);
    bytes
}

/// The message that reports the changed squares `diff`.
pub open spec fn update_message(diff: Seq<Update>) -> Seq<u8> {
    seq![BOARD_UPDATED] + diff_code(diff)
}

/// Builds the message that reports what a move has changed.
pub fn build_update_message(tiles: &Vec<Update>) -> (msg: Vec<u8>)
    ensures
        msg@ == update_message(tiles@),
{
    let mut msg: Vec<u8> = Vec::new();
    msg.push(BOARD_UPDATED);
    let mut code = encode_diff(tiles);
    msg.append(&mut code);
    msg
}

/// The message that announces game `game_id`, created for `client_id`.
pub open spec fn created_message(game_id: GameId, client_id: ClientId) -> Seq<u8> {
    seq![GAME_CREATED] + crate::net::le_bytes(game_id as int) + seq![SEPARATOR]
        + crate::net::le_bytes(low_four(client_id as int))
}

/// The message that tells `client_id` that it has joined `game_id` as
/// `side`.
pub open spec fn joined_message(game_id: GameId, client_id: ClientId, side: PlayerRole) -> Seq<
    u8,
> {
    seq![JOIN_GAME] + crate::net::le_bytes(game_id as int) + seq![SEPARATOR]
        + crate::net::le_bytes(low_four(client_id as int)) + seq![SEPARATOR, side.code()]
}

impl Response {
    /// The bytes that carry the response to a client.
    pub open spec fn code(self) -> Seq<u8> {
        match self {
            Response::Update(diff) => update_message(diff@),
            Response::GameCreated(game_id, client_id) => created_message(game_id, client_id),
            Response::GameJoined(game_id, client_id, side) => joined_message(
                game_id,
                client_id,
                side,
            ),
        }
    }

    /// Encodes the response for the wire. Numbers go out in four bytes, the
    /// lowest first; of a client's number the four lowest bytes go out.
    pub fn encode(&self) -> (bytes: Vec<u8>)
        ensures
            bytes@ == self.code(),
    {
        match self {
            Response::Update(diff) => build_update_message(diff),
            Response::GameCreated(game_id, client_id) => {
                let mut bytes: Vec<u8> = Vec::new();
                bytes.push(GAME_CREATED);
                push_le_bytes(&mut bytes, *game_id);
                bytes.push(SEPARATOR);
                push_le_bytes(&mut bytes, low_half(*client_id));
                assert(bytes@ =~= created_message(*game_id, *client_id));
                bytes
            },
            Response::GameJoined(game_id, client_id, side) => {
                let mut bytes: Vec<u8> = Vec::new();
                bytes.push(JOIN_GAME);
                push_le_bytes(&mut bytes, *game_id);
                bytes.push(SEPARATOR);
                push_le_bytes(&mut bytes, low_half(*client_id));
                bytes.push(SEPARATOR);
                bytes.push(side.as_byte());
                assert(bytes@ =~= joined_message(*game_id, *client_id, *side));
                bytes
            },
        }
    }
}

/// The number that the four lowest bytes of `x` write.
pub open spec fn low_four(x: int) -> int {
    x % 0x1_0000_0000
}

/// Gives the number that the four lowest bytes of `x` write.
pub fn low_half(x: usize) -> (y: u32)
    ensures
        y == low_four(x as int),
{
    (x as u64 % 0x1_0000_0000) as u32
}

} // verus!
