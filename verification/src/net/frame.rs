use vstd::prelude::*;
use crate::chessmove::{parse_move_chars, parsed_move};
use crate::net::buffer::Buffer;
use crate::net::{
    le_value, read_le_bytes, Command, JoinGameParams, NewGameParams, PlayerRole, BUF_LEN,
    JOIN_GAME, MAKE_MOVE, NEW_GAME, SEPARATOR,
};

verus! {

/// Where the part of a frame that starts at `from` ends: at the next
/// separator, or at the end of `s`.
pub open spec fn part_end(s: Seq<u8>, from: int) -> int
    decreases s.len() - from,
{
    if from < 0 || from >= s.len() || s[from] == SEPARATOR {
        from
    } else {
        part_end(s, from + 1)
    }
}

/// Where part number `k` of a frame starts, parts counted from 0: the
/// first behind the byte that names the request, each other one behind the
/// separator that ends the part before it.
pub open spec fn part_start(s: Seq<u8>, k: int) -> int
    decreases k,
{
    if k <= 0 {
        1
    } else {
        part_end(s, part_start(s, k - 1)) + 1
    }
}

/// Part number `k` of the frame `s`.
pub open spec fn part(s: Seq<u8>, k: int) -> Seq<u8> {
    s.subrange(part_start(s, k), part_end(s, part_start(s, k)))
}

/// Whether the frame `s` has exactly `n` parts behind its first byte.
pub open spec fn has_parts(s: Seq<u8>, n: int) -> bool {
    &&& forall|k: int| 0 <= k < n - 1 ==> part_end(s, #[trigger] part_start(s, k)) < s.len()
    &&& part_end(s, part_start(s, n - 1)) == s.len()
}

/// The characters that the bytes `b` stand for, byte by byte.
pub open spec fn as_chars(b: Seq<u8>) -> Seq<char> {
    Seq::new(b.len(), |i: int| b[i] as char)
}

/// The request for a new game that the frame `s` carries: three parts, the
/// variant in the first byte of the first, the time and the time added per
/// move in the first four bytes of the second and of the third, lowest
/// byte first.
pub open spec fn parsed_new_game(s: Seq<u8>) -> Option<Command> {
    if has_parts(s, 3) && part(s, 0).len() >= 1 && part(s, 1).len() >= 4 && part(s, 2).len() >= 4 {
        Some(
            Command::NewGame(
                NewGameParams {
                    mode: part(s, 0)[0],
                    time: le_value(part(s, 1).take(4)) as u32,
                    time_inc: le_value(part(s, 2).take(4)) as u32,
                },
            ),
        )
    } else {
        None
    }
}

/// The request to join a game that the frame `s` carries: two parts, the
/// number of the game in the first four bytes of the first, lowest byte
/// first, and the role in the first byte of the second.
pub open spec fn parsed_join(s: Seq<u8>) -> Option<Command> {
    if has_parts(s, 2) && part(s, 0).len() >= 4 && part(s, 1).len() >= 1 {
        Some(
            Command::JoinGame(
                JoinGameParams {
                    game_id: le_value(part(s, 0).take(4)) as u32,
                    side: PlayerRole::of_code(part(s, 1)[0]),
                },
            ),
        )
    } else {
        None
    }
}

/// The request that the frame `s` carries: its first byte names the kind
/// of request, the parts behind it, with a separator between each two,
/// hold what is asked. A move is the text of the first part, and is always
/// meant for game 1.
pub open spec fn parsed_frame(s: Seq<u8>) -> Option<Command> {
    if s.len() == 0 {
        None
    } else if s[0] == NEW_GAME {
        parsed_new_game(s)
    } else if s[0] == JOIN_GAME {
        parsed_join(s)
    } else if s[0] == MAKE_MOVE {
        match parsed_move(as_chars(part(s, 0))) {
            Some(m) => Some(Command::Move(1, m)),
            None => None,
        }
    } else {
        None
    }
}

/// Finds the end of the part that starts at `from`.
pub fn find_part_end(content: &Vec<u8>, from: usize) -> (e: usize)
    requires
        from <= content@.len(),
    ensures
        e == part_end(content@, from as int),
        from <= e <= content@.len(),
{
    let mut e = from;
    while e < content.len() && content[e] != SEPARATOR
        invariant
            from <= e <= content@.len(),
            part_end(content@, from as int) == part_end(content@, e as int),
        decreases content@.len() - e,
    {
        e = e + 1;
    }
    e
}

/// Reads the request for a new game from a frame that begins with the
/// byte for it.
pub fn parse_new_game(content: &Vec<u8>) -> (cmd: Option<Command>)
    requires
        content@.len() > 0,
    ensures
        cmd == parsed_new_game(content@),
{
    let n = content.len();
    proof {
        reveal_with_fuel(part_start, 4);
    }
    let e0 = find_part_end(content, 1);
    if e0 >= n {
        assert(part_start(content@, 0) == 1);
        return None;
    }
    let e1 = find_part_end(content, e0 + 1);
    if e1 >= n {
        assert(part_start(content@, 1) == e0 + 1);
        return None;
    }
    let e2 = find_part_end(content, e1 + 1);
    assert(part_start(content@, 2) == e1 + 1);
    if e2 < n {
        return None;
    }
    assert(has_parts(content@, 3)) by {
        assert(part_start(content@, 0) == 1);
        assert(part_start(content@, 1) == e0 + 1);
    }
    if e0 - 1 < 1 || e1 - (e0 + 1) < 4 || e2 - (e1 + 1) < 4 {
        return None;
    }
    let mode = content[1];
    let time = read_le_bytes(content, e0 + 1);
    let time_inc = read_le_bytes(content, e1 + 1);
    proof {
        assert(part(content@, 0)[0] == mode);
        assert(part(content@, 1).take(4) =~= content@.subrange(e0 + 1, e0 + 5));
        assert(part(content@, 2).take(4) =~= content@.subrange(e1 + 1, e1 + 5));
    }
    Some(Command::NewGame(NewGameParams { mode, time, time_inc }))
}

/// Reads the request to join a game from a frame that begins with the
/// byte for it.
pub fn parse_join(content: &Vec<u8>) -> (cmd: Option<Command>)
    requires
        content@.len() > 0,
    ensures
        cmd == parsed_join(content@),
{
    let n = content.len();
    proof {
        reveal_with_fuel(part_start, 4);
    }
    let e0 = find_part_end(content, 1);
    if e0 >= n {
        assert(part_start(content@, 0) == 1);
        return None;
    }
    let e1 = find_part_end(content, e0 + 1);
    assert(part_start(content@, 1) == e0 + 1);
    if e1 < n {
        return None;
    }
    assert(has_parts(content@, 2)) by {
        assert(part_start(content@, 0) == 1);
    }
    if e0 - 1 < 4 || e1 - (e0 + 1) < 1 {
        return None;
    }
    let game_id = read_le_bytes(content, 1);
    let side = PlayerRole::from_byte(content[e0 + 1]);
    proof {
        assert(part(content@, 0).take(4) =~= content@.subrange(1, 5));
        assert(part(content@, 1)[0] == content@[e0 + 1]);
    }
    Some(Command::JoinGame(JoinGameParams { game_id, side }))
}

/// Reads the request that a frame carries. There is none in an empty
/// frame, in one whose first byte names no request, in one that lacks a
/// part or a byte of what is asked, and in one whose move cannot be read.
pub fn parse_frame(content: &Vec<u8>) -> (cmd: Option<Command>)
    ensures
        cmd == parsed_frame(content@),
{
    let n = content.len();
    if n == 0 {
        return None;
    }
    let kind = content[0];
    if kind == NEW_GAME {
        parse_new_game(content)
    } else if kind == JOIN_GAME {
        parse_join(content)
    } else if kind == MAKE_MOVE {
        let e0 = find_part_end(content, 1);
        let mut text: Vec<char> = Vec::new();
        let mut i: usize = 1;
        proof {
            reveal_with_fuel(part_start, 2);
        }
        let ghost p = part(content@, 0);
        while i < e0
            invariant
                1 <= i <= e0 <= content@.len(),
                p == content@.subrange(1, e0 as int),
                text@ == as_chars(p.take(i - 1)),
            decreases e0 - i,
        {
            text.push(content[i] as char);
            assert(text@ =~= as_chars(p.take(i as int)));
            i = i + 1;
        }
        assert(p.take(e0 - 1) =~= p);
        match parse_move_chars(&text) {
            Some(m) => Some(Command::Move(1, m)),
            None => None,
        }
    } else {
        None
    }
}

impl Buffer {
    /// Reads the request that the frame in the buffer carries.
    pub fn parse(&self) -> (cmd: Option<Command>)
        requires
            self.len <= BUF_LEN,
        ensures
            cmd == parsed_frame(self.content()),
    {
        let content = self.to_vec();
        parse_frame(&content)
    }
}

} // verus!
