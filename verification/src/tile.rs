use vstd::prelude::*;

verus! {

/// A square of the board, named by its file (`'a'..='h'`) and its rank
/// (`'1'..='8'`). Every value that executable code can hold is on the board.
#[derive(Copy, Clone, Debug, PartialEq, Eq, Structural)]
pub struct Tile {
    pub(crate) file: char,
    pub(crate) rank: char,
}

/// A step on the board: files to the right, ranks upwards.
pub type Direction = (i8, i8);

impl Tile {
    /// One rank up.
    pub const UP: Direction = (0, 1);

    /// One rank down.
    pub const DOWN: Direction = (0, -1);

    /// One file to the right.
    pub const RIGHT: Direction = (1, 0);

    /// One file to the left.
    pub const LEFT: Direction = (-1, 0);

    /// Along the diagonal, up and to the right.
    pub const UPRIGHT: Direction = (1, 1);

    /// Along the diagonal, up and to the left.
    pub const UPLEFT: Direction = (-1, 1);

    /// Along the diagonal, down and to the right.
    pub const DOWNRIGHT: Direction = (1, -1);

    /// Along the diagonal, down and to the left.
    pub const DOWNLEFT: Direction = (-1, -1);

    /// The square lies on the board.
    #[verifier::type_invariant]
    pub open(crate) spec fn wf(self) -> bool {
        'a' <= self.file <= 'h' && '1' <= self.rank <= '8'
    }

    /// The letter of the file.
    pub open(crate) spec fn letter(self) -> char {
        self.file
    }

    /// The digit of the rank.
    pub open(crate) spec fn digit(self) -> char {
        self.rank
    }

    /// The file as a number: 0 for `a`, 7 for `h`.
    pub open(crate) spec fn col(self) -> int {
        self.file as int - 97
    }

    /// The rank as a number: 0 for rank 1, 7 for rank 8.
    pub open(crate) spec fn row(self) -> int {
        self.rank as int - 49
    }

    /// Whether column `col` and row `row` name a square of the board.
    pub open spec fn on_board(col: int, row: int) -> bool {
        0 <= col < 8 && 0 <= row < 8
    }

    /// The square in column `col` and row `row`.
    pub open(crate) spec fn at(col: int, row: int) -> Tile {
        Tile { file: (col + 97) as char, rank: (row + 49) as char }
    }

    /// Position of the square in the board's storage: `a8` is 0, `h8` is 7,
    /// `a1` is 56 and `h1` is 63.
    pub open spec fn index(self) -> int {
        (7 - self.row()) * 8 + self.col()
    }

    /// The square stored at position `i`.
    pub open spec fn of_index(i: int) -> Tile {
        Tile::at(i % 8, 7 - i / 8)
    }

    /// The square `dx` files to the right and `dy` ranks up, if the board
    /// has one there.
    pub open spec fn shifted(self, dx: int, dy: int) -> Option<Tile> {
        if Tile::on_board(self.col() + dx, self.row() + dy) {
            Some(Tile::at(self.col() + dx, self.row() + dy))
        } else {
            None
        }
    }

    /// What `Tile::at` builds on the board is a square with those
    /// coordinates.
    pub proof fn lemma_at(col: int, row: int)
        requires
            Tile::on_board(col, row),
        ensures
            Tile::at(col, row).wf(),
            Tile::at(col, row).col() == col,
            Tile::at(col, row).row() == row,
            Tile::at(col, row).index() == (7 - row) * 8 + col,
            0 <= Tile::at(col, row).index() < 64,
    {
    }

    /// A square on the board is determined by its coordinates.
    pub proof fn lemma_coords(self)
        requires
            self.wf(),
        ensures
            Tile::on_board(self.col(), self.row()),
            Tile::at(self.col(), self.row()) == self,
            0 <= self.index() < 64,
            Tile::of_index(self.index()) == self,
    {
    }

    /// Storage positions and squares of the board correspond one to one.
    pub proof fn lemma_of_index(i: int)
        requires
            0 <= i < 64,
        ensures
            Tile::of_index(i).wf(),
            Tile::of_index(i).index() == i,
    {
    }

    /// Builds the square on `file` and `rank`; there is none unless `file`
    /// is one of `a..h` and `rank` one of `1..8`.
    pub fn new(file: char, rank: char) -> (t: Option<Tile>)
        ensures
            t is Some <==> ('a' <= file <= 'h' && '1' <= rank <= '8'),
            t matches Some(s) ==> s.wf() && s.letter() == file && s.digit() == rank,
    {
        if (file < 'a' || file > 'h') || rank < '1' || rank > '8' {
            None
        } else {
            Some(Tile { file, rank })
        }
    }

    /// The file letter.
    pub fn file(&self) -> (c: char)
        ensures
            c == self.letter(),
            'a' <= c <= 'h',
            c as int == self.col() + 97,
    {
        proof {
            use_type_invariant(self);
        }
        self.file
    }

    /// The rank digit.
    pub fn rank(&self) -> (c: char)
        ensures
            c == self.digit(),
            '1' <= c <= '8',
            c as int == self.row() + 49,
    {
        proof {
            use_type_invariant(self);
        }
        self.rank
    }

    /// The file as a number from 0 (`a`) to 7 (`h`).
    pub fn file_number(&self) -> (x: u8)
        ensures
            x as int == self.col(),
            x < 8,
            self.wf(),
    {
        proof {
            use_type_invariant(self);
        }
        (self.file as u8) - 97
    }

    /// The rank as a number from 0 (rank 1) to 7 (rank 8).
    pub fn rank_number(&self) -> (y: u8)
        ensures
            y as int == self.row(),
            y < 8,
            self.wf(),
    {
        proof {
            use_type_invariant(self);
        }
        (self.rank as u8) - 49
    }

    /// The square in column `x` and row `y`, both counted from 0.
    pub fn from_numbers(x: u8, y: u8) -> (t: Tile)
        requires
            x < 8,
            y < 8,
        ensures
            t == Tile::at(x as int, y as int),
            t.wf(),
    {
        Tile { file: (x + 97) as char, rank: (y + 49) as char }
    }

    /// Position of the square in the board's storage and on the wire:
    /// `a8` gives 0 and `h1` gives 63.
    pub fn to_index(&self) -> (i: u8)
        ensures
            i as int == self.index(),
            i < 64,
            self.wf(),
    {
        let x = self.file_number();
        let y = self.rank_number();
        (7 - y) * 8 + x
    }

    /// The square at storage position `i`, the inverse of `to_index`.
    pub fn from_index(i: u8) -> (t: Option<Tile>)
        ensures
            t is Some <==> i < 64,
            t matches Some(s) ==> s == Tile::of_index(i as int) && s.wf() && s.index() == i,
    {
        if i < 64 {
            proof {
                Tile::lemma_of_index(i as int);
            }
            Some(Tile::from_numbers(i % 8, 7 - i / 8))
        } else {
            None
        }
    }

    /// Moves along the board by `direction`: there is no square where the
    /// step leaves the board, and no wrapping around its edges.
    pub fn offset(self, direction: Direction) -> (t: Option<Tile>)
        ensures
            t == self.shifted(direction.0 as int, direction.1 as int),
            t matches Some(s) ==> s.wf(),
            self.wf(),
    {
        let x: i16 = self.file_number() as i16 + direction.0 as i16;
        let y: i16 = self.rank_number() as i16 + direction.1 as i16;
        if 0 <= x && x < 8 && 0 <= y && y < 8 {
            Some(Tile::from_numbers(x as u8, y as u8))
        } else {
            None
        }
    }

    /// Moves along the board against `direction`.
    pub fn offset_back(self, direction: Direction) -> (t: Option<Tile>)
        ensures
            t == self.shifted(-(direction.0 as int), -(direction.1 as int)),
            t matches Some(s) ==> s.wf(),
    {
        let x: i16 = self.file_number() as i16 - direction.0 as i16;
        let y: i16 = self.rank_number() as i16 - direction.1 as i16;
        if 0 <= x && x < 8 && 0 <= y && y < 8 {
            Some(Tile::from_numbers(x as u8, y as u8))
        } else {
            None
        }
    }

    /// Reads a square from its two-letter name, such as `e4`.
    pub fn parse(text: &str) -> (t: Option<Tile>)
        ensures
            t == Tile::parsed(text@),
            t matches Some(s) ==> s.wf(),
    {
        if text.unicode_len() != 2 {
            return None;
        }
        Tile::new(text.get_char(0), text.get_char(1))
    }

    /// The square that the two letters `text` name.
    pub open(crate) spec fn parsed(text: Seq<char>) -> Option<Tile> {
        if text.len() == 2 && 'a' <= text[0] <= 'h' && '1' <= text[1] <= '8' {
            Some(Tile { file: text[0], rank: text[1] })
        } else {
            None
        }
    }

    /// All squares in storage order, from `a8` along each rank down to `h1`.
    pub fn all() -> (tiles: Vec<Tile>)
        ensures
            tiles@.len() == 64,
            forall|i: int| 0 <= i < 64 ==> #[trigger] tiles@[i] == Tile::of_index(i),
            forall|i: int| 0 <= i < 64 ==> (#[trigger] tiles@[i]).wf() && tiles@[i].index() == i,
    {
        let mut tiles: Vec<Tile> = Vec::new();
        let mut i: u8 = 0;
        while i < 64
            invariant
                i <= 64,
                tiles@.len() == i,
                forall|k: int| 0 <= k < i ==> #[trigger] tiles@[k] == Tile::of_index(k),
            decreases 64 - i,
        {
            tiles.push(Tile::from_numbers(i % 8, 7 - i / 8));
            i = i + 1;
        }
        proof {
            assert forall|k: int| 0 <= k < 64 implies (#[trigger] tiles@[k]).wf() && tiles@[k].index()
                == k by {
                Tile::lemma_of_index(k);
            }
        }
        tiles
    }
}

impl core::ops::Add<Direction> for Tile {
    type Output = Option<Tile>;

    /// Moves along the board by `direction`, as `offset` does.
    fn add(self, direction: Direction) -> (t: Option<Tile>) {
        self.offset(direction)
    }
}

impl vstd::std_specs::ops::AddSpecImpl<Direction> for Tile {
    open spec fn obeys_add_spec() -> bool {
        true
    }

    open spec fn add_req(self, rhs: Direction) -> bool {
        true
    }

    open spec fn add_spec(self, rhs: Direction) -> Option<Tile> {
        self.shifted(rhs.0 as int, rhs.1 as int)
    }
}

impl core::ops::Sub<Direction> for Tile {
    type Output = Option<Tile>;

    /// Moves along the board against `direction`, as `offset_back` does.
    fn sub(self, direction: Direction) -> (t: Option<Tile>) {
        self.offset_back(direction)
    }
}

impl vstd::std_specs::ops::SubSpecImpl<Direction> for Tile {
    open spec fn obeys_sub_spec() -> bool {
        true
    }

    open spec fn sub_req(self, rhs: Direction) -> bool {
        true
    }

    open spec fn sub_spec(self, rhs: Direction) -> Option<Tile> {
        self.shifted(-(rhs.0 as int), -(rhs.1 as int))
    }
}

} // verus!
