use vstd::prelude::*;

verus! {

/// Number of columns on the board.
pub const WIDTH: usize = 10;

/// Number of cells in each column.
pub const HEIGHT: usize = 5;

/// The token of one of the two players; `X` moves first.
#[derive(Clone, Copy, Debug, PartialEq, Eq, Structural)]
pub enum Player {
    X,
    O,
}

impl Player {
    /// The player who is not `self`.
    pub open spec fn other_spec(self) -> Player {
        match self {
            Player::X => Player::O,
            Player::O => Player::X,
        }
    }

    /// The player who is not `self`.
    #[verifier::when_used_as_spec(other_spec)]
    pub fn other(self) -> (r: Player)
        ensures
            r == self.other_spec(),
    {
        match self {
            Player::X => Player::O,
            Player::O => Player::X,
        }
    }
}

/// One of the four orientations of a line of four cells.
#[derive(Clone, Copy, Debug, PartialEq, Eq, Structural)]
pub enum Direction {
    /// Along a row, to the right.
    Horizontal,
    /// Up a column.
    Vertical,
    /// Up and to the right.
    Rising,
    /// Down and to the right, starting three rows above the anchor.
    Falling,
}

/// Why a move or a query was refused.
#[derive(Clone, Copy, Debug, PartialEq, Eq, Structural)]
pub enum GameError {
    /// The column or row lies outside the board.
    OutOfBounds,
    /// The column already holds `HEIGHT` tokens.
    ColumnFull,
}

/// A board of `WIDTH` columns that fill from the bottom, and the player to move next.
///
/// A successful `play` hands the turn to the opponent of the player who moved.
#[derive(Clone, Debug, PartialEq, Eq)]
pub struct Game {
    board: Vec<Vec<Player>>,
    to_play: Player,
}

impl Default for Game {
    /// The empty board, with `X` to move.
    fn default() -> (r: Game)
        ensures
            r.wf(),
            r.columns() == empty_columns(),
            r.turn() == Player::X,
    {
        Game::new()
    }
}

impl Game {
    /// The columns, each listed from the bottom up.
    pub closed spec fn columns(&self) -> Seq<Seq<Player>> {
        Seq::new(self.board@.len(), |c: int| self.board@[c]@)
    }

    /// The player whose turn it is.
    pub closed spec fn turn(&self) -> Player {
        self.to_play
    }

    /// Every column of a game in play holds at most `HEIGHT` tokens.
    pub open spec fn wf(&self) -> bool {
        valid_columns(self.columns())
    }

    /// The empty board, with `X` to move.
    pub fn new() -> (r: Game)
        ensures
            r.wf(),
            r.columns() == empty_columns(),
            r.turn() == Player::X,
    {
        let mut board: Vec<Vec<Player>> = Vec::new();
        let mut c: usize = 0;
        while c < WIDTH
            invariant
                c <= WIDTH,
                board@.len() == c,
                forall|i: int| 0 <= i < c ==> (#[trigger] board@[i])@.len() == 0,
            decreases WIDTH - c,
        {
            board.push(Vec::new());
            c = c + 1;
        }
        let r = Game { board, to_play: Player::X };
        assert forall|i: int| 0 <= i < WIDTH implies r.columns()[i] =~= empty_columns()[i] by {}
        assert(r.columns() =~= empty_columns());
        r
    }

    fn in_range(col: usize, row: usize) -> (r: bool)
        ensures
            r == in_bounds(col as int, row as int),
    {
        col < WIDTH && row < HEIGHT
    }

    /// The player to move next.
    pub fn to_play(&self) -> (r: Player)
        ensures
            r == self.turn(),
    {
        self.to_play
    }

    fn cell_at(&self, col: usize, row: usize) -> (r: Option<Player>)
        requires
            self.wf(),
            col < WIDTH,
        ensures
            r == cell(self.columns(), col as int, row as int),
    {
        let column = &self.board[col];
        if row < column.len() {
            Some(column[row])
        } else {
            None
        }
    }

    /// The token at `row` (counted from the bottom) of column `col`, if one was dropped that far.
    pub fn get(&self, col: usize, row: usize) -> (r: Result<Option<Player>, GameError>)
        requires
            self.wf(),
        ensures
            !in_bounds(col as int, row as int) ==> r == Err::<Option<Player>, GameError>(
                GameError::OutOfBounds,
            ),
            in_bounds(col as int, row as int) ==> r == Ok::<Option<Player>, GameError>(
                cell(self.columns(), col as int, row as int),
            ),
            r matches Ok(o) ==> (o is None <==> row >= self.columns()[col as int].len()),
    {
        if !Self::in_range(col, row) {
            return Err(GameError::OutOfBounds);
        }
        Ok(self.cell_at(col, row))
    }

    /// Whether column `col` has room for one more token.
    pub fn playable(&self, col: usize) -> (r: Result<bool, GameError>)
        requires
            self.wf(),
        ensures
            col >= WIDTH ==> r == Err::<bool, GameError>(GameError::OutOfBounds),
            col < WIDTH ==> r == Ok::<bool, GameError>(
                self.columns()[col as int].len() < HEIGHT,
            ),
    {
        if col >= WIDTH {
            return Err(GameError::OutOfBounds);
        }
        Ok(self.board[col].len() < HEIGHT)
    }

    /// Drops `player`'s token into column `col`; on success the turn passes to the opponent
    /// of `player`. A refused move leaves the game as it was.
    pub fn play(&mut self, col: usize, player: Player) -> (r: Result<(), GameError>)
        requires
            old(self).wf(),
        ensures
            col >= WIDTH ==> r == Err::<(), GameError>(GameError::OutOfBounds),
            col < WIDTH && old(self).columns()[col as int].len() >= HEIGHT ==> r == Err::<
                (),
                GameError,
            >(GameError::ColumnFull),
            final(self).wf(),
            r is Ok <==> can_play(old(self).columns(), col as int),
            r is Ok ==> final(self).columns() == after_play(
                old(self).columns(),
                col as int,
                player,
            ),
            r is Ok ==> final(self).turn() == player.other(),
            r is Ok ==> final(self).columns()[col as int].len() == old(self).columns()[col as int].len() + 1,
            r is Ok ==> final(self).columns()[col as int].last() == player,
            r is Ok ==> forall|c: int|
                0 <= c < WIDTH && c != col ==> #[trigger] final(self).columns()[c] == old(self).columns()[c],
            r is Err ==> final(self).columns() == old(self).columns() && final(self).turn() == old(self).turn(),
    {
        if col >= WIDTH {
            return Err(GameError::OutOfBounds);
        }
        if self.board[col].len() >= HEIGHT {
            return Err(GameError::ColumnFull);
        }
        self.board[col].push(player);
        self.to_play = player.other();
        assert(self.columns() =~= after_play(old(self).columns(), col as int, player));
        Ok(())
    }

    /// The columns that still have room, in ascending order.
    pub fn valid_plays(&self) -> (r: Vec<usize>)
        requires
            self.wf(),
        ensures
            forall|i: int, j: int| 0 <= i < j < r@.len() ==> r@[i] < r@[j],
            forall|c: usize| r@.contains(c) <==> can_play(self.columns(), c as int),
    {
        let mut r: Vec<usize> = Vec::new();
        let mut c: usize = 0;
        while c < WIDTH
            invariant
                self.wf(),
                c <= WIDTH,
                forall|i: int, j: int| 0 <= i < j < r@.len() ==> r@[i] < r@[j],
                forall|i: int| 0 <= i < r@.len() ==> r@[i] < c,
                forall|d: usize| r@.contains(d) <==> d < c && can_play(self.columns(), d as int),
            decreases WIDTH - c,
        {
            let ghost prev = r@;
            if self.board[c].len() < HEIGHT {
                r.push(c);
            }
            assert forall|d: usize|
                r@.contains(d) <==> d < c + 1 && can_play(self.columns(), d as int) by {
                if r@.contains(d) {
                    let k = choose|k: int| 0 <= k < r@.len() && r@[k] == d;
                    if k < prev.len() {
                        assert(prev.contains(d));
                    }
                }
                if d < c && can_play(self.columns(), d as int) {
                    assert(prev.contains(d));
                    let k = choose|k: int| 0 <= k < prev.len() && prev[k] == d;
                    assert(r@[k] == d);
                }
                if d == c && can_play(self.columns(), d as int) {
                    assert(r@[r@.len() - 1] == d);
                }
            }
            c = c + 1;
        }
        r
    }

    /// The four cells of the line from the anchor `(col, row)` in direction `dir`, or `None`
    /// where its first or last cell lies off the board.
    fn block_of_four(col: usize, row: usize, dir: Direction) -> (r: Option<[(usize, usize); 4]>)
        requires
            col < WIDTH,
            row < HEIGHT,
        ensures
            r is None <==> !line_in_bounds(col as int, row as int, dir),
            r matches Some(b) ==> forall|i: int|
                0 <= i < 4 ==> b@[i].0 == line_cell(col as int, row as int, dir, i).0 && b@[i].1
                    == line_cell(col as int, row as int, dir, i).1,
    {
        let b = match dir {
            Direction::Horizontal => [(col, row), (col + 1, row), (col + 2, row), (col + 3, row)],
            Direction::Vertical => [(col, row), (col, row + 1), (col, row + 2), (col, row + 3)],
            Direction::Rising => [
                (col, row),
                (col + 1, row + 1),
                (col + 2, row + 2),
                (col + 3, row + 3),
            ],
            Direction::Falling => [
                (col, row + 3),
                (col + 1, row + 2),
                (col + 2, row + 1),
                (col + 3, row),
            ],
        };
        if Self::in_range(b[0].0, b[0].1) && Self::in_range(b[3].0, b[3].1) {
            Some(b)
        } else {
            None
        }
    }

    /// Whether `player` holds all four cells of `block`.
    fn filled_by(&self, block: &[(usize, usize); 4], player: Player) -> (r: bool)
        requires
            self.wf(),
            forall|i: int| 0 <= i < 4 ==> (#[trigger] block@[i]).0 < WIDTH,
        ensures
            r == block_filled_by(self.columns(), block@, player),
    {
        let mut i: usize = 0;
        while i < 4
            invariant
                self.wf(),
                i <= 4,
                forall|k: int| 0 <= k < 4 ==> (#[trigger] block@[k]).0 < WIDTH,
                forall|k: int|
                    0 <= k < i ==> cell(self.columns(), block@[k].0 as int, block@[k].1 as int)
                        == Some(player),
            decreases 4 - i,
        {
            let (c, r) = block[i];
            match self.cell_at(c, r) {
                Some(q) => {
                    if q != player {
                        return false;
                    }
                },
                None => {
                    return false;
                },
            }
            i = i + 1;
        }
        true
    }

    /// The player, `X` tried before `O`, who holds the line from `(col, row)` in direction `dir`.
    fn direction_winner(&self, col: usize, row: usize, dir: Direction) -> (r: Option<Player>)
        requires
            self.wf(),
            col < WIDTH,
            row < HEIGHT,
        ensures
            r == direction_winner(self.columns(), col as int, row as int, dir),
    {
        match Self::block_of_four(col, row, dir) {
            None => None,
            Some(b) => {
                assert forall|i: int| 0 <= i < 4 implies (#[trigger] b@[i]).0 < WIDTH by {
                    assert(b@[i].0 == line_cell(col as int, row as int, dir, i).0);
                }
                proof {
                    lemma_block_is_line(self.columns(), b@, col as int, row as int, dir, Player::X);
                    lemma_block_is_line(self.columns(), b@, col as int, row as int, dir, Player::O);
                }
                if self.filled_by(&b, Player::X) {
                    Some(Player::X)
                } else if self.filled_by(&b, Player::O) {
                    Some(Player::O)
                } else {
                    None
                }
            },
        }
    }

    /// The first player found to hold a line from the anchor `(col, row)`, trying the
    /// directions in the order horizontal, vertical, rising, falling.
    fn anchor_winner(&self, col: usize, row: usize) -> (r: Option<Player>)
        requires
            self.wf(),
            col < WIDTH,
            row < HEIGHT,
        ensures
            r == anchor_winner(self.columns(), col as int, row as int),
    {
        let h = self.direction_winner(col, row, Direction::Horizontal);
        if h.is_some() {
            return h;
        }
        let v = self.direction_winner(col, row, Direction::Vertical);
        if v.is_some() {
            return v;
        }
        let a = self.direction_winner(col, row, Direction::Rising);
        if a.is_some() {
            return a;
        }
        self.direction_winner(col, row, Direction::Falling)
    }

    /// The player who holds four in a row. Where several lines are held, the first found
    /// decides: anchors by ascending column, then ascending row; at each anchor the
    /// directions in the order horizontal, vertical, rising, falling; `X` before `O`.
    pub fn winner(&self) -> (r: Option<Player>)
        requires
            self.wf(),
        ensures
            r == board_winner(self.columns()),
            r matches Some(p) ==> holds_line(self.columns(), p),
            r is None <==> !holds_line(self.columns(), Player::X) && !holds_line(
                self.columns(),
                Player::O,
            ),
    {
        let ghost cols = self.columns();
        proof { lemma_winner_holds_line(cols); }
        let mut col: usize = 0;
        while col < WIDTH
            invariant
                self.wf(),
                cols == self.columns(),
                col <= WIDTH,
                board_winner(cols) == scan_winner(cols, col as int, 0),
            decreases WIDTH - col,
        {
            let mut row: usize = 0;
            while row < HEIGHT
                invariant
                    self.wf(),
                    cols == self.columns(),
                    col < WIDTH,
                    row <= HEIGHT,
                    board_winner(cols) == scan_winner(cols, col as int, row as int),
                decreases HEIGHT - row,
            {
                let w = self.anchor_winner(col, row);
                if w.is_some() {
                    return w;
                }
                row = row + 1;
            }
            col = col + 1;
        }
        None
    }
}

/// `WIDTH` columns, none holding more than `HEIGHT` tokens.
pub open spec fn valid_columns(cols: Seq<Seq<Player>>) -> bool {
    &&& cols.len() == WIDTH
    &&& forall|c: int| 0 <= c < WIDTH ==> (#[trigger] cols[c]).len() <= HEIGHT
}

/// Whether `(c, r)` is a cell of the board.
pub open spec fn in_bounds(c: int, r: int) -> bool {
    0 <= c < WIDTH && 0 <= r < HEIGHT
}

/// The token at row `r` of column `c`, if any.
pub open spec fn cell(cols: Seq<Seq<Player>>, c: int, r: int) -> Option<Player> {
    if 0 <= c < cols.len() && 0 <= r < cols[c].len() {
        Some(cols[c][r])
    } else {
        None
    }
}

/// Whether a token can be dropped into column `c`.
pub open spec fn can_play(cols: Seq<Seq<Player>>, c: int) -> bool {
    0 <= c < WIDTH && cols[c].len() < HEIGHT
}

/// The columns after `p` drops a token into column `c`.
pub open spec fn after_play(cols: Seq<Seq<Player>>, c: int, p: Player) -> Seq<Seq<Player>> {
    cols.update(c, cols[c].push(p))
}

/// The board before any move.
pub open spec fn empty_columns() -> Seq<Seq<Player>> {
    Seq::new(WIDTH as nat, |c: int| Seq::<Player>::empty())
}

/// Cell `i` (from 0 to 3) of the line from the anchor `(c, r)` in direction `d`.
pub open spec fn line_cell(c: int, r: int, d: Direction, i: int) -> (int, int) {
    match d {
        Direction::Horizontal => (c + i, r),
        Direction::Vertical => (c, r + i),
        Direction::Rising => (c + i, r + i),
        Direction::Falling => (c + i, r + 3 - i),
    }
}

/// Whether the first and the last cell of the line lie on the board (and so all four do).
pub open spec fn line_in_bounds(c: int, r: int, d: Direction) -> bool {
    &&& in_bounds(line_cell(c, r, d, 0).0, line_cell(c, r, d, 0).1)
    &&& in_bounds(line_cell(c, r, d, 3).0, line_cell(c, r, d, 3).1)
}

/// Whether `p` has a token on each of the four cells of the line.
pub open spec fn line_filled_by(cols: Seq<Seq<Player>>, c: int, r: int, d: Direction, p: Player) -> bool {
    forall|i: int|
        0 <= i < 4 ==> cell(cols, #[trigger] line_cell(c, r, d, i).0, line_cell(c, r, d, i).1) == Some(p)
}

/// Whether `p` has a token on each of the four cells listed in `b`.
pub open spec fn block_filled_by(cols: Seq<Seq<Player>>, b: Seq<(usize, usize)>, p: Player) -> bool {
    forall|i: int| 0 <= i < 4 ==> cell(cols, #[trigger] b[i].0 as int, b[i].1 as int) == Some(p)
}

proof fn lemma_block_is_line(
    cols: Seq<Seq<Player>>,
    b: Seq<(usize, usize)>,
    c: int,
    r: int,
    d: Direction,
    p: Player,
)
    requires
        forall|i: int|
            0 <= i < 4 ==> (#[trigger] b[i]).0 == line_cell(c, r, d, i).0 && b[i].1 == line_cell(
                c,
                r,
                d,
                i,
            ).1,
    ensures
        block_filled_by(cols, b, p) == line_filled_by(cols, c, r, d, p),
{
    if block_filled_by(cols, b, p) {
        assert forall|i: int| 0 <= i < 4 implies cell(
            cols,
            #[trigger] line_cell(c, r, d, i).0,
            line_cell(c, r, d, i).1,
        ) == Some(p) by {
            assert(b[i].0 == line_cell(c, r, d, i).0);
        }
    }
    if line_filled_by(cols, c, r, d, p) {
        assert forall|i: int| 0 <= i < 4 implies cell(cols, #[trigger] b[i].0 as int, b[i].1 as int)
            == Some(p) by {
            assert(b[i].0 == line_cell(c, r, d, i).0);
        }
    }
}

/// Whether the line from `(c, r)` in direction `d` is on the board and held by `p`.
pub open spec fn wins_along(cols: Seq<Seq<Player>>, c: int, r: int, d: Direction, p: Player) -> bool {
    line_in_bounds(c, r, d) && line_filled_by(cols, c, r, d, p)
}

/// Who holds the line from `(c, r)` in direction `d`, `X` taken first.
pub open spec fn direction_winner(cols: Seq<Seq<Player>>, c: int, r: int, d: Direction) -> Option<Player> {
    if wins_along(cols, c, r, d, Player::X) {
        Some(Player::X)
    } else if wins_along(cols, c, r, d, Player::O) {
        Some(Player::O)
    } else {
        None
    }
}

/// The first holder of a line from the anchor `(c, r)`, directions taken in declaration order.
pub open spec fn anchor_winner(cols: Seq<Seq<Player>>, c: int, r: int) -> Option<Player> {
    if direction_winner(cols, c, r, Direction::Horizontal) is Some {
        direction_winner(cols, c, r, Direction::Horizontal)
    } else if direction_winner(cols, c, r, Direction::Vertical) is Some {
        direction_winner(cols, c, r, Direction::Vertical)
    } else if direction_winner(cols, c, r, Direction::Rising) is Some {
        direction_winner(cols, c, r, Direction::Rising)
    } else {
        direction_winner(cols, c, r, Direction::Falling)
    }
}

/// The first anchor winner found from `(c, r)` on: the rest of column `c` upward,
/// then each later column from its bottom row.
pub open spec fn scan_winner(cols: Seq<Seq<Player>>, c: int, r: int) -> Option<Player>
    decreases WIDTH - c, HEIGHT - r,
{
    if c >= WIDTH || c < 0 || r < 0 {
        None
    } else if r >= HEIGHT {
        scan_winner(cols, c + 1, 0)
    } else if anchor_winner(cols, c, r) is Some {
        anchor_winner(cols, c, r)
    } else {
        scan_winner(cols, c, r + 1)
    }
}

/// The winner of the board: the first anchor winner, anchors by ascending `(column, row)`.
pub open spec fn board_winner(cols: Seq<Seq<Player>>) -> Option<Player> {
    scan_winner(cols, 0, 0)
}

/// Whether `p` holds some line of four on the board.
pub open spec fn holds_line(cols: Seq<Seq<Player>>, p: Player) -> bool {
    exists|c: int, r: int, d: Direction| wins_along(cols, c, r, d, p)
}

proof fn lemma_scan_sound(cols: Seq<Seq<Player>>, c: int, r: int)
    ensures
        scan_winner(cols, c, r) matches Some(p) ==> holds_line(cols, p),
    decreases WIDTH - c, HEIGHT - r,
{
    if c >= WIDTH || c < 0 || r < 0 {
    } else if r >= HEIGHT {
        lemma_scan_sound(cols, c + 1, 0);
    } else if anchor_winner(cols, c, r) is Some {
        let p = anchor_winner(cols, c, r)->Some_0;
        if direction_winner(cols, c, r, Direction::Horizontal) is Some {
            assert(wins_along(cols, c, r, Direction::Horizontal, p));
        } else if direction_winner(cols, c, r, Direction::Vertical) is Some {
            assert(wins_along(cols, c, r, Direction::Vertical, p));
        } else if direction_winner(cols, c, r, Direction::Rising) is Some {
            assert(wins_along(cols, c, r, Direction::Rising, p));
        } else {
            assert(wins_along(cols, c, r, Direction::Falling, p));
        }
    } else {
        lemma_scan_sound(cols, c, r + 1);
    }
}

proof fn lemma_scan_complete(cols: Seq<Seq<Player>>, c: int, r: int, c0: int, r0: int, d: Direction, p: Player)
    requires
        0 <= c,
        0 <= r,
        wins_along(cols, c0, r0, d, p),
        c < c0 || (c == c0 && r <= r0),
    ensures
        scan_winner(cols, c, r) is Some,
    decreases WIDTH - c, HEIGHT - r,
{
    if r >= HEIGHT {
        lemma_scan_complete(cols, c + 1, 0, c0, r0, d, p);
    } else if anchor_winner(cols, c, r) is None {
        if c == c0 && r == r0 {
            assert(direction_winner(cols, c, r, d) is Some);
        }
        lemma_scan_complete(cols, c, r + 1, c0, r0, d, p);
    }
}

/// The board has a winner exactly when some player holds a line of four, and the winner
/// found holds one.
pub proof fn lemma_winner_holds_line(cols: Seq<Seq<Player>>)
    ensures
        board_winner(cols) matches Some(p) ==> holds_line(cols, p),
        board_winner(cols) is None <==> !holds_line(cols, Player::X) && !holds_line(cols, Player::O),
{
    lemma_scan_sound(cols, 0, 0);
    if holds_line(cols, Player::X) {
        let (c, r, d) = choose|c: int, r: int, d: Direction| wins_along(cols, c, r, d, Player::X);
        lemma_scan_complete(cols, 0, 0, c, r, d, Player::X);
    }
    if holds_line(cols, Player::O) {
        let (c, r, d) = choose|c: int, r: int, d: Direction| wins_along(cols, c, r, d, Player::O);
        lemma_scan_complete(cols, 0, 0, c, r, d, Player::O);
    }
}

/// The number of tokens in the first `n` columns.
pub open spec fn tokens_in(cols: Seq<Seq<Player>>, n: int) -> int
    decreases n,
{
    if n <= 0 {
        0
    } else {
        tokens_in(cols, n - 1) + cols[n - 1].len()
    }
}

/// The number of tokens on the board.
pub open spec fn token_count(cols: Seq<Seq<Player>>) -> int {
    tokens_in(cols, cols.len() as int)
}

proof fn lemma_tokens_in_monotone(cols: Seq<Seq<Player>>, j: int, k: int)
    requires
        0 <= j <= k,
    ensures
        0 <= tokens_in(cols, j) <= tokens_in(cols, k),
    decreases k,
{
    if k > j {
        lemma_tokens_in_monotone(cols, j, k - 1);
    } else if k > 0 {
        lemma_tokens_in_monotone(cols, 0, k - 1);
    }
}

/// A line of four needs four tokens on the board.
proof fn lemma_line_needs_four(cols: Seq<Seq<Player>>, c: int, r: int, d: Direction, p: Player)
    requires
        wins_along(cols, c, r, d, p),
    ensures
        token_count(cols) >= 4,
{
    let last = line_cell(c, r, d, 3).0;
    assert(cell(cols, line_cell(c, r, d, 3).0, line_cell(c, r, d, 3).1) == Some(p));
    lemma_tokens_in_monotone(cols, last + 1, cols.len() as int);
    assert(cell(cols, line_cell(c, r, d, 0).0, line_cell(c, r, d, 0).1) == Some(p));
    match d {
        Direction::Vertical => {
            lemma_tokens_in_monotone(cols, 0, c);
        },
        _ => {
            assert(cell(cols, line_cell(c, r, d, 1).0, line_cell(c, r, d, 1).1) == Some(p));
            assert(cell(cols, line_cell(c, r, d, 2).0, line_cell(c, r, d, 2).1) == Some(p));
            lemma_tokens_in_monotone(cols, 0, c);
            assert(tokens_in(cols, c + 1) == tokens_in(cols, c) + cols[c].len());
            assert(tokens_in(cols, c + 2) == tokens_in(cols, c + 1) + cols[c + 1].len());
            assert(tokens_in(cols, c + 3) == tokens_in(cols, c + 2) + cols[c + 2].len());
            assert(tokens_in(cols, c + 4) == tokens_in(cols, c + 3) + cols[c + 3].len());
        },
    }
}

/// A board with fewer than four tokens, the empty board among them, has no winner.
pub proof fn lemma_no_winner_below_four(cols: Seq<Seq<Player>>)
    requires
        token_count(cols) < 4,
    ensures
        board_winner(cols) is None,
{
    lemma_winner_holds_line(cols);
    if holds_line(cols, Player::X) {
        let (c, r, d) = choose|c: int, r: int, d: Direction| wins_along(cols, c, r, d, Player::X);
        lemma_line_needs_four(cols, c, r, d, Player::X);
    }
    if holds_line(cols, Player::O) {
        let (c, r, d) = choose|c: int, r: int, d: Direction| wins_along(cols, c, r, d, Player::O);
        lemma_line_needs_four(cols, c, r, d, Player::O);
    }
}

/// The columns after the moves `(column, player)` are played in turn from the empty board.
pub open spec fn replay(moves: Seq<(int, Player)>) -> Seq<Seq<Player>>
    decreases moves.len(),
{
    if moves.len() == 0 {
        empty_columns()
    } else {
        after_play(replay(moves.drop_last()), moves.last().0, moves.last().1)
    }
}

/// Whether each of the moves is accepted when they are played in turn from the empty board.
pub open spec fn replay_accepted(moves: Seq<(int, Player)>) -> bool
    decreases moves.len(),
{
    moves.len() == 0 || (replay_accepted(moves.drop_last()) && can_play(
        replay(moves.drop_last()),
        moves.last().0,
    ))
}

/// The tokens that the moves drop into column `c`, in the order they are played.
pub open spec fn dropped_into(moves: Seq<(int, Player)>, c: int) -> Seq<Player>
    decreases moves.len(),
{
    if moves.len() == 0 {
        Seq::empty()
    } else if moves.last().0 == c {
        dropped_into(moves.drop_last(), c).push(moves.last().1)
    } else {
        dropped_into(moves.drop_last(), c)
    }
}

/// Replaying accepted moves from the empty board leaves in each column exactly the tokens
/// dropped into it, bottom first in the order played, and nothing above them.
pub proof fn lemma_replay_round_trip(moves: Seq<(int, Player)>)
    requires
        replay_accepted(moves),
    ensures
        valid_columns(replay(moves)),
        forall|c: int| 0 <= c < WIDTH ==> #[trigger] replay(moves)[c] == dropped_into(moves, c),
        forall|c: int, r: int|
            0 <= c < WIDTH && 0 <= r ==> #[trigger] cell(replay(moves), c, r) == if r < dropped_into(
                moves,
                c,
            ).len() {
                Some(dropped_into(moves, c)[r])
            } else {
                None
            },
    decreases moves.len(),
{
    if moves.len() > 0 {
        lemma_replay_round_trip(moves.drop_last());
    }
}

} // verus!
