use vstd::prelude::*;

use crate::Error;

verus! {

/// Points of a clue or of a contestant's score.
pub type Points = i32;

/// Position of a contestant in the registry, stable for the whole match.
pub type ContestantHandle = usize;

/// Category index and clue index within that category.
pub type ClueHandle = (usize, usize);

/// The phase a match is in, with what is needed to resume it.
#[derive(Clone, Copy, Debug, PartialEq, Eq)]
pub enum GamePhase {
    /// Loading the board. Nothing of the board is shown yet.
    Preparing,
    /// Contestants connect and test their buzzers.
    Connecting,
    /// A contestant picks the next clue.
    Picking { contestant: ContestantHandle },
    /// A contestant bets points before seeing the clue.
    Waging { clue: ClueHandle, contestant: ContestantHandle },
    /// The clue is shown; when `exclusive` is set only that contestant may answer first.
    Clue { clue: ClueHandle, exclusive: Option<ContestantHandle> },
    /// Contestants may buzz in.
    Buzzing { clue: ClueHandle },
    /// The contestant buzzed in and may answer.
    Buzzed { clue: ClueHandle, contestant: ContestantHandle },
    /// The clue was answered or given up; the hint may be shown.
    Resolution { clue: ClueHandle, contestant: ContestantHandle, show_hint: bool },
    /// All clues are played; the final scores are shown.
    Score,
}

/// One clue of the board.
#[derive(Debug, PartialEq, Eq)]
pub struct Clue {
    /// The prompt for the contestants, in the form of an answer.
    pub clue: String,
    /// The expected response.
    pub response: String,
    /// Context or alternative answers for the moderator.
    pub hint: String,
    /// What a contestant wins or loses on this clue.
    pub points: Points,
    /// Whether contestants may bet on this clue.
    pub can_wager: bool,
    /// Whether the first attempt belongs to the contestant who picked it.
    pub exclusive: bool,
    /// Whether the clue was played already.
    pub solved: bool,
}

impl Clone for Clue {
    fn clone(&self) -> (r: Self)
        ensures
            r == *self,
    {
        Clue {
            clue: self.clue.clone(),
            response: self.response.clone(),
            hint: self.hint.clone(),
            points: self.points,
            can_wager: self.can_wager,
            exclusive: self.exclusive,
            solved: self.solved,
        }
    }
}

/// A titled column of clues.
#[derive(Debug, PartialEq, Eq)]
pub struct Category {
    pub title: String,
    pub clues: Vec<Clue>,
}

/// What a category is: its title and its clues in order.
pub struct CategoryView {
    pub title: String,
    pub clues: Seq<Clue>,
}

impl View for Category {
    type V = CategoryView;

    open spec fn view(&self) -> CategoryView {
        CategoryView { title: self.title, clues: self.clues@ }
    }
}

impl Clone for Category {
    fn clone(&self) -> (r: Self)
        ensures
            r@ == self@,
    {
        let clues = self.clues.clone();
        assert(clues@ =~= self.clues@);
        Category { title: self.title.clone(), clues }
    }
}

/// The categories of a match, in order.
#[derive(Debug, PartialEq, Eq)]
pub struct Board {
    pub categories: Vec<Category>,
}

impl View for Board {
    type V = Seq<CategoryView>;

    open spec fn view(&self) -> Seq<CategoryView> {
        self.categories@.map_values(|c: Category| c@)
    }
}

impl Clone for Board {
    fn clone(&self) -> (r: Self)
        ensures
            r@ == self@,
    {
        let mut categories: Vec<Category> = Vec::new();
        let mut i: usize = 0;
        while i < self.categories.len()
            invariant
                i <= self.categories@.len(),
                categories@.len() == i,
                forall|j: int| 0 <= j < i ==> #[trigger] categories@[j]@ == self.categories@[j]@,
            decreases self.categories@.len() - i,
        {
            categories.push(self.categories[i].clone());
            i += 1;
        }
        let r = Board { categories };
        assert(r@ =~= self@);
        r
    }
}


/// Whether `h` names a clue of the board.
pub open spec fn has_clue(board: Seq<CategoryView>, h: ClueHandle) -> bool {
    h.0 < board.len() && h.1 < board[h.0 as int].clues.len()
}

/// The clue that `h` names; meaningful where `has_clue(board, h)`.
pub open spec fn clue_at(board: Seq<CategoryView>, h: ClueHandle) -> Clue {
    board[h.0 as int].clues[h.1 as int]
}

/// The board with the clue at `h` replaced by `c`.
pub open spec fn replace_clue(board: Seq<CategoryView>, h: ClueHandle, c: Clue) -> Seq<CategoryView> {
    board.update(
        h.0 as int,
        CategoryView { title: board[h.0 as int].title, clues: board[h.0 as int].clues.update(h.1 as int, c) },
    )
}

/// The board with the clue at `h` marked as played.
pub open spec fn solve_clue(board: Seq<CategoryView>, h: ClueHandle) -> Seq<CategoryView> {
    replace_clue(board, h, Clue { solved: true, ..clue_at(board, h) })
}

/// Whether every clue of the board was played.
pub open spec fn all_solved(board: Seq<CategoryView>) -> bool {
    forall|i: int, j: int|
        0 <= i < board.len() && 0 <= j < board[i].clues.len() ==> (#[trigger] board[i].clues[j]).solved
}

/// The number of clues in a row of the board: the clue count of its first category.
pub open spec fn row_count(board: Seq<CategoryView>) -> int {
    if board.len() == 0 {
        0
    } else {
        board[0].clues.len() as int
    }
}

impl Board {
    /// The clue at `clue`, or `ClueNotFound` where the board has none there.
    pub fn get(&self, clue: ClueHandle) -> (r: Result<&Clue, Error>)
        ensures
            r is Ok <==> has_clue(self@, clue),
            r is Ok ==> *r.unwrap() == clue_at(self@, clue),
            r is Err ==> r == Err::<&Clue, Error>(Error::ClueNotFound),
    {
        if clue.0 < self.categories.len() && clue.1 < self.categories[clue.0].clues.len() {
            Ok(&self.categories[clue.0].clues[clue.1])
        } else {
            Err(Error::ClueNotFound)
        }
    }

    /// The clue at `clue` to change in place, or `ClueNotFound` where the board
    /// has none there.
    pub fn get_mut(&mut self, clue: ClueHandle) -> (r: Result<&mut Clue, Error>)
        ensures
            r is Ok <==> has_clue(old(self)@, clue),
            r is Ok ==> *r.unwrap() == clue_at(old(self)@, clue)
                && final(self)@ == replace_clue(old(self)@, clue, *final(r.unwrap())),
            r is Err ==> r == Err::<&mut Clue, Error>(Error::ClueNotFound) && final(self)@ == old(self)@,
    {
        if clue.0 < self.categories.len() && clue.1 < self.categories[clue.0].clues.len() {
            Ok(&mut self.categories[clue.0].clues[clue.1])
        } else {
            Err(Error::ClueNotFound)
        }
    }

    /// Marks the clue at `clue` as played, or returns `ClueNotFound` and leaves
    /// the board unchanged.
    pub fn mark_solved(&mut self, clue: ClueHandle) -> (r: Result<(), Error>)
        ensures
            r is Ok <==> has_clue(old(self)@, clue),
            r is Ok ==> final(self)@ == solve_clue(old(self)@, clue),
            r is Err ==> r == Err::<(), Error>(Error::ClueNotFound) && final(self)@ == old(self)@,
    {
        let c = self.get_mut(clue)?;
        c.solved = true;
        Ok(())
    }

    /// The clues by row: row `r` holds, for each category `i` in order, the
    /// handle `(i, r)` and a copy of that clue. There are as many rows as the
    /// first category has clues.
    pub fn clue_rows(&self) -> (r: Vec<Vec<(ClueHandle, Clue)>>)
        requires
            forall|i: int| 0 <= i < self@.len() ==> #[trigger] self@[i].clues.len() >= row_count(self@),
        ensures
            r@.len() == row_count(self@),
            forall|k: int| 0 <= k < r@.len() ==> #[trigger] r@[k]@.len() == self@.len(),
            forall|k: int, i: int|
                0 <= k < r@.len() && 0 <= i < self@.len() ==> #[trigger] r@[k]@[i] == ((i as usize, k as usize), self@[i].clues[k]),
    {
        let mut rows: Vec<Vec<(ClueHandle, Clue)>> = Vec::new();
        if self.categories.len() == 0 {
            return rows;
        }
        let n = self.categories[0].clues.len();
        let mut k: usize = 0;
        while k < n
            invariant
                n == row_count(self@),
                self@.len() > 0,
                forall|i: int| 0 <= i < self@.len() ==> #[trigger] self@[i].clues.len() >= row_count(self@),
                k <= n,
                rows@.len() == k,
                forall|k2: int| 0 <= k2 < k ==> #[trigger] rows@[k2]@.len() == self@.len(),
                forall|k2: int, i: int|
                    0 <= k2 < k && 0 <= i < self@.len() ==> #[trigger] rows@[k2]@[i] == ((i as usize, k2 as usize), self@[i].clues[k2]),
            decreases n - k,
        {
            let mut row: Vec<(ClueHandle, Clue)> = Vec::new();
            let mut i: usize = 0;
            while i < self.categories.len()
                invariant
                    k < n,
                    n == row_count(self@),
                    forall|i2: int| 0 <= i2 < self@.len() ==> #[trigger] self@[i2].clues.len() >= row_count(self@),
                    i <= self@.len(),
                    row@.len() == i,
                    forall|i2: int| 0 <= i2 < i ==> #[trigger] row@[i2] == ((i2 as usize, k as usize), self@[i2].clues[k as int]),
                decreases self@.len() - i,
            {
                assert(self@[i as int].clues.len() >= n);
                row.push(((i, k), self.categories[i].clues[k].clone()));
                i += 1;
            }
            rows.push(row);
            k += 1;
        }
        rows
    }
}

/// A contestant of the match.
#[derive(Debug, PartialEq, Eq)]
pub struct Contestant {
    /// The display name given by the moderator; when absent, `name_hint` is shown.
    pub name: Option<String>,
    /// A name suggested by the contestant's client.
    pub name_hint: String,
    /// The score; may go negative.
    pub points: Points,
    /// Whether the contestant is highlighted, as after buzzing in.
    pub indicate: bool,
    /// Whether the contestant's client is connected.
    pub connected: bool,
}

impl Clone for Contestant {
    fn clone(&self) -> (r: Self)
        ensures
            r == *self,
    {
        let name = match &self.name {
            Some(n) => Some(n.clone()),
            None => None,
        };
        Contestant {
            name,
            name_hint: self.name_hint.clone(),
            points: self.points,
            indicate: self.indicate,
            connected: self.connected,
        }
    }
}

/// The settings of a match, fixed before it leaves Preparing. No setting is
/// defined yet.
#[derive(Clone, Copy, Debug, PartialEq, Eq)]
pub struct Options {}

impl Default for Options {
    fn default() -> (r: Self)
        ensures
            r == (Options {}),
    {
        Options {}
    }
}

/// A complete copy of the match at one instant.
#[derive(Debug, PartialEq, Eq)]
pub struct GameState {
    pub contestants: Vec<Contestant>,
    pub board: Board,
    pub phase: GamePhase,
    pub options: Options,
}

/// What a match is: contestants, board, phase and options.
pub struct StateView {
    pub contestants: Seq<Contestant>,
    pub board: Seq<CategoryView>,
    pub phase: GamePhase,
    pub options: Options,
}

impl View for GameState {
    type V = StateView;

    open spec fn view(&self) -> StateView {
        StateView {
            contestants: self.contestants@,
            board: self.board@,
            phase: self.phase,
            options: self.options,
        }
    }
}

/// A copy of a list of contestants.
pub fn clone_contestants(v: &Vec<Contestant>) -> (r: Vec<Contestant>)
    ensures
        r@ == v@,
{
    let r = v.clone();
    assert(r@ =~= v@);
    r
}

impl Clone for GameState {
    fn clone(&self) -> (r: Self)
        ensures
            r@ == self@,
    {
        GameState {
            contestants: clone_contestants(&self.contestants),
            board: self.board.clone(),
            phase: self.phase,
            options: self.options,
        }
    }
}

} // verus!
