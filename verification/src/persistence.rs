//! High-score bookkeeping: bounded, descending leaderboards, one per
//! grid size.
//!
//! The store here is purely in memory.  Reading and writing the JSON
//! file the scores live in between sessions is the embedding
//! application's job: it converts the file's contents into a
//! [`HighScores`] value and back, while [`HighScoreStore::from_scores`]
//! checks that what was read is a well-formed score table before the
//! store accepts it.

use vstd::prelude::*;
use crate::types::GridSize;

verus! {

/// A single high score entry with score and optional metadata.
#[derive(Debug, PartialEq, Eq)]
pub struct HighScore {
    pub score: u32,
    pub player_name: Option<String>,
    pub timestamp: Option<u64>,
}

impl Clone for HighScore {
    fn clone(&self) -> (res: Self)
        ensures
            res == *self,
    {
        HighScore {
            score: self.score,
            player_name: match &self.player_name {
                Some(name) => Some(name.clone()),
                None => None,
            },
            timestamp: self.timestamp,
        }
    }
}

/// The leaderboard of one grid size: its key (for example `10x10`) and
/// its entries, highest score first.
#[derive(Debug)]
pub struct GridBoard {
    pub key: String,
    pub entries: Vec<HighScore>,
}

/// Collection of high scores, keyed by grid size for separate
/// leaderboards.
#[derive(Debug)]
pub struct HighScores {
    pub scores: Vec<GridBoard>,
}

impl Default for HighScores {
    fn default() -> (r: Self)
        ensures
            r.scores@ == Seq::<GridBoard>::empty(),
    {
        HighScores { scores: Vec::new() }
    }
}

/// Errors that can occur around persistence operations.  The store
/// itself performs no I/O; the embedding application wraps its file and
/// encoding failures in these.
#[derive(Debug, PartialEq, Eq)]
pub enum PersistenceError {
    IoError(String),
    SerializationError(String),
    DeserializationError(String),
}

/// Whether a leaderboard is ordered highest score first.
pub open spec fn sorted_desc(s: Seq<HighScore>) -> bool {
    forall|i: int, j: int| 0 <= i < j < s.len() ==> s[i].score >= s[j].score
}

/// The index of the first board with the given key, or `-1`.
pub open spec fn board_index(bs: Seq<GridBoard>, key: Seq<char>) -> int
    decreases bs.len(),
{
    if bs.len() == 0 {
        -1
    } else if bs[0].key@ == key {
        0
    } else if board_index(bs.drop_first(), key) < 0 {
        -1
    } else {
        board_index(bs.drop_first(), key) + 1
    }
}

/// The entries stored under a key: those of its board, or empty.
pub open spec fn scores_for(bs: Seq<GridBoard>, key: Seq<char>) -> Seq<HighScore> {
    if board_index(bs, key) >= 0 {
        bs[board_index(bs, key)].entries@
    } else {
        Seq::empty()
    }
}

/// Where a new entry with score `sc` goes in a descending leaderboard:
/// after every entry at least as high, before the first strictly lower
/// one.
pub open spec fn insert_pos(s: Seq<HighScore>, sc: u32) -> int
    decreases s.len(),
{
    if s.len() == 0 {
        0
    } else if s[0].score < sc {
        0
    } else {
        1 + insert_pos(s.drop_first(), sc)
    }
}

/// A leaderboard after taking a new entry: ranked in, ties resolved in
/// favour of the entries already present, and cut back to the top 10.
pub open spec fn insert_ranked(s: Seq<HighScore>, hs: HighScore) -> Seq<HighScore> {
    let grown = s.insert(insert_pos(s, hs.score), hs);
    if grown.len() <= 10 {
        grown
    } else {
        grown.subrange(0, 10)
    }
}

/// Whether a score table is in the store's canonical form: keys
/// pairwise distinct, every board sorted highest first and at most 10
/// entries long.
pub open spec fn boards_wf(bs: Seq<GridBoard>) -> bool {
    &&& forall|i: int, j: int|
        0 <= i < j < bs.len() ==> (#[trigger] bs[i]).key@ != (#[trigger] bs[j]).key@
    &&& forall|i: int|
        0 <= i < bs.len() ==> sorted_desc((#[trigger] bs[i]).entries@) && bs[i].entries@.len()
            <= 10
}

/// `board_index` finds exactly the first key match: if the boards before
/// index `i` miss the key, then `i` (a hit) or `-1` is the result.
proof fn lemma_board_index_prefix(bs: Seq<GridBoard>, key: Seq<char>, i: int)
    requires
        0 <= i <= bs.len(),
        forall|j: int| 0 <= j < i ==> bs[j].key@ != key,
        i < bs.len() ==> bs[i].key@ == key,
    ensures
        i < bs.len() ==> board_index(bs, key) == i,
        i == bs.len() ==> board_index(bs, key) == -1,
    decreases bs.len(),
{
    if bs.len() == 0 {
    } else if bs[0].key@ == key {
    } else {
        let rest = bs.drop_first();
        assert(forall|j: int| 0 <= j < i - 1 ==> rest[j].key@ != key);
        lemma_board_index_prefix(rest, key, i - 1);
    }
}

/// The insert position is within bounds; everything before it scores at
/// least `sc`, and the entry at it (if any) scores strictly below.
proof fn lemma_insert_pos(s: Seq<HighScore>, sc: u32)
    ensures
        0 <= insert_pos(s, sc) <= s.len(),
        forall|j: int| 0 <= j < insert_pos(s, sc) ==> s[j].score >= sc,
        insert_pos(s, sc) < s.len() ==> s[insert_pos(s, sc)].score < sc,
    decreases s.len(),
{
    if s.len() == 0 {
    } else if s[0].score < sc {
    } else {
        lemma_insert_pos(s.drop_first(), sc);
        assert forall|j: int| 0 <= j < insert_pos(s, sc) implies s[j].score >= sc by {
            if j > 0 {
                assert(s.drop_first()[j - 1] == s[j]);
            }
        }
    }
}

/// The prefix characterization of the insert position: an exec search
/// that walked past every entry scoring at least `sc` found it.
proof fn lemma_insert_pos_prefix(s: Seq<HighScore>, sc: u32, i: int)
    requires
        0 <= i <= s.len(),
        forall|j: int| 0 <= j < i ==> s[j].score >= sc,
        i < s.len() ==> s[i].score < sc,
    ensures
        insert_pos(s, sc) == i,
    decreases s.len(),
{
    if s.len() == 0 {
    } else if s[0].score < sc {
    } else {
        let rest = s.drop_first();
        assert(forall|j: int| 0 <= j < i - 1 ==> rest[j].score >= sc);
        lemma_insert_pos_prefix(rest, sc, i - 1);
    }
}

/// Store for managing high scores, kept in the canonical form that the
/// on-disk representation round-trips through.
#[derive(Debug)]
pub struct HighScoreStore {
    scores: HighScores,
}

impl HighScoreStore {
    /// The leaderboards held, one per grid key.
    pub closed spec fn boards(self) -> Seq<GridBoard> {
        self.scores.scores@
    }

    #[verifier::type_invariant]
    spec fn wf(self) -> bool {
        boards_wf(self.boards())
    }

    /// An empty store.
    pub fn new() -> (r: Self)
        ensures
            r.boards().len() == 0,
    {
        HighScoreStore { scores: HighScores { scores: Vec::new() } }
    }

    /// Accepts a score table read back from storage, after checking that
    /// it is in canonical form — pairwise distinct keys, each board
    /// sorted highest first with at most 10 entries; any other table is
    /// rejected as malformed.
    #[verifier::loop_isolation(false)]
    pub fn from_scores(scores: HighScores) -> (r: Result<Self, PersistenceError>)
        ensures
            match r {
                Ok(st) => boards_wf(scores.scores@) && st.boards() == scores.scores@,
                Err(e) => !boards_wf(scores.scores@) && e is DeserializationError,
            },
    {
        let n = scores.scores.len();
        let mut i: usize = 0;
        while i < n
            invariant
                i <= n,
                n == scores.scores@.len(),
                forall|a: int, b: int|
                    0 <= a < b < i ==> (#[trigger] scores.scores@[a]).key@ != (
                    #[trigger] scores.scores@[b]).key@,
                forall|a: int|
                    0 <= a < i ==> sorted_desc((#[trigger] scores.scores@[a]).entries@)
                        && scores.scores@[a].entries@.len() <= 10,
            decreases n - i,
        {
            let board = &scores.scores[i];
            if board.entries.len() > 10 {
                proof {
                    assert(scores.scores@[i as int].entries@.len() > 10);
                    assert(!boards_wf(scores.scores@));
                }
                return Err(PersistenceError::DeserializationError(
                    "high score table is not in canonical form".to_owned(),
                ));
            }
            let m = board.entries.len();
            let mut j: usize = 0;
            while m > 0 && j < m - 1
                invariant
                    m == board.entries@.len(),
                    j < m || m == 0,
                    forall|a: int, b: int|
                        0 <= a < b < j + 1 && b < m ==> (#[trigger] board.entries@[a]).score
                            >= (#[trigger] board.entries@[b]).score,
                decreases m - j,
            {
                if board.entries[j].score < board.entries[j + 1].score {
                    proof {
                        assert(!sorted_desc(scores.scores@[i as int].entries@)) by {
                            assert(board.entries@[j as int].score < board.entries@[
                                j + 1].score);
                        }
                        assert(!boards_wf(scores.scores@));
                    }
                    return Err(PersistenceError::DeserializationError(
                        "high score table is not in canonical form".to_owned(),
                    ));
                }
                assert(forall|a: int|
                    0 <= a < j + 1 ==> (#[trigger] board.entries@[a]).score >= board.entries@[
                        j + 1].score);
                j += 1;
            }
            assert(sorted_desc(board.entries@));
            let mut k: usize = 0;
            while k < i
                invariant
                    k <= i < n,
                    n == scores.scores@.len(),
                    forall|a: int|
                        0 <= a < k ==> (#[trigger] scores.scores@[a]).key@ != scores.scores@[
                            i as int].key@,
                decreases i - k,
            {
                if scores.scores[k].key == scores.scores[i].key {
                    proof {
                        assert(scores.scores@[k as int].key@ == scores.scores@[i as int].key@);
                        assert(!boards_wf(scores.scores@));
                    }
                    return Err(PersistenceError::DeserializationError(
                        "high score table is not in canonical form".to_owned(),
                    ));
                }
                k += 1;
            }
            i += 1;
        }
        Ok(HighScoreStore { scores })
    }

    /// Read access to the whole table, for the persistence layer of the
    /// embedding application.  What comes out is in canonical form, so
    /// `from_scores` accepts it back unchanged.
    pub fn all_scores(&self) -> (r: &HighScores)
        ensures
            r.scores@ == self.boards(),
            boards_wf(r.scores@),
    {
        proof {
            use_type_invariant(&*self);
        }
        &self.scores
    }

    /// All high scores stored under a grid key, highest first; empty
    /// when the key has no board.
    pub fn get_scores(&self, grid_key: &str) -> (r: Vec<HighScore>)
        ensures
            r@ == scores_for(self.boards(), grid_key@),
            sorted_desc(r@),
            r@.len() <= 10,
    {
        proof {
            use_type_invariant(&*self);
        }
        match find_board_in(&self.scores.scores, grid_key) {
            Some(k) => clone_entries(&self.scores.scores[k].entries),
            None => Vec::new(),
        }
    }

    /// The top `limit` high scores stored under a grid key.
    pub fn get_top_scores(&self, grid_key: &str, limit: usize) -> (r: Vec<HighScore>)
        ensures
            ({
                let s = scores_for(self.boards(), grid_key@);
                r@ == if limit <= s.len() {
                    s.subrange(0, limit as int)
                } else {
                    s
                }
            }),
    {
        let all = self.get_scores(grid_key);
        let mut r: Vec<HighScore> = Vec::new();
        let n: usize = if limit < all.len() {
            limit
        } else {
            all.len()
        };
        let mut i: usize = 0;
        while i < n
            invariant
                i <= n <= all@.len(),
                r@ == all@.subrange(0, i as int),
            decreases n - i,
        {
            r.push(all[i].clone());
            proof {
                assert(r@ =~= all@.subrange(0, i + 1));
            }
            i += 1;
        }
        proof {
            assert(n == all@.len() ==> all@.subrange(0, n as int) =~= all@);
        }
        r
    }

    /// Files a new entry under a grid key: it is ranked into that key's
    /// board — created on first use — with ties resolved in favour of
    /// older entries, and the board keeps only its top 10.
    pub fn add_score(&mut self, grid_key: String, score: HighScore)
        ensures
            ({
                let k = board_index(old(self).boards(), grid_key@);
                if k < 0 {
                    &&& final(self).boards().len() == old(self).boards().len() + 1
                    &&& final(self).boards().drop_last() == old(self).boards()
                    &&& final(self).boards().last().key@ == grid_key@
                    &&& final(self).boards().last().entries@ == seq![score]
                } else {
                    &&& final(self).boards().len() == old(self).boards().len()
                    &&& forall|i: int|
                        0 <= i < old(self).boards().len() && i != k ==> final(self).boards()[i]
                            == old(self).boards()[i]
                    &&& final(self).boards()[k].key@ == grid_key@
                    &&& final(self).boards()[k].entries@ == insert_ranked(
                        old(self).boards()[k].entries@,
                        score,
                    )
                }
            }),
    {
        proof {
            use_type_invariant(&*self);
        }
        let ghost pre = self.boards();
        let mut table = HighScores { scores: Vec::new() };
        std::mem::swap(&mut table, &mut self.scores);
        match find_board_in(&table.scores, grid_key.as_str()) {
            Some(k) => {
                let mut board = table.scores.remove(k);
                let ghost old_entries = board.entries@;
                let m = board.entries.len();
                let mut j: usize = 0;
                while j < m && board.entries[j].score >= score.score
                    invariant
                        j <= m,
                        m == board.entries@.len(),
                        forall|a: int| 0 <= a < j ==> board.entries@[a].score >= score.score,
                    decreases m - j,
                {
                    j += 1;
                }
                proof {
                    lemma_insert_pos_prefix(old_entries, score.score, j as int);
                }
                board.entries.insert(j, score);
                if board.entries.len() > 10 {
                    board.entries.truncate(10);
                }
                proof {
                    assert(board.entries@ == insert_ranked(old_entries, score));
                    lemma_insert_pos(old_entries, score.score);
                    assert(sorted_desc(board.entries@)) by {
                        assert(forall|a: int, b: int|
                            0 <= a < b < board.entries@.len() ==> board.entries@[a].score
                                >= board.entries@[b].score);
                    }
                }
                table.scores.insert(k, board);
                proof {
                    assert(table.scores@ =~= pre.update(k as int, table.scores@[k as int]));
                }
                self.scores = table;
            },
            None => {
                let mut entries: Vec<HighScore> = Vec::new();
                entries.push(score);
                table.scores.push(GridBoard { key: grid_key, entries });
                self.scores = table;
            },
        }
    }

    /// The highest score stored under a grid key, if any.
    pub fn get_highest_score(&self, grid_key: &str) -> (r: Option<u32>)
        ensures
            ({
                let s = scores_for(self.boards(), grid_key@);
                if s.len() == 0 {
                    r is None
                } else {
                    r == Some(s[0].score)
                }
            }),
    {
        match find_board_in(&self.scores.scores, grid_key) {
            Some(k) => {
                let board = &self.scores.scores[k];
                if board.entries.len() == 0 {
                    None
                } else {
                    Some(board.entries[0].score)
                }
            },
            None => None,
        }
    }

    /// Whether a score would lead the board of the given grid key: any
    /// score qualifies while the board is empty, else only one strictly
    /// above the current highest.
    pub fn is_high_score(&self, grid_key: &str, score: u32) -> (b: bool)
        ensures
            ({
                let s = scores_for(self.boards(), grid_key@);
                b == (s.len() == 0 || score > s[0].score)
            }),
    {
        match self.get_highest_score(grid_key) {
            None => true,
            Some(highest) => score > highest,
        }
    }

}

/// The index of the board for `grid_key` in a board list, if one exists.
fn find_board_in(bs: &Vec<GridBoard>, grid_key: &str) -> (r: Option<usize>)
    ensures
        match r {
            Some(k) => {
                &&& k < bs@.len()
                &&& bs@[k as int].key@ == grid_key@
                &&& board_index(bs@, grid_key@) == k
            },
            None => {
                &&& board_index(bs@, grid_key@) == -1
                &&& forall|j: int| 0 <= j < bs@.len() ==> (#[trigger] bs@[j]).key@ != grid_key@
            },
        },
{
    let want: String = grid_key.to_owned();
    let n = bs.len();
    let mut i: usize = 0;
    while i < n
        invariant
            i <= n,
            n == bs@.len(),
            want@ == grid_key@,
            forall|j: int| 0 <= j < i ==> (#[trigger] bs@[j]).key@ != grid_key@,
        decreases n - i,
    {
        if bs[i].key == want {
            proof {
                lemma_board_index_prefix(bs@, grid_key@, i as int);
            }
            return Some(i);
        }
        i += 1;
    }
    proof {
        lemma_board_index_prefix(bs@, grid_key@, n as int);
    }
    None
}

/// An element-wise copy of a leaderboard.
fn clone_entries(v: &Vec<HighScore>) -> (r: Vec<HighScore>)
    ensures
        r@ == v@,
{
    let mut r: Vec<HighScore> = Vec::new();
    let n = v.len();
    let mut i: usize = 0;
    while i < n
        invariant
            i <= n,
            n == v@.len(),
            r@ == v@.subrange(0, i as int),
        decreases n - i,
    {
        r.push(v[i].clone());
        proof {
            assert(r@ =~= v@.subrange(0, i + 1));
        }
        i += 1;
    }
    proof {
        assert(r@ =~= v@);
    }
    r
}

/// The decimal digit character for `d`.
pub open spec fn digit_char(d: int) -> char {
    if d == 0 {
        '0'
    } else if d == 1 {
        '1'
    } else if d == 2 {
        '2'
    } else if d == 3 {
        '3'
    } else if d == 4 {
        '4'
    } else if d == 5 {
        '5'
    } else if d == 6 {
        '6'
    } else if d == 7 {
        '7'
    } else if d == 8 {
        '8'
    } else {
        '9'
    }
}

/// The decimal rendering of a non-negative number.
pub open spec fn spec_udec(n: int) -> Seq<char>
    decreases n,
{
    if n < 10 {
        seq![digit_char(n)]
    } else {
        spec_udec(n / 10) + seq![digit_char(n % 10)]
    }
}

/// The decimal rendering of a number, with a leading minus sign when
/// negative.
pub open spec fn spec_dec(v: int) -> Seq<char> {
    if v < 0 {
        seq!['-'] + spec_udec(-v)
    } else {
        spec_udec(v)
    }
}

/// The key a grid files its scores under: width and height in decimal,
/// joined by an `x`.
pub open spec fn spec_grid_key(w: int, h: int) -> Seq<char> {
    spec_dec(w) + seq!['x'] + spec_dec(h)
}

/// The one-character string for a decimal digit.
fn digit_str(d: u64) -> (s: &'static str)
    requires
        d < 10,
    ensures
        s@ == seq![digit_char(d as int)],
{
    proof {
        reveal_strlit("0");
        reveal_strlit("1");
        reveal_strlit("2");
        reveal_strlit("3");
        reveal_strlit("4");
        reveal_strlit("5");
        reveal_strlit("6");
        reveal_strlit("7");
        reveal_strlit("8");
        reveal_strlit("9");
    }
    let r: &'static str = if d == 0 {
        "0"
    } else if d == 1 {
        "1"
    } else if d == 2 {
        "2"
    } else if d == 3 {
        "3"
    } else if d == 4 {
        "4"
    } else if d == 5 {
        "5"
    } else if d == 6 {
        "6"
    } else if d == 7 {
        "7"
    } else if d == 8 {
        "8"
    } else {
        "9"
    };
    proof {
        assert(r@ =~= seq![digit_char(d as int)]);
    }
    r
}

/// Appends the decimal rendering of `n`.
fn push_udec(n: u64, out: &mut String)
    ensures
        final(out)@ == old(out)@ + spec_udec(n as int),
    decreases n,
{
    if n >= 10 {
        push_udec(n / 10, out);
        out.append(digit_str(n % 10));
        proof {
            assert(final(out)@ =~= old(out)@ + spec_udec(n as int));
        }
    } else {
        out.append(digit_str(n));
    }
}

/// Appends the decimal rendering of `v`, with its sign.
fn push_dec(v: i32, out: &mut String)
    ensures
        final(out)@ == old(out)@ + spec_dec(v as int),
{
    let wide: i64 = v as i64;
    if wide < 0 {
        proof {
            reveal_strlit("-");
            assert("-"@ =~= seq!['-']);
        }
        out.append("-");
        push_udec((-wide) as u64, out);
        proof {
            assert(final(out)@ =~= old(out)@ + spec_dec(v as int));
        }
    } else {
        push_udec(wide as u64, out);
    }
}

/// Helper function to create a grid key from grid dimensions.
pub fn grid_key(width: i32, height: i32) -> (s: String)
    ensures
        s@ == spec_grid_key(width as int, height as int),
{
    let mut s = String::new();
    push_dec(width, &mut s);
    proof {
        reveal_strlit("x");
        assert("x"@ =~= seq!['x']);
    }
    s.append("x");
    push_dec(height, &mut s);
    proof {
        assert(s@ =~= spec_grid_key(width as int, height as int));
    }
    s
}

/// Convenience constructor for the key of a [`GridSize`].
pub fn grid_key_of(grid: GridSize) -> (s: String)
    ensures
        s@ == spec_grid_key(grid.w as int, grid.h as int),
{
    grid_key(grid.w, grid.h)
}

} // verus!
