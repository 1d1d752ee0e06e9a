//! The game-session registry: games addressed by a 4-digit numeric join
//! code, created by a hosting request and looked up by a joining one. The
//! registry itself is a plain value; callers that share it across
//! concurrent handlers guard it with a lock held only for the duration of
//! one lookup or insert.
use crate::board::{board_matches, spec_start_model, Board};
use vstd::prelude::*;
use rand::Rng;

verus! {

/// The lifecycle of a game: hosting creates it `Waiting`; the transitions
/// to `Playing` and `Finished` are not triggered in this scope.
#[derive(Debug, Clone, Copy, PartialEq, Eq, Structural)]
pub enum GameState {
    Waiting,
    Playing,
    Finished,
}

/// A joined participant, as the domain sees one: just a name. The
/// transport handle of a live connection is owned by its connection task
/// and linked to the player by lookup, not stored here.
pub struct Player {
    pub username: String,
}

/// One hosted game: its join code, lifecycle state, joined players, and
/// the board.
pub struct Game {
    pub code: String,
    pub state: GameState,
    pub players: Vec<Player>,
    pub board: Board,
}

/// Looking up an unknown join code fails before any session starts.
#[derive(Debug, Clone, Copy, PartialEq, Eq, Structural)]
pub enum JoinError {
    NotFound,
}

/// The decimal digit character for a value below ten.
pub open spec fn spec_digit_char(d: int) -> char {
    ((48 + d) as u8) as char
}

/// The 4 decimal digit characters of a code, most significant first.
pub open spec fn spec_code_chars(n: int) -> Seq<char> {
    seq![
        spec_digit_char(n / 1000 % 10),
        spec_digit_char(n / 100 % 10),
        spec_digit_char(n / 10 % 10),
        spec_digit_char(n % 10),
    ]
}

/// True of the texts that hosting can hand out: the 4 digits of some
/// number in the 4-digit code range.
pub open spec fn spec_is_code(s: Seq<char>) -> bool {
    exists|n: int| 1000 <= n <= 9999 && s == spec_code_chars(n)
}

/// A game as hosting creates it: it carries the given code, waits for
/// players, has none yet, and holds the standard starting position.
pub open spec fn spec_fresh_game(g: Game, code: Seq<char>) -> bool {
    &&& g.code@ == code
    &&& g.state == GameState::Waiting
    &&& g.players@ == Seq::<Player>::empty()
    &&& board_matches(g.board, spec_start_model())
}

/// The decimal digit character of a value below ten.
fn digit_str(d: u32) -> (s: &'static str)
    requires
        d < 10,
    ensures
        s@ == seq![spec_digit_char(d as int)],
{
    proof {
        reveal_strlit("0");
        reveal_strlit("1");
        reveal_strlit("2");
        reveal_strlit("3");
        reveal_strlit("4");
        reveal_strlit("5");
        reveal_strlit("6");
        reveal_strlit("7");
        reveal_strlit("8");
        reveal_strlit("9");
    }
    if d == 0 {
        "0"
    } else if d == 1 {
        "1"
    } else if d == 2 {
        "2"
    } else if d == 3 {
        "3"
    } else if d == 4 {
        "4"
    } else if d == 5 {
        "5"
    } else if d == 6 {
        "6"
    } else if d == 7 {
        "7"
    } else if d == 8 {
        "8"
    } else {
        "9"
    }
}

/// The 4-digit decimal text of a code.
pub fn code_string(n: u32) -> (s: String)
    requires
        1000 <= n <= 9999,
    ensures
        s@ == spec_code_chars(n as int),
        spec_is_code(s@),
{
    let mut s = String::new();
    s.append(digit_str((n / 1000) % 10));
    s.append(digit_str((n / 100) % 10));
    s.append(digit_str((n / 10) % 10));
    s.append(digit_str(n % 10));
    proof {
        assert(s@ =~= spec_code_chars(n as int));
    }
    s
}

/// Relies on rand's `Rng::gen_range` on the thread-local generator: called
/// with the inclusive range of 4-digit numbers, it returns a value inside
/// that range.
#[verifier::external_body]
fn random_code() -> (n: u32)
    ensures
        1000 <= n <= 9999,
{
    let mut rng = rand::thread_rng();
    rng.gen_range(1000..=9999)
}

/// The code-to-game registry. It lives for the whole process and is
/// injected into every handler that hosts or joins, never kept as an
/// implicit global.
pub struct GameRegistry {
    games: vstd::hash_map::StringHashMap<Game>,
}

impl View for GameRegistry {
    type V = Map<Seq<char>, Game>;

    closed spec fn view(&self) -> Map<Seq<char>, Game> {
        self.games@
    }
}

impl GameRegistry {
    /// An empty registry: no code is known.
    pub fn new() -> (r: GameRegistry)
        ensures
            r@ == Map::<Seq<char>, Game>::empty(),
    {
        GameRegistry { games: vstd::hash_map::StringHashMap::new() }
    }

    /// How many games are registered.
    pub fn len(&self) -> (n: usize)
        ensures
            n == self@.len(),
    {
        self.games.len()
    }

    /// Host a new game: draw a random 4-digit code, register a fresh
    /// waiting game with the starting position under it, and return the
    /// code. An existing game under the same code is replaced; nothing
    /// else changes. Collisions are not retried in this scope.
    pub fn host_game(&mut self) -> (code: String)
        ensures
            spec_is_code(code@),
            final(self)@.contains_key(code@),
            spec_fresh_game(final(self)@[code@], code@),
            final(self)@ == old(self)@.insert(code@, final(self)@[code@]),
    {
        let n = random_code();
        let code = code_string(n);
        let game = Game {
            code: code.clone(),
            state: GameState::Waiting,
            players: Vec::new(),
            board: Board::default(),
        };
        self.games.insert(code.clone(), game);
        code
    }

    /// Look up the game a join code names: the registered game if the code
    /// is known, and `NotFound` if and only if it is not.
    pub fn connect<'a>(&'a self, code: &str) -> (r: Result<&'a Game, JoinError>)
        ensures
            match r {
                Ok(g) => self@.contains_key(code@) && *g == self@[code@],
                Err(e) => e == JoinError::NotFound && !self@.contains_key(code@),
            },
    {
        match self.games.get(code) {
            Some(g) => Ok(g),
            None => Err(JoinError::NotFound),
        }
    }
}

/// Hosting then joining agree: a registry that a hosting request just
/// extended hands the fresh game back for the returned code, no game
/// registered under another code is lost or changed by the insert, and an
/// empty registry holds no code at all, so every lookup on it fails.
pub proof fn lemma_host_then_connect(
    pre: Map<Seq<char>, Game>,
    post: Map<Seq<char>, Game>,
    code: Seq<char>,
    g: Game,
)
    requires
        post == pre.insert(code, g),
        spec_fresh_game(g, code),
    ensures
        post.contains_key(code),
        spec_fresh_game(post[code], code),
        forall|s: Seq<char>|
            s != code && #[trigger] pre.contains_key(s) ==> post.contains_key(s) && post[s]
                == pre[s],
        forall|s: Seq<char>| Map::<Seq<char>, Game>::empty().contains_key(s) == false,
{
}

} // verus!
