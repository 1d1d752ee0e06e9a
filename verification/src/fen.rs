//! Tokenising for the FEN decoder: splitting the input into
//! whitespace-separated fields and the placement field into `/`-separated
//! ranks, against spec-level definitions of both splits.
use vstd::prelude::*;

verus! {

/// Whether a character separates FEN fields: the Unicode white-space
/// property that `char::is_whitespace` implements, a function of the
/// character alone, named rather than restated.
pub uninterp spec fn whitespace_of(c: char) -> bool;

/// Whitespace splitting, one character at a time from the front: leading
/// whitespace is dropped, and a non-whitespace character either extends the
/// token that starts right after it or opens a token of its own. Tokens are
/// never empty and empty input yields no tokens.
pub open spec fn spec_ws_split(s: Seq<char>) -> Seq<Seq<char>>
    decreases s.len(),
{
    if s.len() == 0 {
        Seq::empty()
    } else {
        let rest = spec_ws_split(s.skip(1));
        if whitespace_of(s[0]) {
            rest
        } else if s.len() > 1 && !whitespace_of(s[1]) {
            seq![seq![s[0]] + rest[0]] + rest.skip(1)
        } else {
            seq![seq![s[0]]] + rest
        }
    }
}

/// Splitting on `/`, one character at a time from the front: every `/`
/// ends a piece, empty pieces are kept, and empty input yields one empty
/// piece. The result always has one piece more than the input has `/`.
pub open spec fn spec_slash_split(s: Seq<char>) -> Seq<Seq<char>>
    decreases s.len(),
{
    if s.len() == 0 {
        seq![Seq::empty()]
    } else {
        let rest = spec_slash_split(s.skip(1));
        if s[0] == '/' {
            seq![Seq::empty()] + rest
        } else {
            seq![seq![s[0]] + rest[0]] + rest.skip(1)
        }
    }
}

/// A `/` split always yields at least one piece.
pub proof fn lemma_slash_split_nonempty(s: Seq<char>)
    ensures
        spec_slash_split(s).len() >= 1,
    decreases s.len(),
{
    if s.len() > 0 {
        lemma_slash_split_nonempty(s.skip(1));
    }
}

/// The executable token lists mirror the spec-level split: same count, and
/// each token holds the same characters.
pub open spec fn tokens_match(r: Seq<Vec<char>>, ss: Seq<Seq<char>>) -> bool {
    &&& r.len() == ss.len()
    &&& forall|j: int| 0 <= j < r.len() ==> #[trigger] r[j]@ == ss[j]
}

/// Relies on `char::is_whitespace`: whether the character has the Unicode
/// white-space property; the result depends on the character alone.
#[verifier::external_body]
fn is_ws(c: char) -> (b: bool)
    ensures
        b == whitespace_of(c),
{
    c.is_whitespace()
}

/// The characters of a string, in order.
pub fn chars_of(s: &str) -> (v: Vec<char>)
    ensures
        v@ == s@,
{
    let n = s.unicode_len();
    let mut v: Vec<char> = Vec::new();
    let mut i: usize = 0;
    while i < n
        invariant
            i <= n,
            n == s@.len(),
            v@ == s@.take(i as int),
        decreases n - i,
    {
        v.push(s.get_char(i));
        i = i + 1;
        proof {
            assert(v@ =~= s@.take(i as int));
        }
    }
    proof {
        assert(s@.take(n as int) =~= s@);
    }
    v
}

/// Split into whitespace-separated tokens, scanning from the back so that
/// each step is one unfolding of the spec-level split.
pub fn ws_split(v: &Vec<char>) -> (r: Vec<Vec<char>>)
    ensures
        tokens_match(r@, spec_ws_split(v@)),
{
    let n = v.len();
    let mut r: Vec<Vec<char>> = Vec::new();
    let mut i: usize = n;
    proof {
        assert(v@.skip(n as int) =~= Seq::<char>::empty());
    }
    while i > 0
        invariant
            i <= n,
            n == v@.len(),
            tokens_match(r@, spec_ws_split(v@.skip(i as int))),
        decreases i,
    {
        i = i - 1;
        let c = v[i];
        let ghost s = v@.skip(i as int);
        proof {
            assert(s[0] == v@[i as int]);
            assert(s.skip(1) =~= v@.skip(i as int + 1));
        }
        let ghost rest = spec_ws_split(s.skip(1));
        if is_ws(c) {
            // the spec drops a leading whitespace character
        } else if i + 1 < n && !is_ws(v[i + 1]) {
            proof {
                assert(s.len() > 1 && s[1] == v@[i as int + 1]);
                assert(spec_ws_split(s) == seq![seq![s[0]] + rest[0]] + rest.skip(1));
                assert(rest.len() >= 1);
            }
            let mut first = r.remove(0);
            first.insert(0, c);
            r.insert(0, first);
            proof {
                assert(first@ =~= seq![c] + rest[0]);
                assert forall|j: int| 0 <= j < r@.len() implies #[trigger] r@[j]@
                    == spec_ws_split(s)[j] by {
                    if j > 0 {
                        assert(r@[j]@ == rest.skip(1)[j - 1]);
                    }
                }
            }
        } else {
            proof {
                assert(spec_ws_split(s) == seq![seq![s[0]]] + rest);
            }
            let mut first: Vec<char> = Vec::new();
            first.push(c);
            r.insert(0, first);
            proof {
                assert(first@ =~= seq![c]);
                assert forall|j: int| 0 <= j < r@.len() implies #[trigger] r@[j]@
                    == spec_ws_split(s)[j] by {
                    if j > 0 {
                        assert(r@[j]@ == rest[j - 1]);
                    }
                }
            }
        }
    }
    proof {
        assert(v@.skip(0) =~= v@);
    }
    r
}

/// Split into `/`-separated pieces, scanning from the back so that each
/// step is one unfolding of the spec-level split.
pub fn slash_split(v: &Vec<char>) -> (r: Vec<Vec<char>>)
    ensures
        tokens_match(r@, spec_slash_split(v@)),
{
    let n = v.len();
    let mut r: Vec<Vec<char>> = Vec::new();
    let empty: Vec<char> = Vec::new();
    r.push(empty);
    let mut i: usize = n;
    proof {
        assert(v@.skip(n as int) =~= Seq::<char>::empty());
        assert(r@[0]@ =~= Seq::<char>::empty());
    }
    while i > 0
        invariant
            i <= n,
            n == v@.len(),
            tokens_match(r@, spec_slash_split(v@.skip(i as int))),
        decreases i,
    {
        i = i - 1;
        let c = v[i];
        let ghost s = v@.skip(i as int);
        proof {
            assert(s[0] == v@[i as int]);
            assert(s.skip(1) =~= v@.skip(i as int + 1));
            lemma_slash_split_nonempty(s.skip(1));
        }
        let ghost rest = spec_slash_split(s.skip(1));
        if c == '/' {
            proof {
                assert(spec_slash_split(s) == seq![Seq::<char>::empty()] + rest);
            }
            let piece: Vec<char> = Vec::new();
            r.insert(0, piece);
            proof {
                assert forall|j: int| 0 <= j < r@.len() implies #[trigger] r@[j]@
                    == spec_slash_split(s)[j] by {
                    if j > 0 {
                        assert(r@[j]@ == rest[j - 1]);
                    }
                }
            }
        } else {
            proof {
                assert(spec_slash_split(s) == seq![seq![s[0]] + rest[0]] + rest.skip(1));
            }
            let mut first = r.remove(0);
            first.insert(0, c);
            r.insert(0, first);
            proof {
                assert(first@ =~= seq![c] + rest[0]);
                assert forall|j: int| 0 <= j < r@.len() implies #[trigger] r@[j]@
                    == spec_slash_split(s)[j] by {
                    if j > 0 {
                        assert(r@[j]@ == rest.skip(1)[j - 1]);
                    }
                }
            }
        }
    }
    proof {
        assert(v@.skip(0) =~= v@);
    }
    r
}

} // verus!
