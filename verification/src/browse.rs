//! Parsing of browse-tree node ids into playlist categories.

use vstd::prelude::*;
use vstd::string::StrSliceExecFns;

verus! {

/// What `char::is_alphabetic` holds of a character; a function of the
/// character alone.
pub uninterp spec fn spec_alphabetic(c: char) -> bool;

/// Relies on char::is_alphabetic: whether the character has the Unicode
/// Alphabetic property.
#[verifier::external_body]
fn char_is_alphabetic(c: char) -> (r: bool)
    ensures
        r == spec_alphabetic(c),
{
    c.is_alphabetic()
}

/// `s` with its leading non-alphabetic characters removed.
pub open spec fn spec_trim_front(s: Seq<char>) -> Seq<char>
    decreases s.len(),
{
    if s.len() == 0 {
        s
    } else if spec_alphabetic(s[0]) {
        s
    } else {
        spec_trim_front(s.drop_first())
    }
}

/// `s` with its trailing non-alphabetic characters removed.
pub open spec fn spec_trim_back(s: Seq<char>) -> Seq<char>
    decreases s.len(),
{
    if s.len() == 0 {
        s
    } else if spec_alphabetic(s[s.len() - 1]) {
        s
    } else {
        spec_trim_back(s.drop_last())
    }
}

/// `s` with non-alphabetic characters removed from both ends, as
/// `str::trim_matches` does with an is-not-alphabetic pattern.
pub open spec fn spec_trim_non_alpha(s: Seq<char>) -> Seq<char> {
    spec_trim_back(spec_trim_front(s))
}

/// When everything before `lo` is non-alphabetic and `lo` (if inside) is
/// alphabetic, front-trimming drops exactly the first `lo` characters.
proof fn lemma_trim_front(s: Seq<char>, lo: int)
    requires
        0 <= lo <= s.len(),
        forall|i: int| 0 <= i < lo ==> !#[trigger] spec_alphabetic(s[i]),
        lo < s.len() ==> spec_alphabetic(s[lo]),
    ensures
        spec_trim_front(s) == s.skip(lo),
    decreases lo,
{
    if lo == 0 {
        assert(s.skip(0) =~= s);
    } else {
        assert(!spec_alphabetic(s[0]));
        let tail = s.drop_first();
        assert(forall|i: int| 0 <= i < lo - 1 ==> !#[trigger] spec_alphabetic(tail[i]));
        lemma_trim_front(tail, lo - 1);
        assert(tail.skip(lo - 1) =~= s.skip(lo));
    }
}

/// When everything from `hi` on is non-alphabetic and `hi - 1` (if the
/// result is non-empty) is alphabetic, back-trimming keeps exactly the
/// first `hi` characters.
proof fn lemma_trim_back(s: Seq<char>, hi: int)
    requires
        0 <= hi <= s.len(),
        forall|i: int| hi <= i < s.len() ==> !#[trigger] spec_alphabetic(s[i]),
        hi > 0 ==> spec_alphabetic(s[hi - 1]),
    ensures
        spec_trim_back(s) == s.take(hi),
    decreases s.len() - hi,
{
    if hi == s.len() {
        if s.len() == 0 || spec_alphabetic(s[s.len() - 1]) {
            assert(s.take(hi) =~= s);
        } else {
            assert(spec_alphabetic(s[hi - 1]));
        }
    } else {
        assert(!spec_alphabetic(s[s.len() - 1]));
        let front = s.drop_last();
        assert(forall|i: int| hi <= i < front.len() ==> !#[trigger] spec_alphabetic(front[i]));
        lemma_trim_back(front, hi);
        assert(front.take(hi) =~= s.take(hi));
    }
}

/// The category a browse node id names.
#[derive(Clone, Copy, Debug, PartialEq, Eq, Structural)]
pub enum PlaylistType {
    ForYou,
    Followed,
    MyOwn,
}

impl PlaylistType {
    /// Parse a node id: after stripping non-alphabetic characters from
    /// both ends (a node id arrives as a path such as `/foryou/`), the
    /// remainder must name one of the three categories.
    pub fn try_from(value: String) -> (r: Result<PlaylistType, &'static str>)
        ensures
            ({
                let t = spec_trim_non_alpha(value@);
                match r {
                    Ok(p) => match p {
                        PlaylistType::Followed => t == "followedplaylist"@,
                        PlaylistType::MyOwn => t == "myplaylist"@,
                        PlaylistType::ForYou => t == "foryou"@,
                    },
                    Err(_) => t != "followedplaylist"@ && t != "myplaylist"@ && t != "foryou"@,
                }
            }),
    {
        let s = value.as_str();
        let n = s.unicode_len();
        let mut lo: usize = 0;
        while lo < n && !char_is_alphabetic(s.get_char(lo))
            invariant
                n == s@.len(),
                s@ == value@,
                0 <= lo <= n,
                forall|i: int| 0 <= i < lo ==> !#[trigger] spec_alphabetic(s@[i]),
            decreases n - lo,
        {
            lo += 1;
        }
        let mut hi: usize = n;
        while hi > lo && !char_is_alphabetic(s.get_char(hi - 1))
            invariant
                n == s@.len(),
                s@ == value@,
                0 <= lo <= hi <= n,
                forall|i: int| 0 <= i < lo ==> !#[trigger] spec_alphabetic(s@[i]),
                lo < n ==> spec_alphabetic(s@[lo as int]),
                forall|i: int| hi <= i < n ==> !#[trigger] spec_alphabetic(s@[i]),
            decreases hi,
        {
            hi -= 1;
        }
        proof {
            lemma_trim_front(s@, lo as int);
            if lo < n {
                lemma_trim_back(s@.skip(lo as int), hi - lo);
            } else {
                lemma_trim_back(s@.skip(lo as int), 0);
            }
            assert(s@.skip(lo as int).take(hi - lo) =~= s@.subrange(lo as int, hi as int));
        }
        let trimmed = s.substring_char(lo, hi).to_owned();
        if trimmed == "followedplaylist".to_owned() {
            Ok(PlaylistType::Followed)
        } else if trimmed == "myplaylist".to_owned() {
            Ok(PlaylistType::MyOwn)
        } else if trimmed == "foryou".to_owned() {
            Ok(PlaylistType::ForYou)
        } else {
            Err("Unknown playlist type")
        }
    }
}

} // verus!
