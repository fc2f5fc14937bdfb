//! Cleaning up the lines that engine sub-processes log: the level, date and
//! time at the start of a line are dropped.
use vstd::prelude::*;
use crate::text::chars_of;
use crate::text::string_of;

verus! {

/// The date and time after a log level: `# ` stands for a digit.
pub const LEVEL_STAMP_SHAPE: &'static str = " ##-## ##:##:## ";

/// A bracketed date and time.
pub const BRACKET_STAMP_SHAPE: &'static str = "[####-##-## ##:##:##] ";

pub open spec fn is_upper(c: char) -> bool {
    'A' <= c <= 'Z'
}

/// An ASCII decimal digit. The digits of other scripts (which a Unicode `\d`
/// would also take) do not count: log stamps are written in ASCII.
pub open spec fn is_digit(c: char) -> bool {
    '0' <= c <= '9'
}

/// `c` fits the shape character `p`: `#` takes a digit, anything else itself.
pub open spec fn fits(c: char, p: char) -> bool {
    if p == '#' {
        is_digit(c)
    } else {
        c == p
    }
}

/// `s` from `start` on fits `shape`.
pub open spec fn fits_at(s: Seq<char>, start: int, shape: Seq<char>) -> bool {
    &&& 0 <= start
    &&& start + shape.len() <= s.len()
    &&& forall|i: int| 0 <= i < shape.len() ==> fits(#[trigger] s[start + i], shape[i])
}

/// The number of upper-case ASCII letters in a row from `i` on.
pub open spec fn upper_from(s: Seq<char>, i: int) -> nat
    decreases s.len() - i,
{
    if 0 <= i < s.len() && is_upper(s[i]) {
        1 + upper_from(s, i + 1)
    } else {
        0
    }
}

/// The length of the log prefix at the start of `s`, with the space after it:
/// a level (upper-case letters) and `MM-DD HH:MM:SS`, or
/// `[YYYY-MM-DD HH:MM:SS]`; -1 when `s` starts with neither.
pub open spec fn log_prefix_len(s: Seq<char>) -> int {
    let n = upper_from(s, 0);
    if n > 0 && fits_at(s, n as int, LEVEL_STAMP_SHAPE@) {
        (n + LEVEL_STAMP_SHAPE@.len()) as int
    } else if fits_at(s, 0, BRACKET_STAMP_SHAPE@) {
        BRACKET_STAMP_SHAPE@.len() as int
    } else {
        -1
    }
}

/// The message of a log line: what follows the log prefix, provided it is one
/// line; otherwise the line itself.
pub open spec fn strip_spec(s: Seq<char>) -> Seq<char> {
    let k = log_prefix_len(s);
    let rest = s.subrange(k, s.len() as int);
    if k >= 0 && !rest.contains('\n') {
        rest
    } else {
        s
    }
}

fn count_upper(cs: &Vec<char>) -> (r: usize)
    ensures
        r == upper_from(cs@, 0),
        r <= cs@.len(),
{
    let mut i: usize = 0;
    while i < cs.len() && 'A' <= cs[i] && cs[i] <= 'Z'
        invariant
            i <= cs@.len(),
            upper_from(cs@, 0) == i + upper_from(cs@, i as int),
        decreases cs@.len() - i,
    {
        i = i + 1;
    }
    i
}

fn fits_shape(cs: &Vec<char>, start: usize, shape: &str) -> (r: bool)
    ensures
        r == fits_at(cs@, start as int, shape@),
{
    let sh = chars_of(shape);
    if start > cs.len() || sh.len() > cs.len() - start {
        return false;
    }
    let len = cs.len();
    let mut i: usize = 0;
    while i < sh.len()
        invariant
            len == cs@.len(),
            sh@ == shape@,
            start + sh@.len() <= cs@.len(),
            i <= sh@.len(),
            forall|j: int| 0 <= j < i ==> fits(#[trigger] cs@[start + j], sh@[j]),
        decreases sh@.len() - i,
    {
        assert(start + i < cs@.len());
        let c = cs[start + i];
        let p = sh[i];
        let ok = if p == '#' {
            '0' <= c && c <= '9'
        } else {
            c == p
        };
        if !ok {
            assert(!fits(cs@[start + i as int], sh@[i as int]));
            return false;
        }
        i = i + 1;
    }
    true
}

/// Strips the log level, date and time from the start of a log line (see
/// `strip_spec`).
pub fn strip_log_prefix(line: &str) -> (r: String)
    ensures
        r@ == strip_spec(line@),
{
    let cs = chars_of(line);
    let total = cs.len();
    let n = count_upper(&cs);
    let k: usize = if n > 0 && fits_shape(&cs, n, LEVEL_STAMP_SHAPE) {
        n + chars_of(LEVEL_STAMP_SHAPE).len()
    } else if fits_shape(&cs, 0, BRACKET_STAMP_SHAPE) {
        chars_of(BRACKET_STAMP_SHAPE).len()
    } else {
        return line.to_owned();
    };
    assert(k == log_prefix_len(line@));
    let mut i: usize = k;
    while i < cs.len()
        invariant
            cs@ == line@,
            k == log_prefix_len(line@),
            k <= i <= cs@.len(),
            forall|j: int| k <= j < i ==> cs@[j] != '\n',
        decreases cs@.len() - i,
    {
        if cs[i] == '\n' {
            assert(cs@.subrange(k as int, cs@.len() as int)[i - k] == '\n');
            return line.to_owned();
        }
        i = i + 1;
    }
    assert(!cs@.subrange(k as int, cs@.len() as int).contains('\n')) by {
        if cs@.subrange(k as int, cs@.len() as int).contains('\n') {
            let j = choose|j: int|
                0 <= j < cs@.len() - k && cs@.subrange(k as int, cs@.len() as int)[j] == '\n';
            assert(cs@[k + j] == '\n');
        }
    }
    string_of(&cs, k, cs.len())
}

} // verus!
