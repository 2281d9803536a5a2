//! Lines and whitespace-separated tokens of the text that the device bridge
//! prints.

use vstd::prelude::*;

verus! {

/// The characters that Unicode gives the property `White_Space`.
pub open spec fn is_whitespace_char(c: char) -> bool {
    let n = c as u32;
    ||| 0x09 <= n <= 0x0D
    ||| n == 0x20
    ||| n == 0x85
    ||| n == 0xA0
    ||| n == 0x1680
    ||| 0x2000 <= n <= 0x200A
    ||| n == 0x2028
    ||| n == 0x2029
    ||| n == 0x202F
    ||| n == 0x205F
    ||| n == 0x3000
}

/// Whether `c` separates tokens.
pub fn is_whitespace(c: char) -> (r: bool)
    ensures
        r == is_whitespace_char(c),
{
    let n: u32 = c as u32;
    (0x09 <= n && n <= 0x0D) || n == 0x20 || n == 0x85 || n == 0xA0 || n == 0x1680 || (0x2000 <= n
        && n <= 0x200A) || n == 0x2028 || n == 0x2029 || n == 0x202F || n == 0x205F || n == 0x3000
}

/// The three kinds of stretch that a listing is cut into.
#[derive(Clone, Copy, Debug)]
pub enum Run {
    /// Characters of one line: anything but a line feed.
    Line,
    /// Whitespace between tokens.
    Blank,
    /// Characters of one token: anything but whitespace.
    Token,
}

/// Whether `c` can stand inside a stretch of kind `run`.
pub open spec fn in_run(c: char, run: Run) -> bool {
    match run {
        Run::Line => c != '\n',
        Run::Blank => is_whitespace_char(c),
        Run::Token => !is_whitespace_char(c),
    }
}

/// How many characters at the front of `s` belong to a stretch of kind `run`.
pub open spec fn run_len(s: Seq<char>, run: Run) -> nat
    decreases s.len(),
{
    if s.len() > 0 && in_run(s[0], run) {
        1 + run_len(s.drop_first(), run)
    } else {
        0
    }
}

/// `s` up to its first line feed, which is left out.
pub open spec fn first_line(s: Seq<char>) -> Seq<char> {
    s.take(run_len(s, Run::Line) as int)
}

/// What follows the first line feed of `s`; empty where `s` holds a single
/// line, terminated or not.
pub open spec fn after_first_line(s: Seq<char>) -> Seq<char> {
    if run_len(s, Run::Line) < s.len() {
        s.skip(run_len(s, Run::Line) as int + 1)
    } else {
        Seq::empty()
    }
}

/// The first whitespace-separated token of `s`; empty where `s` is blank.
pub open spec fn first_token(s: Seq<char>) -> Seq<char> {
    let rest = s.skip(run_len(s, Run::Blank) as int);
    rest.take(run_len(rest, Run::Token) as int)
}

/// `run_len` is the one length `k` at which the stretch stops: every character
/// before `k` belongs to it, and the character at `k`, if there is one, does
/// not.
pub proof fn lemma_run_len_is(s: Seq<char>, run: Run, k: int)
    requires
        0 <= k <= s.len(),
        forall|j: int| 0 <= j < k ==> in_run(#[trigger] s[j], run),
        k < s.len() ==> !in_run(s[k], run),
    ensures
        run_len(s, run) == k,
    decreases k,
{
    if k > 0 {
        let t = s.drop_first();
        assert forall|j: int| 0 <= j < k - 1 implies in_run(#[trigger] t[j], run) by {
            assert(t[j] == s[j + 1]);
        }
        lemma_run_len_is(t, run, k - 1);
    }
}

/// The stretch at the front of `s` lies within `s`, holds only characters of
/// its kind, and cannot be made longer.
pub proof fn lemma_run_len_bounds(s: Seq<char>, run: Run)
    ensures
        run_len(s, run) <= s.len(),
        forall|j: int| 0 <= j < run_len(s, run) ==> in_run(#[trigger] s[j], run),
        run_len(s, run) < s.len() ==> !in_run(s[run_len(s, run) as int], run),
    decreases s.len(),
{
    if s.len() > 0 && in_run(s[0], run) {
        let t = s.drop_first();
        lemma_run_len_bounds(t, run);
        assert forall|j: int| 0 <= j < run_len(s, run) implies in_run(#[trigger] s[j], run) by {
            if j > 0 {
                assert(s[j] == t[j - 1]);
            }
        }
    }
}

/// The characters of `text`, one element each.
pub fn chars_of(text: &str) -> (chars: Vec<char>)
    ensures
        chars@ == text@,
{
    let mut chars: Vec<char> = Vec::new();
    for c in it: text.chars()
        invariant
            it.seq() == text@,
            chars@ == it.history(),
    {
        chars.push(c);
    }
    chars
}

/// The index at which the stretch of kind `run` that starts at `from` stops,
/// looking no further than `to`.
pub fn run_end(chars: &Vec<char>, from: usize, to: usize, run: Run) -> (end: usize)
    requires
        from <= to <= chars@.len(),
    ensures
        end == from + run_len(chars@.subrange(from as int, to as int), run),
        from <= end <= to,
{
    let mut i: usize = from;
    while i < to && belongs(chars[i], run)
        invariant
            from <= i <= to <= chars@.len(),
            forall|j: int| from <= j < i ==> in_run(#[trigger] chars@[j], run),
        decreases to - i,
    {
        i = i + 1;
    }
    proof {
        let s = chars@.subrange(from as int, to as int);
        assert forall|j: int| 0 <= j < i - from implies in_run(#[trigger] s[j], run) by {
            assert(s[j] == chars@[from + j]);
        }
        lemma_run_len_is(s, run, i - from);
    }
    i
}

/// Whether `c` can stand inside a stretch of kind `run`.
pub fn belongs(c: char, run: Run) -> (r: bool)
    ensures
        r == in_run(c, run),
{
    match run {
        Run::Line => c != '\n',
        Run::Blank => is_whitespace(c),
        Run::Token => !is_whitespace(c),
    }
}

} // verus!
