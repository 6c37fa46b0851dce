//! Translation of editor cursor coordinates into offsets of the text.

use vstd::prelude::*;

verus! {

/// A cursor coordinate: zero-based line, and zero-based character within the
/// line, both counted in characters.
#[derive(Clone, Copy, Debug, PartialEq, Eq, Structural)]
pub struct Position {
    pub line: u32,
    pub character: u32,
}

/// The span between two cursor coordinates.
#[derive(Clone, Copy, Debug, PartialEq, Eq, Structural)]
pub struct Range {
    pub start: Position,
    pub end: Position,
}

/// Where line `k` of `s` begins: the offset just past its `k`-th line feed.
/// When `s` holds fewer than `k` line feeds the result exceeds `s.len()`.
pub open spec fn line_start(s: Seq<char>, k: nat) -> nat
    decreases s.len(),
{
    if k == 0 {
        0
    } else if s.len() == 0 {
        1
    } else if s[0] == '\n' {
        1 + line_start(s.drop_first(), (k - 1) as nat)
    } else {
        1 + line_start(s.drop_first(), k)
    }
}

/// The offset of the first line feed at or after `from`, or `s.len()`.
pub open spec fn line_end(s: Seq<char>, from: int) -> int
    decreases s.len() - from,
{
    if from >= s.len() {
        s.len() as int
    } else if s[from] == '\n' {
        from
    } else {
        line_end(s, from + 1)
    }
}

/// The offset that `p` designates in `s`: the start of its line plus its
/// character, clamped to the length of `s`.
pub open spec fn char_offset(s: Seq<char>, p: Position) -> nat {
    let o = line_start(s, p.line as nat) + p.character as nat;
    if o > s.len() {
        s.len()
    } else {
        o
    }
}

/// A cursor never lands past the end of the text, whatever its coordinate.
pub proof fn lemma_offset_clamped(s: Seq<char>, p: Position)
    ensures
        char_offset(s, p) <= s.len(),
{
}

/// The start of line `line`, or `None` when `s` has fewer lines.
pub fn find_line_start(s: &[char], line: u32) -> (r: Option<usize>)
    ensures
        match r {
            Some(b) => b == line_start(s@, line as nat) && b <= s@.len(),
            None => line_start(s@, line as nat) > s@.len(),
        },
{
    let mut i: usize = 0;
    let mut remaining: u32 = line;
    assert(s@.skip(0) =~= s@);
    while remaining > 0 && i < s.len()
        invariant
            i <= s.len(),
            line_start(s@, line as nat) == i + line_start(s@.skip(i as int), remaining as nat),
        decreases s.len() - i,
    {
        let ghost rest = s@.skip(i as int);
        assert(rest.drop_first() =~= s@.skip(i + 1));
        assert(rest[0] == s[i as int]);
        if s[i] == '\n' {
            remaining -= 1;
        }
        i += 1;
    }
    if remaining == 0 {
        Some(i)
    } else {
        assert(s@.skip(i as int).len() == 0);
        None
    }
}

/// The end of the line that holds offset `from`: its line feed, or the end of
/// the text.
pub fn find_line_end(s: &[char], from: usize) -> (r: usize)
    requires
        from <= s@.len(),
    ensures
        r == line_end(s@, from as int),
        from <= r <= s@.len(),
{
    let mut i: usize = from;
    while i < s.len() && s[i] != '\n'
        invariant
            from <= i <= s.len(),
            line_end(s@, from as int) == line_end(s@, i as int),
        decreases s.len() - i,
    {
        i += 1;
    }
    i
}

/// The offset that `position` designates in `s`, clamped to the end of `s`.
pub fn get_char_index_from_position(s: &[char], position: Position) -> (r: usize)
    ensures
        r == char_offset(s@, position),
        r <= s@.len(),
{
    match find_line_start(s, position.line) {
        None => s.len(),
        Some(begin) => {
            if position.character as usize > s.len() - begin {
                s.len()
            } else {
                begin + position.character as usize
            }
        },
    }
}

} // verus!
