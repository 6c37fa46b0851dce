//! The word being typed at the cursor, and the completion candidates around it.

use crate::classify::{categorize_char, category_of, CharCategory};
use crate::position::{find_line_end, find_line_start, line_end, line_start, Position};
use crate::tokenize::{runs, split, texts};
use vstd::prelude::*;

verus! {

/// Going left from `j` while the character before has category `cat`, the
/// offset where that stops, not going below `lo`.
pub open spec fn run_begin(s: Seq<char>, lo: int, j: int, cat: CharCategory) -> int
    decreases j - lo,
{
    if j <= lo {
        lo
    } else if category_of(s[j - 1]) == cat {
        run_begin(s, lo, j - 1, cat)
    } else {
        j
    }
}

/// Where the text of the line that starts at `b` ends: at its line feed, or
/// before the carriage return that directly precedes that line feed, or at the
/// end of the text.
pub open spec fn line_text_end(s: Seq<char>, b: int) -> int {
    let e = line_end(s, b);
    if b < e < s.len() && s[e - 1] == '\r' {
        e - 1
    } else {
        e
    }
}

/// The word being typed at `p`: on the cursor's line, the longest stretch
/// that ends at the cursor and whose characters share the category of the one
/// just before the cursor. The line's text leaves out its line break, `\r\n`
/// as well as `\n`. A character beyond the line's end puts the cursor at that
/// end; a line beyond the text gives the empty word.
pub open spec fn word_before_cursor(s: Seq<char>, p: Position) -> Seq<char> {
    let b = line_start(s, p.line as nat) as int;
    if b > s.len() {
        seq![]
    } else {
        let e = line_text_end(s, b);
        let c = if b + p.character > e {
            e
        } else {
            b + p.character
        };
        if c <= b {
            seq![]
        } else {
            s.subrange(run_begin(s, b, c, category_of(s[c - 1])), c)
        }
    }
}

/// The completion candidates for `s` at `p`: every distinct run of `s` but the
/// word being typed.
pub open spec fn candidates(s: Seq<char>, p: Position) -> Set<Seq<char>> {
    runs(s).to_set().remove(word_before_cursor(s, p))
}

/// The word being typed is never offered: when it is non-empty and occurs
/// among the runs of the text, it is not among the candidates.
pub proof fn lemma_candidates_exclude_current(s: Seq<char>, p: Position)
    requires
        word_before_cursor(s, p).len() > 0,
        runs(s).contains(word_before_cursor(s, p)),
    ensures
        !candidates(s, p).contains(word_before_cursor(s, p)),
{
}

/// The text of line `l` of `s`, without its line break; empty for a line
/// beyond the text.
pub open spec fn line_text(s: Seq<char>, l: nat) -> Seq<char> {
    let b = line_start(s, l) as int;
    if b > s.len() {
        seq![]
    } else {
        s.subrange(b, line_text_end(s, b))
    }
}

proof fn lemma_run_begin_local(
    s1: Seq<char>,
    b1: int,
    s2: Seq<char>,
    b2: int,
    k: int,
    cat: CharCategory,
)
    requires
        0 <= b1,
        0 <= b2,
        0 <= k,
        b1 + k <= s1.len(),
        b2 + k <= s2.len(),
        s1.subrange(b1, b1 + k) == s2.subrange(b2, b2 + k),
    ensures
        run_begin(s1, b1, b1 + k, cat) - b1 == run_begin(s2, b2, b2 + k, cat) - b2,
    decreases k,
{
    if k > 0 {
        assert(s1[b1 + k - 1] == s1.subrange(b1, b1 + k)[k - 1]);
        assert(s2[b2 + k - 1] == s2.subrange(b2, b2 + k)[k - 1]);
        assert(s1.subrange(b1, b1 + k - 1) =~= s1.subrange(b1, b1 + k).subrange(0, k - 1));
        assert(s2.subrange(b2, b2 + k - 1) =~= s2.subrange(b2, b2 + k).subrange(0, k - 1));
        lemma_run_begin_local(s1, b1, s2, b2, k - 1, cat);
    }
}

/// The word at the cursor depends on the cursor's line alone: two texts whose
/// line `p.line` holds the same text give the same word there.
pub proof fn lemma_word_depends_on_line(s1: Seq<char>, s2: Seq<char>, p: Position)
    requires
        line_text(s1, p.line as nat) == line_text(s2, p.line as nat),
    ensures
        word_before_cursor(s1, p) == word_before_cursor(s2, p),
{
    let b1 = line_start(s1, p.line as nat) as int;
    let b2 = line_start(s2, p.line as nat) as int;
    let t = line_text(s1, p.line as nat);
    if b1 <= s1.len() && b2 <= s2.len() {
        let e1 = line_text_end(s1, b1);
        let e2 = line_text_end(s2, b2);
        assert(b1 <= e1 <= s1.len() && b2 <= e2 <= s2.len()) by {
            lemma_line_end_bounds(s1, b1);
            lemma_line_end_bounds(s2, b2);
        }
        assert(e1 - b1 == t.len() && e2 - b2 == t.len());
        let c1 = if b1 + p.character > e1 { e1 } else { b1 + p.character };
        let k = c1 - b1;
        if k > 0 {
            assert(s1.subrange(b1, b1 + k) =~= t.subrange(0, k));
            assert(s2.subrange(b2, b2 + k) =~= t.subrange(0, k));
            assert(s1[b1 + k - 1] == t[k - 1]);
            assert(s2[b2 + k - 1] == t[k - 1]);
            let cat = category_of(t[k - 1]);
            lemma_run_begin_local(s1, b1, s2, b2, k, cat);
            lemma_run_begin_bounds(s1, b1, b1 + k, cat);
            let r = run_begin(s1, b1, b1 + k, cat) - b1;
            assert(s1.subrange(b1 + r, b1 + k) =~= t.subrange(r, k));
            assert(s2.subrange(b2 + r, b2 + k) =~= t.subrange(r, k));
        }
    } else if b1 <= s1.len() {
        lemma_line_end_bounds(s1, b1);
        assert(line_text(s1, p.line as nat).len() == line_text_end(s1, b1) - b1);
        assert(line_text_end(s1, b1) == b1);
    } else if b2 <= s2.len() {
        lemma_line_end_bounds(s2, b2);
        assert(line_text(s2, p.line as nat).len() == line_text_end(s2, b2) - b2);
        assert(line_text_end(s2, b2) == b2);
    }
}

proof fn lemma_line_end_bounds(s: Seq<char>, b: int)
    requires
        0 <= b <= s.len(),
    ensures
        b <= line_end(s, b) <= s.len(),
        b <= line_text_end(s, b) <= s.len(),
    decreases s.len() - b,
{
    if b < s.len() && s[b] != '\n' {
        lemma_line_end_bounds(s, b + 1);
    }
}

proof fn lemma_run_begin_bounds(s: Seq<char>, lo: int, j: int, cat: CharCategory)
    requires
        lo <= j,
    ensures
        lo <= run_begin(s, lo, j, cat) <= j,
    decreases j - lo,
{
    if j > lo && category_of(s[j - 1]) == cat {
        lemma_run_begin_bounds(s, lo, j - 1, cat);
    }
}

/// The characters of `s` from `from` up to `to`.
fn copy_range(s: &[char], from: usize, to: usize) -> (r: Vec<char>)
    requires
        from <= to <= s@.len(),
    ensures
        r@ == s@.subrange(from as int, to as int),
{
    let mut r: Vec<char> = Vec::new();
    let mut i: usize = from;
    while i < to
        invariant
            from <= i <= to <= s@.len(),
            r@ == s@.subrange(from as int, i as int),
        decreases to - i,
    {
        r.push(s[i]);
        i += 1;
        assert(r@ =~= s@.subrange(from as int, i as int));
    }
    r
}

/// The word being typed at `position`.
pub fn find_word_before_cursor(text: &[char], position: Position) -> (r: Vec<char>)
    ensures
        r@ == word_before_cursor(text@, position),
{
    match find_line_start(text, position.line) {
        None => Vec::new(),
        Some(begin) => {
            let mut end = find_line_end(text, begin);
            if begin < end && end < text.len() && text[end - 1] == '\r' {
                end = end - 1;
            }
            let cursor = if position.character as usize > end - begin {
                end
            } else {
                begin + position.character as usize
            };
            if cursor == begin {
                return Vec::new();
            }
            let cat = categorize_char(text[cursor - 1]);
            let mut k: usize = cursor;
            while k > begin && categorize_char(text[k - 1]) == cat
                invariant
                    begin <= k <= cursor <= text@.len(),
                    cat == category_of(text@[cursor - 1]),
                    run_begin(text@, begin as int, k as int, cat) == run_begin(
                        text@,
                        begin as int,
                        cursor as int,
                        cat,
                    ),
                decreases k,
            {
                k -= 1;
            }
            copy_range(text, k, cursor)
        },
    }
}

/// Whether `a` and `b` hold the same characters.
fn same_chars(a: &Vec<char>, b: &Vec<char>) -> (r: bool)
    ensures
        r == (a@ == b@),
{
    if a.len() != b.len() {
        return false;
    }
    let mut i: usize = 0;
    while i < a.len()
        invariant
            a@.len() == b@.len(),
            i <= a@.len(),
            forall|j: int| 0 <= j < i ==> a@[j] == b@[j],
        decreases a.len() - i,
    {
        if a[i] != b[i] {
            return false;
        }
        i += 1;
    }
    assert(a@ =~= b@);
    true
}

/// Whether one of `list` holds the same characters as `w`.
fn contains_text(list: &Vec<Vec<char>>, w: &Vec<char>) -> (r: bool)
    ensures
        r == texts(list@).contains(w@),
{
    let mut i: usize = 0;
    while i < list.len()
        invariant
            i <= list@.len(),
            forall|j: int| 0 <= j < i ==> list@[j]@ != w@,
        decreases list.len() - i,
    {
        if same_chars(&list[i], w) {
            assert(texts(list@)[i as int] == w@);
            return true;
        }
        i += 1;
    }
    assert(!texts(list@).contains(w@)) by {
        if texts(list@).contains(w@) {
            let j = choose|j: int| 0 <= j < texts(list@).len() && texts(list@)[j] == w@;
            assert(list@[j]@ == w@);
        }
    }
    false
}

/// The distinct pieces of `words`, each once, leaving out `current`.
pub fn distinct_without(words: &Vec<Vec<char>>, current: &Vec<char>) -> (r: Vec<Vec<char>>)
    ensures
        texts(r@).no_duplicates(),
        texts(r@).to_set() == texts(words@).to_set().remove(current@),
{
    let mut out: Vec<Vec<char>> = Vec::new();
    let mut i: usize = 0;
    while i < words.len()
        invariant
            i <= words@.len(),
            texts(out@).no_duplicates(),
            texts(out@).to_set() == texts(words@).take(i as int).to_set().remove(current@),
        decreases words.len() - i,
    {
        let w = &words[i];
        let ghost before = texts(out@);
        let ghost seen = texts(words@).take(i as int);
        assert(texts(words@).take(i + 1) =~= seen.push(w@));
        proof {
            seen.lemma_push_to_set_commute(w@);
        }
        if !same_chars(w, current) && !contains_text(&out, w) {
            let copy = copy_range(w.as_slice(), 0, w.len());
            assert(copy@ =~= w@);
            out.push(copy);
            assert(texts(out@) =~= before.push(w@));
            proof {
                before.lemma_push_to_set_commute(w@);
            }
            assert(texts(out@).to_set() =~= texts(words@).take(i + 1).to_set().remove(current@));
            assert forall|a: int, b: int|
                0 <= a < texts(out@).len() && 0 <= b < texts(out@).len() && a != b implies texts(
                out@,
            )[a] != texts(out@)[b] by {
                if b == before.len() as int {
                    assert(before.contains(before[a]));
                } else if a == before.len() as int {
                    assert(before.contains(before[b]));
                }
            }
        } else {
            assert(texts(out@).to_set() =~= texts(words@).take(i + 1).to_set().remove(current@));
        }
        i += 1;
    }
    assert(texts(words@).take(i as int) =~= texts(words@));
    out
}

/// The completion candidates for `text` at `position`: each distinct run of
/// the text once, except the word being typed.
pub fn completion_candidates(text: &[char], position: Position) -> (r: Vec<Vec<char>>)
    ensures
        texts(r@).no_duplicates(),
        texts(r@).to_set() == candidates(text@, position),
{
    let words = split(text);
    let current = find_word_before_cursor(text, position);
    distinct_without(&words, &current)
}

} // verus!
