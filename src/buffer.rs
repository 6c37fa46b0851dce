//! The open document's text, and the edits that the editor sends for it.

use crate::complete::{candidates, completion_candidates};
use crate::position::{char_offset, get_char_index_from_position, Position, Range};
use crate::tokenize::texts;
use vstd::prelude::*;

verus! {

/// One edit of a change notification: with a range, the span it addresses is
/// replaced by `text`; without one, `text` becomes the whole document.
#[derive(Debug)]
pub struct TextChange {
    pub range: Option<Range>,
    pub text: Vec<char>,
}

/// `s` with the span from `range.start` to `range.end` replaced by
/// `replacement`. Both ends are clamped to the text; an end before the start
/// leaves an empty span at the start.
pub open spec fn replaced(s: Seq<char>, range: Range, replacement: Seq<char>) -> Seq<char> {
    let a = char_offset(s, range.start) as int;
    let b = char_offset(s, range.end) as int;
    let b = if b < a {
        a
    } else {
        b
    };
    s.take(a) + replacement + s.skip(b)
}

/// `s` after one edit.
pub open spec fn changed(s: Seq<char>, c: TextChange) -> Seq<char> {
    match c.range {
        Some(range) => replaced(s, range, c.text@),
        None => c.text@,
    }
}

/// `s` after the edits of `cs`, each applied to what the previous one left.
pub open spec fn after_changes(s: Seq<char>, cs: Seq<TextChange>) -> Seq<char>
    decreases cs.len(),
{
    if cs.len() == 0 {
        s
    } else {
        changed(after_changes(s, cs.drop_last()), cs.last())
    }
}

/// Appends the characters of `s` from `from` up to `to` to `v`.
fn extend_from(v: &mut Vec<char>, s: &[char], from: usize, to: usize)
    requires
        from <= to <= s@.len(),
    ensures
        final(v)@ == old(v)@ + s@.subrange(from as int, to as int),
{
    let mut i: usize = from;
    while i < to
        invariant
            from <= i <= to <= s@.len(),
            v@ == old(v)@ + s@.subrange(from as int, i as int),
        decreases to - i,
    {
        v.push(s[i]);
        i += 1;
        assert(v@ =~= old(v)@ + s@.subrange(from as int, i as int));
    }
}

/// The text of the one open document.
#[derive(Debug)]
pub struct Document {
    text: Vec<char>,
}

impl View for Document {
    type V = Seq<char>;

    closed spec fn view(&self) -> Seq<char> {
        self.text@
    }
}

impl Document {
    /// An empty document.
    pub fn new() -> (r: Document)
        ensures
            r@ == Seq::<char>::empty(),
    {
        Document { text: Vec::new() }
    }

    /// The current text.
    pub fn text(&self) -> (r: &[char])
        ensures
            r@ == self@,
    {
        self.text.as_slice()
    }

    /// Discards the text and installs `new_text`.
    pub fn replace_all(&mut self, new_text: Vec<char>)
        ensures
            final(self)@ == new_text@,
    {
        self.text = new_text;
    }

    /// Replaces the span that `range` addresses, both ends located in the text
    /// as it was before this edit.
    pub fn apply_range(&mut self, range: Range, replacement: &[char])
        ensures
            final(self)@ == replaced(old(self)@, range, replacement@),
    {
        let s = self.text.as_slice();
        let start = get_char_index_from_position(s, range.start);
        let mut end = get_char_index_from_position(s, range.end);
        if end < start {
            end = start;
        }
        let mut out: Vec<char> = Vec::new();
        extend_from(&mut out, s, 0, start);
        extend_from(&mut out, replacement, 0, replacement.len());
        extend_from(&mut out, s, end, s.len());
        assert(out@ =~= replaced(old(self)@, range, replacement@));
        self.text = out;
    }

    /// Applies one edit.
    pub fn apply_change(&mut self, change: &TextChange)
        ensures
            final(self)@ == changed(old(self)@, *change),
    {
        match change.range {
            Some(range) => self.apply_range(range, change.text.as_slice()),
            None => {
                let copy = change.text.clone();
                self.replace_all(copy);
            },
        }
    }

    /// Applies the edits of a change notification in the order given.
    pub fn on_change(&mut self, changes: &Vec<TextChange>)
        ensures
            final(self)@ == after_changes(old(self)@, changes@),
    {
        let mut i: usize = 0;
        while i < changes.len()
            invariant
                i <= changes@.len(),
                self@ == after_changes(old(self)@, changes@.take(i as int)),
            decreases changes.len() - i,
        {
            assert(changes@.take(i + 1).drop_last() =~= changes@.take(i as int));
            self.apply_change(&changes[i]);
            i += 1;
        }
        assert(changes@.take(i as int) =~= changes@);
    }

    /// Clears the text when the document is closed.
    pub fn close(&mut self)
        ensures
            final(self)@ == Seq::<char>::empty(),
    {
        self.text = Vec::new();
    }

    /// The completion candidates at `position`: each distinct run of the text
    /// once, except the word being typed.
    pub fn completion(&self, position: Position) -> (r: Vec<Vec<char>>)
        ensures
            texts(r@).no_duplicates(),
            texts(r@).to_set() == candidates(self@, position),
    {
        completion_candidates(self.text.as_slice(), position)
    }
}

} // verus!
