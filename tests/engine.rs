use unicode_general_category::GeneralCategory;
use word_complete::buffer::{Document, TextChange};
use word_complete::classify::{
    categorize_char, categorize_with, char_is_hiragana, char_is_kanji, char_is_katakana,
    char_is_line_ending, char_is_punctuation, char_is_whitespace, char_is_word, is_boundary,
    is_punctuation_category, CharCategory,
};
use word_complete::complete::{completion_candidates, distinct_without, find_word_before_cursor};
use word_complete::position::{
    find_line_end, find_line_start, get_char_index_from_position, Position, Range,
};
use word_complete::tokenize::split;

fn chars(s: &str) -> Vec<char> {
    s.chars().collect()
}

fn strings(v: &[Vec<char>]) -> Vec<String> {
    v.iter().map(|t| t.iter().collect()).collect()
}

fn pos(line: u32, character: u32) -> Position {
    Position { line, character }
}

#[test]
fn classify_each_category() {
    assert_eq!(categorize_char('あ'), CharCategory::Hiragana);
    assert_eq!(categorize_char('\u{1B001}'), CharCategory::Hiragana);
    assert_eq!(categorize_char('ア'), CharCategory::Katakana);
    assert_eq!(categorize_char('漢'), CharCategory::Kanji);
    assert_eq!(categorize_char('\u{20000}'), CharCategory::Kanji);
    assert_eq!(categorize_char('\n'), CharCategory::Eol);
    assert_eq!(categorize_char('\u{2028}'), CharCategory::Eol);
    assert_eq!(categorize_char(' '), CharCategory::Whitespace);
    assert_eq!(categorize_char('\t'), CharCategory::Whitespace);
    assert_eq!(categorize_char('\u{200B}'), CharCategory::Whitespace);
    assert_eq!(categorize_char('\u{3000}'), CharCategory::Whitespace);
    assert_eq!(categorize_char('a'), CharCategory::Word);
    assert_eq!(categorize_char('é'), CharCategory::Word);
    assert_eq!(categorize_char('7'), CharCategory::Word);
    assert_eq!(categorize_char('_'), CharCategory::Word);
    assert_eq!(categorize_char('.'), CharCategory::Punctuation);
    assert_eq!(categorize_char('+'), CharCategory::Punctuation);
    assert_eq!(categorize_char('$'), CharCategory::Punctuation);
    assert_eq!(categorize_char('^'), CharCategory::Punctuation);
    assert_eq!(categorize_char('('), CharCategory::Punctuation);
    assert_eq!(categorize_char('\u{0}'), CharCategory::Unknown);
    assert_eq!(categorize_char('©'), CharCategory::Unknown);
}

#[test]
fn ogham_space_mark_is_not_whitespace() {
    assert!(!char_is_whitespace('\u{1680}'));
    assert_eq!(categorize_char('\u{1680}'), CharCategory::Unknown);
}

#[test]
fn script_ranges_take_precedence() {
    // U+30FB KATAKANA MIDDLE DOT is punctuation by general category, but the
    // Katakana block comes first.
    assert_eq!(categorize_char('\u{30FB}'), CharCategory::Katakana);
    // U+309B is a combining sound mark in the Hiragana ranges.
    assert_eq!(categorize_char('\u{309B}'), CharCategory::Hiragana);
}

#[test]
fn classify_is_pure() {
    for c in ['a', 'あ', '!', ' ', '\n', '漢', '\u{0}'] {
        assert_eq!(categorize_char(c), categorize_char(c));
    }
}

#[test]
fn predicates_on_edges() {
    assert!(char_is_hiragana('\u{3041}'));
    assert!(!char_is_hiragana('\u{3040}'));
    assert!(char_is_katakana('\u{30A0}'));
    assert!(!char_is_katakana('\u{3100}'));
    assert!(char_is_kanji('\u{9FFF}'));
    assert!(char_is_kanji('\u{F900}'));
    assert!(!char_is_kanji('a'));
    assert!(char_is_line_ending('\r'));
    assert!(!char_is_line_ending(' '));
    assert!(char_is_word('x'));
    assert!(!char_is_word('-'));
    assert!(char_is_punctuation('!'));
    assert!(!char_is_punctuation('a'));
}

#[test]
fn punctuation_categories() {
    assert!(is_punctuation_category(GeneralCategory::MathSymbol));
    assert!(is_punctuation_category(GeneralCategory::DashPunctuation));
    assert!(is_punctuation_category(GeneralCategory::ModifierSymbol));
    assert!(!is_punctuation_category(GeneralCategory::OtherSymbol));
    assert!(!is_punctuation_category(GeneralCategory::LowercaseLetter));
}

#[test]
fn categorize_with_given_properties() {
    assert_eq!(
        categorize_with('q', false, GeneralCategory::OtherPunctuation),
        CharCategory::Punctuation
    );
    assert_eq!(categorize_with('q', true, GeneralCategory::OtherPunctuation), CharCategory::Word);
    assert_eq!(categorize_with('q', false, GeneralCategory::OtherSymbol), CharCategory::Unknown);
    assert_eq!(categorize_with('あ', false, GeneralCategory::OtherSymbol), CharCategory::Hiragana);
}

#[test]
fn boundary_between_categories() {
    assert!(is_boundary('a', ' '));
    assert!(is_boundary('a', 'あ'));
    assert!(!is_boundary('a', 'b'));
}

#[test]
fn mixed_script_runs() {
    let runs = split(&chars("helloひらがなカタカナ漢字"));
    assert_eq!(strings(&runs), vec!["hello", "ひらがな", "カタカナ", "漢字"]);
}

#[test]
fn split_edges() {
    assert!(split(&[]).is_empty());
    assert_eq!(strings(&split(&chars("x"))), vec!["x"]);
    assert_eq!(strings(&split(&chars("foo bar foo"))), vec!["foo", " ", "bar", " ", "foo"]);
    assert_eq!(strings(&split(&chars("a.b\n\nc"))), vec!["a", ".", "b", "\n\n", "c"]);
}

#[test]
fn split_round_trip() {
    for text in ["", "foo bar foo", "a+b=c; // x\r\n", "漢字とカナ mixed_words 123!!"] {
        let runs = split(&chars(text));
        assert_eq!(strings(&runs).concat(), text);
        for r in &runs {
            assert!(!r.is_empty());
            assert!(r.iter().all(|c| categorize_char(*c) == categorize_char(r[0])));
        }
        for w in runs.windows(2) {
            assert_ne!(categorize_char(w[0][0]), categorize_char(w[1][0]));
        }
    }
}

#[test]
fn line_starts_and_ends() {
    let text = chars("ab\ncd\n");
    assert_eq!(find_line_start(&text, 0), Some(0));
    assert_eq!(find_line_start(&text, 1), Some(3));
    assert_eq!(find_line_start(&text, 2), Some(6));
    assert_eq!(find_line_start(&text, 3), None);
    assert_eq!(find_line_end(&text, 0), 2);
    assert_eq!(find_line_end(&text, 3), 5);
    assert_eq!(find_line_end(&text, 6), 6);
}

#[test]
fn offsets_from_positions() {
    let text = chars("foo bar");
    assert_eq!(get_char_index_from_position(&text, pos(0, 4)), 4);
    assert_eq!(get_char_index_from_position(&text, pos(0, 0)), 0);
    let two = chars("ab\ncd");
    assert_eq!(get_char_index_from_position(&two, pos(1, 1)), 4);
    let crlf = chars("ab\r\ncd");
    assert_eq!(get_char_index_from_position(&crlf, pos(1, 0)), 4);
    let wide = chars("漢字\nかな");
    assert_eq!(get_char_index_from_position(&wide, pos(1, 1)), 4);
}

#[test]
fn offsets_clamp_to_text() {
    let text = chars("foo bar");
    assert_eq!(get_char_index_from_position(&text, pos(0, 100)), 7);
    assert_eq!(get_char_index_from_position(&text, pos(5, 0)), 7);
    assert_eq!(get_char_index_from_position(&text, pos(u32::MAX, u32::MAX)), 7);
    assert_eq!(get_char_index_from_position(&[], pos(0, 3)), 0);
}

#[test]
fn word_before_cursor_at_end() {
    let text = chars("foo bar foo");
    let word: String = find_word_before_cursor(&text, pos(0, 11)).iter().collect();
    assert_eq!(word, "foo");
}

#[test]
fn word_before_cursor_edges() {
    let text = chars("foo bar\nbaz.qux");
    let at = |l, c| -> String { find_word_before_cursor(&text, pos(l, c)).iter().collect() };
    assert_eq!(at(0, 0), "");
    assert_eq!(at(0, 2), "fo");
    assert_eq!(at(0, 4), " ");
    assert_eq!(at(0, 50), "bar");
    assert_eq!(at(1, 4), ".");
    assert_eq!(at(1, 6), "qu");
    assert_eq!(at(1, 7), "qux");
    assert_eq!(at(1, 0), "");
    assert_eq!(at(9, 3), "");
}

#[test]
fn word_before_cursor_stays_on_its_line() {
    let text = chars("foo\nbar");
    let word: String = find_word_before_cursor(&text, pos(1, 3)).iter().collect();
    assert_eq!(word, "bar");
    let text = chars("  \n  x");
    let word: String = find_word_before_cursor(&text, pos(1, 2)).iter().collect();
    assert_eq!(word, "  ");
}

#[test]
fn candidates_exclude_current_word() {
    let got = strings(&completion_candidates(&chars("foo bar foo"), pos(0, 11)));
    assert!(got.contains(&"bar".to_string()));
    assert!(!got.contains(&"foo".to_string()));
    let mut sorted = got.clone();
    sorted.sort();
    assert_eq!(sorted, vec![" ", "bar"]);
}

#[test]
fn candidates_without_duplicates() {
    let got = strings(&completion_candidates(&chars("a b a b a"), pos(0, 0)));
    let mut sorted = got.clone();
    sorted.sort();
    assert_eq!(sorted, vec![" ", "a", "b"]);
}

#[test]
fn candidates_of_empty_buffer() {
    assert!(completion_candidates(&[], pos(0, 0)).is_empty());
    assert!(completion_candidates(&[], pos(3, 7)).is_empty());
}

#[test]
fn distinct_words_leave_out_current() {
    let words = vec![chars("x"), chars("y"), chars("x"), chars("z")];
    let got = strings(&distinct_without(&words, &chars("y")));
    assert_eq!(got, vec!["x", "z"]);
}

#[test]
fn range_edit_replaces_span() {
    let mut doc = Document::new();
    doc.replace_all(chars("foo bar"));
    doc.on_change(&vec![TextChange {
        range: Some(Range { start: pos(0, 4), end: pos(0, 7) }),
        text: chars("baz"),
    }]);
    assert_eq!(doc.text().iter().collect::<String>(), "foo baz");
}

#[test]
fn edits_apply_in_order() {
    let mut doc = Document::new();
    doc.replace_all(chars("ab\ncd"));
    doc.on_change(&vec![
        TextChange { range: Some(Range { start: pos(1, 0), end: pos(1, 1) }), text: chars("X") },
        TextChange { range: Some(Range { start: pos(0, 2), end: pos(1, 0) }), text: chars("") },
        TextChange { range: Some(Range { start: pos(0, 0), end: pos(0, 0) }), text: chars(">") },
    ]);
    assert_eq!(doc.text().iter().collect::<String>(), ">abXd");
}

#[test]
fn full_replace_and_clamped_edits() {
    let mut doc = Document::new();
    doc.on_change(&vec![TextChange { range: None, text: chars("hello") }]);
    assert_eq!(doc.text().iter().collect::<String>(), "hello");
    doc.apply_range(Range { start: pos(0, 9), end: pos(4, 4) }, &chars("!"));
    assert_eq!(doc.text().iter().collect::<String>(), "hello!");
    doc.apply_range(Range { start: pos(0, 3), end: pos(0, 1) }, &chars("-"));
    assert_eq!(doc.text().iter().collect::<String>(), "hel-lo!");
    doc.apply_change(&TextChange { range: None, text: chars("new") });
    assert_eq!(doc.text().iter().collect::<String>(), "new");
}

#[test]
fn document_completion_and_close() {
    let mut doc = Document::new();
    assert!(doc.completion(pos(0, 0)).is_empty());
    doc.replace_all(chars("foo bar foo"));
    let mut got = strings(&doc.completion(pos(0, 11)));
    got.sort();
    assert_eq!(got, vec![" ", "bar"]);
    doc.close();
    assert!(doc.text().is_empty());
    assert!(doc.completion(pos(0, 0)).is_empty());
}

#[test]
fn word_before_cursor_on_crlf_line() {
    let text = chars("foo\r\nbar");
    let word: String = find_word_before_cursor(&text, pos(0, 4)).iter().collect();
    assert_eq!(word, "foo");
    let word: String = find_word_before_cursor(&text, pos(0, 3)).iter().collect();
    assert_eq!(word, "foo");
    let word: String = find_word_before_cursor(&text, pos(1, 3)).iter().collect();
    assert_eq!(word, "bar");
}

#[test]
fn word_before_cursor_same_line_same_word() {
    let crlf: String = find_word_before_cursor(&chars("a\r\n"), pos(0, 2)).iter().collect();
    let lf: String = find_word_before_cursor(&chars("a\n"), pos(0, 2)).iter().collect();
    assert_eq!(crlf, "a");
    assert_eq!(lf, "a");
}

#[test]
fn lone_carriage_return_stays_in_line() {
    let word: String = find_word_before_cursor(&chars("a\r"), pos(0, 2)).iter().collect();
    assert_eq!(word, "\r");
}
