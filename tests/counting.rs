use word_count::cli::{parse_settings, Cli};
use word_count::counter::{Counter, CounterSettings, Field, FileCounter};
use word_count::report::{decimal_string, render_report, render_row};

fn all_fields() -> CounterSettings {
    CounterSettings::new(true, true, true, true)
}

fn default_fields() -> CounterSettings {
    CounterSettings::new(true, false, true, true)
}

fn lines_of(v: &[&str]) -> Vec<String> {
    v.iter().map(|s| s.to_string()).collect()
}

#[test]
fn new_settings_keep_flags() {
    let s = CounterSettings::new(true, false, false, true);
    assert!(s.count_bytes);
    assert!(!s.count_chars);
    assert!(!s.count_words);
    assert!(s.count_lines);
    assert_eq!(s.counted_fields(), vec![Field::Lines, Field::Bytes]);
}

#[test]
fn counted_fields_in_display_order() {
    assert_eq!(all_fields().counted_fields(), vec![Field::Lines, Field::Words, Field::Chars, Field::Bytes]);
    assert_eq!(default_fields().counted_fields(), vec![Field::Lines, Field::Words, Field::Bytes]);
    assert!(CounterSettings::new(false, false, false, false).counted_fields().is_empty());
}

#[test]
fn new_counter_is_zero() {
    let c = Counter::new("x".to_string(), all_fields());
    for f in [Field::Lines, Field::Words, Field::Chars, Field::Bytes] {
        assert_eq!(c.index(f), 0);
    }
    assert_eq!(c.name, "x");
    assert!(c.err.is_none());
}

#[test]
fn empty_stream_counts_nothing() {
    for s in [all_fields(), default_fields(), CounterSettings::new(false, true, false, false)] {
        let mut c = Counter::new("e".to_string(), s);
        c.count_stream(&Vec::new());
        for f in [Field::Lines, Field::Words, Field::Chars, Field::Bytes] {
            assert_eq!(c.index(f), 0);
        }
    }
}

#[test]
fn hello_world_line() {
    let mut c = Counter::new("h".to_string(), all_fields());
    c.count_line("hello world\n");
    assert_eq!(c.index(Field::Lines), 1);
    assert_eq!(c.index(Field::Words), 2);
    assert_eq!(c.index(Field::Bytes), 12);
    assert_eq!(c.index(Field::Chars), 12);
}

#[test]
fn unterminated_last_line_counts() {
    let mut c = Counter::new("h".to_string(), all_fields());
    c.count_stream(&lines_of(&["hello world"]));
    assert_eq!(c.index(Field::Lines), 1);
    assert_eq!(c.index(Field::Words), 2);
    assert_eq!(c.index(Field::Bytes), 11);
    assert_eq!(c.index(Field::Chars), 11);
}

#[test]
fn chars_and_bytes_differ_on_multibyte_text() {
    let mut c = Counter::new("u".to_string(), all_fields());
    c.count_line("héllo wörld\n");
    assert_eq!(c.index(Field::Chars), 12);
    assert_eq!(c.index(Field::Bytes), 14);
    assert_eq!(c.index(Field::Words), 2);
}

#[test]
fn words_split_on_ascii_whitespace_only() {
    let mut c = Counter::new("w".to_string(), all_fields());
    c.count_line("  a\tb\r\nc\x0cd  e\u{a0}f \n");
    assert_eq!(c.index(Field::Words), 5);
}

#[test]
fn default_fields_skip_chars() {
    let mut c = Counter::new("d".to_string(), default_fields());
    c.count_line("hello world\n");
    assert_eq!(c.index(Field::Chars), 0);
    assert_eq!(c.index(Field::Lines), 1);
    assert_eq!(c.index(Field::Words), 2);
    assert_eq!(c.index(Field::Bytes), 12);
}

#[test]
fn add_sums_fields() {
    let mut a = Counter::new("a".to_string(), all_fields());
    a.count_line("foo bar\n");
    let mut b = Counter::new("b".to_string(), all_fields());
    b.count_line("baz\n");
    let zero = Counter::new("z".to_string(), all_fields());
    a.add(&b);
    assert_eq!(a.index(Field::Lines), 2);
    assert_eq!(a.index(Field::Words), 3);
    assert_eq!(a.index(Field::Bytes), 12);
    assert_eq!(a.index(Field::Chars), 12);
    assert_eq!(a.name, "a");
    a.add(&zero);
    assert_eq!(a.index(Field::Bytes), 12);
}

#[test]
fn add_commutes_and_associates() {
    let make = |text: &str| {
        let mut c = Counter::new("t".to_string(), all_fields());
        c.count_line(text);
        c
    };
    let mut ab = make("one two\n");
    ab.add(&make("three\n"));
    let mut ba = make("three\n");
    ba.add(&make("one two\n"));
    let mut abc1 = make("x\n");
    abc1.add(&make("y y\n"));
    abc1.add(&make("z z z\n"));
    let mut bc = make("y y\n");
    bc.add(&make("z z z\n"));
    let mut abc2 = make("x\n");
    abc2.add(&bc);
    for f in [Field::Lines, Field::Words, Field::Chars, Field::Bytes] {
        assert_eq!(ab.index(f), ba.index(f));
        assert_eq!(abc1.index(f), abc2.index(f));
    }
}

#[test]
fn parse_settings_defaults_and_flags() {
    let cli = |b, c, w, l| Cli { file: Vec::new(), count_bytes: b, count_chars: c, count_words: w, count_lines: l };
    assert_eq!(parse_settings(&cli(None, None, None, None)), default_fields());
    assert_eq!(parse_settings(&cli(None, Some(true), None, None)), CounterSettings::new(false, true, false, false));
    assert_eq!(parse_settings(&cli(Some(false), None, None, None)), CounterSettings::new(false, false, false, false));
    assert_eq!(parse_settings(&cli(Some(true), None, Some(true), None)), CounterSettings::new(true, false, true, false));
}

#[test]
fn decimal_strings() {
    assert_eq!(decimal_string(0), "0");
    assert_eq!(decimal_string(7), "7");
    assert_eq!(decimal_string(10), "10");
    assert_eq!(decimal_string(247), "247");
    assert_eq!(decimal_string(u64::MAX), "18446744073709551615");
}

#[test]
fn file_counter_counts_its_lines() {
    let mut fc = FileCounter::new("a.txt".to_string(), default_fields());
    fc.count_stream(&lines_of(&["foo bar\n"]));
    assert_eq!(fc.filepath, "a.txt");
    assert_eq!(fc.counts.name, "a.txt");
    assert_eq!(fc.counts.index(Field::Words), 2);
}

fn file(name: &str, lines: &[&str], s: CounterSettings) -> Counter {
    let mut fc = FileCounter::new(name.to_string(), s);
    fc.count_stream(&lines_of(lines));
    fc.counts
}

#[test]
fn single_file_has_no_totals_row() {
    let rows = render_report(&vec![file("a.txt", &["foo bar\n"], default_fields())], &default_fields());
    assert_eq!(rows, vec!["1 2 8 a.txt".to_string()]);
}

#[test]
fn no_files_no_rows() {
    assert!(render_report(&Vec::new(), &default_fields()).is_empty());
}

#[test]
fn two_files_report() {
    let s = default_fields();
    let cs = vec![file("a.txt", &["foo bar\n"], s), file("b.txt", &["baz\n"], s)];
    let rows = render_report(&cs, &s);
    assert_eq!(rows, vec![" 1  2  8 a.txt".to_string(), " 1  1  4 b.txt".to_string(), " 2  3 12 total".to_string()]);
    let tokens: Vec<Vec<&str>> = rows.iter().map(|r| r.split_whitespace().collect()).collect();
    assert_eq!(tokens, vec![vec!["1", "2", "8", "a.txt"], vec!["1", "1", "4", "b.txt"], vec!["2", "3", "12", "total"]]);
}

#[test]
fn width_follows_widest_value() {
    let s = CounterSettings::new(false, false, false, true);
    let mut cs = Vec::new();
    for (name, n) in [("a", 3u64), ("b", 10), ("c", 247)] {
        let mut c = Counter::new(name.to_string(), s);
        c.lines = n;
        cs.push(c);
    }
    let rows = render_report(&cs, &s);
    assert_eq!(rows, vec!["  3 a".to_string(), " 10 b".to_string(), "247 c".to_string(), "260 total".to_string()]);
}

#[test]
fn directory_row_shows_message_only() {
    let s = default_fields();
    let mut dir = FileCounter::new("src".to_string(), s);
    dir.record_directory();
    assert_eq!(dir.counts.err.as_deref(), Some("wc: src: is a directory"));
    let cs = vec![file("a.txt", &["foo bar\n"], s), dir.counts, file("b.txt", &["baz\n"], s)];
    let rows = render_report(&cs, &s);
    assert_eq!(rows.len(), 4);
    assert_eq!(rows[1], "wc: src: is a directory");
    assert_eq!(rows[3], " 2  3 12 total");
}

#[test]
fn render_row_of_counts() {
    let mut c = Counter::new("n".to_string(), all_fields());
    c.count_line("ab\n");
    let fields = all_fields().counted_fields();
    assert_eq!(render_row(&c, &fields, 3), "  1   1   3   3 n");
}
