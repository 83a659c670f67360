use rush::pipeline::{CmdLine, ParseError};
use rush::words::{is_whitespace, split_words};

fn stage_words(c: &CmdLine, i: usize) -> Vec<String> {
    c.stage(i).argv().clone()
}

fn strings(ws: &[&str]) -> Vec<String> {
    ws.iter().map(|w| w.to_string()).collect()
}

#[test]
fn split_words_cuts_at_runs_of_whitespace() {
    assert_eq!(split_words("  a \t bb\n\nccc "), strings(&["a", "bb", "ccc"]));
    assert_eq!(split_words("one"), strings(&["one"]));
    assert_eq!(split_words(""), Vec::<String>::new());
    assert_eq!(split_words(" \t\r\n"), Vec::<String>::new());
}

#[test]
fn split_words_knows_unicode_whitespace() {
    assert_eq!(split_words("a\u{3000}b\u{a0}c\u{2003}d"), strings(&["a", "b", "c", "d"]));
    assert_eq!(split_words("é\u{85}ü"), strings(&["é", "ü"]));
    assert_eq!(split_words("a\u{200b}b"), strings(&["a\u{200b}b"]));
}

#[test]
fn split_words_agrees_with_std() {
    for line in ["a | b", "  x<y  >z ", "\u{1680}q\u{2028}r\u{205f}", "tab\there", "\u{b}\u{c}w"] {
        let want: Vec<String> = line.split_whitespace().map(|w| w.to_string()).collect();
        assert_eq!(split_words(line), want);
    }
}

#[test]
fn is_whitespace_agrees_with_std_on_every_char() {
    let mut n: u32 = 0;
    while n <= 0x10FFFF {
        if let Some(c) = char::from_u32(n) {
            assert_eq!(is_whitespace(c), c.is_whitespace(), "U+{:04X}", n);
        }
        n += 1;
    }
}

#[test]
fn blank_lines_have_no_stage() {
    for line in ["", " ", "   ", "\t \t", " \u{3000} "] {
        let c = CmdLine::new(line).expect("a blank line is a pipeline");
        assert_eq!(c.len(), 0);
        assert_eq!(c.filein(), None);
        assert_eq!(c.fileout(), None);
        assert!(!c.back());
        assert!(c.exec().is_empty());
    }
}

#[test]
fn three_commands_make_three_stages() {
    let c = CmdLine::new("a | b | c").unwrap();
    assert_eq!(c.len(), 3);
    assert_eq!(stage_words(&c, 0), strings(&["a"]));
    assert_eq!(stage_words(&c, 1), strings(&["b"]));
    assert_eq!(stage_words(&c, 2), strings(&["c"]));
    assert_eq!(c.filein(), None);
    assert_eq!(c.fileout(), None);
    assert!(!c.back());
}

#[test]
fn arguments_stay_with_their_stage() {
    let c = CmdLine::new("ls -l /tmp | grep  x | wc -l").unwrap();
    assert_eq!(c.len(), 3);
    assert_eq!(stage_words(&c, 0), strings(&["ls", "-l", "/tmp"]));
    assert_eq!(stage_words(&c, 1), strings(&["grep", "x"]));
    assert_eq!(stage_words(&c, 2), strings(&["wc", "-l"]));
}

#[test]
fn ampersand_must_be_last() {
    let c = CmdLine::new("a & ").unwrap();
    assert!(c.back());
    assert_eq!(c.len(), 1);
    assert_eq!(stage_words(&c, 0), strings(&["a"]));
    assert_eq!(CmdLine::parse("a & b").err(), Some(ParseError::AmpNotLast));
    assert_eq!(CmdLine::parse("& a").err(), Some(ParseError::AmpNotLast));
    assert!(CmdLine::new("a & b").is_none());
    let only = CmdLine::new("&").unwrap();
    assert!(only.back());
    assert_eq!(only.len(), 0);
}

#[test]
fn both_redirections_on_one_command() {
    let c = CmdLine::new("cmd < in.txt > out.txt").unwrap();
    assert_eq!(c.len(), 1);
    assert_eq!(stage_words(&c, 0), strings(&["cmd"]));
    assert_eq!(c.filein(), Some("in.txt"));
    assert_eq!(c.fileout(), Some("out.txt"));
    assert!(!c.back());
}

#[test]
fn words_after_a_file_name_are_arguments() {
    let c = CmdLine::new("sort < in -r > out -u &").unwrap();
    assert_eq!(c.len(), 1);
    assert_eq!(stage_words(&c, 0), strings(&["sort", "-r", "-u"]));
    assert_eq!(c.filein(), Some("in"));
    assert_eq!(c.fileout(), Some("out"));
    assert!(c.back());
}

#[test]
fn the_last_redirection_wins() {
    let c = CmdLine::new("a < x < y > p > q").unwrap();
    assert_eq!(c.filein(), Some("y"));
    assert_eq!(c.fileout(), Some("q"));
    assert_eq!(stage_words(&c, 0), strings(&["a"]));
}

#[test]
fn output_before_a_pipe_is_rejected() {
    assert_eq!(CmdLine::parse("a > out | b").err(), Some(ParseError::OutNotLast));
    assert!(CmdLine::new("a > out | b").is_none());
    assert_eq!(CmdLine::parse("a > out b c | d").err(), Some(ParseError::OutNotLast));
    let c = CmdLine::new("a | b > out").unwrap();
    assert_eq!(c.len(), 2);
    assert_eq!(c.fileout(), Some("out"));
}

#[test]
fn input_after_a_pipe_is_rejected() {
    assert_eq!(CmdLine::parse("a | < in").err(), Some(ParseError::InNotFirst));
    assert!(CmdLine::new("a | < in").is_none());
    assert_eq!(CmdLine::parse("a | b < in").err(), Some(ParseError::InNotFirst));
}

#[test]
fn input_alone_names_a_file_for_no_stage() {
    let c = CmdLine::new("< in").unwrap();
    assert_eq!(c.len(), 0);
    assert_eq!(c.filein(), Some("in"));
    assert!(c.exec().is_empty());
}

#[test]
fn input_before_the_first_word_belongs_to_the_first_stage() {
    let c = CmdLine::new("< in | b").unwrap();
    assert_eq!(c.len(), 1);
    assert_eq!(stage_words(&c, 0), strings(&["b"]));
    assert_eq!(c.filein(), Some("in"));
    let d = CmdLine::new("< in a | b").unwrap();
    assert_eq!(d.len(), 2);
    assert_eq!(stage_words(&d, 0), strings(&["a"]));
}

#[test]
fn pipe_needs_a_command_before_it() {
    assert_eq!(CmdLine::parse("| a").err(), Some(ParseError::PipeFirst));
    assert_eq!(CmdLine::parse("a | | b").err(), Some(ParseError::PipeFirst));
    let c = CmdLine::new("a |").unwrap();
    assert_eq!(c.len(), 1);
}

#[test]
fn redirection_needs_a_file_name() {
    assert_eq!(CmdLine::parse("a <").err(), Some(ParseError::NoFileIn));
    assert_eq!(CmdLine::parse("a >").err(), Some(ParseError::NoFileOut));
    for op in ["&", "|", "<", ">"] {
        assert_eq!(CmdLine::parse(&format!("a < {} b", op)).err(), Some(ParseError::BadFileIn));
        assert_eq!(CmdLine::parse(&format!("a > {} b", op)).err(), Some(ParseError::BadFileOut));
    }
    let c = CmdLine::new("a < &x").unwrap();
    assert_eq!(c.filein(), Some("&x"));
}

#[test]
fn the_first_fault_is_reported() {
    assert_eq!(CmdLine::parse("a & | | <").err(), Some(ParseError::AmpNotLast));
    assert_eq!(CmdLine::parse("| &  x").err(), Some(ParseError::PipeFirst));
    assert_eq!(CmdLine::parse("a > | b").err(), Some(ParseError::BadFileOut));
    assert_eq!(CmdLine::parse("a | b < |").err(), Some(ParseError::BadFileIn));
}

#[test]
fn from_words_reads_given_words() {
    let c = CmdLine::from_words(&strings(&["a", "|", "b", ">", "o", "&"])).ok().unwrap();
    assert_eq!(c.len(), 2);
    assert_eq!(c.fileout(), Some("o"));
    assert!(c.back());
    assert_eq!(
        CmdLine::from_words(&strings(&["a", ">", "o", "|", "b"])).err(),
        Some(ParseError::OutNotLast)
    );
}

#[test]
fn each_error_has_its_message() {
    assert_eq!(ParseError::AmpNotLast.message(), "Parsing Error: & can appear only after the last command");
    assert_eq!(ParseError::PipeFirst.message(), "Parsing Error: | cannot appear as the first word in a command");
    assert_eq!(ParseError::NoFileIn.message(), "Parsing Error: No filename after <");
    assert_eq!(ParseError::BadFileIn.message(), "Parsing Error: Illegal filename after <");
    assert_eq!(ParseError::InNotFirst.message(), "Parsing Error: < can appear only in the first command");
    assert_eq!(ParseError::NoFileOut.message(), "Parsing Error: No filename after >");
    assert_eq!(ParseError::BadFileOut.message(), "Parsing Error: Illegal filename after >");
    assert_eq!(ParseError::OutNotLast.message(), "Parsing Error: > can appear only in the last command");
}
