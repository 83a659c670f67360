use rush::session::{job_name, join_words, read_input, Input, Probe, Rush};

#[test]
fn read_input_sorts_lines() {
    assert!(matches!(read_input(""), Input::End));
    assert!(matches!(read_input("a\0b\n"), Input::Nul));
    assert!(matches!(read_input("\0"), Input::Nul));
    match read_input("ls -l\n") {
        Input::Line(s) => assert_eq!(s, "ls -l"),
        _ => panic!("a line"),
    }
    match read_input("ls -l") {
        Input::Line(s) => assert_eq!(s, "ls -l"),
        _ => panic!("a line"),
    }
    match read_input("\n") {
        Input::Line(s) => assert_eq!(s, ""),
        _ => panic!("a line"),
    }
    match read_input("a\n\n") {
        Input::Line(s) => assert_eq!(s, "a\n"),
        _ => panic!("a line"),
    }
}

#[test]
fn history_lists_every_line_in_order() {
    let mut r = Rush::new();
    assert_eq!(r.history_len(), 0);
    assert!(r.history_lines().is_empty());
    assert!(r.run("ls", Some(false), vec![10]) == vec![10]);
    assert!(r.run("a | | b", None, vec![]).is_empty());
    assert!(r.run("", Some(false), vec![]).is_empty());
    assert!(r.run("sleep 1 &", Some(true), vec![11]).is_empty());
    assert_eq!(r.history_len(), 4);
    assert_eq!(
        r.history_lines(),
        vec!["    1  ls".to_string(), "    2  a | | b".to_string(), "    3  ".to_string(), "    4  sleep 1 &".to_string()]
    );
}

#[test]
fn history_numbers_grow_past_the_field() {
    let mut r = Rush::new();
    for _ in 0..100 {
        r.run("x", None, vec![]);
    }
    let lines = r.history_lines();
    assert_eq!(lines.len(), 100);
    assert_eq!(lines[8], "    9  x");
    assert_eq!(lines[9], "   10  x");
    assert_eq!(lines[99], "  100  x");
}

#[test]
fn foreground_pids_are_waited_for_in_order() {
    let mut r = Rush::new();
    assert_eq!(r.run("a | b | c", Some(false), vec![5, 3, 9]), vec![5, 3, 9]);
    assert_eq!(r.jobs_len(), 0);
}

#[test]
fn background_line_becomes_a_job() {
    let mut r = Rush::new();
    assert!(r.run("sleep 100 &", Some(true), vec![321]).is_empty());
    assert_eq!(r.jobs_len(), 1);
    assert_eq!(r.job_line(0), "sleep 100");
    let at = r.first_probe().unwrap();
    assert_eq!(at, Probe { job: 0, pid: 0 });
    assert_eq!(r.job_pid(at), 321);
    assert_eq!(r.next_probe(at, true), None);
    assert_eq!(r.next_probe(at, false), None);
    assert_eq!(r.jobs_len(), 1);
}

#[test]
fn probing_stops_at_the_first_running_process() {
    let mut r = Rush::new();
    r.run("a | b | c &", Some(true), vec![1, 2, 3]);
    r.run("&", Some(true), vec![]);
    r.run("d   |  e   &", Some(true), vec![4, 5]);
    assert_eq!(r.job_line(0), "a | b | c");
    assert_eq!(r.job_line(1), "");
    assert_eq!(r.job_line(2), "d | e");
    let first = r.first_probe().unwrap();
    assert_eq!(first, Probe { job: 0, pid: 0 });
    let second = r.next_probe(first, false).unwrap();
    assert_eq!(second, Probe { job: 0, pid: 1 });
    assert_eq!(r.job_pid(second), 2);
    let third = r.next_probe(second, true).unwrap();
    assert_eq!(third, Probe { job: 2, pid: 0 });
    assert_eq!(r.job_pid(third), 4);
    let fourth = r.next_probe(third, false).unwrap();
    assert_eq!(fourth, Probe { job: 2, pid: 1 });
    assert_eq!(r.next_probe(fourth, false), None);
    assert_eq!(r.next_probe(fourth, true), None);
    let q = r.next_probe(Probe { job: 0, pid: 2 }, false).unwrap();
    assert_eq!(q, Probe { job: 2, pid: 0 });
    assert_eq!(r.probe_from(1, 0), Some(Probe { job: 2, pid: 0 }));
    assert_eq!(r.probe_from(3, 0), None);
}

#[test]
fn no_jobs_no_probe() {
    let r = Rush::new();
    assert_eq!(r.first_probe(), None);
}

#[test]
fn job_name_drops_the_mark_and_spare_spaces() {
    assert_eq!(job_name("sleep 100 &"), "sleep 100");
    assert_eq!(job_name("  a   |  b &  "), "a | b");
    assert_eq!(job_name("echo   a&b   &"), "echo a&b");
    assert_eq!(job_name("a&b &"), "a&b");
    assert_eq!(job_name("a& b&"), "a& b&");
    assert_eq!(job_name("&"), "");
    assert_eq!(job_name("a & &"), "a &");
    assert_eq!(job_name("\ta\t\tb\n"), "a b");
    assert_eq!(job_name(""), "");
}

#[test]
fn a_job_keeps_an_ampersand_inside_a_word() {
    let mut r = Rush::new();
    assert!(r.run("echo   a&b   &", Some(true), vec![77]).is_empty());
    assert_eq!(r.jobs_len(), 1);
    assert_eq!(r.job_line(0), "echo a&b");
    assert_eq!(r.job_size(0), 1);
    assert_eq!(r.job_pid(Probe { job: 0, pid: 0 }), 77);
    assert_eq!(r.history_lines(), vec!["    1  echo   a&b   &".to_string()]);
}

#[test]
fn join_words_puts_one_space_between() {
    assert_eq!(join_words(&vec!["a".to_string(), "b".to_string(), "c".to_string()]), "a b c");
    assert_eq!(join_words(&vec!["a".to_string()]), "a");
    assert_eq!(join_words(&Vec::new()), "");
}
