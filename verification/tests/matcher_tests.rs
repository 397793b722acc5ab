use string_seeker::matcher::{contains_text, search_file_lines, split_lines};

fn mk_lines(xs: &[&str]) -> Vec<String> {
    let mut v: Vec<String> = Vec::new();
    for x in xs {
        v.push(x.to_string());
    }
    v
}

#[test]
fn split_three_lines() {
    let r = split_lines("alpha\nneedle here\ngamma");
    assert_eq!(r, mk_lines(&["alpha", "needle here", "gamma"]));
}

#[test]
fn split_trailing_newline_keeps_empty_line() {
    let r = split_lines("alpha\n");
    assert_eq!(r, mk_lines(&["alpha", ""]));
}

#[test]
fn split_empty_content_is_one_empty_line() {
    let r = split_lines("");
    assert_eq!(r, mk_lines(&[""]));
}

#[test]
fn split_consecutive_newlines() {
    let r = split_lines("a\n\nb");
    assert_eq!(r, mk_lines(&["a", "", "b"]));
}

#[test]
fn contains_finds_literal_substring() {
    assert!(contains_text("needle here", "needle"));
    assert!(contains_text("the needle", "needle"));
    assert!(!contains_text("alpha", "needle"));
    assert!(!contains_text("Needle", "needle"));
    assert!(contains_text("abc", ""));
    assert!(!contains_text("ab", "abc"));
}

#[test]
fn scenario_single_match_window_one() {
    let lines = mk_lines(&["alpha", "needle here", "gamma"]);
    let r = search_file_lines("needle", 1, "notes.txt".to_string(), "/r/notes.txt".to_string(), &lines);
    let r = r.unwrap();
    assert_eq!(r.found_text, "needle");
    assert_eq!(r.file_name, "notes.txt");
    assert_eq!(r.file_path, "/r/notes.txt");
    assert_eq!(r.number_of_occurrences, 1);
    assert_eq!(r.context_windows.len(), 1);
    assert_eq!(r.context_windows[0].occurrence_number, 1);
    assert_eq!(r.context_windows[0].window_contents, mk_lines(&["alpha", "needle here", "gamma"]));
}

#[test]
fn scenario_two_matches_window_zero() {
    let lines = mk_lines(&["needle a", "b", "c", "d", "needle e"]);
    let r = search_file_lines("needle", 0, "f".to_string(), "/f".to_string(), &lines).unwrap();
    assert_eq!(r.number_of_occurrences, 2);
    assert_eq!(r.context_windows.len(), 2);
    assert_eq!(r.context_windows[0].occurrence_number, 1);
    assert_eq!(r.context_windows[1].occurrence_number, 2);
    assert_eq!(r.context_windows[0].window_contents, mk_lines(&["needle a"]));
    assert_eq!(r.context_windows[1].window_contents, mk_lines(&["needle e"]));
}

#[test]
fn window_clamped_at_first_line() {
    let lines = mk_lines(&["needle", "b", "c", "d"]);
    let r = search_file_lines("needle", 2, "f".to_string(), "/f".to_string(), &lines).unwrap();
    assert_eq!(r.context_windows[0].window_contents, mk_lines(&["needle", "b", "c"]));
}

#[test]
fn window_clamped_at_last_line() {
    let lines = mk_lines(&["a", "b", "c", "needle"]);
    let r = search_file_lines("needle", 2, "f".to_string(), "/f".to_string(), &lines).unwrap();
    assert_eq!(r.context_windows[0].window_contents, mk_lines(&["b", "c", "needle"]));
}

#[test]
fn no_matching_line_gives_no_result() {
    let lines = mk_lines(&["alpha", "beta", "gamma"]);
    let r = search_file_lines("needle", 2, "f".to_string(), "/f".to_string(), &lines);
    assert!(r.is_none());
}

#[test]
fn occurrence_numbers_start_at_one_and_increase() {
    let lines = mk_lines(&["x needle", "y", "needle", "z", "a needle b"]);
    let r = search_file_lines("needle", 0, "f".to_string(), "/f".to_string(), &lines).unwrap();
    assert_eq!(r.number_of_occurrences, 3);
    let mut expected: u64 = 1;
    for w in &r.context_windows {
        assert_eq!(w.occurrence_number, expected);
        expected += 1;
    }
}

#[test]
fn one_occurrence_per_matching_line() {
    let lines = mk_lines(&["needle needle needle"]);
    let r = search_file_lines("needle", 0, "f".to_string(), "/f".to_string(), &lines).unwrap();
    assert_eq!(r.number_of_occurrences, 1);
}
