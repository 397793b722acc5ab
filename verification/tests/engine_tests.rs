use string_seeker::commands::{resolve, DepthBounds, SearchDirection};
use string_seeker::matcher::split_lines;
use string_seeker::output::output_to_file;
use string_seeker::results::FileData;
use string_seeker::walker::{collect_files, search_files};

fn mk_file(name: &str, path: &str, lines: &[&str]) -> FileData {
    let mut v: Vec<String> = Vec::new();
    for x in lines {
        v.push(x.to_string());
    }
    FileData { file_name: name.to_string(), file_path: path.to_string(), lines: v }
}

#[test]
fn both_matching_files_appear_in_order() {
    let files = vec![
        mk_file("f.txt", "/a/f.txt", &["has needle"]),
        mk_file("g.txt", "/a/b/g.txt", &["another needle"]),
    ];
    let results = search_files("needle", 2, &files);
    assert_eq!(results.len(), 2);
    assert_eq!(results[0].file_name, "f.txt");
    assert_eq!(results[0].file_path, "/a/f.txt");
    assert_eq!(results[1].file_name, "g.txt");
    assert_eq!(results[1].file_path, "/a/b/g.txt");
}

#[test]
fn files_without_matches_produce_no_result() {
    let files = vec![
        mk_file("f.txt", "/a/f.txt", &["has needle"]),
        mk_file("empty.txt", "/a/empty.txt", &["nothing", "here"]),
        mk_file("g.txt", "/a/b/g.txt", &["another needle"]),
    ];
    let results = search_files("needle", 2, &files);
    assert_eq!(results.len(), 2);
    assert_eq!(results[0].file_name, "f.txt");
    assert_eq!(results[1].file_name, "g.txt");
    for r in &results {
        assert!(r.number_of_occurrences >= 1);
    }
}

#[test]
fn no_matches_anywhere_is_an_empty_result_sequence() {
    let files = vec![mk_file("f.txt", "/a/f.txt", &["alpha", "beta"])];
    let results = search_files("needle", 2, &files);
    assert!(results.is_empty());
}

#[test]
fn end_to_end_from_raw_content() {
    let content = "alpha\nneedle here\ngamma";
    let file = FileData {
        file_name: "notes.txt".to_string(),
        file_path: "/root/notes.txt".to_string(),
        lines: split_lines(content),
    };
    let results = search_files("needle", 1, &vec![file]);
    assert_eq!(results.len(), 1);
    assert_eq!(results[0].number_of_occurrences, 1);
    assert_eq!(results[0].context_windows.len(), 1);
    let window = &results[0].context_windows[0];
    assert_eq!(window.occurrence_number, 1);
    assert_eq!(window.window_contents, vec!["alpha".to_string(), "needle here".to_string(), "gamma".to_string()]);
}

#[test]
fn walk_of_a_missing_root_finds_nothing() {
    let roots = vec!["no_such_directory_for_string_seeker".to_string()];
    let bounds = resolve(&SearchDirection::HereAndBelow);
    let entries = collect_files(&roots, &bounds, false);
    assert!(entries.is_empty());
}

#[test]
fn walk_accepts_explicit_bounds() {
    let roots = vec!["also_not_a_directory_anywhere".to_string()];
    let entries = collect_files(&roots, &DepthBounds { min_depth: 1, max_depth: Some(1) }, true);
    assert!(entries.is_empty());
}

#[test]
fn walk_of_current_directory_respects_the_filter() {
    let roots = vec![".".to_string()];
    let entries = collect_files(&roots, &DepthBounds { min_depth: 1, max_depth: Some(1) }, false);
    for e in &entries {
        assert!(!e.file_name.starts_with('.'));
        assert_eq!(e.depth, 1);
    }
}

#[test]
fn rendered_output_lists_header_then_window_lines() {
    let files = vec![mk_file("f.txt", "/a/f.txt", &["x", "needle", "y"])];
    let results = search_files("needle", 1, &files);
    let lines = output_to_file(&results);
    assert_eq!(
        lines,
        vec![
            "needle".to_string(),
            "f.txt".to_string(),
            "/a/f.txt".to_string(),
            "x".to_string(),
            "needle".to_string(),
            "y".to_string(),
        ]
    );
}

#[test]
fn rendered_output_of_no_results_is_empty() {
    let results = search_files("needle", 1, &Vec::new());
    let lines = output_to_file(&results);
    assert!(lines.is_empty());
}
