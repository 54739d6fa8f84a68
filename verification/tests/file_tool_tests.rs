use rcode::agent::file_tool::{
    GetLines, GetLinesArgs, LineRead, ListFiles, ListFilesArgs, SearchFile,
    SearchFileArgs, ToolError, WalkEntry,
};

fn lines(texts: &[&str]) -> Vec<String> {
    texts.iter().map(|s| s.to_string()).collect()
}

fn reads(texts: &[&str]) -> Vec<LineRead> {
    texts.iter().map(|s| LineRead::Line(s.to_string())).collect()
}

#[test]
fn walk_settings_follow_args() {
    let args = ListFilesArgs { path: ".".to_string(), include_hidden: false, include_gitignore: true };
    let s = ListFiles.walk_settings(&args);
    assert!(s.skip_hidden);
    assert!(s.respect_gitignore);
    let args = ListFilesArgs { path: ".".to_string(), include_hidden: true, include_gitignore: false };
    let s = ListFiles.walk_settings(&args);
    assert!(!s.skip_hidden);
    assert!(!s.respect_gitignore);
}

#[test]
fn listing_keeps_files_only() {
    let entries = vec![
        WalkEntry::NotFile,
        WalkEntry::File("./a.rs".to_string()),
        WalkEntry::NotFile,
        WalkEntry::File("./src/b.rs".to_string()),
    ];
    assert_eq!(ListFiles.listing(&entries).unwrap(), "./a.rs\n./src/b.rs");
    assert_eq!(ListFiles.listing(&vec![]).unwrap(), "");
}

#[test]
fn listing_stops_at_first_error() {
    let entries = vec![
        WalkEntry::File("./a.rs".to_string()),
        WalkEntry::Failed("permission denied".to_string()),
        WalkEntry::Failed("later".to_string()),
    ];
    match ListFiles.listing(&entries) {
        Err(ToolError::Walk(m)) => assert_eq!(m, "permission denied"),
        other => panic!("unexpected {other:?}"),
    }
}

#[test]
fn search_numbers_matching_lines() {
    let args = SearchFileArgs { path: "f".to_string(), regex_pattern: "fn \\w+".to_string() };
    let pattern = SearchFile.compile(&args).unwrap();
    let text = lines(&["use x;", "fn main() {", "    let y = 1;", "fn helper() {}", "}"]);
    assert_eq!(SearchFile.search(&pattern, &text), "2: fn main() {\n4: fn helper() {}");
}

#[test]
fn search_without_match_is_empty() {
    let args = SearchFileArgs { path: "f".to_string(), regex_pattern: "zzz".to_string() };
    let pattern = SearchFile.compile(&args).unwrap();
    assert_eq!(SearchFile.search(&pattern, &lines(&["a", "b"])), "");
}

#[test]
fn search_numbers_past_nine() {
    let args = SearchFileArgs { path: "f".to_string(), regex_pattern: "^x$".to_string() };
    let pattern = SearchFile.compile(&args).unwrap();
    let mut text = lines(&["a"; 11]);
    text.push("x".to_string());
    assert_eq!(SearchFile.search(&pattern, &text), "12: x");
}

#[test]
fn invalid_pattern_is_rejected() {
    let args = SearchFileArgs { path: "f".to_string(), regex_pattern: "(unclosed".to_string() };
    match SearchFile.compile(&args) {
        Err(ToolError::InvalidPattern(m)) => {
            assert_eq!(m, regex::Regex::new("(unclosed").unwrap_err().to_string())
        }
        Err(other) => panic!("unexpected {other:?}"),
        Ok(_) => panic!("pattern accepted"),
    }
}

#[test]
fn get_lines_takes_inclusive_range() {
    let args = GetLinesArgs { path: "f".to_string(), start: 2, end: 4 };
    let text = reads(&["one", "two", "three", "four", "five"]);
    assert_eq!(GetLines.select(&args, &text).unwrap(), "two\nthree\nfour");
}

#[test]
fn get_lines_clips_to_file() {
    let text = reads(&["one", "two"]);
    let args = GetLinesArgs { path: "f".to_string(), start: 0, end: 100 };
    assert_eq!(GetLines.select(&args, &text).unwrap(), "one\ntwo");
    let args = GetLinesArgs { path: "f".to_string(), start: 3, end: 9 };
    assert_eq!(GetLines.select(&args, &text).unwrap(), "");
    let args = GetLinesArgs { path: "f".to_string(), start: 2, end: 1 };
    assert_eq!(GetLines.select(&args, &text).unwrap(), "");
}

#[test]
fn get_lines_reports_errors_inside_range_only() {
    let text = vec![
        LineRead::Failed("bad first".to_string()),
        LineRead::Line("two".to_string()),
        LineRead::Failed("bad third".to_string()),
    ];
    let args = GetLinesArgs { path: "f".to_string(), start: 2, end: 2 };
    assert_eq!(GetLines.select(&args, &text).unwrap(), "two");
    let args = GetLinesArgs { path: "f".to_string(), start: 2, end: 3 };
    match GetLines.select(&args, &text) {
        Err(ToolError::Io(m)) => assert_eq!(m, "bad third"),
        other => panic!("unexpected {other:?}"),
    }
}

#[test]
fn number_matches_uses_given_marks() {
    let text = lines(&["a", "b", "c"]);
    assert_eq!(SearchFile.number_matches(&text, &vec![true, false, true]), "1: a\n3: c");
    assert_eq!(SearchFile.number_matches(&text, &vec![false, false, false]), "");
}

#[test]
fn search_uses_the_given_pattern() {
    let args = SearchFileArgs { path: "f".to_string(), regex_pattern: "b".to_string() };
    let pattern = SearchFile.compile(&args).unwrap();
    assert_eq!(SearchFile.search(&pattern, &lines(&["a", "b", "c"])), "2: b");
}
