use gitflow::diff::parse_diff;

#[test]
fn test_parse_diff_hunks() {
    let diff_text = r#"diff --git a/test.txt b/test.txt
index 1234567..abcdefg 100644
--- a/test.txt
+++ b/test.txt
@@ -1,3 +1,4 @@
 Line 1
-Line 2
+Line 2 modified
+New Line 3
 Line 4
"#;

    let result = parse_diff(diff_text.to_string());
    assert!(result.is_ok());

    let parsed = result.unwrap();
    assert_eq!(parsed.file_path, "test.txt");
    assert!(parsed.hunks.len() > 0);

    let hunk = &parsed.hunks[0];
    assert!(hunk.old_start > 0);
    assert!(hunk.new_start > 0);
    assert!(hunk.lines.len() > 0);
}

#[test]
fn bench_parse_diff_performance() {
    let mut diff_text = String::from("diff --git a/test.txt b/test.txt\n");
    diff_text.push_str("index 1234567..abcdefg 100644\n");
    diff_text.push_str("--- a/test.txt\n");
    diff_text.push_str("+++ b/test.txt\n");
    diff_text.push_str("@@ -1,100 +1,100 @@\n");

    for i in 0..100 {
        diff_text.push_str(&format!(" Line {}\n", i));
    }

    let start = std::time::Instant::now();
    let result = parse_diff(diff_text);
    let duration = start.elapsed();

    assert!(result.is_ok());
    assert!(duration.as_millis() < 20, "Parse should be < 20ms, got {:?}", duration);
    println!("Parse diff (100 lines): {:?}", duration);
}

#[test]
fn parse_diff_numbers_every_line() {
    let text = "diff --git a/src/a.rs b/src/a.rs\n--- a/src/a.rs\n+++ b/src/a.rs\n@@ -10,3 +20,4 @@ fn main\n ctx\n-gone\n+new1\n+new2\n tail\n";
    let p = parse_diff(text.to_string()).unwrap();
    assert_eq!(p.file_path, "src/a.rs");
    assert_eq!(p.old_path, "src/a.rs");
    assert_eq!(p.new_path, "src/a.rs");
    assert!(!p.is_binary);
    assert_eq!(p.additions, 2);
    assert_eq!(p.deletions, 1);
    assert_eq!(p.hunks.len(), 1);
    let h = &p.hunks[0];
    assert_eq!((h.old_start, h.old_lines, h.new_start, h.new_lines), (10, 3, 20, 4));
    assert_eq!(h.header, "@@ -10,3 +20,4 @@ fn main");
    let kinds: Vec<&str> = h.lines.iter().map(|l| l.line_type.as_str()).collect();
    assert_eq!(kinds, vec!["context", "deletion", "addition", "addition", "context"]);
    let olds: Vec<Option<u32>> = h.lines.iter().map(|l| l.old_line_no).collect();
    let news: Vec<Option<u32>> = h.lines.iter().map(|l| l.new_line_no).collect();
    assert_eq!(olds, vec![Some(10), Some(11), None, None, Some(12)]);
    assert_eq!(news, vec![Some(20), None, Some(21), Some(22), Some(23)]);
    let contents: Vec<&str> = h.lines.iter().map(|l| l.content.as_str()).collect();
    assert_eq!(contents, vec!["ctx", "gone", "new1", "new2", "tail"]);
}

#[test]
fn parse_diff_several_hunks_and_crlf() {
    let text = "@@ -1 +1 @@\r\n-a\r\n+b\r\n@@ -5,2 +5,2 @@\r\n x\r\n";
    let p = parse_diff(text.to_string()).unwrap();
    assert_eq!(p.hunks.len(), 2);
    assert_eq!((p.hunks[0].old_start, p.hunks[0].old_lines), (1, 1));
    assert_eq!((p.hunks[0].new_start, p.hunks[0].new_lines), (1, 1));
    assert_eq!(p.hunks[0].lines[0].content, "a");
    assert_eq!(p.hunks[0].lines[1].content, "b");
    assert_eq!(p.hunks[1].lines.len(), 1);
    assert_eq!(p.hunks[1].lines[0].old_line_no, Some(5));
    assert_eq!(p.file_path, "");
}

#[test]
fn parse_diff_binary_and_empty() {
    let p = parse_diff("diff --git a/img.png b/img.png\nBinary files a/img.png and b/img.png differ\n".to_string()).unwrap();
    assert!(p.is_binary);
    assert_eq!(p.file_path, "img.png");
    assert!(p.hunks.is_empty());

    let e = parse_diff(String::new()).unwrap();
    assert_eq!(e.file_path, "");
    assert!(e.hunks.is_empty());
    assert_eq!((e.additions, e.deletions), (0, 0));
}

#[test]
fn parse_diff_lines_outside_hunks_are_ignored() {
    let p = parse_diff("+orphan\n-orphan\n context\n".to_string()).unwrap();
    assert!(p.hunks.is_empty());
    assert_eq!((p.additions, p.deletions), (0, 0));
}

#[test]
fn parse_diff_bad_header_numbers_fall_back_to_one() {
    let p = parse_diff("@@ -x,y +7 @@\n".to_string()).unwrap();
    let h = &p.hunks[0];
    assert_eq!((h.old_start, h.old_lines, h.new_start, h.new_lines), (1, 1, 7, 1));
    let short = parse_diff("@@ -1\n+x\n".to_string()).unwrap();
    assert!(short.hunks.is_empty());
    assert_eq!(short.additions, 0);
}

#[test]
fn parse_diff_normalizes_paths_to_nfc() {
    let decomposed = "\u{1112}\u{1161}\u{11AB}.txt";
    let text = format!("diff --git a/{d} b/{d}\n--- a/{d}\n+++ b/{d}\n", d = decomposed);
    let p = parse_diff(text).unwrap();
    assert_eq!(p.file_path, "\u{D55C}.txt");
    assert_eq!(p.old_path, "\u{D55C}.txt");
    assert_eq!(p.new_path, "\u{D55C}.txt");
}

#[test]
fn parse_diff_text_keeps_paths_and_strips_prefixes() {
    let p = gitflow::diff::parse_diff_text("diff --git a/a/x b/a/x\n--- /dev/null\n+++ b/new.txt\n");
    assert_eq!(p.file_path, "x");
    assert_eq!(p.old_path, "--- /dev/null");
    assert_eq!(p.new_path, "new.txt");
}
