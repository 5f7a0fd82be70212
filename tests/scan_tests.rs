use code_it_later::config::{keyword_matcher, CommentTable};
use code_it_later::datatypes::{Bread, Crumb};
use code_it_later::fs_operation::{
    bake_bread, clean_the_crumbs, clean_the_crumbs_on_special_index, delete_lines_on,
    delete_nth_lines, filter_line, line_position_map, restore_the_crumb, CleanError,
};
use code_it_later::matcher::Matcher;
use code_it_later::prompt::{
    bread_reply_step, crumb_reply_step, parse_reply, split_command, BreadStep, Reply,
};
use std::collections::{HashMap, HashSet};

/// The lines of `text` as a line reader hands them out, each with its terminator.
fn read_lines(text: &str) -> Vec<String> {
    text.split_inclusive('\n').map(|l| l.to_string()).collect()
}

/// The lines of `text` without their terminators, as bytes.
fn byte_lines(text: &str) -> Vec<Vec<u8>> {
    text.lines().map(|l| l.as_bytes().to_vec()).collect()
}

fn texts(lines: &[Vec<u8>]) -> Vec<String> {
    lines.iter().map(|l| String::from_utf8(l.clone()).unwrap()).collect()
}

fn table() -> CommentTable {
    CommentTable::new().unwrap()
}

fn scan(
    t: &CommentTable,
    path: &str,
    ext: &str,
    text: &str,
    keywords: &[&str],
    show_ignored: bool,
) -> Option<Bread> {
    let pattern: &Matcher = t.pattern_for(&ext.to_string()).unwrap();
    let kw = if keywords.is_empty() {
        None
    } else {
        Some(keyword_matcher(&keywords.iter().map(|k| k.to_string()).collect()).unwrap())
    };
    bake_bread(path.to_string(), &read_lines(text), pattern, &kw, show_ignored)
}

fn crumb(line_num: usize, content: &str, header: &str) -> Crumb {
    Crumb {
        line_num,
        position: 0,
        tails: vec![],
        keyword: None,
        view_content: content.to_string(),
        content: content.to_string(),
        comment_symbol_header: header.to_string(),
        ignore: content.starts_with('!'),
    }
}

const TEST_RS: &str = "/*:= this is rust
fn main() {
}
///:= this is also rust
fn other() {}
//:= !TODO: this is the ignore line
";

const KEYWORDS_LISP: &str = ";;;;;;;;:= TODO: this is TODO
(defun a () nil)
;;:= MARK: this is MARK
;;:= !MARK: this is ignored MARK
";

const MULTILINES_RS: &str = "//:= line1...
//:= line2...
//:= and line3
fn main() {}
//:= line4 is diffrent...
//:= and line5
//:= line6
";

#[test]
fn test_langs_test_rs_file() {
    let t = table();
    assert_eq!(
        scan(&t, "./tests/testcases/test.rs", "rs", TEST_RS, &[], false),
        Some(Bread::new(
            "./tests/testcases/test.rs".to_string(),
            vec![crumb(1, "this is rust", "/*"), crumb(4, "this is also rust", "///")]
        ))
    );
}

#[test]
fn test_py_file() {
    let t = table();
    assert_eq!(
        scan(&t, "./tests/testcases/test.py", "py", "#:= this is python\nprint(1)\n", &[], false),
        Some(Bread::new(
            "./tests/testcases/test.py".to_string(),
            vec![crumb(1, "this is python", "#")]
        ))
    );
}

#[test]
fn test_go_file() {
    let t = table();
    let text = "package main\n\n//:= this line can be read by codeitlater\n//:= MARK: you can left keyword to marked comment line\n";
    assert_eq!(
        scan(&t, "./tests/testcases/test.go", "go", text, &[], false),
        Some(Bread::new(
            "./tests/testcases/test.go".to_string(),
            vec![
                crumb(3, "this line can be read by codeitlater", "//"),
                crumb(4, "MARK: you can left keyword to marked comment line", "//"),
            ]
        ))
    );
}

#[test]
fn test_keywords_test_keywords() {
    let t = table();
    let c = Crumb {
        line_num: 1,
        position: 0,
        tails: vec![],
        keyword: Some("TODO".to_string()),
        view_content: "this is TODO".to_string(),
        content: "TODO: this is TODO".to_string(),
        comment_symbol_header: ";;;;;;;;".to_string(),
        ignore: false,
    };
    assert_eq!(
        scan(&t, "./tests/testcases/keywords.lisp", "lisp", KEYWORDS_LISP, &["TODO"], false),
        Some(Bread::new("./tests/testcases/keywords.lisp".to_string(), vec![c]))
    );
}

#[test]
fn tests_keywords_test_keywords() {
    let t = table();
    let c = Crumb {
        line_num: 1,
        position: 0,
        tails: vec![],
        keyword: Some("TODO".to_string()),
        view_content: "this is TODO".to_string(),
        content: "TODO: this is TODO".to_string(),
        comment_symbol_header: ";;;;;;;;".to_string(),
        ignore: false,
    };
    assert_eq!(
        scan(&t, "./tests/testcases/keywords.lisp", "lisp", KEYWORDS_LISP, &["TODO"], false),
        Some(Bread::new("./tests/testcases/keywords.lisp".to_string(), vec![c]))
    );
}

#[test]
fn test_multilines() {
    let t = table();
    let mut first = crumb(1, "line1...", "//");
    first.add_tail(crumb(2, "line2...", "//"));
    first.add_tail(crumb(3, "and line3", "//"));
    let mut second = crumb(5, "line4 is diffrent...", "//");
    second.add_tail(crumb(6, "and line5", "//"));
    let third = crumb(7, "line6", "//");
    let found = scan(&t, "./tests/testcases/multilines.rs", "rs", MULTILINES_RS, &[], false);
    assert_eq!(
        found,
        Some(Bread::new(
            "./tests/testcases/multilines.rs".to_string(),
            vec![first, second, third]
        ))
    );
    let b = found.unwrap();
    assert_eq!(b.crumbs[0].view_content, "line1 line2 and line3");
    assert_eq!(b.crumbs[0].all_lines_num(), vec![1, 2, 3]);
    assert_eq!(b.crumbs[1].view_content, "line4 is diffrent and line5");
}

#[test]
fn test_show_ignore() {
    let t = table();
    assert_eq!(
        scan(&t, "./tests/testcases/test.rs", "rs", TEST_RS, &[], true),
        Some(Bread::new(
            "./tests/testcases/test.rs".to_string(),
            vec![
                crumb(1, "this is rust", "/*"),
                crumb(4, "this is also rust", "///"),
                crumb(6, "!TODO: this is the ignore line", "//"),
            ]
        ))
    );
}

#[test]
fn tests_test_rs_file() {
    let t = table();
    for (path, ext, text) in [
        ("./tests/testcases/test.rs", "rs", TEST_RS),
        ("./tests/testcases/keywords.lisp", "lisp", KEYWORDS_LISP),
        ("./tests/testcases/multilines.rs", "rs", MULTILINES_RS),
    ] {
        println!("{:?}", scan(&t, path, ext, text, &[], false));
    }
}

#[test]
fn no_match_gives_no_bread() {
    let t = table();
    assert_eq!(scan(&t, "a.rs", "rs", "fn main() {}\n// plain comment\n", &[], false), None);
    assert_eq!(scan(&t, "a.rs", "rs", "", &[], false), None);
}

#[test]
fn single_rust_line_gives_one_crumb() {
    let t = table();
    let b = scan(&t, "a.rs", "rs", "//:= this is rust\n", &[], false).unwrap();
    assert_eq!(b.crumbs.len(), 1);
    assert_eq!(b.crumbs[0].view_content, "this is rust");
    assert_eq!(b.crumbs[0].keyword, None);
}

#[test]
fn marker_must_follow_the_symbols() {
    let t = table();
    assert_eq!(scan(&t, "a.rs", "rs", "// foo:= this is rust\n", &[], false), None);
}

#[test]
fn keyword_filter_sets_keyword() {
    let t = table();
    let b = scan(&t, "a.rs", "rs", "//:= TODO: fix this\n//:= other\n", &["TODO"], false).unwrap();
    assert_eq!(b.crumbs.len(), 1);
    assert_eq!(b.crumbs[0].keyword, Some("TODO".to_string()));
    assert_eq!(b.crumbs[0].view_content, "fix this");
}

#[test]
fn continuation_merges_two_lines() {
    let t = table();
    let b = scan(&t, "a.rs", "rs", "//:= line1...\n//:= line2\n", &[], false).unwrap();
    assert_eq!(b.crumbs.len(), 1);
    assert_eq!(b.crumbs[0].view_content, "line1 line2");
    assert_eq!(b.crumbs[0].all_lines_num(), vec![1, 2]);
}

#[test]
fn continuation_lines_are_contiguous_and_stripped() {
    let t = table();
    let text = "//:= a...\n//:= b...\n//:= c\nx\n//:= d...\n//:= e\n";
    let b = scan(&t, "a.rs", "rs", text, &[], false).unwrap();
    for c in &b.crumbs {
        let lines = c.all_lines_num();
        for w in lines.windows(2) {
            assert_eq!(w[1], w[0] + 1);
        }
        assert!(!c.view_content.ends_with("..."));
    }
    assert_eq!(b.crumbs[0].all_lines_num(), vec![1, 2, 3]);
    assert_eq!(b.crumbs[1].all_lines_num(), vec![5, 6]);
}

#[test]
fn continuation_cut_by_end_of_file_keeps_marker() {
    let t = table();
    let b = scan(&t, "a.rs", "rs", "//:= a...\n//:= b...", &[], false).unwrap();
    assert_eq!(b.crumbs[0].view_content, "a b...");
    assert_eq!(b.crumbs[0].all_lines_num(), vec![1, 2]);
}

#[test]
fn ignored_crumb_shown_only_on_request() {
    let t = table();
    let text = "//:= !TODO: skip me\n";
    assert_eq!(scan(&t, "a.rs", "rs", text, &["TODO"], false), None);
    let b = scan(&t, "a.rs", "rs", text, &["TODO"], true).unwrap();
    assert_eq!(b.crumbs.len(), 1);
    assert!(b.crumbs[0].is_ignore());
    assert_eq!(b.crumbs[0].keyword, Some("TODO".to_string()));
    assert_eq!(b.crumbs[0].view_content, "skip me");
}

#[test]
fn extraction_twice_gives_the_same_bread() {
    let t = table();
    let first = scan(&t, "m.rs", "rs", MULTILINES_RS, &[], true);
    let second = scan(&t, "m.rs", "rs", MULTILINES_RS, &[], true);
    assert_eq!(first, second);
}

#[test]
fn trailing_comment_keeps_position() {
    let t = table();
    let b = scan(&t, "a.rs", "rs", "let x = 1; //:= explain x\n", &[], false).unwrap();
    assert_eq!(b.crumbs[0].position, 11);
    assert_eq!(b.crumbs[0].comment_symbol_header, "//");
}

#[test]
fn deleting_one_whole_line_crumb() {
    let t = table();
    let text = "fn a() {}\n//:= remove me\nfn b() {}\n";
    let b = scan(&t, "a.rs", "rs", text, &[], false).unwrap();
    let out = clean_the_crumbs(&b, &byte_lines(text));
    assert_eq!(texts(&out), vec!["fn a() {}", "fn b() {}"]);
}

#[test]
fn deleting_trailing_comment_keeps_code() {
    let t = table();
    let text = "let x = 1; //:= explain x\n//:= a...\n//:= b\nend\n";
    let b = scan(&t, "a.rs", "rs", text, &[], false).unwrap();
    let out = clean_the_crumbs(&b, &byte_lines(text));
    assert_eq!(texts(&out), vec!["let x = 1; ", "end"]);
}

#[test]
fn deleting_empty_selection_changes_nothing() {
    let t = table();
    let text = "fn a() {}\n//:= keep me\n\nfn b() {}";
    let b = scan(&t, "a.rs", "rs", text, &[], false).unwrap();
    let lines = byte_lines(text);
    assert_eq!(clean_the_crumbs_on_special_index(&b, &HashSet::new(), &lines), Ok(lines.clone()));
    let empty = Bread::new("a.rs".to_string(), vec![]);
    assert_eq!(clean_the_crumbs(&empty, &lines), lines);
}

#[test]
fn deleting_selected_crumbs_only() {
    let t = table();
    let text = "//:= one\n//:= two\n//:= three\n";
    let b = scan(&t, "a.rs", "rs", text, &[], false).unwrap();
    let lines = byte_lines(text);
    let sel: HashSet<usize> = [0, 2].into_iter().collect();
    assert_eq!(
        texts(&clean_the_crumbs_on_special_index(&b, &sel, &lines).unwrap()),
        vec!["//:= two"]
    );
    let bad: HashSet<usize> = [1, 3].into_iter().collect();
    assert_eq!(
        clean_the_crumbs_on_special_index(&b, &bad, &lines),
        Err(CleanError::NoSuchCrumb(3))
    );
}

#[test]
fn delete_nth_lines_cuts_and_drops() {
    let lines = byte_lines("abcdef\nxyz\n\nlast");
    let mut nm = HashMap::new();
    nm.insert(1, 3);
    nm.insert(2, 0);
    nm.insert(3, 5);
    nm.insert(9, 0);
    assert_eq!(texts(&delete_nth_lines(&lines, &nm)), vec!["abc", "last"]);
    let m = line_position_map(&vec![(1, 4), (1, 2)]);
    assert_eq!(m.get(&1), Some(&2));
    assert_eq!(texts(&delete_lines_on(&lines, &vec![(4, 10), (1, 1)])), vec!["a", "xyz", "", "last"]);
}

#[test]
fn restore_turns_crumbs_into_plain_comments() {
    let t = table();
    let text = "let x = 1; //:= explain x\nfn a() {}\n//:= a...\n//:= b\n";
    let b = scan(&t, "a.rs", "rs", text, &[], false).unwrap();
    let out = restore_the_crumb(&b, &byte_lines(text));
    assert_eq!(texts(&out), vec!["let x = 1; //explain x", "fn a() {}", "//a...", "//b"]);
}

#[test]
fn delete_then_restore_differs_from_the_file() {
    let t = table();
    let text = "fn a() {}\n//:=   spaced   out\nfn b() {}\n";
    let lines = byte_lines(text);
    let b = scan(&t, "a.rs", "rs", text, &[], false).unwrap();
    let restored = restore_the_crumb(&b, &lines);
    assert_eq!(texts(&restored), vec!["fn a() {}", "//spaced   out", "fn b() {}"]);
    assert_ne!(restored, lines);
    let deleted = clean_the_crumbs(&b, &lines);
    let again = restore_the_crumb(&b, &deleted);
    assert_ne!(again, lines);
}

#[test]
fn filter_line_reads_groups() {
    let t = table();
    let m = t.pattern_for(&"hs".to_string()).unwrap();
    let c = filter_line("x = 1 -- := note\n", 9, m).unwrap();
    assert_eq!(c.line_num, 9);
    assert_eq!(c.position, 6);
    assert_eq!(c.comment_symbol_header, "-- ");
    assert_eq!(c.content, "note");
    assert!(filter_line("x = 1 --:= note\n", 9, m).is_none());
}

#[test]
fn replies_are_parsed() {
    assert_eq!(parse_reply("y", false), Some(Reply::Yes));
    assert_eq!(parse_reply("n", true), Some(Reply::No));
    assert_eq!(parse_reply("s", true), Some(Reply::Show));
    assert_eq!(parse_reply("i", true), Some(Reply::Individual));
    assert_eq!(parse_reply("i", false), None);
    assert_eq!(parse_reply("yes", true), None);
    assert_eq!(parse_reply("", true), None);
}

#[test]
fn format_command_is_split_at_spaces() {
    assert_eq!(split_command("cargo fmt"), vec!["cargo", "fmt"]);
    assert_eq!(split_command("go  fmt"), vec!["go", "", "fmt"]);
    assert_eq!(split_command(""), vec![""]);
}

#[test]
fn test_ignore_keyword_file() {
    let t = table();
    assert_eq!(scan(&t, "./tests/testcases/test.rs", "rs", TEST_RS, &["TODO"], false), None);

    let c = Crumb {
        line_num: 6,
        position: 0,
        tails: vec![],
        keyword: Some("TODO".to_string()),
        view_content: "this is the ignore line".to_string(),
        content: "!TODO: this is the ignore line".to_string(),
        comment_symbol_header: "//".to_string(),
        ignore: true,
    };
    assert_eq!(
        scan(&t, "./tests/testcases/test.rs", "rs", TEST_RS, &["TODO"], true),
        Some(Bread::new("./tests/testcases/test.rs".to_string(), vec![c]))
    );

    let mark = Crumb {
        line_num: 3,
        position: 0,
        tails: vec![],
        keyword: Some("MARK".to_string()),
        view_content: "this is MARK".to_string(),
        content: "MARK: this is MARK".to_string(),
        comment_symbol_header: ";;".to_string(),
        ignore: false,
    };
    let ignored_mark = Crumb {
        line_num: 4,
        position: 0,
        tails: vec![],
        keyword: Some("MARK".to_string()),
        view_content: "this is ignored MARK".to_string(),
        content: "!MARK: this is ignored MARK".to_string(),
        comment_symbol_header: ";;".to_string(),
        ignore: true,
    };
    assert_eq!(
        scan(&t, "./tests/testcases/keywords.lisp", "lisp", KEYWORDS_LISP, &["MARK"], false),
        Some(Bread::new("./tests/testcases/keywords.lisp".to_string(), vec![mark_copy(&mark)]))
    );
    assert_eq!(
        scan(&t, "./tests/testcases/keywords.lisp", "lisp", KEYWORDS_LISP, &["MARK"], true),
        Some(Bread::new("./tests/testcases/keywords.lisp".to_string(), vec![mark, ignored_mark]))
    );
}

#[test]
fn bread_and_crumb_steps() {
    assert_eq!(bread_reply_step(Some(Reply::Yes)), BreadStep::Apply);
    assert_eq!(bread_reply_step(Some(Reply::No)), BreadStep::Leave);
    assert_eq!(bread_reply_step(Some(Reply::Show)), BreadStep::AskAgain);
    assert_eq!(bread_reply_step(None), BreadStep::AskAgain);
    assert_eq!(bread_reply_step(Some(Reply::Individual)), BreadStep::ItemByItem);
    let mut chosen = vec![];
    assert!(!crumb_reply_step(&mut chosen, 0, Some(Reply::Yes)));
    assert!(crumb_reply_step(&mut chosen, 1, None));
    assert!(crumb_reply_step(&mut chosen, 1, Some(Reply::Show)));
    assert!(!crumb_reply_step(&mut chosen, 1, Some(Reply::No)));
    assert!(!crumb_reply_step(&mut chosen, 2, Some(Reply::Yes)));
    assert_eq!(chosen, vec![0, 2]);
}

fn mark_copy(c: &Crumb) -> Crumb {
    Crumb {
        line_num: c.line_num,
        position: c.position,
        tails: vec![],
        keyword: c.keyword.clone(),
        view_content: c.view_content.clone(),
        content: c.content.clone(),
        comment_symbol_header: c.comment_symbol_header.clone(),
        ignore: c.ignore,
    }
}
