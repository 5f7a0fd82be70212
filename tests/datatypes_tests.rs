use code_it_later::config::keyword_matcher;
use code_it_later::datatypes::{Bread, Crumb};

#[test]
fn test_filter_keyowrds() {
    let mut a = Crumb::new(0, 0, None, "TODO: test1".to_string());
    assert!(a.filter_keywords(&keyword_matcher(&vec!["TODO".to_string()]).unwrap()));
    assert_eq!(a.keyword, Some("TODO".to_string()));

    let mut a = Crumb::new(0, 0, None, "TODO: test1".to_string());
    assert!(a.filter_keywords(
        &keyword_matcher(&vec!["TODO".to_string(), "MARK".to_string()]).unwrap()
    ));
    assert_eq!(a.keyword, Some("TODO".to_string()));
    assert_eq!(a.view_content, "test1");

    // test 2
    let mut a = Crumb::new(0, 0, None, "test1".to_string());
    assert!(!a.filter_keywords(&keyword_matcher(&vec!["TODO".to_string()]).unwrap()));
    assert_eq!(a.keyword, None);

    // test 3
    let mut a = Crumb::new(0, 0, None, "!TODO: test3".to_string()).add_ignore_flag();
    assert!(a.filter_keywords(
        &keyword_matcher(&vec!["TODO".to_string(), "MARK".to_string()]).unwrap()
    ));
    assert_eq!(a.keyword, Some("TODO".to_string()));
    assert!(a.is_ignore());
}

#[test]
fn test_to_org() {
    let b0 = Bread::new("a".into(), vec![]);
    assert_eq!(b0.to_org(), "* a\n".to_string());

    let b1 = Bread::new(
        "a".into(),
        vec![
            Crumb::new(1, 0, None, "1".to_string()),
            Crumb::new(2, 0, Some("TODO".to_string()), "2".to_string()),
        ],
    );
    assert_eq!(b1.to_org(), "* a\n** TODO 2\n".to_string());
}

#[test]
fn keyword_match_ignores_case() {
    let mut a = Crumb::new(3, 0, None, "todo: lower case".to_string());
    assert!(a.filter_keywords(&keyword_matcher(&vec!["TODO".to_string()]).unwrap()));
    assert_eq!(a.keyword, Some("todo".to_string()));
    assert_eq!(a.view_content, "lower case");
    assert_eq!(a.content, "todo: lower case");
}

#[test]
fn add_tail_joins_text_and_records_line() {
    let mut a = Crumb::new(1, 4, None, "first part ...  ".to_string());
    assert!(!a.has_tail());
    a.add_tail(Crumb::new(2, 0, None, "second".to_string()));
    assert_eq!(a.view_content, "first part  second");
    assert_eq!(a.all_lines_num(), vec![1, 2]);
    assert_eq!(a.all_lines_num_postion_pair(), vec![(1, 4), (2, 0)]);

    let mut b = Crumb::new(5, 0, None, "a......".to_string());
    assert!(b.has_tail());
    b.add_tail(Crumb::new(6, 2, None, "b...".to_string()));
    assert_eq!(b.view_content, "a b...");
    assert!(b.has_tail());
    assert_eq!(b.content, "a......");
}

#[test]
fn has_tail_needs_three_dots() {
    assert!(Crumb::new(1, 0, None, "...".to_string()).has_tail());
    assert!(!Crumb::new(1, 0, None, "..".to_string()).has_tail());
    assert!(!Crumb::new(1, 0, None, "".to_string()).has_tail());
    assert!(!Crumb::new(1, 0, None, "... ".to_string()).has_tail());
}

#[test]
fn list_and_tree_formats() {
    let c = Crumb::new(12, 0, Some("TODO".to_string()), "fix this".to_string());
    assert_eq!(c.list_format(), "12: TODO: fix this");
    assert_eq!(c.tree_format(), "Line 12: TODO: fix this\n");
    let d = Crumb::new(7, 0, None, "plain".to_string());
    assert_eq!(d.list_format(), "7: plain");
    assert_eq!(d.to_org(), None);
    let b = Bread::new("src/a.rs".to_string(), vec![c, d]);
    assert_eq!(
        b.tree_format(),
        "|-- src/a.rs\n  |-- Line 12: TODO: fix this\n  |-- Line 7: plain\n"
    );
}

#[test]
fn large_line_numbers_are_written_in_full() {
    let c = Crumb::new(usize::MAX, 0, None, "x".to_string());
    assert_eq!(c.list_format(), format!("{}: x", usize::MAX));
    let z = Crumb::new(0, 0, None, "x".to_string());
    assert_eq!(z.list_format(), "0: x");
    let t = Crumb::new(100, 0, None, "x".to_string());
    assert_eq!(t.list_format(), "100: x");
}

#[test]
fn bang_before_keyword_flags_ignore() {
    let mut a = Crumb::new(1, 0, None, "!TODO: skip me".to_string());
    assert!(!a.is_ignore());
    assert!(a.filter_keywords(&keyword_matcher(&vec!["TODO".to_string()]).unwrap()));
    assert_eq!(a.keyword, Some("TODO".to_string()));
    assert_eq!(a.view_content, "skip me");
    assert!(a.is_ignore());

    let mut b = Crumb::new(1, 0, None, "!x TODO: keep me".to_string()).add_ignore_flag();
    assert!(b.filter_keywords(&keyword_matcher(&vec!["TODO".to_string()]).unwrap()));
    assert!(!b.is_ignore());

    let mut c = Crumb::new(1, 0, None, "é!TODO: multibyte before".to_string());
    assert!(c.filter_keywords(&keyword_matcher(&vec!["TODO".to_string()]).unwrap()));
    assert!(c.is_ignore());
}
