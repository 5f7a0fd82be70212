use code_it_later::args::{read_config_raw_content, split_space_exclude_those_in_inner_string, Args};
use code_it_later::config::{
    clean_keywords_table, comment_matcher, keep_dir, keyword_matcher, make_key_regex, make_regex,
    output_format_of, CommentTable, Config, ConfigError, OutputFormat,
};
use code_it_later::fs_operation::filter_line;

fn strings(v: &[&str]) -> Vec<String> {
    v.iter().map(|s| s.to_string()).collect()
}

fn default_args() -> Args {
    Args {
        filetypes: vec![],
        ignore_dirs: vec![],
        keywords: None,
        jsonx: None,
        targets: vec![".".to_string()],
        delete: false,
        restore: false,
        fmt_command: None,
        output_format: None,
        show_ignore: false,
        config_location: ".".to_string(),
    }
}

#[test]
fn test_update_table() {
    let mut table = CommentTable::new().unwrap();
    let rs = "rs".to_string();
    assert_eq!(table.symbols_for(&rs).unwrap(), &vec![String::from("//"), String::from(r#"/\*"#)]);
    assert_eq!(table.pattern_for(&rs).unwrap().as_str(), r#"(//+|/\*+):=\s+(.*)"#);

    table.update_table(r##"{"rs":["//","#"]}"##).unwrap();
    assert_eq!(table.symbols_for(&rs).unwrap(), &vec![String::from("//"), String::from("#")]);
    assert_eq!(table.pattern_for(&rs).unwrap().as_str(), r#"(//+|#+):=\s+(.*)"#);

    table.update_table(r#"{"rs":["//","/\\*"]}"#).unwrap();
    assert_eq!(table.symbols_for(&rs).unwrap(), &vec![String::from("//"), String::from("/\\*")]);
    assert_eq!(table.symbols_for(&rs).unwrap(), &vec![String::from("//"), String::from(r#"/\*"#)]);
    assert_eq!(table.pattern_for(&rs).unwrap().as_str(), r#"(//+|/\*+):=\s+(.*)"#);
}

#[test]
fn test_make_regex() {
    assert_eq!(
        make_regex(&vec![String::from("//"), String::from(";")]),
        String::from(r#"(//+|;+):=\s+(.*)"#)
    );

    assert_eq!(
        make_regex(&vec![String::from("//"), String::from(r#"/\*"#)]),
        String::from(r#"(//+|/\*+):=\s+(.*)"#)
    );
}

#[test]
fn test_regex() {
    let re = comment_matcher(&vec![String::from("--"), String::from(";")]).unwrap();
    let cap = filter_line("Aabbcc --:= test", 1, &re).unwrap();
    assert_eq!(cap.content, "test");

    let cap = filter_line("Aabbcc ;:= test", 1, &re).unwrap();
    assert_eq!(cap.content, "test");

    let cap = filter_line("Aabbcc ;;;:= test", 1, &re).unwrap();
    assert_eq!(cap.content, "test");
    assert_eq!(cap.comment_symbol_header, ";;;");

    assert!(filter_line("Aabbcc #:= test", 1, &re).is_none());

    assert!(filter_line("Aabbcc ; test", 1, &re).is_none());

    assert!(filter_line("Aabbcc ; := test", 1, &re).is_none());

    let re = comment_matcher(&vec![
        String::from("//"),
        String::from(r#"/\*"#),
        String::from(r#"// "#),
    ])
    .unwrap();
    assert!(filter_line("err := test", 1, &re).is_none());
    assert!(filter_line("err // := test", 1, &re).is_some());
    assert_eq!(filter_line("err // := test", 1, &re).unwrap().comment_symbol_header, "// ");
}

#[test]
fn test_restore_overwrited_by_delete() {
    let mut arg = default_args();
    arg.delete = true;
    arg.restore = true;
    let conf = Config::from_args(&arg, &None).unwrap();
    assert!(conf.delete);
    assert!(!conf.restore);

    arg.delete = false;
    arg.restore = true;
    let conf = Config::from_args(&arg, &None).unwrap();
    assert!(!conf.delete);
    assert!(conf.restore);
}

#[test]
fn test_read_current_path_config() {
    let content = "
-x target

-k    TODO";
    let lines: Vec<String> = content.lines().map(|l| l.to_string()).collect();
    assert_eq!(
        vec!["codeitlater", "-x", "target", "-k", "TODO"],
        read_config_raw_content(&lines)
    );
}

#[test]
fn split_keeps_quoted_spaces() {
    assert_eq!(
        split_space_exclude_those_in_inner_string(r#"--fmt "cargo fmt"  -k TODO"#).unwrap(),
        strings(&["--fmt", "cargo fmt", "-k", "TODO"])
    );
    assert_eq!(split_space_exclude_those_in_inner_string("").unwrap(), Vec::<String>::new());
    assert_eq!(split_space_exclude_those_in_inner_string(r#""""#).unwrap(), Vec::<String>::new());
}

#[test]
fn key_regex_is_case_insensitive_alternation() {
    assert_eq!(
        make_key_regex(&strings(&["TODO", "MARK"])),
        r#"(?i)(TODO|MARK):\s*(.*)"#.to_string()
    );
    assert_eq!(keyword_matcher(&strings(&["TODO"])).unwrap().as_str(), r#"(?i)(TODO):\s*(.*)"#);
}

#[test]
fn no_keywords_is_an_error() {
    assert!(matches!(keyword_matcher(&vec![]), Err(ConfigError::NoKeywords)));
    let mut arg = default_args();
    arg.keywords = Some(vec![]);
    assert!(matches!(Config::from_args(&arg, &None), Err(ConfigError::NoKeywords)));
}

#[test]
fn table_errors_leave_table_unchanged() {
    let mut table = CommentTable::new().unwrap();
    let rs = "rs".to_string();
    assert_eq!(table.update_table("not json"), Err(ConfigError::InvalidJson));
    assert_eq!(table.update_table(r#"{"rs": []}"#), Err(ConfigError::NoSymbols("rs".to_string())));
    assert_eq!(
        table.update_table(r#"{"rs": ["("]}"#),
        Err(ConfigError::InvalidPattern(r#"((+):=\s+(.*)"#.to_string()))
    );
    assert_eq!(table.symbols_for(&rs).unwrap(), &strings(&["//", r#"/\*"#]));
}

#[test]
fn table_update_adds_new_filetypes() {
    let mut table = CommentTable::empty();
    let md = "md".to_string();
    assert!(table.pattern_for(&md).is_none());
    table.update_table(r#"{"md": ["<!--"], "txt": ["%"]}"#).unwrap();
    assert_eq!(table.pattern_for(&md).unwrap().as_str(), r#"(<!--+):=\s+(.*)"#);
    assert_eq!(table.symbols_for(&"txt".to_string()).unwrap(), &strings(&["%"]));
}

#[test]
fn inner_table_knows_the_listed_filetypes() {
    let table = CommentTable::new().unwrap();
    assert_eq!(table.symbols_for(&"go".to_string()).unwrap(), &strings(&["//", r#"/\*"#, "// "]));
    assert_eq!(table.symbols_for(&"py".to_string()).unwrap(), &strings(&[r#"\#"#]));
    assert_eq!(table.symbols_for(&"hs".to_string()).unwrap(), &strings(&["-- "]));
    assert!(table.symbols_for(&"c".to_string()).is_none());
}

#[test]
fn file_checker_honours_filetype_filter() {
    let table = CommentTable::new().unwrap();
    let rs = "rs".to_string();
    let py = "py".to_string();
    assert!(table.file_checker(&rs, &vec![]).is_some());
    assert!(table.file_checker(&rs, &strings(&["py"])).is_none());
    assert!(table.file_checker(&py, &strings(&["py"])).is_some());
    assert!(table.file_checker(&"c".to_string(), &strings(&["c"])).is_none());
}

#[test]
fn ignored_directories_are_not_walked() {
    assert!(keep_dir(&Some("target".to_string()), &vec![]));
    assert!(!keep_dir(&Some("target".to_string()), &strings(&["target"])));
    assert!(keep_dir(&Some("src".to_string()), &strings(&["target"])));
    assert!(!keep_dir(&None, &strings(&["target"])));
}

#[test]
fn output_format_names_any_case() {
    assert_eq!(output_format_of(&Some("JSON".to_string())), OutputFormat::Json);
    assert_eq!(output_format_of(&Some("List".to_string())), OutputFormat::List);
    assert_eq!(output_format_of(&Some("org".to_string())), OutputFormat::Tree);
    assert_eq!(output_format_of(&None), OutputFormat::Tree);
    assert_eq!(OutputFormat::default(), OutputFormat::Tree);
}

#[test]
fn config_merges_extra_json_and_keywords() {
    let mut arg = default_args();
    arg.keywords = Some(strings(&["TODO"]));
    arg.output_format = Some("json".to_string());
    let mut conf = Config::from_args(&arg, &Some(r#"{"md": ["<!--"]}"#.to_string())).unwrap();
    assert!(conf.table.pattern_for(&"md".to_string()).is_some());
    assert!(conf.table.pattern_for(&"rs".to_string()).is_some());
    assert_eq!(conf.output, OutputFormat::Json);
    assert_eq!(conf.keywords.as_ref().unwrap().as_str(), r#"(?i)(TODO):\s*(.*)"#);
    clean_keywords_table(&mut conf);
    assert!(conf.keywords.is_none());
    assert!(matches!(
        Config::from_args(&arg, &Some("[1]".to_string())),
        Err(ConfigError::InvalidJson)
    ));
}

#[test]
fn cover_overrides_and_merges() {
    let mut local = default_args();
    local.ignore_dirs = strings(&["target"]);
    local.keywords = Some(strings(&["TODO"]));
    local.show_ignore = true;
    let mut cli = default_args();
    cli.ignore_dirs = strings(&["vendor"]);
    cli.targets = vec![];
    cli.delete = true;
    cli.fmt_command = Some("cargo fmt".to_string());
    local.cover(cli);
    assert_eq!(local.ignore_dirs, strings(&["target", "vendor"]));
    assert_eq!(local.keywords, Some(strings(&["TODO"])));
    assert_eq!(local.targets, strings(&["."]));
    assert!(local.delete);
    assert!(!local.show_ignore);
    assert_eq!(local.fmt_command(), Some(&"cargo fmt".to_string()));
    assert_eq!(local.config_location(), ".".to_string());
}

#[test]
fn matcher_errors_come_from_their_causes() {
    assert!(matches!(keyword_matcher(&strings(&["("])), Err(ConfigError::InvalidPattern(_))));
    assert!(matches!(comment_matcher(&vec![]), Err(ConfigError::NoSymbols(_))));
    assert!(matches!(comment_matcher(&strings(&["("])), Err(ConfigError::InvalidPattern(_))));
    let mut arg = default_args();
    arg.keywords = Some(strings(&["("]));
    assert!(matches!(Config::from_args(&arg, &None), Err(ConfigError::InvalidPattern(_))));
    let arg = default_args();
    assert!(matches!(
        Config::from_args(&arg, &Some(r#"{"rs": []}"#.to_string())),
        Err(ConfigError::NoSymbols(_))
    ));
}
