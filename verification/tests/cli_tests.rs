use galactic_trader::cli::{csv_quote, get_all_args, get_arg, split_list};

fn args(v: &[&str]) -> Vec<String> {
    v.iter().map(|s| s.to_string()).collect()
}

#[test]
fn get_arg_takes_the_last_occurrence() {
    let a = args(&["bt", "--date", "2024-06-03", "--ticker", "SPY", "--date", "2024-06-04"]);
    assert_eq!(get_arg(&a, "--date"), Some("2024-06-04".to_string()));
    assert_eq!(get_arg(&a, "--ticker"), Some("SPY".to_string()));
    assert_eq!(get_arg(&a, "--missing"), None);
}

#[test]
fn get_arg_flag_at_the_end_has_no_value() {
    let a = args(&["bt", "--date", "2024-06-03", "--date"]);
    assert_eq!(get_arg(&a, "--date"), None);
}

#[test]
fn get_all_args_collects_every_value() {
    let a = args(&["bt", "--add", "a", "--x", "--add", "b", "--add"]);
    assert_eq!(get_all_args(&a, "--add"), vec!["a".to_string(), "b".to_string()]);
    let a = args(&["--add", "--add", "c"]);
    assert_eq!(get_all_args(&a, "--add"), vec!["--add".to_string(), "c".to_string()]);
    assert!(get_all_args(&args(&[]), "--add").is_empty());
}

#[test]
fn csv_quote_fields() {
    assert_eq!(csv_quote("plain"), "plain");
    assert_eq!(csv_quote("a,b"), "\"a,b\"");
    assert_eq!(csv_quote("say \"hi\""), "\"say \"\"hi\"\"\"");
    assert_eq!(csv_quote("two\nlines"), "\"two\nlines\"");
    assert_eq!(csv_quote(""), "");
}

#[test]
fn ticker_lists_are_trimmed_and_skip_empties() {
    assert_eq!(split_list("SPY,QQQ"), vec!["SPY".to_string(), "QQQ".to_string()]);
    assert_eq!(split_list(" SPY , ,QQQ,"), vec!["SPY".to_string(), "QQQ".to_string()]);
    assert!(split_list("").is_empty());
    assert!(split_list(" , ").is_empty());
}
