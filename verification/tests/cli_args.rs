use pattern_guard::cli::{parse_args, parse_u32};

fn args(s: &[&str]) -> Vec<String> {
    s.iter().map(|x| (*x).to_string()).collect()
}

#[test]
fn parse_positional_command_without_double_dash() {
    let a = args(&["pg", "--config", "f.toml", "true"]);
    let (c, r, rest) = parse_args(&a).unwrap();
    assert_eq!(c, Some("f.toml".to_string()));
    assert_eq!(r, None);
    assert_eq!(rest, vec!["true"]);
}

#[test]
fn parse_double_dash_still_works() {
    let a = args(&["pg", "--config", "f.toml", "--", "sh", "-c", "true"]);
    let (_, _, rest) = parse_args(&a).unwrap();
    assert_eq!(rest, vec!["sh", "-c", "true"]);
}

#[test]
fn parse_unknown_flag_errors() {
    let a = args(&["pg", "--config", "f.toml", "--weird", "x"]);
    assert!(parse_args(&a).is_err());
}

#[test]
fn parse_unknown_flag_message() {
    let a = args(&["pg", "--weird", "x"]);
    assert_eq!(
        parse_args(&a).unwrap_err(),
        "unknown flag: --weird (expected --config, --repeat, or --)"
    );
}

#[test]
fn parse_repeat_value() {
    let a = args(&["pg", "--repeat", "5", "--config", "g.toml", "echo", "hi"]);
    let (c, r, rest) = parse_args(&a).unwrap();
    assert_eq!(c, Some("g.toml".to_string()));
    assert_eq!(r, Some(5));
    assert_eq!(rest, vec!["echo", "hi"]);
}

#[test]
fn parse_repeat_accepts_plus_sign_and_max() {
    let a = args(&["pg", "--repeat", "+7", "x"]);
    assert_eq!(parse_args(&a).unwrap().1, Some(7));
    let a = args(&["pg", "--repeat", "4294967295", "x"]);
    assert_eq!(parse_args(&a).unwrap().1, Some(u32::MAX));
}

#[test]
fn parse_repeat_rejects_bad_values() {
    for bad in ["abc", "", "-1", "4294967296", " 3", "+", "1_0"] {
        let a = args(&["pg", "--repeat", bad, "x"]);
        assert_eq!(
            parse_args(&a).unwrap_err(),
            format!("invalid --repeat value: {}", bad)
        );
    }
}

#[test]
fn parse_missing_values_error() {
    assert_eq!(
        parse_args(&args(&["pg", "--config"])).unwrap_err(),
        "--config requires a path"
    );
    assert_eq!(
        parse_args(&args(&["pg", "--repeat"])).unwrap_err(),
        "--repeat requires a number"
    );
}

#[test]
fn parse_no_arguments_gives_empty_command() {
    let (c, r, rest) = parse_args(&args(&["pg"])).unwrap();
    assert_eq!(c, None);
    assert_eq!(r, None);
    assert!(rest.is_empty());
    let (_, _, rest) = parse_args(&args(&["pg", "--"])).unwrap();
    assert!(rest.is_empty());
}

#[test]
fn parse_flags_after_command_belong_to_command() {
    let a = args(&["pg", "ls", "--config", "x"]);
    let (c, _, rest) = parse_args(&a).unwrap();
    assert_eq!(c, None);
    assert_eq!(rest, vec!["ls", "--config", "x"]);
    let a = args(&["pg", "-", "--weird"]);
    assert_eq!(parse_args(&a).unwrap().2, vec!["-", "--weird"]);
}

#[test]
fn parse_last_config_wins() {
    let a = args(&["pg", "--config", "a", "--config", "b", "run"]);
    assert_eq!(parse_args(&a).unwrap().0, Some("b".to_string()));
}

#[test]
fn parse_u32_reads_decimal_numerals() {
    assert_eq!(parse_u32("0"), Some(0));
    assert_eq!(parse_u32("0042"), Some(42));
    assert_eq!(parse_u32("+42"), Some(42));
    assert_eq!(parse_u32("4294967295"), Some(u32::MAX));
    for bad in ["", "+", "-0", "++1", "4294967296", "99999999999999999999", "12a", "\u{663}"] {
        assert_eq!(parse_u32(bad), None, "{:?}", bad);
        assert_eq!(parse_u32(bad), bad.parse::<u32>().ok());
    }
}
