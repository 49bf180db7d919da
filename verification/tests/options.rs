use wait_for_them::options::{parse, Action, Options};
use wait_for_them::ToCheck;

fn args(words: &[&str]) -> Vec<String> {
    words.iter().map(|word| word.to_string()).collect()
}

#[test]
fn format() {
    assert!(parse(vec!["ok:33:888".into()]).is_err());
    assert!(parse(vec!["ok:aa:888".into()]).is_err());
    assert!(parse(vec!["www.example.com".into()]).is_err());
}

#[test]
fn domains() {
    assert!(parse(vec!["www.example.com:22".into()]).is_ok());
    assert!(parse(vec!["ok:888".into(), "err/or:22".into()]).is_err());
    assert!(parse(vec!["ok:888".into(), "err or:22".into()]).is_err());
    assert!(parse(vec!["ok:888".into(), "[error]:22".into()]).is_err());
}

#[test]
fn ports() {
    assert!(parse(vec!["last:65535".into()]).is_ok());
    assert!(parse(vec!["ok:888".into(), "error:-1".into()]).is_err());
    assert!(parse(vec!["ok:888".into(), "zero:0".into()]).is_err());
    assert!(parse(vec!["error:65536".into(), "ok:888".into()]).is_err());
}

#[test]
fn options_timeout() {
    assert!(parse(vec!["-t".into(), "1".into(), "ok:888".into()]).is_ok());
    assert!(parse(vec!["-t".into(), "ok:888".into()]).is_err());
    assert!(parse(vec!["-t".into(), "-1".into(), "ok:888".into()]).is_err());
    assert!(parse(vec![
        "-t".into(),
        "18446744073709551615".into(),
        "ok:888".into()
    ])
    .is_ok());
    assert!(parse(vec![
        "-t".into(),
        "18446744073709551616".into(),
        "ok:888".into()
    ])
    .is_err());
}

#[test]
fn options_silent() {
    let options = parse(vec!["www.example.com:888".into()]);
    assert!(!options.unwrap().silent);

    let options = parse(vec!["-s".into(), "www.example.com:888".into()]);
    assert!(options.unwrap().silent);
}

#[test]
fn version() {
    assert_eq!(
        parse(vec!["--version".into(), "www.example.com:888".into()]),
        Err(Action::Version)
    );
}

#[test]
fn help() {
    assert_eq!(
        parse(vec!["--help".into(), "www.example.com:888".into()]),
        Err(Action::Help)
    );
}

#[test]
fn uri() {
    assert!(parse(vec!["https://www.example.com".into()]).is_ok());
    assert!(parse(vec!["http://www.example.com".into()]).is_ok());
    assert!(parse(vec!["ftp://www.example.com".into()]).is_err());
    assert!(parse(vec!["https://www.example.com:11/long?x=1&y=2#frag".into()]).is_ok());
    assert!(parse(vec!["http://www.example.com:22/long?x=1&y=2#frag".into()]).is_ok());
}

#[test]
fn default_options_are_empty() {
    assert_eq!(
        Options::default(),
        Options { to_check: vec![], timeout: None, command: None, silent: false }
    );
}

#[test]
fn everything_at_once() {
    let options = parse(args(&[
        "--timeout",
        "2500",
        "localhost:80",
        "-s",
        "https://example.com/health",
        "--",
        "echo",
        "--silent",
        "-t",
    ]))
    .unwrap();
    assert_eq!(
        options,
        Options {
            to_check: vec![
                ToCheck::HostnameAndPort("localhost".to_string(), 80),
                ToCheck::HttpOrHttpsUrl("https://example.com/health".to_string()),
            ],
            timeout: Some(2500),
            command: Some(args(&["echo", "--silent", "-t"])),
            silent: true,
        }
    );
}

#[test]
fn targets_keep_their_order() {
    let options = parse(args(&["c:3", "a:1", "b:2"])).unwrap();
    assert_eq!(
        options.to_check,
        vec![
            ToCheck::HostnameAndPort("c".to_string(), 3),
            ToCheck::HostnameAndPort("a".to_string(), 1),
            ToCheck::HostnameAndPort("b".to_string(), 2),
        ]
    );
}

#[test]
fn short_options() {
    assert_eq!(parse(args(&["-v"])), Err(Action::Version));
    assert_eq!(parse(args(&["-h"])), Err(Action::Help));
    assert_eq!(parse(args(&["-t", "7", "a:1"])).unwrap().timeout, Some(7));
    assert_eq!(parse(args(&["-t", "+7", "a:1"])).unwrap().timeout, Some(7));
}

#[test]
fn the_last_timeout_counts() {
    let options = parse(args(&["-t", "1", "a:1", "-t", "2"])).unwrap();
    assert_eq!(options.timeout, Some(2));
}

#[test]
fn no_target_fails() {
    let expected = Err(Action::Failed("You need to set at least one item to verify".to_string()));
    assert_eq!(parse(vec![]), expected);
    assert_eq!(parse(args(&["-s"])), expected);
    assert_eq!(parse(args(&["--", "localhost:80"])), expected);
    assert_eq!(parse(args(&["-t"])), expected);
}

#[test]
fn bad_timeout_fails() {
    let expected = Err(Action::Failed("Failed to parse timeout".to_string()));
    assert_eq!(parse(args(&["a:1", "-t", "soon"])), expected);
    assert_eq!(parse(args(&["a:1", "-t", ""])), expected);
    assert_eq!(parse(args(&["a:1", "-t", "1 "])), expected);
}

#[test]
fn the_first_fault_is_reported() {
    assert_eq!(
        parse(args(&["a:1", "b:0", "--help"])),
        Err(Action::Failed("dynamic port number (0) can't be used here".to_string()))
    );
    assert_eq!(parse(args(&["a:1", "--help", "b:0"])), Err(Action::Help));
    assert_eq!(parse(args(&["--version", "--help"])), Err(Action::Version));
}

#[test]
fn an_option_after_the_separator_is_a_word() {
    let options = parse(args(&["a:1", "--", "--help"])).unwrap();
    assert_eq!(options.command, Some(args(&["--help"])));
    let options = parse(args(&["a:1", "--"])).unwrap();
    assert_eq!(options.command, None);
    let options = parse(args(&["a:1", "--", "--", "x"])).unwrap();
    assert_eq!(options.command, Some(args(&["--", "x"])));
}

#[test]
fn a_bad_target_fails_with_its_message() {
    assert_eq!(
        parse(args(&["a:1", "nonsense"])),
        Err(Action::Failed("'nonsense' doesn't match <hostname>:<port> pattern".to_string()))
    );
    assert_eq!(
        parse(args(&["---"])),
        Err(Action::Failed("'---' doesn't match <hostname>:<port> pattern".to_string()))
    );
}
