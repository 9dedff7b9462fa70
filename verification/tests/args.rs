use cutergames::parse::{parse, parse_usize, ParseError, PlayerSettings, TournamentSettings};

fn strings(words: &[&str]) -> Vec<String> {
    words.iter().map(|w| w.to_string()).collect()
}

#[test]
fn parse_success() {
    assert_eq!(
        parse(&strings(&[
            "--player",
            "name=Some name 1",
            "path=test1",
            "parameters=Some thing long here",
            "proto=test",
            "--player",
            "name=Some name 2",
            "path=test2",
            "parameters=--one --two two",
            "proto=test",
            "--games",
            "123",
            "--threads",
            "4",
            "--verbose",
        ])),
        Ok(TournamentSettings {
            players: vec![
                PlayerSettings {
                    name: "Some name 1".to_string(),
                    path: "test1".to_string(),
                    proto: "test".to_string(),
                    parameters: "Some thing long here".to_string(),
                    debug: false,
                },
                PlayerSettings {
                    name: "Some name 2".to_string(),
                    path: "test2".to_string(),
                    proto: "test".to_string(),
                    parameters: "--one --two two".to_string(),
                    debug: false,
                }
            ],
            fens: vec![],
            fens_path: None,
            num_threads: 4,
            num_games: Some(123),
            update_frequency: 10,
            sprt_trinomial: None,
            sprt_pentanomial: None,
            verbose: true,
        })
    );
}

#[test]
fn parse_failure() {
    assert!(parse(&strings(&[
        "--player",
        "name=Some name 1",
        "--player",
        "name=Some name 2",
        "path=test2",
        "--games",
        "123",
        "--threads",
        "4",
        "--verbose",
    ]))
    .is_err());
}

#[test]
fn parse_trinomial_block() {
    let got = parse(&strings(&[
        "--player",
        "path=a",
        "--player",
        "path=b",
        "--trinomial",
        "autostop",
        "alpha=0.05",
        "beta=0.05",
        "elo0=0",
        "elo1=10",
        "--updates",
        "2",
    ]))
    .unwrap();
    let tri = got.sprt_trinomial.unwrap();
    assert!(tri.autostop);
    assert_eq!(tri.alpha, "0.05");
    assert_eq!(tri.beta, "0.05");
    assert_eq!(tri.elo0, "0");
    assert_eq!(tri.elo1, "10");
    assert_eq!(got.update_frequency, 2);
    assert_eq!(got.players.len(), 2);
}

#[test]
fn parse_fens_and_errors() {
    let got = parse(&strings(&["--fens", "openings.txt"])).unwrap();
    assert_eq!(got.fens_path, Some("openings.txt".to_string()));
    assert!(got.fens.is_empty());

    assert_eq!(
        parse(&strings(&["--games", "12x"])),
        Err(ParseError::ValueParse("12x".to_string()))
    );
    assert_eq!(
        parse(&strings(&["--player", "path=", "x"])),
        Err(ParseError::MissingParameter)
    );
    assert_eq!(
        parse(&strings(&["--player", "nonsense=1"])),
        Err(ParseError::UnknownParameter)
    );
}

#[test]
fn parse_usize_shapes() {
    assert_eq!(parse_usize("123"), Some(123));
    assert_eq!(parse_usize("+5"), Some(5));
    assert_eq!(parse_usize("0"), Some(0));
    assert_eq!(parse_usize(""), None);
    assert_eq!(parse_usize("+"), None);
    assert_eq!(parse_usize("1.5"), None);
    assert_eq!(parse_usize("-3"), None);
    assert_eq!(parse_usize("18446744073709551615"), Some(usize::MAX));
    assert_eq!(parse_usize("18446744073709551616"), None);
    assert_eq!(parse_usize("99999999999999999999999"), None);
}
