use cutergames::players::{bestmove_of, get_protocol, response_bool, response_result, Protocol};

#[test]
fn mod_success() {
    assert_eq!(get_protocol("ugi"), Some(Protocol::UGI));
    assert_eq!(get_protocol("Ugi"), Some(Protocol::UGI));
    assert_eq!(get_protocol("UGI"), Some(Protocol::UGI));

    assert_eq!(get_protocol("uai"), Some(Protocol::UAI));
    assert_eq!(get_protocol("Uai"), Some(Protocol::UAI));
    assert_eq!(get_protocol("UAI"), Some(Protocol::UAI));

    assert_eq!(get_protocol("uci"), Some(Protocol::UCI));
    assert_eq!(get_protocol("Uci"), Some(Protocol::UCI));
    assert_eq!(get_protocol("UCI"), Some(Protocol::UCI));
}

#[test]
fn mod_failure() {
    assert_eq!(get_protocol(""), None);
    assert_eq!(get_protocol("ugii"), None);
    assert_eq!(get_protocol("test"), None);
}

#[test]
fn bestmove_lines() {
    assert_eq!(bestmove_of("bestmove a1a3\n"), Some("a1a3".to_string()));
    assert_eq!(bestmove_of("bestmove 0000\n"), Some("0000".to_string()));
    assert_eq!(bestmove_of("info depth 3\n"), None);
    assert_eq!(bestmove_of("bestmove\n"), None);
    assert_eq!(bestmove_of(""), None);
}

#[test]
fn response_lines() {
    assert_eq!(response_bool("response true\n"), Some(true));
    assert_eq!(response_bool("response false\n"), Some(false));
    assert_eq!(response_bool("response maybe\n"), None);

    assert_eq!(response_result("response p1win\n"), Some("p1win".to_string()));
    assert_eq!(response_result("response p2win\n"), Some("p2win".to_string()));
    assert_eq!(response_result("response draw\n"), Some("draw".to_string()));
    assert_eq!(response_result("response none\n"), Some("none".to_string()));
    assert_eq!(response_result("info string hi\n"), None);
}
