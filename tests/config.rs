use catch::config::{ascii, from_settings, parse_port, Server};

#[test]
fn server_accessors() {
    let s = Server::new(("127.0.0.1".to_string(), 9000), "debug".to_string());
    assert_eq!(s.adress(), ("127.0.0.1".to_string(), 9000));
    assert_eq!(s.log_level(), "debug");
}

#[test]
fn settings_defaults() {
    let s = from_settings(None, None);
    assert_eq!(s.adress(), ("0.0.0.0".to_string(), 8111));
    assert_eq!(s.log_level(), "info");
    let s = from_settings(Some("not a port".to_string()), Some("warn".to_string()));
    assert_eq!(s.adress().1, 8111);
    assert_eq!(s.log_level(), "warn");
    let s = from_settings(Some("3000".to_string()), None);
    assert_eq!(s.adress().1, 3000);
}

#[test]
fn port_parsing_matches_std() {
    for text in ["0", "80", "+80", "0080", "65535", "65536", "", "+", "-1", "8 0", "99999999999", "1a"] {
        assert_eq!(parse_port(text), text.parse::<u16>().ok(), "{text}");
    }
}

#[test]
fn banner_holds_url() {
    let s = Server::new(("0.0.0.0".to_string(), 8111), "info".to_string());
    let b = ascii(&s);
    assert!(b.contains("Catch your http requests"));
    assert!(b.contains("__| |_________________| |__     http://0.0.0.0:8111\n"));
    let s = Server::new(("h".to_string(), 7), "info".to_string());
    assert!(ascii(&s).contains("http://h:7\n"));
}
