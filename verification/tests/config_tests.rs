use swimbot::config::{level_from_name, APIConfig, LogLevel};

#[test]
fn level_names() {
    assert_eq!(level_from_name("off"), LogLevel::Off);
    assert_eq!(level_from_name("error"), LogLevel::Error);
    assert_eq!(level_from_name("warn"), LogLevel::Warn);
    assert_eq!(level_from_name("info"), LogLevel::Info);
    assert_eq!(level_from_name("debug"), LogLevel::Debug);
    assert_eq!(level_from_name("trace"), LogLevel::Trace);
}

#[test]
fn level_names_ignore_case() {
    assert_eq!(level_from_name("OFF"), LogLevel::Off);
    assert_eq!(level_from_name("Warn"), LogLevel::Warn);
    assert_eq!(level_from_name("dEbUg"), LogLevel::Debug);
}

#[test]
fn unknown_level_falls_back_to_info() {
    assert_eq!(level_from_name(""), LogLevel::Info);
    assert_eq!(level_from_name("verbose"), LogLevel::Info);
    assert_eq!(level_from_name("warning"), LogLevel::Info);
}

#[test]
fn listen_address_text() {
    let api = APIConfig { address: "127.0.0.1".to_string(), port: 8080 };
    assert_eq!(api.address(), "127.0.0.1:8080");
}
