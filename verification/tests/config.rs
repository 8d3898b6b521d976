use glib::config::ServerConfig;

#[test]
fn server_config_constructs_properly() {
    let config = ServerConfig {
        address: String::from("10.1.1.1"),
        port: 1111,
    };
    assert_eq!(config.address, "10.1.1.1");
    assert_eq!(config.port, 1111);
}

#[test]
fn server_config_to_string_trait_is_implemented_right() {
    let config = ServerConfig {
        address: String::from("127.0.0.1"),
        port: 1234,
    };
    assert_eq!("127.0.0.1:1234", config.to_string());
}

#[test]
fn server_config_new_keeps_its_arguments() {
    let config = ServerConfig::new(String::from("localhost"), 80);
    assert_eq!(config.address, "localhost");
    assert_eq!(config.port, 80);
}

#[test]
fn ports_are_written_in_decimal_without_leading_zeros() {
    assert_eq!("h:0", ServerConfig::new(String::from("h"), 0).to_string());
    assert_eq!("h:7", ServerConfig::new(String::from("h"), 7).to_string());
    assert_eq!("h:10", ServerConfig::new(String::from("h"), 10).to_string());
    assert_eq!("h:6543", ServerConfig::new(String::from("h"), 6543).to_string());
    assert_eq!("h:65535", ServerConfig::new(String::from("h"), 65535).to_string());
    assert_eq!(":443", ServerConfig::new(String::new(), 443).to_string());
}
