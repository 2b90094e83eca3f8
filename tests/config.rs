use battlemon::config::{decimal_string, BackendConfig, Environment};

#[test]
fn graphql_url_is_built_from_host_and_port() {
    let cfg = BackendConfig { host: "localhost".to_string(), port: 8000 };
    assert_eq!(cfg.graphql_url(), "http://localhost:8000/graphql");
    let cfg = BackendConfig { host: "10.0.0.1".to_string(), port: 0 };
    assert_eq!(cfg.graphql_url(), "http://10.0.0.1:0/graphql");
}

#[test]
fn port_digits() {
    assert_eq!(decimal_string(0), "0");
    assert_eq!(decimal_string(7), "7");
    assert_eq!(decimal_string(10), "10");
    assert_eq!(decimal_string(65535), "65535");
}

#[test]
fn environment_names() {
    assert_eq!(Environment::Local.as_str(), "local");
    assert_eq!(Environment::Production.as_str(), "production");
    assert_eq!(Environment::from_str("local"), Ok(Environment::Local));
    assert_eq!(Environment::from_str("production"), Ok(Environment::Production));
    assert_eq!(Environment::from_str("staging"), Err("staging".to_string()));
}
