use zero2prod::configuration::ApplicationSettings;
use zero2prod::configuration::DatabaseSettings;
use zero2prod::configuration::Environment;
use zero2prod::configuration::Settings;
use zero2prod::configuration::SslMode;

fn database_settings(require_ssl: bool) -> DatabaseSettings {
    DatabaseSettings {
        database_name: "newsletter".to_string(),
        host: "127.0.0.1".to_string(),
        username: "postgres".to_string(),
        password: "SECRET-REDACTED".to_string(),
        port: 5432,
        require_ssl,
    }
}

#[test]
fn ssl_is_required_when_the_settings_demand_it() {
    assert_eq!(database_settings(true).ssl_mode(), SslMode::Require);
}

#[test]
fn ssl_is_preferred_otherwise() {
    assert_eq!(database_settings(false).ssl_mode(), SslMode::Prefer);
}

#[test]
fn environments_have_canonical_names() {
    assert_eq!(Environment::Local.as_str(), "local");
    assert_eq!(Environment::Production.as_str(), "production");
}

#[test]
fn environments_are_found_by_name() {
    assert_eq!(Environment::from_name("local"), Some(Environment::Local));
    assert_eq!(Environment::from_name("production"), Some(Environment::Production));
    assert_eq!(Environment::from_name("staging"), None);
}

#[test]
fn each_environment_names_its_configuration_file() {
    assert_eq!(Environment::Local.config_file_name(), "local.yml");
    assert_eq!(Environment::Production.config_file_name(), "production.yml");
}

#[test]
fn settings_hold_their_plain_values() {
    let settings = Settings {
        application: ApplicationSettings { port: 8000, host: "0.0.0.0".to_string() },
        database: database_settings(false),
    };
    assert_eq!(settings.application.port, 8000);
    assert_eq!(settings.database.database_name, "newsletter");
}
