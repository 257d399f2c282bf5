//! Days, file names, paths, configuration lines, error messages, and the
//! clock.

use diary::config::Config;
use diary::day::{today, Day};
use diary::error::Error;
use diary::file::Filesystem;

fn sample_config() -> Config {
    Config::new(
        "sesame".to_string(),
        "0.0.0.0".to_string(),
        "4123".to_string(),
        "localhost".to_string(),
        "postgres".to_string(),
        "example".to_string(),
        "5433".to_string(),
        "./diary".to_string(),
    )
}

#[test]
fn day_new_accepts_well_formed_days() {
    let d = Day::new(2026, 10, 11).unwrap();
    assert_eq!(d.year, 2026);
    assert_eq!(d.month, 10);
    assert_eq!(d.day, 11);
    assert!(Day::new(0, 1, 1).is_some());
    assert!(Day::new(9999, 12, 31).is_some());
}

#[test]
fn day_new_rejects_out_of_range_parts() {
    assert!(Day::new(10000, 1, 1).is_none());
    assert!(Day::new(2026, 0, 1).is_none());
    assert!(Day::new(2026, 13, 1).is_none());
    assert!(Day::new(2026, 1, 0).is_none());
    assert!(Day::new(2026, 1, 32).is_none());
}

#[test]
fn file_name_is_the_date_with_txt_suffix() {
    let d = Day::new(2026, 10, 11).unwrap();
    assert_eq!(d.file_name(), "2026-10-11.txt");
}

#[test]
fn file_name_pads_short_parts_with_zeroes() {
    let d = Day::new(980, 3, 7).unwrap();
    assert_eq!(d.file_name(), "0980-03-07.txt");
    let d = Day::new(0, 1, 1).unwrap();
    assert_eq!(d.file_name(), "0000-01-01.txt");
}

#[test]
fn entry_path_joins_root_and_file_name() {
    let fs = Filesystem::from_root("/data/diary".to_string());
    let d = Day::new(2026, 10, 11).unwrap();
    assert_eq!(fs.entry_path(&d), "/data/diary/2026-10-11.txt");
}

#[test]
fn resolve_root_keeps_a_configured_path() {
    let mut config = sample_config();
    config.file_path = "/var/lib/diary".to_string();
    assert_eq!(Filesystem::resolve_root(&config, "/home/user"), "/var/lib/diary");
}

#[test]
fn resolve_root_defaults_to_diary_under_the_working_directory() {
    let config = sample_config();
    assert_eq!(Filesystem::resolve_root(&config, "/home/user"), "/home/user/diary");
}

#[test]
fn connection_string_lists_the_database_parameters() {
    let config = sample_config();
    assert_eq!(
        config.connection_string(),
        "host=localhost user=postgres password=example port=5433"
    );
}

#[test]
fn bind_address_joins_host_and_port() {
    let config = sample_config();
    assert_eq!(config.bind_address(), "0.0.0.0:4123");
}

#[test]
fn file_path_line_names_the_storage_directory() {
    let config = sample_config();
    assert_eq!(config.file_path(), "file_path=./diary");
}

#[test]
fn error_messages_name_what_failed() {
    assert_eq!(
        Error::LoggerInit.message(),
        "could not initialize logger"
    );
    assert_eq!(
        Error::Init("could not create directory").message(),
        "could not initialize storage: could not create directory"
    );
    assert_eq!(
        Error::TcpConnection.message(),
        "could not accept TCP connection"
    );
    assert_eq!(
        Error::Upgrade.message(),
        "could not upgrade TCP connection to websocket"
    );
    assert_eq!(
        Error::ReadMessage.message(),
        "could not read message from connection"
    );
    assert_eq!(
        Error::Storing("could not write to file").message(),
        "could not store content: could not write to file"
    );
}

#[test]
fn the_clock_yields_a_well_formed_day() {
    let d = today().expect("the clock should stand in the four-digit year range");
    assert!(d.year >= 2020 && d.year <= 9999);
    assert!(d.month >= 1 && d.month <= 12);
    assert!(d.day >= 1 && d.day <= 31);
}
