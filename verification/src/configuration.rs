//! Application settings and where they are read from.
use vstd::prelude::*;
use crate::text::push_str;

verus! {

/// Where the database file lives.
pub struct DatabaseSettings {
    pub local_file_path: String,
}

/// The application's settings.
pub struct Settings {
    pub database: DatabaseSettings,
    pub application_port: u16,
}

/// The settings file to read: the one named, or `configuration.yaml`.
pub fn configuration_file_name(config_file_name: Option<&str>) -> (res: &str)
    ensures
        res@ == match config_file_name {
            Some(name) => name@,
            None => "configuration.yaml"@,
        },
{
    match config_file_name {
        Some(name) => name,
        None => "configuration.yaml",
    }
}

/// The address the server listens on: all interfaces, on the port given
/// (`APPLICATION_PORT`), 8000 when none is.
pub fn listen_address(application_port: Option<String>) -> (res: String)
    ensures
        res@ == "0.0.0.0:"@ + match application_port {
            Some(port) => port@,
            None => "8000"@,
        },
{
    let mut s = String::new();
    push_str(&mut s, "0.0.0.0:");
    match application_port {
        Some(port) => push_str(&mut s, port.as_str()),
        None => push_str(&mut s, "8000"),
    }
    s
}

} // verus!
