use vstd::prelude::*;

verus! {

/// The command-line switches the program takes; reading the real command
/// line happens outside.
pub struct Args {
    pub token_file: Option<String>,
    pub temp_token: bool,
    pub debug: bool,
}

/// Connection settings of the studio-software websocket.
pub struct ObsConfig {
    pub enable: bool,
    pub url: String,
    pub port: u16,
    pub password: Option<String>,
}

impl Default for ObsConfig {
    /// Off by default, pointed at the local machine's usual port.
    fn default() -> (r: Self)
        ensures
            !r.enable,
            r.url@ == "localhost"@,
            r.port == 4455,
            r.password is None,
    {
        ObsConfig {
            enable: false,
            url: "localhost".to_owned(),
            port: 4455,
            password: None,
        }
    }
}

} // verus!
