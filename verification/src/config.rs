//! The node's configuration record and the parsing of its numeric and
//! boolean values.  Reading the environment stays with the embedding
//! process, which hands the raw strings here.

use vstd::prelude::*;

use crate::errors::ConfigError;
use crate::text::{eq_ignore_ascii_case, parse_u16, spec_parse_u16, spec_to_lower};

verus! {

#[derive(Debug, Clone)]
pub struct DatabaseConfig {
    pub host: String,
    pub port: u16,
    pub user: String,
    pub password: String,
    pub database: String,
}

#[derive(Debug, Clone)]
pub struct NetworkConfig {
    pub docker_mode: bool,
    pub docker_interface_name: String,
}

#[derive(Debug, Clone)]
pub struct LoggerConfig {
    pub normal_logger_file: String,
    pub idps_logger_file: String,
    pub idps_log_mode: String,
    pub normal_path_style: String,
    pub idps_path_style: String,
}

#[derive(Debug, Clone)]
pub struct AppConfig {
    pub node_id: i16,
    pub database: DatabaseConfig,
    pub network: NetworkConfig,
    pub logger_config: LoggerConfig,
}

/// Parses the node id: a decimal unsigned value that must also fit the
/// signed 16-bit column it is stored in.
pub fn parse_node_id(s: &str) -> (r: Result<i16, ConfigError>)
    ensures
        (spec_parse_u16(s@) matches Some(v) && v <= 32767) ==> r == Ok::<i16, ConfigError>(
            ((spec_parse_u16(s@)->Some_0) as i16),
        ),
        (spec_parse_u16(s@) matches Some(v) && v > 32767) ==> (r matches Err(e)
            && e is EnvVarParseError),
        spec_parse_u16(s@) is None ==> (r matches Err(e) && e is EnvVarParseError),
{
    match parse_u16(s) {
        Some(v) => if v <= 32767 {
            Ok(v as i16)
        } else {
            Err(ConfigError::EnvVarParseError(String::new()))
        },
        None => Err(ConfigError::EnvVarParseError(String::new())),
    }
}

/// Parses the Docker-mode flag: true exactly for "true", case-folded.
pub fn parse_docker_mode(s: &str) -> (r: bool)
    ensures
        r == (spec_to_lower(s@) == "true"@),
{
    proof {
        reveal_strlit("true");
        assert(spec_to_lower("true"@) =~= "true"@);
    }
    eq_ignore_ascii_case(s, "true")
}

} // verus!
