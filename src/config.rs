use vstd::prelude::*;

use crate::link::{
    join_url, parse_url, secure_ws_scheme, streaming_path, url_join_of, url_parse_of,
    url_scheme_set_of, with_scheme,
};
use crate::mapping::{mappings_spec, mappings_view, parse_mappings, AntennaMapping, MappingError};
use url::ParseError;

verus! {

/// Why the settings do not make a configuration.
#[derive(Debug)]
pub enum ConfigError {
    /// No access token was given.
    MissingToken,
    /// No service URL was given.
    MissingServiceUrl,
    /// No antenna mapping was given.
    MissingMappings,
    /// The service URL is no URL.
    InvalidServiceUrl(ParseError),
    /// The streaming path cannot be joined to the service URL.
    StreamingUrl(ParseError),
    /// The streaming URL cannot take the secure WebSocket scheme.
    SecureScheme,
    /// A pair of the mapping is malformed.
    Mapping(MappingError),
}

/// Everything the relay needs, read once at startup.
#[derive(Debug)]
pub struct Config {
    pub token: String,
    /// The service URL, as the URL parser writes it.
    pub service_url: String,
    /// Where the streaming connection goes.
    pub streaming_url: String,
    pub mappings: Vec<AntennaMapping>,
}

/// The streaming URL derived from a service URL, if there is one.
pub open spec fn streaming_url_of(service_url: Seq<char>) -> Option<Seq<char>> {
    match url_join_of(service_url, streaming_path()) {
        Some(j) => url_scheme_set_of(j, secure_ws_scheme()),
        None => None,
    }
}

impl Config {
    /// Builds the configuration from the three settings as they were found (`None` where a
    /// setting is absent). Every setting is checked here, so that a missing or malformed
    /// one stops the program before any connection is opened.
    pub fn from_settings(
        token: Option<String>,
        service_url: Option<String>,
        mappings: Option<String>,
    ) -> (r: Result<Config, ConfigError>)
        ensures
            token is None ==> r matches Err(ConfigError::MissingToken),
            token is Some && service_url is None ==> r matches Err(ConfigError::MissingServiceUrl),
            token is Some && service_url is Some && mappings is None ==> r matches Err(
                ConfigError::MissingMappings,
            ),
            token is Some && service_url is Some && mappings is Some ==> {
                let u = service_url->Some_0@;
                match url_parse_of(u) {
                    None => r matches Err(ConfigError::InvalidServiceUrl(_)),
                    Some(base) => match url_join_of(base, streaming_path()) {
                        None => r matches Err(ConfigError::StreamingUrl(_)),
                        Some(_) => match streaming_url_of(base) {
                            None => r matches Err(ConfigError::SecureScheme),
                            Some(stream) => match mappings_spec(mappings->Some_0@) {
                                Err(e) => r matches Err(ConfigError::Mapping(m)) && m.view() == e,
                                Ok(ps) => r matches Ok(c) && c.token@ == token->Some_0@
                                    && c.service_url@ == base && c.streaming_url@ == stream
                                    && mappings_view(c.mappings@) == ps,
                            },
                        },
                    },
                }
            },
    {
        let token = match token {
            Some(t) => t,
            None => return Err(ConfigError::MissingToken),
        };
        let service_url = match service_url {
            Some(u) => u,
            None => return Err(ConfigError::MissingServiceUrl),
        };
        let mappings = match mappings {
            Some(m) => m,
            None => return Err(ConfigError::MissingMappings),
        };
        let base = match parse_url(service_url.as_str()) {
            Ok(b) => b,
            Err(e) => return Err(ConfigError::InvalidServiceUrl(e)),
        };
        proof {
            reveal_strlit("/streaming");
            reveal_strlit("wss");
            assert("/streaming"@ =~= streaming_path());
            assert("wss"@ =~= secure_ws_scheme());
        }
        let joined = match join_url(base.as_str(), "/streaming") {
            Ok(j) => j,
            Err(e) => return Err(ConfigError::StreamingUrl(e)),
        };
        let streaming_url = match with_scheme(joined.as_str(), "wss") {
            Some(s) => s,
            None => return Err(ConfigError::SecureScheme),
        };
        let mappings = match parse_mappings(mappings.as_str()) {
            Ok(m) => m,
            Err(e) => return Err(ConfigError::Mapping(e)),
        };
        Ok(Config { token, service_url: base, streaming_url, mappings })
    }
}

} // verus!
