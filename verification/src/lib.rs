//! NordVPN provider logic for an OpenVPN setup tool, and a user-interface client that works
//! without a person at the keyboard.
//!
//! - `ui`: the questions a provider may ask, and the `UiClient` trait that answers them.
//! - `non_interactive_ui_client`: a client that answers from defaults or fails.
//! - `config_type`: the sets of NordVPN configuration files a user can choose.
//! - `nordvpn`: the provider's DNS servers, download source, file selection and naming, and
//!   credentials.
//! - `archive`: reading the configuration archive.
//! - `server_name`: the grammar of NordVPN server names.
//! - `country_map`: country names by code.
//! - `text`: character-level text operations.

pub mod archive;
pub mod config_type;
pub mod country_map;
pub mod non_interactive_ui_client;
pub mod nordvpn;
pub mod server_name;
pub mod text;
pub mod ui;

pub use archive::{extract_configs, open_archive, ConfigFile, ExtractedConfigs};
pub use config_type::{ConfigType, OpenVpnProtocol};
pub use country_map::CountryMap;
pub use non_interactive_ui_client::NonInteractiveUiClient;
pub use nordvpn::{ConfigError, ConfigSource, EntryAction, NordVPN};
pub use ui::{
    BoolChoice, ConfigurationChoice, Input, InputNumericu16, Password, UiClient, UiError, Validator,
};
