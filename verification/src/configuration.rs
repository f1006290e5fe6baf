//! The server's settings, their defaults, and the salvage of settings from a
//! file that does not read as a whole.

use vstd::prelude::*;
use vstd::string::*;
use crate::text::{decimal, decimal_string};

verus! {

/// `toml::Value`, a parsed TOML document or a part of one. Nothing of its
/// inside is visible here.
#[verifier::external_type_specification]
#[verifier::external_body]
pub struct ExTomlValue(toml::Value);

/// `toml::de::Error`, the reason why a text is not TOML.
#[verifier::external_type_specification]
#[verifier::external_body]
pub struct ExTomlError(toml::de::Error);

/// One value of a document, as far as the settings look at it.
#[derive(Debug, Clone, PartialEq, Eq)]
pub enum Field {
    /// A string.
    Text(String),
    /// An integer.
    Integer(i64),
    /// A boolean.
    Boolean(bool),
    /// A value of any other kind.
    Other,
}

/// The mathematical form of a [`Field`].
pub enum FieldView {
    Text(Seq<char>),
    Integer(i64),
    Boolean(bool),
    Other,
}

impl View for Field {
    type V = FieldView;

    open spec fn view(&self) -> FieldView {
        match *self {
            Field::Text(s) => FieldView::Text(s@),
            Field::Integer(i) => FieldView::Integer(i),
            Field::Boolean(b) => FieldView::Boolean(b),
            Field::Other => FieldView::Other,
        }
    }
}

/// What a document holds at its top level: for each key its value. A
/// document that is no table holds nothing.
pub uninterp spec fn top_level(document: toml::Value) -> Map<Seq<char>, FieldView>;

/// What a text holds at its top level when it is read as TOML; `None` for a
/// text that is not TOML.
pub uninterp spec fn document_fields(content: Seq<char>) -> Option<Map<Seq<char>, FieldView>>;

/// Calls `toml::from_str` for a `toml::Value`: the parsed document, or the
/// reason why the text is not TOML. The outcome is a function of the text
/// alone; the contract gives it the name [`document_fields`] and claims
/// nothing else.
#[verifier::external_body]
fn parse_document(content: &str) -> (r: Result<toml::Value, toml::de::Error>)
    ensures
        match r {
            Ok(document) => document_fields(content@) == Some(top_level(document)),
            Err(_) => document_fields(content@) is None,
        },
{
    toml::from_str::<toml::Value>(content)
}

/// Calls `toml::Value::get` with a string index, and tells the kinds of
/// value apart: the value held under `key` at the top level, or `None`
/// where the document holds none there.
#[verifier::external_body]
fn field_at(document: &toml::Value, key: &str) -> (r: Option<Field>)
    ensures
        match r {
            Some(field) => top_level(*document).contains_key(key@) && top_level(*document)[key@]
                == field@,
            None => !top_level(*document).contains_key(key@),
        },
{
    match document.get(key) {
        Some(toml::Value::String(s)) => Some(Field::Text(s.clone())),
        Some(toml::Value::Integer(i)) => Some(Field::Integer(*i)),
        Some(toml::Value::Boolean(b)) => Some(Field::Boolean(*b)),
        Some(_) => Some(Field::Other),
        None => None,
    }
}

/// Why the settings could not be read.
#[derive(Debug)]
pub enum ConfigError {
    /// The text is not TOML.
    TomlParse(toml::de::Error),
}

/// The server's settings.
#[derive(Debug, Clone, PartialEq, Eq)]
pub struct SodiumConfig {
    /// The address to listen on.
    pub bind_ip: String,
    /// The port to listen on.
    pub bind_port: u16,
    /// Whether a cluster manifest is written at start.
    pub cluster_enabled: bool,
    /// A timeout in seconds.
    pub whisper_timeout: u32,
}

/// The mathematical form of the settings.
pub struct ConfigView {
    pub bind_ip: Seq<char>,
    pub bind_port: u16,
    pub cluster_enabled: bool,
    pub whisper_timeout: u32,
}

impl View for SodiumConfig {
    type V = ConfigView;

    open spec fn view(&self) -> ConfigView {
        ConfigView {
            bind_ip: self.bind_ip@,
            bind_port: self.bind_port,
            cluster_enabled: self.cluster_enabled,
            whisper_timeout: self.whisper_timeout,
        }
    }
}

/// The settings of a server that was given none.
pub open spec fn default_config() -> ConfigView {
    ConfigView {
        bind_ip: "0.0.0.0"@,
        bind_port: 1123,
        cluster_enabled: false,
        whisper_timeout: 1,
    }
}

/// The settings salvaged from the top level of a document: each recognized
/// key that holds a value of the right kind gives its setting, and every
/// other setting keeps its default. An integer that does not fit keeps its
/// low bits.
pub open spec fn salvaged_config(fields: Map<Seq<char>, FieldView>) -> ConfigView {
    ConfigView {
        bind_ip: if fields.contains_key("bind-ip"@) && fields["bind-ip"@] is Text {
            fields["bind-ip"@]->Text_0
        } else {
            default_config().bind_ip
        },
        bind_port: if fields.contains_key("bind-port"@) && fields["bind-port"@] is Integer {
            fields["bind-port"@]->Integer_0 as u16
        } else {
            default_config().bind_port
        },
        cluster_enabled: if fields.contains_key("cluster_enabled"@)
            && fields["cluster_enabled"@] is Boolean {
            fields["cluster_enabled"@]->Boolean_0
        } else {
            default_config().cluster_enabled
        },
        whisper_timeout: if fields.contains_key("whisper_timeout"@)
            && fields["whisper_timeout"@] is Integer {
            fields["whisper_timeout"@]->Integer_0 as u32
        } else {
            default_config().whisper_timeout
        },
    }
}

impl Default for SodiumConfig {
    fn default() -> (c: SodiumConfig)
        ensures
            c@ == default_config(),
    {
        SodiumConfig {
            bind_ip: "0.0.0.0".to_owned(),
            bind_port: 1123,
            cluster_enabled: false,
            whisper_timeout: 1,
        }
    }
}

impl SodiumConfig {
    /// The address to listen on, as `ip:port`.
    pub fn bind_address(&self) -> (address: String)
        ensures
            address@ == self@.bind_ip + ":"@ + decimal(self@.bind_port as nat),
    {
        let mut address = self.bind_ip.clone();
        address.append(":");
        address.append(decimal_string(self.bind_port as usize).as_str());
        address
    }

    /// Repairs settings that were read. No setting needs repair: the settings
    /// come back as they are.
    pub fn heal_config(config: SodiumConfig) -> (healed: SodiumConfig)
        ensures
            healed == config,
    {
        config
    }

    /// Salvages the settings from a parsed document.
    pub fn from_document(document: &toml::Value) -> (c: SodiumConfig)
        ensures
            c@ == salvaged_config(top_level(*document)),
    {
        let mut config = SodiumConfig::default();
        if let Some(Field::Text(ip)) = field_at(document, "bind-ip") {
            config.bind_ip = ip;
        }
        if let Some(Field::Integer(port)) = field_at(document, "bind-port") {
            config.bind_port = #[verifier::truncate]
            (port as u16);
        }
        if let Some(Field::Boolean(enabled)) = field_at(document, "cluster_enabled") {
            config.cluster_enabled = enabled;
        }
        if let Some(Field::Integer(timeout)) = field_at(document, "whisper_timeout") {
            config.whisper_timeout = #[verifier::truncate]
            (timeout as u32);
        }
        config
    }

    /// Salvages the settings from a text that does not read as settings as
    /// a whole. A text that is TOML gives settings; any other text is
    /// refused.
    pub fn parse_partial_config(content: &str) -> (r: Result<SodiumConfig, ConfigError>)
        ensures
            match document_fields(content@) {
                Some(fields) => r matches Ok(c) && c@ == salvaged_config(fields),
                None => r matches Err(e) && e is TomlParse,
            },
    {
        match parse_document(content) {
            Ok(document) => Ok(SodiumConfig::from_document(&document)),
            Err(e) => Err(ConfigError::TomlParse(e)),
        }
    }
}

} // verus!
