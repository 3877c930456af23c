//! Settings of the server and of the client.

use vstd::prelude::*;

use crate::text::{
    append, decimal, decimal_text, decimal_text_reads_back, parse_unsigned, parsed_unsigned,
    starts_with,
};

verus! {

/// The values of the environment variables that the server reads, where they are set.
pub struct ServerVars {
    /// `TARGET_DIR`
    pub target_dir: Option<String>,
    /// `BIND_ADDR`
    pub bind_addr: Option<String>,
    /// `HTTP_PORT`
    pub http_port: Option<String>,
    /// `HTTP_PATH`
    pub http_path: Option<String>,
    /// `NOTIFY_PORT`
    pub notify_port: Option<String>,
    /// `TRANSFER_PORT`
    pub transfer_port: Option<String>,
    /// `DEBOUNCE_MS`
    pub debounce_ms: Option<String>,
}

/// The settings of the server.
pub struct ServerConfig {
    /// The directory that is shared.
    pub target_dir: String,
    /// The address that the server listens on.
    pub bind_addr: String,
    /// The port of the listing.
    pub http_port: u16,
    /// The path of the listing.
    pub http_path: String,
    /// The port of the notices.
    pub notify_port: u16,
    /// The port of the transfers.
    pub transfer_port: u16,
    /// How long changes are collected before the tree is scanned, in milliseconds.
    pub debounce_ms: u64,
}

/// The variable that does not hold a number.
#[derive(Clone, Copy, PartialEq, Eq, Structural, Debug)]
pub enum ConfigError {
    HttpPort,
    NotifyPort,
    TransferPort,
    DebounceMs,
}

impl ConfigError {
    /// The text that reports the error.
    pub open spec fn text(self) -> Seq<char> {
        match self {
            ConfigError::HttpPort => "HTTP_PORT must be a number"@,
            ConfigError::NotifyPort => "NOTIFY_PORT must be a number"@,
            ConfigError::TransferPort => "TRANSFER_PORT must be a number"@,
            ConfigError::DebounceMs => "DEBOUNCE_MS must be a number"@,
        }
    }

    /// The text that reports the error.
    pub fn message(&self) -> (r: &'static str)
        ensures
            r@ == self.text(),
    {
        match self {
            ConfigError::HttpPort => "HTTP_PORT must be a number",
            ConfigError::NotifyPort => "NOTIFY_PORT must be a number",
            ConfigError::TransferPort => "TRANSFER_PORT must be a number",
            ConfigError::DebounceMs => "DEBOUNCE_MS must be a number",
        }
    }
}

/// The number that a variable sets: `default` where it is not set, nothing where it holds no number
/// up to `max`.
pub open spec fn number_set(var: Option<String>, default: nat, max: nat) -> Option<nat> {
    match var {
        Some(t) => parsed_unsigned(t@, max),
        None => Some(default),
    }
}

/// The text that a variable sets.
pub open spec fn text_set(var: Option<String>, default: Seq<char>) -> Seq<char> {
    match var {
        Some(t) => t@,
        None => default,
    }
}

fn number(var: &Option<String>, default: u64, max: u64) -> (r: Option<u64>)
    requires
        default <= max,
    ensures
        match number_set(*var, default as nat, max as nat) {
            Some(v) => r == Some(v as u64) && v <= max,
            None => r is None,
        },
{
    match var {
        Some(t) => parse_unsigned(t.as_str(), max),
        None => Some(default),
    }
}

fn text_or(var: &Option<String>, default: &str) -> (r: String)
    ensures
        r@ == text_set(*var, default@),
{
    match var {
        Some(t) => t.clone(),
        None => default.to_owned(),
    }
}

/// `path` with a slash before it, unless it begins with one.
pub open spec fn rooted(path: Seq<char>) -> Seq<char> {
    if path.len() > 0 && path[0] == '/' {
        path
    } else {
        "/"@ + path
    }
}

/// Puts a slash before a path, unless it begins with one.
pub fn rooted_path(path: &str) -> (r: String)
    ensures
        r@ == rooted(path@),
{
    proof {
        reveal_strlit("/");
        if path@.len() > 0 {
            let p = path@.subrange(0, 1);
            if path@[0] == '/' {
                assert(p =~= "/"@);
            } else {
                assert(p[0] != "/"@[0]);
            }
        }
    }
    if starts_with(path, "/") {
        path.to_owned()
    } else {
        append("/", path)
    }
}

impl ServerConfig {
    /// Reads the settings. The first variable that should hold a number and does not is reported.
    pub fn from_vars(vars: &ServerVars) -> (r: Result<ServerConfig, ConfigError>)
        ensures
            ({
                let http = number_set(vars.http_port, 44448, 65535);
                let notify = number_set(vars.notify_port, 44444, 65535);
                let transfer = number_set(vars.transfer_port, 44445, 65535);
                let debounce = number_set(vars.debounce_ms, 1000, u64::MAX as nat);
                match r {
                    Ok(c) => {
                        &&& c.target_dir@ == text_set(vars.target_dir, "."@)
                        &&& c.bind_addr@ == text_set(vars.bind_addr, "0.0.0.0"@)
                        &&& http == Some(c.http_port as nat)
                        &&& c.http_path@ == rooted(text_set(vars.http_path, "/files"@))
                        &&& notify == Some(c.notify_port as nat)
                        &&& transfer == Some(c.transfer_port as nat)
                        &&& debounce == Some(c.debounce_ms as nat)
                    },
                    Err(ConfigError::HttpPort) => http is None,
                    Err(ConfigError::NotifyPort) => http is Some && notify is None,
                    Err(ConfigError::TransferPort) => http is Some && notify is Some
                        && transfer is None,
                    Err(ConfigError::DebounceMs) => http is Some && notify is Some
                        && transfer is Some && debounce is None,
                }
            }),
    {
        let http_port: u16 = match number(&vars.http_port, 44448, 65535) {
            Some(v) => v as u16,
            None => {
                return Err(ConfigError::HttpPort);
            },
        };
        let notify_port: u16 = match number(&vars.notify_port, 44444, 65535) {
            Some(v) => v as u16,
            None => {
                return Err(ConfigError::NotifyPort);
            },
        };
        let transfer_port: u16 = match number(&vars.transfer_port, 44445, 65535) {
            Some(v) => v as u16,
            None => {
                return Err(ConfigError::TransferPort);
            },
        };
        let debounce_ms: u64 = match number(&vars.debounce_ms, 1000, u64::MAX) {
            Some(v) => v,
            None => {
                return Err(ConfigError::DebounceMs);
            },
        };
        let path = text_or(&vars.http_path, "/files");
        Ok(
            ServerConfig {
                target_dir: text_or(&vars.target_dir, "."),
                bind_addr: text_or(&vars.bind_addr, "0.0.0.0"),
                http_port,
                http_path: rooted_path(path.as_str()),
                notify_port,
                transfer_port,
                debounce_ms,
            },
        )
    }
}

/// The address of a port of a host.
pub open spec fn address_text(host: Seq<char>, port: nat) -> Seq<char> {
    host + ":"@ + decimal_text(port)
}

/// Writes the address of a port of a host.
pub fn address(host: &str, port: u16) -> (r: String)
    ensures
        r@ == address_text(host@, port as nat),
{
    let host = append(host, ":");
    let port = decimal(port as u64);
    append(host.as_str(), port.as_str())
}

/// The address at which a client listens for notices.
pub fn notify_address(host: &str) -> (r: String)
    ensures
        r@ == address_text(host@, 44444),
{
    address(host, 44444)
}

/// The address at which a client transfers files.
pub fn transfer_address(host: &str) -> (r: String)
    ensures
        r@ == address_text(host@, 44445),
{
    address(host, 44445)
}

/// Clients use the ports on which a server listens whose ports are not set.
pub proof fn clients_use_the_default_ports(host: Seq<char>, config: ServerConfig)
    requires
        number_set(None, 44444, 65535) == Some(config.notify_port as nat),
        number_set(None, 44445, 65535) == Some(config.transfer_port as nat),
    ensures
        address_text(host, config.notify_port as nat) == address_text(host, 44444),
        address_text(host, config.transfer_port as nat) == address_text(host, 44445),
{
}

/// The path of the listing begins with a slash, and putting one before it again changes nothing.
pub proof fn rooted_path_is_rooted(path: Seq<char>)
    ensures
        rooted(path).len() > 0,
        rooted(path)[0] == '/',
        rooted(rooted(path)) == rooted(path),
{
    reveal_strlit("/");
}

/// The settings of the client.
pub struct AppConfig {
    /// The directory that files are saved in.
    pub save_dir: String,
}

impl Default for AppConfig {
    fn default() -> (r: Self)
        ensures
            r.save_dir@ == ".\\Download"@,
    {
        AppConfig { save_dir: ".\\Download".to_owned() }
    }
}

/// What was found of the settings.
pub enum StoredConfig {
    /// There is no file.
    Missing,
    /// The file cannot be read, for this reason.
    Unreadable(String),
    /// The settings in the file, where it holds some.
    Read(Option<AppConfig>),
}

/// Why settings could not be stored.
pub enum StoreFailure {
    /// They could not be turned to JSON, for this reason.
    Json(String),
    /// The file could not be written, for this reason.
    Write(String),
}

impl AppConfig {
    /// The settings that were stored, and the default ones where there are none.
    pub fn load(stored: StoredConfig) -> (r: Result<AppConfig, String>)
        ensures
            match stored {
                StoredConfig::Unreadable(e) => r is Err && r->Err_0@ == "設定読み込みエラー: "@ + e@,
                StoredConfig::Read(Some(c)) => r == Ok::<AppConfig, String>(c),
                _ => r is Ok && r->Ok_0.save_dir@ == ".\\Download"@,
            },
    {
        match stored {
            StoredConfig::Unreadable(e) => Err(append("設定読み込みエラー: ", e.as_str())),
            StoredConfig::Read(Some(c)) => Ok(c),
            _ => Ok(AppConfig::default()),
        }
    }

    /// Says why settings could not be stored.
    pub fn describe_failure(failure: &StoreFailure) -> (r: String)
        ensures
            r@ == match failure {
                StoreFailure::Json(e) => "JSON変換エラー: "@ + e@,
                StoreFailure::Write(e) => "設定保存エラー: "@ + e@,
            },
    {
        match failure {
            StoreFailure::Json(e) => append("JSON変換エラー: ", e.as_str()),
            StoreFailure::Write(e) => append("設定保存エラー: ", e.as_str()),
        }
    }
}

/// A variable that is not set leaves the default; one that is set counts, as the number that it
/// writes or as the text that it holds, and as nothing where a number is wanted and none up to the
/// limit stands there.
pub proof fn variables_override_the_defaults(
    value: String,
    n: nat,
    default: nat,
    max: nat,
    text: Seq<char>,
)
    ensures
        number_set(None, default, max) == Some(default),
        number_set(Some(value), default, max) == parsed_unsigned(value@, max),
        value@ == decimal_text(n) && n <= max ==> number_set(Some(value), default, max) == Some(n),
        value@ == decimal_text(n) && n > max ==> number_set(Some(value), default, max) is None,
        text_set(None, text) == text,
        text_set(Some(value), text) == value@,
{
    if value@ == decimal_text(n) {
        decimal_text_reads_back(n, n);
        if n <= max {
            decimal_text_reads_back(n, max);
        }
    }
}

/// A path that begins with a slash is left as it is, and any other gets one slash before it.
pub proof fn only_missing_slashes_are_added(path: Seq<char>)
    ensures
        path.len() > 0 && path[0] == '/' ==> rooted(path) == path,
        path.len() == 0 || path[0] != '/' ==> rooted(path) == seq!['/'] + path,
{
    reveal_strlit("/");
    assert("/"@ =~= seq!['/']);
}

/// An address is the host, a colon and the port in base ten, so that different ports of a host have
/// different addresses.
pub proof fn addresses_name_host_and_port(host: Seq<char>, port: nat, other: nat)
    ensures
        address_text(host, port) == host + seq![':'] + decimal_text(port),
        address_text(host, port) == address_text(host, other) ==> port == other,
{
    reveal_strlit(":");
    assert(":"@ =~= seq![':']);
    if address_text(host, port) == address_text(host, other) {
        let n = host.len() as int + 1;
        assert(address_text(host, port).skip(n) =~= decimal_text(port));
        assert(address_text(host, other).skip(n) =~= decimal_text(other));
        decimal_text_reads_back(port, port + other);
        decimal_text_reads_back(other, port + other);
    }
}

} // verus!
