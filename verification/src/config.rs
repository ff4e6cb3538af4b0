//! The configuration of the command-line tool: where the certificates,
//! the keys, the input and the output are, and how the PKI service is reached.
//!
//! Reading the file and looking at the disk is the caller's part. This
//! module holds the values, maps the legacy layout to the current one, and
//! says which configuration is acceptable.

use vstd::prelude::*;
use vstd::string::*;
use crate::error::{CrateSpecError, Result};
use crate::network::{DEFAULT_RETRY_DELAY_MS, DEFAULT_RETRY_TIMES, BaseConfig, PkiClient};

verus! {

/// Where the configuration is looked for when no path is given.
pub const DEFAULT_CONFIG_PATH: &'static str = "config/config.toml";

/// The greatest number of retries that a configuration may name.
pub const MAX_RETRY_TIMES: u32 = 100;

/// The greatest delay between retries, in milliseconds, that a
/// configuration may name.
pub const MAX_RETRY_DELAY_MS: u64 = 60000;

/// `[local.encode]`: local signing.
#[derive(Debug, Clone)]
pub struct LocalEncodeConfig {
    pub cert_path: Option<String>,
    pub root_ca_path: Option<String>,
    pub private_key_path: Option<String>,
    pub output_path: Option<String>,
    pub input_path: Option<String>,
}

/// `[local.decode]`: local verification.
#[derive(Debug, Clone)]
pub struct LocalDecodeConfig {
    pub root_ca_path: Option<String>,
    pub output_path: Option<String>,
    pub input_path: Option<String>,
}

/// `[local]`.
#[derive(Debug, Clone)]
pub struct LocalConfig {
    pub encode: Option<LocalEncodeConfig>,
    pub decode: Option<LocalDecodeConfig>,
}

/// `[network.encode]`: signing by the PKI service.
#[derive(Debug, Clone)]
pub struct NetworkEncodeConfig {
    pub input_path: Option<String>,
    pub output_path: Option<String>,
    pub key_pair_path: Option<String>,
    pub algo: Option<String>,
    pub flow: Option<String>,
    pub kms: Option<String>,
}

/// `[network.decode]`: verification by the PKI service.
#[derive(Debug, Clone)]
pub struct NetworkDecodeConfig {
    pub input_path: Option<String>,
    pub output_path: Option<String>,
}

/// `[network]`.
#[derive(Debug, Clone)]
pub struct NetworkConfig {
    pub encode: Option<NetworkEncodeConfig>,
    pub decode: Option<NetworkDecodeConfig>,
}

/// `[net]`: how the PKI service is reached. The delay is in milliseconds.
#[derive(Debug, Clone)]
pub struct NetConfig {
    pub algo: Option<String>,
    pub flow: Option<String>,
    pub kms: Option<String>,
    pub pki_base_url: Option<String>,
    pub key_pair_path: Option<String>,
    pub retry_times: Option<u32>,
    pub retry_delay: Option<u64>,
}

/// The whole configuration.
#[derive(Debug, Clone)]
pub struct Config {
    pub local: Option<LocalConfig>,
    pub network: Option<NetworkConfig>,
    pub net: Option<NetConfig>,
}

/// `[encode]` of the legacy layout.
#[derive(Debug, Clone)]
pub struct LegacyEncodeConfig {
    pub cert_path: Option<String>,
    pub root_ca_path: Option<String>,
    pub private_key_path: Option<String>,
    pub output_path: Option<String>,
    pub input_path: Option<String>,
}

/// `[decode]` of the legacy layout.
#[derive(Debug, Clone)]
pub struct LegacyDecodeConfig {
    pub root_ca_path: Option<String>,
    pub output_path: Option<String>,
    pub input_path: Option<String>,
}

/// The legacy layout: `[encode]` and `[decode]` at the top level.
#[derive(Debug, Clone)]
pub struct LegacyConfig {
    pub encode: Option<LegacyEncodeConfig>,
    pub decode: Option<LegacyDecodeConfig>,
}

/// What the disk says of the paths that a configuration names.
#[derive(Debug, Clone, Copy, PartialEq, Eq, Structural)]
pub struct PathFacts {
    /// The certificate of `[local.encode]` exists.
    pub cert_exists: bool,
    /// The private key of `[local.encode]` exists.
    pub pkey_exists: bool,
    /// The root certificate of `[local.encode]` exists.
    pub encode_root_ca_exists: bool,
    /// The root certificate of `[local.decode]` exists.
    pub decode_root_ca_exists: bool,
    /// The directory of the key-pair file of `[net]` exists, or the path
    /// names no directory.
    pub key_pair_dir_exists: bool,
}

/// Why a configuration is not acceptable.
#[derive(Debug, Clone, Copy, PartialEq, Eq, Structural)]
pub enum ConfigFault {
    CertMissing,
    PrivateKeyMissing,
    EncodeRootCaMissing,
    DecodeRootCaMissing,
    BadPkiUrl,
    RetryTimesZero,
    RetryTimesTooLarge,
    RetryDelayZero,
    RetryDelayTooLarge,
    KeyPairDirMissing,
}

/// Whether `s` begins with `prefix`.
pub open spec fn spec_has_prefix(s: Seq<char>, prefix: Seq<char>) -> bool {
    prefix.len() <= s.len() && s.subrange(0, prefix.len() as int) == prefix
}

/// Whether `s` begins with `prefix`.
pub fn has_prefix(s: &str, prefix: &str) -> (r: bool)
    ensures
        r == spec_has_prefix(s@, prefix@),
{
    let n: usize = prefix.unicode_len();
    if s.unicode_len() < n {
        return false;
    }
    let mut i: usize = 0;
    while i < n
        invariant
            i <= n == prefix@.len(),
            n <= s@.len(),
            s@.subrange(0, i as int) == prefix@.subrange(0, i as int),
        decreases n - i,
    {
        if s.get_char(i) != prefix.get_char(i) {
            proof {
                assert(s@.subrange(0, n as int)[i as int] != prefix@[i as int]);
            }
            return false;
        }
        i = i + 1;
        proof {
            assert(s@.subrange(0, i as int) =~= s@.subrange(0, i - 1).push(s@[i - 1]));
            assert(prefix@.subrange(0, i as int) =~= prefix@.subrange(0, i - 1).push(prefix@[i - 1]));
        }
    }
    proof {
        assert(prefix@.subrange(0, n as int) =~= prefix@);
    }
    true
}

/// A copy of an optional string.
pub fn clone_opt(o: &Option<String>) -> (r: Option<String>)
    ensures
        r == *o,
{
    match o {
        Some(s) => Some(s.clone()),
        None => None,
    }
}

/// The fault of the `[local]` part, if it has one: a file that it names
/// and that does not exist.
pub open spec fn local_fault(local: Option<LocalConfig>, facts: PathFacts) -> Option<ConfigFault> {
    match local {
        None => None,
        Some(l) => {
            let enc = match l.encode {
                None => None,
                Some(e) => if e.cert_path is Some && !facts.cert_exists {
                    Some(ConfigFault::CertMissing)
                } else if e.private_key_path is Some && !facts.pkey_exists {
                    Some(ConfigFault::PrivateKeyMissing)
                } else if e.root_ca_path is Some && !facts.encode_root_ca_exists {
                    Some(ConfigFault::EncodeRootCaMissing)
                } else {
                    None
                },
            };
            if enc is Some {
                enc
            } else {
                match l.decode {
                    None => None,
                    Some(d) => if d.root_ca_path is Some && !facts.decode_root_ca_exists {
                        Some(ConfigFault::DecodeRootCaMissing)
                    } else {
                        None
                    },
                }
            }
        },
    }
}

/// The fault of the `[net]` part, if it has one: an address that is
/// neither `http://` nor `https://`, a number of retries or a delay that is
/// zero or too large, or a key-pair file in a directory that does not exist.
pub open spec fn net_fault(net: Option<NetConfig>, facts: PathFacts) -> Option<ConfigFault> {
    match net {
        None => None,
        Some(n) => if n.pki_base_url matches Some(url) && !spec_has_prefix(url@, "http://"@)
            && !spec_has_prefix(url@, "https://"@) {
            Some(ConfigFault::BadPkiUrl)
        } else if n.retry_times == Some(0u32) {
            Some(ConfigFault::RetryTimesZero)
        } else if n.retry_times matches Some(t) && t > MAX_RETRY_TIMES {
            Some(ConfigFault::RetryTimesTooLarge)
        } else if n.retry_delay == Some(0u64) {
            Some(ConfigFault::RetryDelayZero)
        } else if n.retry_delay matches Some(d) && d > MAX_RETRY_DELAY_MS {
            Some(ConfigFault::RetryDelayTooLarge)
        } else if n.key_pair_path is Some && !facts.key_pair_dir_exists {
            Some(ConfigFault::KeyPairDirMissing)
        } else {
            None
        },
    }
}

/// The first fault of a configuration, if it has one.
pub open spec fn first_fault(config: Config, facts: PathFacts) -> Option<ConfigFault> {
    if local_fault(config.local, facts) is Some {
        local_fault(config.local, facts)
    } else {
        net_fault(config.net, facts)
    }
}

impl ConfigFault {
    /// The message that names the fault.
    pub open spec fn spec_message(&self) -> Seq<char> {
        match self {
            ConfigFault::CertMissing => "the certificate file does not exist"@,
            ConfigFault::PrivateKeyMissing => "the private key file does not exist"@,
            ConfigFault::EncodeRootCaMissing => "the root CA file does not exist"@,
            ConfigFault::DecodeRootCaMissing => "the root CA file does not exist"@,
            ConfigFault::BadPkiUrl => "the PKI URL is neither http:// nor https://"@,
            ConfigFault::RetryTimesZero => "the number of retries must not be 0"@,
            ConfigFault::RetryTimesTooLarge => "the number of retries must not exceed 100"@,
            ConfigFault::RetryDelayZero => "the retry delay must not be 0"@,
            ConfigFault::RetryDelayTooLarge => "the retry delay must not exceed 60000 milliseconds"@,
            ConfigFault::KeyPairDirMissing => "the directory of the key pair file does not exist"@,
        }
    }

    /// The message that names the fault.
    pub fn message(&self) -> (r: &'static str)
        ensures
            r@ == self.spec_message(),
    {
        match self {
            ConfigFault::CertMissing => "the certificate file does not exist",
            ConfigFault::PrivateKeyMissing => "the private key file does not exist",
            ConfigFault::EncodeRootCaMissing => "the root CA file does not exist",
            ConfigFault::DecodeRootCaMissing => "the root CA file does not exist",
            ConfigFault::BadPkiUrl => "the PKI URL is neither http:// nor https://",
            ConfigFault::RetryTimesZero => "the number of retries must not be 0",
            ConfigFault::RetryTimesTooLarge => "the number of retries must not exceed 100",
            ConfigFault::RetryDelayZero => "the retry delay must not be 0",
            ConfigFault::RetryDelayTooLarge => "the retry delay must not exceed 60000 milliseconds",
            ConfigFault::KeyPairDirMissing => "the directory of the key pair file does not exist",
        }
    }
}

impl Config {
    /// The configuration that the legacy layout stands for: its `[encode]`
    /// and `[decode]` are those of `[local]`.
    pub open spec fn spec_from_legacy(legacy: LegacyConfig) -> Config {
        Config {
            local: Some(
                LocalConfig {
                    encode: match legacy.encode {
                        Some(e) => Some(
                            LocalEncodeConfig {
                                cert_path: e.cert_path,
                                root_ca_path: e.root_ca_path,
                                private_key_path: e.private_key_path,
                                output_path: e.output_path,
                                input_path: e.input_path,
                            },
                        ),
                        None => None,
                    },
                    decode: match legacy.decode {
                        Some(d) => Some(
                            LocalDecodeConfig {
                                root_ca_path: d.root_ca_path,
                                output_path: d.output_path,
                                input_path: d.input_path,
                            },
                        ),
                        None => None,
                    },
                },
            ),
            network: None,
            net: None,
        }
    }

    /// The configuration that the legacy layout stands for: its `[encode]`
    /// and `[decode]` are those of `[local]`.
    pub fn from_legacy(legacy: LegacyConfig) -> (r: Config)
        ensures
            r == Config::spec_from_legacy(legacy),
    {
        let encode = match legacy.encode {
            Some(e) => Some(
                LocalEncodeConfig {
                    cert_path: e.cert_path,
                    root_ca_path: e.root_ca_path,
                    private_key_path: e.private_key_path,
                    output_path: e.output_path,
                    input_path: e.input_path,
                },
            ),
            None => None,
        };
        let decode = match legacy.decode {
            Some(d) => Some(
                LocalDecodeConfig {
                    root_ca_path: d.root_ca_path,
                    output_path: d.output_path,
                    input_path: d.input_path,
                },
            ),
            None => None,
        };
        Config { local: Some(LocalConfig { encode, decode }), network: None, net: None }
    }

    /// The configuration of a file that was read in both layouts: the
    /// current one where it parsed and has a `[local]` part, else the
    /// legacy one where that parsed, else the error of the legacy parser.
    pub fn resolve(current: Option<Config>, legacy: core::result::Result<LegacyConfig, String>) -> (r:
        core::result::Result<Config, String>)
        ensures
            (current matches Some(c) && c.local is Some) ==> r == Ok::<Config, String>(
                current.unwrap(),
            ),
            !(current matches Some(c) && c.local is Some) ==> (match legacy {
                Ok(l) => r == Ok::<Config, String>(Config::spec_from_legacy(l)),
                Err(e) => r matches Err(m) && m@ == "cannot parse the configuration: "@ + e@,
            }),
    {
        match current {
            Some(c) => {
                if c.local.is_some() {
                    return Ok(c);
                }
            },
            None => {},
        }
        match legacy {
            Ok(l) => Ok(Config::from_legacy(l)),
            Err(e) => {
                let mut m = String::from_str("cannot parse the configuration: ");
                m.append(e.as_str());
                Err(m)
            },
        }
    }

    /// `[local.encode]`, if the configuration has it.
    pub fn get_local_encode_config(&self) -> (r: Option<&LocalEncodeConfig>)
        ensures
            r is Some <==> (self.local matches Some(l) && l.encode is Some),
            r matches Some(e) ==> self.local.unwrap().encode == Some(*e),
    {
        match &self.local {
            Some(l) => l.encode.as_ref(),
            None => None,
        }
    }

    /// `[local.decode]`, if the configuration has it.
    pub fn get_local_decode_config(&self) -> (r: Option<&LocalDecodeConfig>)
        ensures
            r is Some <==> (self.local matches Some(l) && l.decode is Some),
            r matches Some(d) ==> self.local.unwrap().decode == Some(*d),
    {
        match &self.local {
            Some(l) => l.decode.as_ref(),
            None => None,
        }
    }

    /// `[network.encode]`, if the configuration has it.
    pub fn get_network_encode_config(&self) -> (r: Option<&NetworkEncodeConfig>)
        ensures
            r is Some <==> (self.network matches Some(n) && n.encode is Some),
            r matches Some(e) ==> self.network.unwrap().encode == Some(*e),
    {
        match &self.network {
            Some(n) => n.encode.as_ref(),
            None => None,
        }
    }

    /// `[network.decode]`, if the configuration has it.
    pub fn get_network_decode_config(&self) -> (r: Option<&NetworkDecodeConfig>)
        ensures
            r is Some <==> (self.network matches Some(n) && n.decode is Some),
            r matches Some(d) ==> self.network.unwrap().decode == Some(*d),
    {
        match &self.network {
            Some(n) => n.decode.as_ref(),
            None => None,
        }
    }

    /// `[local.encode]`, under its legacy name.
    pub fn get_encode_config(&self) -> (r: Option<&LocalEncodeConfig>)
        ensures
            r is Some <==> (self.local matches Some(l) && l.encode is Some),
            r matches Some(e) ==> self.local.unwrap().encode == Some(*e),
    {
        self.get_local_encode_config()
    }

    /// `[local.decode]`, under its legacy name.
    pub fn get_decode_config(&self) -> (r: Option<&LocalDecodeConfig>)
        ensures
            r is Some <==> (self.local matches Some(l) && l.decode is Some),
            r matches Some(d) ==> self.local.unwrap().decode == Some(*d),
    {
        self.get_local_decode_config()
    }

    /// `[net]`, if the configuration has it.
    pub fn get_net_config(&self) -> (r: Option<&NetConfig>)
        ensures
            r is Some <==> self.net is Some,
            r matches Some(n) ==> self.net == Some(*n),
    {
        self.net.as_ref()
    }

    /// The first fault of the configuration, if it has one, given what the
    /// disk says of the paths that it names.
    pub fn check(&self, facts: &PathFacts) -> (r: Option<ConfigFault>)
        ensures
            r == first_fault(*self, *facts),
    {
        if let Some(local) = &self.local {
            if let Some(encode) = &local.encode {
                if encode.cert_path.is_some() && !facts.cert_exists {
                    return Some(ConfigFault::CertMissing);
                }
                if encode.private_key_path.is_some() && !facts.pkey_exists {
                    return Some(ConfigFault::PrivateKeyMissing);
                }
                if encode.root_ca_path.is_some() && !facts.encode_root_ca_exists {
                    return Some(ConfigFault::EncodeRootCaMissing);
                }
            }
            if let Some(decode) = &local.decode {
                if decode.root_ca_path.is_some() && !facts.decode_root_ca_exists {
                    return Some(ConfigFault::DecodeRootCaMissing);
                }
            }
        }
        if let Some(net) = &self.net {
            if let Some(url) = &net.pki_base_url {
                if !has_prefix(url.as_str(), "http://") && !has_prefix(url.as_str(), "https://") {
                    return Some(ConfigFault::BadPkiUrl);
                }
            }
            if let Some(retry_times) = net.retry_times {
                if retry_times == 0 {
                    return Some(ConfigFault::RetryTimesZero);
                }
                if retry_times > MAX_RETRY_TIMES {
                    return Some(ConfigFault::RetryTimesTooLarge);
                }
            }
            if let Some(retry_delay) = net.retry_delay {
                if retry_delay == 0 {
                    return Some(ConfigFault::RetryDelayZero);
                }
                if retry_delay > MAX_RETRY_DELAY_MS {
                    return Some(ConfigFault::RetryDelayTooLarge);
                }
            }
            if net.key_pair_path.is_some() && !facts.key_pair_dir_exists {
                return Some(ConfigFault::KeyPairDirMissing);
            }
        }
        None
    }

    /// Whether the configuration is acceptable, given what the disk says
    /// of the paths that it names: every file that `[local]` names exists;
    /// the address of `[net]` is an `http://` or `https://` one, its number
    /// of retries is between 1 and 100, its delay between 1 and 60000
    /// milliseconds, and the directory of its key-pair file exists.
    pub fn validate(&self, facts: &PathFacts) -> (r: core::result::Result<(), String>)
        ensures
            r is Ok <==> first_fault(*self, *facts) is None,
            r matches Err(m) ==> m@ == first_fault(*self, *facts).unwrap().spec_message(),
    {
        match self.check(facts) {
            None => Ok(()),
            Some(fault) => Err(String::from_str(fault.message())),
        }
    }

    /// `[net]`, or a configuration error where the configuration has none.
    pub fn require_net_config(&self) -> (r: Result<&NetConfig>)
        ensures
            r is Ok <==> self.net is Some,
            r matches Ok(n) ==> self.net == Some(*n),
            r matches Err(e) ==> e is ConfigError,
    {
        match self.get_net_config() {
            Some(n) => Ok(n),
            None => Err(
                CrateSpecError::ConfigError(String::from_str("the configuration has no [net] section")),
            ),
        }
    }

    /// The client of the PKI service that `[net]` describes, with three
    /// retries a second apart where it names none.
    ///
    /// Fails with a configuration error where `[net]` or its address is
    /// missing.
    pub fn create_pki_client(&self) -> (r: Result<PkiClient>)
        ensures
            r is Ok <==> (self.net matches Some(n) && n.pki_base_url is Some),
            r matches Ok(c) ==> {
                let n = self.net.unwrap();
                &&& c.base_url == n.pki_base_url.unwrap()
                &&& c.retry_times == (match n.retry_times {
                    Some(t) => t,
                    None => DEFAULT_RETRY_TIMES,
                })
                &&& c.retry_delay == (match n.retry_delay {
                    Some(d) => d,
                    None => DEFAULT_RETRY_DELAY_MS,
                })
            },
            r matches Err(e) ==> e is ConfigError,
    {
        let net_config = match self.require_net_config() {
            Ok(n) => n,
            Err(e) => {
                return Err(e);
            },
        };
        let pki_base_url = match &net_config.pki_base_url {
            Some(u) => u.clone(),
            None => {
                return Err(
                    CrateSpecError::ConfigError(String::from_str("the configuration has no pki_base_url")),
                );
            },
        };
        let retry_times: u32 = match net_config.retry_times {
            Some(t) => t,
            None => DEFAULT_RETRY_TIMES,
        };
        let retry_delay: u64 = match net_config.retry_delay {
            Some(d) => d,
            None => DEFAULT_RETRY_DELAY_MS,
        };
        match PkiClient::new(pki_base_url, retry_times, retry_delay) {
            Ok(c) => Ok(c),
            Err(m) => Err(CrateSpecError::NetworkError(m)),
        }
    }

    /// The algorithm, the flow and the key-management target that `[net]`
    /// names; a missing target is the empty string.
    ///
    /// Fails with a configuration error where `[net]`, the algorithm or the
    /// flow is missing.
    pub fn create_base_config(&self) -> (r: Result<BaseConfig>)
        ensures
            r is Ok <==> (self.net matches Some(n) && n.algo is Some && n.flow is Some),
            r matches Ok(b) ==> {
                let n = self.net.unwrap();
                &&& b.algo == n.algo.unwrap()
                &&& b.flow == n.flow.unwrap()
                &&& b.kms@ == (match n.kms {
                    Some(k) => k@,
                    None => Seq::<char>::empty(),
                })
            },
            r matches Err(e) ==> e is ConfigError,
    {
        let net_config = match self.require_net_config() {
            Ok(n) => n,
            Err(e) => {
                return Err(e);
            },
        };
        let algo = match &net_config.algo {
            Some(a) => a.clone(),
            None => {
                return Err(CrateSpecError::ConfigError(String::from_str("the configuration has no algo")));
            },
        };
        let flow = match &net_config.flow {
            Some(f) => f.clone(),
            None => {
                return Err(CrateSpecError::ConfigError(String::from_str("the configuration has no flow")));
            },
        };
        let kms = match &net_config.kms {
            Some(k) => k.clone(),
            None => String::new(),
        };
        Ok(BaseConfig { algo, flow, kms })
    }

    /// The address of the PKI service and the path of the key-pair file
    /// that `[net]` names, with the base configuration: what fetching or
    /// loading the key pair needs.
    ///
    /// Fails with a configuration error where one of them is missing.
    pub fn keypair_source(&self) -> (r: Result<(String, String, BaseConfig)>)
        ensures
            r is Ok <==> (self.net matches Some(n) && n.pki_base_url is Some && n.key_pair_path is Some
                && n.algo is Some && n.flow is Some),
            r matches Ok((path, url, base)) ==> {
                let n = self.net.unwrap();
                &&& path == n.key_pair_path.unwrap()
                &&& url == n.pki_base_url.unwrap()
                &&& base.algo == n.algo.unwrap()
                &&& base.flow == n.flow.unwrap()
                &&& base.kms@ == (match n.kms {
                    Some(k) => k@,
                    None => Seq::<char>::empty(),
                })
            },
            r matches Err(e) ==> e is ConfigError,
    {
        let net_config = match self.require_net_config() {
            Ok(n) => n,
            Err(e) => {
                return Err(e);
            },
        };
        let pki_base_url = match &net_config.pki_base_url {
            Some(u) => u.clone(),
            None => {
                return Err(
                    CrateSpecError::ConfigError(String::from_str("the configuration has no pki_base_url")),
                );
            },
        };
        let key_pair_path = match &net_config.key_pair_path {
            Some(p) => p.clone(),
            None => {
                return Err(
                    CrateSpecError::ConfigError(String::from_str("the configuration has no key_pair_path")),
                );
            },
        };
        let base_config = match self.create_base_config() {
            Ok(b) => b,
            Err(e) => {
                return Err(e);
            },
        };
        Ok((key_pair_path, pki_base_url, base_config))
    }
}

} // verus!
