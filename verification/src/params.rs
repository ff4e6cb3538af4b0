//! The parameters of the four commands, taken from the configuration or
//! from the command line.

use vstd::prelude::*;
use vstd::string::*;
use crate::config::{clone_opt, DEFAULT_CONFIG_PATH, Config};
use crate::error::{CrateSpecError, Result};
use crate::network::str_eq;

verus! {

/// The arguments of the command line.
#[derive(Debug, Clone)]
pub struct Args {
    /// Encode a package.
    pub encode: bool,
    /// Decode a container.
    pub decode: bool,
    /// `local` or `net`.
    pub mode: String,
    /// The path of the configuration file.
    pub config: Option<String>,
    /// Take the parameters of the local mode from the command line.
    pub cli: bool,
    /// The paths of the root certificates.
    pub root_ca_paths: Vec<String>,
    /// The path of the certificate.
    pub cert_path: Option<String>,
    /// The path of the private key.
    pub pkey_path: Option<String>,
    /// The output directory.
    pub output: Option<String>,
    /// The input path.
    pub input: Option<String>,
}

/// What local encoding needs.
#[derive(Debug, Clone)]
pub struct LocalEncodeParams {
    pub cert_path: String,
    pub pkey_path: String,
    pub root_ca_paths: Vec<String>,
    pub output: String,
    pub input: String,
}

/// What network encoding needs.
#[derive(Debug, Clone)]
pub struct NetworkEncodeParams {
    pub input: String,
    pub output: String,
}

/// What local decoding needs.
#[derive(Debug, Clone)]
pub struct LocalDecodeParams {
    pub root_ca_paths: Vec<String>,
    pub output: String,
    pub input: String,
}

/// What network decoding needs.
#[derive(Debug, Clone)]
pub struct NetworkDecodeParams {
    pub input: String,
    pub output: String,
}

/// Where the parameters of a command come from.
pub struct ParamsBuilder {
    pub encode: bool,
    pub decode: bool,
    pub root_ca_paths: Vec<String>,
    pub cert_path: Option<String>,
    pub pkey_path: Option<String>,
    pub output: Option<String>,
    pub input: Option<String>,
    pub config: Option<Config>,
}

/// Which configuration file a run reads: `None` for none, the path else.
///
/// The local mode reads none where the parameters come from the command
/// line; both modes read the file at `config_path`, or at the default path
/// where none is given. Fails with a validation error where the mode is
/// neither `local` nor `net`.
pub fn determine_config(mode: &str, cli: bool, config_path: Option<&str>) -> (r: Result<
    Option<String>,
>)
    ensures
        r is Ok <==> mode@ == "local"@ || mode@ == "net"@,
        r matches Ok(p) ==> (p is None <==> mode@ == "local"@ && cli),
        r matches Ok(Some(p)) ==> p@ == (match config_path {
            Some(c) => c@,
            None => DEFAULT_CONFIG_PATH@,
        }),
        r matches Err(e) ==> e is ValidationError,
{
    let local = str_eq(mode, "local");
    if !local && !str_eq(mode, "net") {
        let mut m = String::from_str("invalid mode: ");
        m.append(mode);
        m.append(", it must be 'local' or 'net'");
        return Err(CrateSpecError::ValidationError(m));
    }
    if local && cli {
        return Ok(None);
    }
    let path = match config_path {
        Some(c) => String::from_str(c),
        None => String::from_str(DEFAULT_CONFIG_PATH),
    };
    Ok(Some(path))
}

/// The value of an option, or a configuration error with the message
/// `message` where there is none.
fn required_config(o: &Option<String>, message: &str) -> (r: Result<String>)
    ensures
        r is Ok <==> o is Some,
        r matches Ok(s) ==> Some(s) == *o,
        r matches Err(e) ==> e is ConfigError,
{
    match o {
        Some(s) => Ok(s.clone()),
        None => Err(CrateSpecError::ConfigError(String::from_str(message))),
    }
}

/// The value of an option, or a validation error with the message
/// `message` where there is none.
fn required_arg(o: &Option<String>, message: &str) -> (r: Result<String>)
    ensures
        r is Ok <==> o is Some,
        r matches Ok(s) ==> Some(s) == *o,
        r matches Err(e) ==> e is ValidationError,
{
    match o {
        Some(s) => Ok(s.clone()),
        None => Err(CrateSpecError::ValidationError(String::from_str(message))),
    }
}

/// A copy of a vector of strings.
fn clone_strings(v: &Vec<String>) -> (r: Vec<String>)
    ensures
        r@ == v@,
{
    let mut out: Vec<String> = Vec::new();
    let mut i: usize = 0;
    while i < v.len()
        invariant
            i <= v@.len(),
            out@ == v@.take(i as int),
        decreases v@.len() - i,
    {
        out.push(v[i].clone());
        i = i + 1;
        proof {
            assert(out@ =~= v@.take(i as int));
        }
    }
    proof {
        assert(v@.take(i as int) =~= v@);
    }
    out
}

impl ParamsBuilder {
    /// The builder for the arguments `args` and the configuration `config`.
    pub fn from_args(args: &Args, config: Option<Config>) -> (r: Self)
        ensures
            r.encode == args.encode,
            r.decode == args.decode,
            r.root_ca_paths@ == args.root_ca_paths@,
            r.cert_path == args.cert_path,
            r.pkey_path == args.pkey_path,
            r.output == args.output,
            r.input == args.input,
            r.config == config,
    {
        ParamsBuilder {
            encode: args.encode,
            decode: args.decode,
            root_ca_paths: clone_strings(&args.root_ca_paths),
            cert_path: clone_opt(&args.cert_path),
            pkey_path: clone_opt(&args.pkey_path),
            output: clone_opt(&args.output),
            input: clone_opt(&args.input),
            config,
        }
    }

    /// The parameters of local encoding: from the configuration where
    /// there is one, from the command line else.
    pub fn build_local_encode_params(&self) -> (r: Result<LocalEncodeParams>)
        ensures
            self.config matches Some(c) ==> (r is Ok <==> (c.local matches Some(l)
                && l.encode matches Some(e) && e.cert_path is Some && e.private_key_path is Some
                && e.root_ca_path is Some && e.output_path is Some && e.input_path is Some)),
            self.config is None ==> (r is Ok <==> self.cert_path is Some && self.pkey_path is Some
                && self.root_ca_paths@.len() > 0 && self.output is Some && self.input is Some),
            (self.config is None && r is Ok) ==> r.unwrap().root_ca_paths@ == self.root_ca_paths@
                && Some(r.unwrap().cert_path) == self.cert_path && Some(r.unwrap().pkey_path)
                == self.pkey_path && Some(r.unwrap().output) == self.output && Some(r.unwrap().input)
                == self.input,
            (self.config is Some && r is Ok) ==> {
                let e = self.config.unwrap().local.unwrap().encode.unwrap();
                &&& Some(r.unwrap().cert_path) == e.cert_path
                &&& Some(r.unwrap().pkey_path) == e.private_key_path
                &&& r.unwrap().root_ca_paths@ == seq![e.root_ca_path.unwrap()]
                &&& Some(r.unwrap().output) == e.output_path
                &&& Some(r.unwrap().input) == e.input_path
            },
            r matches Err(e) ==> (if self.config is Some {
                e is ConfigError
            } else {
                e is ValidationError
            }),
    {
        match &self.config {
            Some(cfg) => ParamsBuilder::extract_local_encode_from_config(cfg),
            None => ParamsBuilder::extract_local_encode_from_cli(self),
        }
    }

    /// The parameters of local encoding that `[local.encode]` gives.
    fn extract_local_encode_from_config(config: &Config) -> (r: Result<LocalEncodeParams>)
        ensures
            r is Ok <==> (config.local matches Some(l) && l.encode matches Some(e)
                && e.cert_path is Some && e.private_key_path is Some && e.root_ca_path is Some
                && e.output_path is Some && e.input_path is Some),
            r is Ok ==> {
                let e = config.local.unwrap().encode.unwrap();
                &&& Some(r.unwrap().cert_path) == e.cert_path
                &&& Some(r.unwrap().pkey_path) == e.private_key_path
                &&& r.unwrap().root_ca_paths@ == seq![e.root_ca_path.unwrap()]
                &&& Some(r.unwrap().output) == e.output_path
                &&& Some(r.unwrap().input) == e.input_path
            },
            r matches Err(e) ==> e is ConfigError,
    {
        let encode_config = match config.get_encode_config() {
            Some(e) => e,
            None => {
                return Err(
                    CrateSpecError::ConfigError(
                        String::from_str("the configuration has no [local.encode] section"),
                    ),
                );
            },
        };
        let cert_path = match required_config(&encode_config.cert_path, "the configuration has no cert_path") {
            Ok(s) => s,
            Err(e) => {
                return Err(e);
            },
        };
        let pkey_path = match required_config(
            &encode_config.private_key_path,
            "the configuration has no private_key_path",
        ) {
            Ok(s) => s,
            Err(e) => {
                return Err(e);
            },
        };
        let root = match required_config(&encode_config.root_ca_path, "the configuration has no root_ca_path") {
            Ok(s) => s,
            Err(e) => {
                return Err(e);
            },
        };
        let output = match required_config(&encode_config.output_path, "the configuration has no output_path") {
            Ok(s) => s,
            Err(e) => {
                return Err(e);
            },
        };
        let input = match required_config(&encode_config.input_path, "the configuration has no input_path") {
            Ok(s) => s,
            Err(e) => {
                return Err(e);
            },
        };
        let mut root_ca_paths: Vec<String> = Vec::new();
        root_ca_paths.push(root);
        proof {
            assert(root_ca_paths@ =~= seq![encode_config.root_ca_path.unwrap()]);
        }
        Ok(LocalEncodeParams { cert_path, pkey_path, root_ca_paths, output, input })
    }

    /// The parameters of local encoding that the command line gives.
    fn extract_local_encode_from_cli(builder: &ParamsBuilder) -> (r: Result<LocalEncodeParams>)
        ensures
            r is Ok <==> builder.cert_path is Some && builder.pkey_path is Some
                && builder.root_ca_paths@.len() > 0 && builder.output is Some && builder.input is Some,
            r is Ok ==> r.unwrap().root_ca_paths@ == builder.root_ca_paths@ && Some(
                r.unwrap().cert_path,
            ) == builder.cert_path && Some(r.unwrap().pkey_path) == builder.pkey_path && Some(
                r.unwrap().output,
            ) == builder.output && Some(r.unwrap().input) == builder.input,
            r matches Err(e) ==> e is ValidationError,
    {
        let cert_path = match required_arg(&builder.cert_path, "a certificate path is needed (-c)") {
            Ok(s) => s,
            Err(e) => {
                return Err(e);
            },
        };
        let pkey_path = match required_arg(&builder.pkey_path, "a private key path is needed (-p)") {
            Ok(s) => s,
            Err(e) => {
                return Err(e);
            },
        };
        if builder.root_ca_paths.len() == 0 {
            return Err(CrateSpecError::ValidationError(String::from_str("a root CA path is needed (-r)")));
        }
        let output = match required_arg(&builder.output, "an output path is needed (-o)") {
            Ok(s) => s,
            Err(e) => {
                return Err(e);
            },
        };
        let input = match required_arg(&builder.input, "an input path is needed") {
            Ok(s) => s,
            Err(e) => {
                return Err(e);
            },
        };
        Ok(
            LocalEncodeParams {
                cert_path,
                pkey_path,
                root_ca_paths: clone_strings(&builder.root_ca_paths),
                output,
                input,
            },
        )
    }

    /// The parameters of local decoding: from the configuration where
    /// there is one, from the command line else.
    pub fn build_local_decode_params(&self) -> (r: Result<LocalDecodeParams>)
        ensures
            self.config matches Some(c) ==> (r is Ok <==> (c.local matches Some(l)
                && l.decode matches Some(d) && d.root_ca_path is Some && d.output_path is Some
                && d.input_path is Some)),
            self.config is None ==> (r is Ok <==> self.root_ca_paths@.len() > 0 && self.output is Some
                && self.input is Some),
            (self.config is None && r is Ok) ==> r.unwrap().root_ca_paths@ == self.root_ca_paths@
                && Some(r.unwrap().output) == self.output && Some(r.unwrap().input) == self.input,
            (self.config is Some && r is Ok) ==> {
                let d = self.config.unwrap().local.unwrap().decode.unwrap();
                &&& r.unwrap().root_ca_paths@ == seq![d.root_ca_path.unwrap()]
                &&& Some(r.unwrap().output) == d.output_path
                &&& Some(r.unwrap().input) == d.input_path
            },
            r matches Err(e) ==> (if self.config is Some {
                e is ConfigError
            } else {
                e is ValidationError
            }),
    {
        match &self.config {
            Some(cfg) => ParamsBuilder::extract_local_decode_from_config(cfg),
            None => ParamsBuilder::extract_local_decode_from_cli(self),
        }
    }

    /// The parameters of local decoding that `[local.decode]` gives.
    fn extract_local_decode_from_config(config: &Config) -> (r: Result<LocalDecodeParams>)
        ensures
            r is Ok <==> (config.local matches Some(l) && l.decode matches Some(d)
                && d.root_ca_path is Some && d.output_path is Some && d.input_path is Some),
            r is Ok ==> {
                let d = config.local.unwrap().decode.unwrap();
                &&& r.unwrap().root_ca_paths@ == seq![d.root_ca_path.unwrap()]
                &&& Some(r.unwrap().output) == d.output_path
                &&& Some(r.unwrap().input) == d.input_path
            },
            r matches Err(e) ==> e is ConfigError,
    {
        let decode_config = match config.get_decode_config() {
            Some(d) => d,
            None => {
                return Err(
                    CrateSpecError::ConfigError(
                        String::from_str("the configuration has no [local.decode] section"),
                    ),
                );
            },
        };
        let root = match required_config(&decode_config.root_ca_path, "the configuration has no root_ca_path") {
            Ok(s) => s,
            Err(e) => {
                return Err(e);
            },
        };
        let output = match required_config(&decode_config.output_path, "the configuration has no output_path") {
            Ok(s) => s,
            Err(e) => {
                return Err(e);
            },
        };
        let input = match required_config(&decode_config.input_path, "the configuration has no input_path") {
            Ok(s) => s,
            Err(e) => {
                return Err(e);
            },
        };
        let mut root_ca_paths: Vec<String> = Vec::new();
        root_ca_paths.push(root);
        proof {
            assert(root_ca_paths@ =~= seq![decode_config.root_ca_path.unwrap()]);
        }
        Ok(LocalDecodeParams { root_ca_paths, output, input })
    }

    /// The parameters of local decoding that the command line gives.
    fn extract_local_decode_from_cli(builder: &ParamsBuilder) -> (r: Result<LocalDecodeParams>)
        ensures
            r is Ok <==> builder.root_ca_paths@.len() > 0 && builder.output is Some
                && builder.input is Some,
            r is Ok ==> r.unwrap().root_ca_paths@ == builder.root_ca_paths@ && Some(r.unwrap().output)
                == builder.output && Some(r.unwrap().input) == builder.input,
            r matches Err(e) ==> e is ValidationError,
    {
        if builder.root_ca_paths.len() == 0 {
            return Err(CrateSpecError::ValidationError(String::from_str("a root CA path is needed (-r)")));
        }
        let output = match required_arg(&builder.output, "an output path is needed (-o)") {
            Ok(s) => s,
            Err(e) => {
                return Err(e);
            },
        };
        let input = match required_arg(&builder.input, "an input path is needed") {
            Ok(s) => s,
            Err(e) => {
                return Err(e);
            },
        };
        Ok(LocalDecodeParams { root_ca_paths: clone_strings(&builder.root_ca_paths), output, input })
    }

    /// The parameters of network encoding, from `[network.encode]`.
    pub fn build_network_encode_params(&self) -> (r: Result<NetworkEncodeParams>)
        ensures
            r is Ok <==> (self.config matches Some(c) && c.network matches Some(n)
                && n.encode matches Some(e) && e.input_path is Some && e.output_path is Some),
            r is Ok ==> {
                let e = self.config.unwrap().network.unwrap().encode.unwrap();
                &&& Some(r.unwrap().input) == e.input_path
                &&& Some(r.unwrap().output) == e.output_path
            },
            r matches Err(e) ==> e is ConfigError,
    {
        let config = match &self.config {
            Some(c) => c,
            None => {
                return Err(
                    CrateSpecError::ConfigError(String::from_str("the network mode needs a configuration")),
                );
            },
        };
        let encode_config = match config.get_network_encode_config() {
            Some(e) => e,
            None => {
                return Err(
                    CrateSpecError::ConfigError(
                        String::from_str("the configuration has no [network.encode] section"),
                    ),
                );
            },
        };
        let input = match required_config(&encode_config.input_path, "the configuration has no input_path") {
            Ok(s) => s,
            Err(e) => {
                return Err(e);
            },
        };
        let output = match required_config(&encode_config.output_path, "the configuration has no output_path") {
            Ok(s) => s,
            Err(e) => {
                return Err(e);
            },
        };
        Ok(NetworkEncodeParams { input, output })
    }

    /// The parameters of network decoding, from `[network.decode]`.
    pub fn build_network_decode_params(&self) -> (r: Result<NetworkDecodeParams>)
        ensures
            r is Ok <==> (self.config matches Some(c) && c.network matches Some(n)
                && n.decode matches Some(d) && d.input_path is Some && d.output_path is Some),
            r is Ok ==> {
                let d = self.config.unwrap().network.unwrap().decode.unwrap();
                &&& Some(r.unwrap().input) == d.input_path
                &&& Some(r.unwrap().output) == d.output_path
            },
            r matches Err(e) ==> e is ConfigError,
    {
        let config = match &self.config {
            Some(c) => c,
            None => {
                return Err(
                    CrateSpecError::ConfigError(String::from_str("the network mode needs a configuration")),
                );
            },
        };
        let decode_config = match config.get_network_decode_config() {
            Some(d) => d,
            None => {
                return Err(
                    CrateSpecError::ConfigError(
                        String::from_str("the configuration has no [network.decode] section"),
                    ),
                );
            },
        };
        let input = match required_config(&decode_config.input_path, "the configuration has no input_path") {
            Ok(s) => s,
            Err(e) => {
                return Err(e);
            },
        };
        let output = match required_config(&decode_config.output_path, "the configuration has no output_path") {
            Ok(s) => s,
            Err(e) => {
                return Err(e);
            },
        };
        Ok(NetworkDecodeParams { input, output })
    }
}

/// The name of the archive file that decoding writes: name, a hyphen,
/// version, and the extension `.crate`.
pub fn crate_file_name(name: &str, version: &str) -> (r: String)
    ensures
        r@ == name@ + "-"@ + version@ + ".crate"@,
{
    let mut out = String::from_str(name);
    out.append("-");
    out.append(version);
    out.append(".crate");
    out
}

/// The name of the metadata file that decoding writes: name, a hyphen,
/// version, and `-metadata.txt`.
pub fn metadata_file_name(name: &str, version: &str) -> (r: String)
    ensures
        r@ == name@ + "-"@ + version@ + "-metadata.txt"@,
{
    let mut out = String::from_str(name);
    out.append("-");
    out.append(version);
    out.append("-metadata.txt");
    out
}

} // verus!
