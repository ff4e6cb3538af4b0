use crate_spec::config::{
    has_prefix, Config, ConfigFault, LegacyConfig, LegacyDecodeConfig, LegacyEncodeConfig,
    LocalConfig, LocalDecodeConfig, LocalEncodeConfig, NetConfig, NetworkConfig,
    NetworkDecodeConfig, NetworkEncodeConfig, PathFacts, DEFAULT_CONFIG_PATH,
};
use crate_spec::error::CrateSpecError;
use crate_spec::params::{
    crate_file_name, determine_config, metadata_file_name, Args, ParamsBuilder,
};

fn s(x: &str) -> Option<String> {
    Some(x.to_string())
}

fn new_format() -> Config {
    Config {
        local: Some(LocalConfig {
            encode: Some(LocalEncodeConfig {
                cert_path: s("test/cert.pem"),
                root_ca_path: s("test/root-ca.pem"),
                private_key_path: s("test/key.pem"),
                output_path: s("test/output/"),
                input_path: s("../crate-spec"),
            }),
            decode: Some(LocalDecodeConfig {
                root_ca_path: s("test/root-ca.pem"),
                output_path: s("test/output/"),
                input_path: s("test/output/crate-spec-0.1.0.scrate"),
            }),
        }),
        network: None,
        net: None,
    }
}

#[test]
fn test_config_parse_new_format() {
    let config = new_format();
    assert!(config.local.is_some());
    assert!(config.local.as_ref().unwrap().encode.is_some());
    assert!(config.local.as_ref().unwrap().decode.is_some());

    let encode = config.get_local_encode_config().unwrap();
    assert_eq!(encode.cert_path.as_ref().unwrap(), "test/cert.pem");
    assert_eq!(encode.input_path.as_ref().unwrap(), "../crate-spec");
}

fn legacy() -> LegacyConfig {
    LegacyConfig {
        encode: Some(LegacyEncodeConfig {
            cert_path: s("test/cert.pem"),
            root_ca_path: s("test/root-ca.pem"),
            private_key_path: s("test/key.pem"),
            output_path: s("test/output/"),
            input_path: s("../crate-spec"),
        }),
        decode: Some(LegacyDecodeConfig {
            root_ca_path: s("test/root-ca.pem"),
            output_path: s("test/output/"),
            input_path: s("test/output/crate-spec-0.1.0.scrate"),
        }),
    }
}

#[test]
fn test_config_parse_legacy_format() {
    let config = Config::from_legacy(legacy());

    assert!(config.local.is_some());
    assert!(config.local.as_ref().unwrap().encode.is_some());

    let encode = config.get_local_encode_config().unwrap();
    assert_eq!(encode.cert_path.as_ref().unwrap(), "test/cert.pem");
}

#[test]
fn legacy_layout_is_mapped_to_local() {
    let config = Config::from_legacy(legacy());
    assert!(config.network.is_none());
    assert!(config.net.is_none());
    let decode = config.get_decode_config().unwrap();
    assert_eq!(decode.root_ca_path.as_deref(), Some("test/root-ca.pem"));
    assert_eq!(decode.input_path.as_deref(), Some("test/output/crate-spec-0.1.0.scrate"));
    let encode = config.get_encode_config().unwrap();
    assert_eq!(encode.private_key_path.as_deref(), Some("test/key.pem"));
    assert_eq!(encode.output_path.as_deref(), Some("test/output/"));
    let only_decode = Config::from_legacy(LegacyConfig { encode: None, decode: legacy().decode });
    assert!(only_decode.get_local_encode_config().is_none());
    assert!(only_decode.get_local_decode_config().is_some());
}

#[test]
fn current_layout_wins_where_it_has_a_local_part() {
    let r = Config::resolve(Some(new_format()), Err("no".to_string())).unwrap();
    assert!(r.get_local_encode_config().is_some());
    let empty = Config { local: None, network: None, net: None };
    let r = Config::resolve(Some(empty.clone()), Ok(legacy())).unwrap();
    assert_eq!(
        r.get_local_encode_config().unwrap().cert_path.as_deref(),
        Some("test/cert.pem")
    );
    let r = Config::resolve(None, Ok(legacy())).unwrap();
    assert!(r.local.is_some());
    let e = Config::resolve(Some(empty), Err("bad toml".to_string())).unwrap_err();
    assert_eq!(e, "cannot parse the configuration: bad toml");
    assert!(Config::resolve(None, Err("x".to_string())).is_err());
}

fn net(url: &str, times: Option<u32>, delay: Option<u64>) -> Config {
    Config {
        local: None,
        network: None,
        net: Some(NetConfig {
            algo: s("sm2"),
            flow: s("classic"),
            kms: None,
            pki_base_url: s(url),
            key_pair_path: s("keys/pair.bin"),
            retry_times: times,
            retry_delay: delay,
        }),
    }
}

const ALL_THERE: PathFacts = PathFacts {
    cert_exists: true,
    pkey_exists: true,
    encode_root_ca_exists: true,
    decode_root_ca_exists: true,
    key_pair_dir_exists: true,
};

#[test]
fn acceptable_configurations() {
    assert!(new_format().validate(&ALL_THERE).is_ok());
    assert!(net("https://pki", Some(1), Some(1)).validate(&ALL_THERE).is_ok());
    assert!(net("http://pki", Some(100), Some(60000)).validate(&ALL_THERE).is_ok());
    assert!(net("http://pki", None, None).validate(&ALL_THERE).is_ok());
    let nothing = Config { local: None, network: None, net: None };
    let none_there = PathFacts {
        cert_exists: false,
        pkey_exists: false,
        encode_root_ca_exists: false,
        decode_root_ca_exists: false,
        key_pair_dir_exists: false,
    };
    assert!(nothing.validate(&none_there).is_ok());
}

#[test]
fn faults_of_a_configuration() {
    let facts = |f: fn(&mut PathFacts)| {
        let mut x = ALL_THERE;
        f(&mut x);
        x
    };
    assert_eq!(new_format().check(&facts(|x| x.cert_exists = false)), Some(ConfigFault::CertMissing));
    assert_eq!(
        new_format().check(&facts(|x| x.pkey_exists = false)),
        Some(ConfigFault::PrivateKeyMissing)
    );
    assert_eq!(
        new_format().check(&facts(|x| x.encode_root_ca_exists = false)),
        Some(ConfigFault::EncodeRootCaMissing)
    );
    assert_eq!(
        new_format().check(&facts(|x| x.decode_root_ca_exists = false)),
        Some(ConfigFault::DecodeRootCaMissing)
    );
    assert_eq!(net("ftp://pki", Some(3), Some(5)).check(&ALL_THERE), Some(ConfigFault::BadPkiUrl));
    assert_eq!(net("http://p", Some(0), Some(5)).check(&ALL_THERE), Some(ConfigFault::RetryTimesZero));
    assert_eq!(
        net("http://p", Some(101), Some(5)).check(&ALL_THERE),
        Some(ConfigFault::RetryTimesTooLarge)
    );
    assert_eq!(net("http://p", Some(3), Some(0)).check(&ALL_THERE), Some(ConfigFault::RetryDelayZero));
    assert_eq!(
        net("http://p", Some(3), Some(60001)).check(&ALL_THERE),
        Some(ConfigFault::RetryDelayTooLarge)
    );
    assert_eq!(
        net("http://p", Some(3), Some(5)).check(&facts(|x| x.key_pair_dir_exists = false)),
        Some(ConfigFault::KeyPairDirMissing)
    );
    let message = net("http://p", Some(0), None).validate(&ALL_THERE).unwrap_err();
    assert_eq!(message, "the number of retries must not be 0");
    assert_eq!(ConfigFault::BadPkiUrl.message(), "the PKI URL is neither http:// nor https://");
}

#[test]
fn prefixes() {
    assert!(has_prefix("http://x", "http://"));
    assert!(has_prefix("http://", "http://"));
    assert!(has_prefix("anything", ""));
    assert!(!has_prefix("http:/", "http://"));
    assert!(!has_prefix("https://x", "http://"));
    assert!(!has_prefix("ähttp://", "http://"));
}

#[test]
fn network_settings_from_the_configuration() {
    let config = net("http://pki", None, None);
    let client = config.create_pki_client().unwrap();
    assert_eq!(client.base_url, "http://pki");
    assert_eq!(client.retry_times, 3);
    assert_eq!(client.retry_delay, 1000);
    let client = net("http://pki", Some(7), Some(9)).create_pki_client().unwrap();
    assert_eq!((client.retry_times, client.retry_delay), (7, 9));
    let base = config.create_base_config().unwrap();
    assert_eq!(base.algo, "sm2");
    assert_eq!(base.flow, "classic");
    assert_eq!(base.kms, "");
    let (path, url, base) = config.keypair_source().unwrap();
    assert_eq!(path, "keys/pair.bin");
    assert_eq!(url, "http://pki");
    assert_eq!(base.algo, "sm2");
    assert!(config.require_net_config().is_ok());
    assert!(config.get_net_config().is_some());

    let nothing = Config { local: None, network: None, net: None };
    assert!(matches!(nothing.require_net_config(), Err(CrateSpecError::ConfigError(_))));
    assert!(matches!(nothing.create_pki_client(), Err(CrateSpecError::ConfigError(_))));
    assert!(matches!(nothing.create_base_config(), Err(CrateSpecError::ConfigError(_))));
    assert!(matches!(nothing.keypair_source(), Err(CrateSpecError::ConfigError(_))));
    let mut partial = net("http://pki", None, None);
    partial.net.as_mut().unwrap().algo = None;
    assert!(matches!(partial.create_base_config(), Err(CrateSpecError::ConfigError(_))));
    partial.net.as_mut().unwrap().pki_base_url = None;
    assert!(matches!(partial.create_pki_client(), Err(CrateSpecError::ConfigError(_))));
}

fn args() -> Args {
    Args {
        encode: true,
        decode: false,
        mode: "local".to_string(),
        config: None,
        cli: true,
        root_ca_paths: vec!["r1".to_string(), "r2".to_string()],
        cert_path: s("c"),
        pkey_path: s("k"),
        output: s("out"),
        input: s("in"),
    }
}

#[test]
fn parameters_from_the_command_line() {
    let builder = ParamsBuilder::from_args(&args(), None);
    assert!(builder.encode && !builder.decode);
    let p = builder.build_local_encode_params().unwrap();
    assert_eq!(p.cert_path, "c");
    assert_eq!(p.pkey_path, "k");
    assert_eq!(p.root_ca_paths, vec!["r1".to_string(), "r2".to_string()]);
    assert_eq!(p.output, "out");
    assert_eq!(p.input, "in");
    let p = builder.build_local_decode_params().unwrap();
    assert_eq!(p.root_ca_paths.len(), 2);
    assert_eq!(p.input, "in");
    assert!(matches!(builder.build_network_encode_params(), Err(CrateSpecError::ConfigError(_))));
    assert!(matches!(builder.build_network_decode_params(), Err(CrateSpecError::ConfigError(_))));

    let mut a = args();
    a.root_ca_paths.clear();
    let builder = ParamsBuilder::from_args(&a, None);
    assert!(matches!(builder.build_local_encode_params(), Err(CrateSpecError::ValidationError(_))));
    assert!(matches!(builder.build_local_decode_params(), Err(CrateSpecError::ValidationError(_))));
    let mut a = args();
    a.cert_path = None;
    let builder = ParamsBuilder::from_args(&a, None);
    assert!(matches!(builder.build_local_encode_params(), Err(CrateSpecError::ValidationError(_))));
    assert!(builder.build_local_decode_params().is_ok());
}

#[test]
fn parameters_from_the_configuration() {
    let builder = ParamsBuilder::from_args(&args(), Some(new_format()));
    let p = builder.build_local_encode_params().unwrap();
    assert_eq!(p.cert_path, "test/cert.pem");
    assert_eq!(p.pkey_path, "test/key.pem");
    assert_eq!(p.root_ca_paths, vec!["test/root-ca.pem".to_string()]);
    assert_eq!(p.output, "test/output/");
    assert_eq!(p.input, "../crate-spec");
    let p = builder.build_local_decode_params().unwrap();
    assert_eq!(p.input, "test/output/crate-spec-0.1.0.scrate");
    assert_eq!(p.root_ca_paths, vec!["test/root-ca.pem".to_string()]);

    let mut config = new_format();
    config.local.as_mut().unwrap().encode.as_mut().unwrap().input_path = None;
    config.local.as_mut().unwrap().decode = None;
    let builder = ParamsBuilder::from_args(&args(), Some(config));
    assert!(matches!(builder.build_local_encode_params(), Err(CrateSpecError::ConfigError(_))));
    assert!(matches!(builder.build_local_decode_params(), Err(CrateSpecError::ConfigError(_))));

    let network = Config {
        local: None,
        network: Some(NetworkConfig {
            encode: Some(NetworkEncodeConfig {
                input_path: s("in"),
                output_path: s("out"),
                key_pair_path: None,
                algo: None,
                flow: None,
                kms: None,
            }),
            decode: Some(NetworkDecodeConfig { input_path: s("x.scrate"), output_path: None }),
        }),
        net: None,
    };
    let builder = ParamsBuilder::from_args(&args(), Some(network));
    let p = builder.build_network_encode_params().unwrap();
    assert_eq!((p.input.as_str(), p.output.as_str()), ("in", "out"));
    assert!(matches!(builder.build_network_decode_params(), Err(CrateSpecError::ConfigError(_))));
}

#[test]
fn which_configuration_is_read() {
    assert_eq!(determine_config("local", true, Some("x.toml")).unwrap(), None);
    assert_eq!(determine_config("local", false, Some("x.toml")).unwrap(), s("x.toml"));
    assert_eq!(determine_config("local", false, None).unwrap(), s(DEFAULT_CONFIG_PATH));
    assert_eq!(determine_config("net", true, None).unwrap(), s("config/config.toml"));
    assert_eq!(determine_config("net", false, Some("n.toml")).unwrap(), s("n.toml"));
    match determine_config("both", false, None) {
        Err(CrateSpecError::ValidationError(m)) => {
            assert_eq!(m, "invalid mode: both, it must be 'local' or 'net'")
        }
        other => panic!("expected a validation error, got {:?}", other),
    }
}

#[test]
fn file_names() {
    assert_eq!(crate_file_name("foo", "0.1.0"), "foo-0.1.0.crate");
    assert_eq!(metadata_file_name("foo", "0.1.0"), "foo-0.1.0-metadata.txt");
}
