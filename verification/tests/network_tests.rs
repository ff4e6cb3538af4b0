use crate_spec::error::CrateSpecError;
use crate_spec::network::{
    digest_to_hex_string, BaseConfig, HttpOutcome, KeyPair, KeyPairResponse, NetworkSignature,
    PkiClient, SignDigestResponse, Step, VerifyDigestResponse,
};
use crate_spec::utils::context::{PackageContext, SrcTypePath, SIGTYPE};
use crate_spec::utils::decode::{judge_local, judge_remote, network_verify_request, RemoteVerdict};
use crate_spec::utils::package::CratePackage;
use crate_spec::utils::pkcs::PKCS;

fn base_config() -> BaseConfig {
    BaseConfig { algo: "sm2".to_string(), kms: String::new(), flow: "classic".to_string() }
}

fn key_pair() -> KeyPair {
    KeyPair {
        priv_key: "PRIV".to_string(),
        pub_key: "PUB".to_string(),
        key_id: "k1".to_string(),
        base_config: base_config(),
    }
}

fn client(retry_times: u32) -> PkiClient {
    PkiClient::new("http://pki.example".to_string(), retry_times, 250).unwrap()
}

#[test]
fn hex_is_lower_case_two_digits_a_byte() {
    assert_eq!(digest_to_hex_string(&[]), "");
    assert_eq!(digest_to_hex_string(&[0x00, 0x0f, 0xa0, 0xff, 0x5c]), "000fa0ff5c");
}

#[test]
fn digest_of_abc() {
    let digest = PKCS::new().gen_digest_256(b"abc").unwrap();
    assert_eq!(
        digest_to_hex_string(&digest),
        "ba7816bf8f01cfea414140de5dae2223b00361a396177a9cb410ff61f20015ad"
    );
}

#[test]
fn network_signature_has_a_compact_binary_form() {
    let sig = NetworkSignature {
        pub_key: "pk".to_string(),
        signature: "deadbeef".to_string(),
        algo: "rsa".to_string(),
        flow: "f".to_string(),
        kms: None,
        key_id: Some("k1".to_string()),
    };
    let bytes = sig.to_bytes().unwrap();
    assert_eq!(
        bytes,
        vec![
            2, b'p', b'k', 8, b'd', b'e', b'a', b'd', b'b', b'e', b'e', b'f', 3, b'r', b's', b'a',
            1, b'f', 0, 1, 2, b'k', b'1'
        ]
    );
    let back = NetworkSignature::from_bytes(&bytes).unwrap();
    assert_eq!(back.pub_key, "pk");
    assert_eq!(back.signature, "deadbeef");
    assert_eq!(back.algo, "rsa");
    assert_eq!(back.flow, "f");
    assert_eq!(back.kms, None);
    assert_eq!(back.key_id, Some("k1".to_string()));
    assert!(NetworkSignature::from_bytes(&bytes[..5]).is_err());
}

#[test]
fn key_pair_has_a_compact_binary_form() {
    let kp = key_pair();
    let bytes = kp.to_bytes().unwrap();
    assert_eq!(
        bytes,
        vec![
            4, b'P', b'R', b'I', b'V', 3, b'P', b'U', b'B', 2, b'k', b'1', 3, b's', b'm', b'2', 0,
            7, b'c', b'l', b'a', b's', b's', b'i', b'c'
        ]
    );
    let back = KeyPair::from_bytes(&bytes).unwrap();
    assert_eq!(back.priv_key, "PRIV");
    assert_eq!(back.pub_key, "PUB");
    assert_eq!(back.key_id, "k1");
    assert_eq!(back.base_config.algo, "sm2");
    assert_eq!(back.base_config.kms, "");
    assert_eq!(back.base_config.flow, "classic");
    assert!(KeyPair::from_bytes(&[200]).is_err());
}

#[test]
fn stored_key_pair_is_used_and_anything_else_is_fetched() {
    let bytes = key_pair().to_bytes().unwrap();
    let stored = KeyPair::get_or_fetch_step(Some(bytes)).unwrap();
    assert_eq!(stored.pub_key, "PUB");
    assert!(KeyPair::get_or_fetch_step(None).is_none());
    assert!(KeyPair::get_or_fetch_step(Some(vec![0xff, 0xff])).is_none());
}

#[test]
fn key_pair_from_the_service() {
    let kp = KeyPair::from_response(KeyPairResponse {
        base_config: base_config(),
        priv_key: "a".to_string(),
        pub_key: "b".to_string(),
        key_id: None,
    });
    assert_eq!(kp.key_id, "");
    assert_eq!(kp.priv_key, "a");
    assert_eq!(kp.pub_key, "b");
    let request = KeyPair::fetch_request(&base_config());
    assert_eq!(request.algo, "sm2");
    assert_eq!(request.flow, "classic");
    assert_eq!(KeyPair::keypair_url("http://h"), "http://h/v1/keypair");
}

#[test]
fn endpoints() {
    let c = client(3);
    assert_eq!(c.sign_url(), "http://pki.example/v1/sign/digest");
    assert_eq!(c.verify_url(), "http://pki.example/v1/verify/digest");
    let q = PkiClient::sign_request("PRIV", "00ff", &base_config());
    assert_eq!(q.priv_key, "PRIV");
    assert_eq!(q.digest, "00ff");
    assert_eq!(q.base_config.algo, "sm2");
    let q = PkiClient::verify_request("PUB", "00ff", "sig", &base_config());
    assert_eq!(q.pub_key, "PUB");
    assert_eq!(q.signature, "sig");
}

fn signed() -> HttpOutcome<SignDigestResponse> {
    HttpOutcome::Answer(SignDigestResponse {
        base_config: base_config(),
        signature: "deadbeef".to_string(),
        cert: None,
    })
}

fn refused<T>() -> HttpOutcome<T> {
    HttpOutcome::Transport(true, "connection refused".to_string())
}

/// Runs a signing call against a service that refuses the first `failures`
/// connections and then answers, and counts the attempts.
fn sign_against(c: &PkiClient, failures: u32) -> (Result<(String, Option<String>), String>, u32) {
    let mut attempt = 0;
    let mut made = 0;
    loop {
        made += 1;
        let outcome = if made <= failures { refused() } else { signed() };
        match c.sign_step(attempt, outcome) {
            Step::Done(r) => return (r, made),
            Step::RetryAfter(delay, next) => {
                assert_eq!(delay, 250);
                assert_eq!(next, attempt + 1);
                attempt = next;
            }
        }
    }
}

#[test]
fn signing_succeeds_while_the_failures_are_within_the_retries() {
    let (r, made) = sign_against(&client(3), 2);
    assert_eq!(r.unwrap(), ("deadbeef".to_string(), None));
    assert_eq!(made, 3);
    let (r, made) = sign_against(&client(3), 3);
    assert!(r.is_ok());
    assert_eq!(made, 4);
    let (r, made) = sign_against(&client(1), 2);
    let message = r.unwrap_err();
    assert!(message.starts_with("network failure"), "{}", message);
    assert_eq!(made, 2);
    let (r, made) = sign_against(&client(3), 4);
    assert!(r.is_err());
    assert_eq!(made, 4);
}

#[test]
fn an_answer_of_the_service_is_never_retried() {
    let c = client(3);
    match c.sign_step(0, HttpOutcome::BadStatus("500".to_string(), "boom".to_string())) {
        Step::Done(Err(m)) => assert_eq!(m, "PKI service returned an error (HTTP 500): boom"),
        other => panic!("expected an error, got {:?}", other),
    }
    match c.sign_step(0, HttpOutcome::BadBody("eof".to_string())) {
        Step::Done(Err(m)) => assert_eq!(m, "cannot parse response JSON: eof"),
        other => panic!("expected an error, got {:?}", other),
    }
    match c.sign_step(0, HttpOutcome::Transport(false, "tls".to_string())) {
        Step::Done(Err(m)) => {
            assert_eq!(m, "network failure: tls (URL: http://pki.example/v1/sign/digest)")
        }
        other => panic!("expected an error, got {:?}", other),
    }
}

fn verified(result: &str, error: Option<&str>) -> HttpOutcome<VerifyDigestResponse> {
    HttpOutcome::Answer(VerifyDigestResponse {
        base_config: base_config(),
        result: result.to_string(),
        error: error.map(|e| e.to_string()),
    })
}

#[test]
fn verification_steps() {
    let c = client(2);
    assert!(matches!(c.verify_step(0, verified("OK", None)), Step::Done(Ok(true))));
    assert!(matches!(
        c.verify_step(0, verified("FAIL", Some("bad signature"))),
        Step::Done(Ok(false))
    ));
    assert!(matches!(c.verify_step(3, verified("", None)), Step::Done(Ok(false))));
    match c.verify_step(0, HttpOutcome::BadBody("eof".to_string())) {
        Step::Done(Err(m)) => assert_eq!(m, "cannot parse response JSON: eof"),
        other => panic!("expected an error, got {:?}", other),
    }
    assert!(matches!(c.verify_step(1, refused()), Step::RetryAfter(250, 2)));
    assert!(matches!(c.verify_step(2, refused()), Step::Done(Err(_))));
    assert!(matches!(
        c.verify_step(0, HttpOutcome::BadStatus("404".to_string(), String::new())),
        Step::Done(Err(_))
    ));
}

#[test]
fn verdicts() {
    assert!(judge_remote(&RemoteVerdict::Accepted).is_ok());
    assert!(matches!(
        judge_remote(&RemoteVerdict::Rejected),
        Err(CrateSpecError::SignatureError(_))
    ));
    match judge_remote(&RemoteVerdict::Failed("network failure".to_string())) {
        Err(CrateSpecError::PkiError(m)) => assert_eq!(m, "network failure"),
        other => panic!("expected a PKI error, got {:?}", other),
    }
    assert!(judge_local(&[1, 2], &Ok(vec![1, 2])).is_ok());
    assert!(matches!(
        judge_local(&[1, 2], &Ok(vec![1, 3])),
        Err(CrateSpecError::SignatureError(_))
    ));
    match judge_local(&[1, 2], &Err(CrateSpecError::ParseError("x".to_string()))) {
        Err(CrateSpecError::SignatureError(m)) => assert_eq!(m, "x"),
        other => panic!("expected a signature error, got {:?}", other),
    }
}

fn network_context() -> PackageContext {
    let mut ctx = PackageContext::new();
    ctx.set_package_info(
        "foo".to_string(),
        "0.1.0".to_string(),
        "MIT".to_string(),
        vec!["a".to_string()],
    );
    ctx.add_dep_info("bar".to_string(), "1.0".to_string(), SrcTypePath::CratesIo, String::new());
    ctx.add_crate_bin(vec![0u8; 100]);
    ctx.network_client = Some(client(3));
    ctx.network_keypair = Some(key_pair());
    ctx
}

#[test]
fn network_signature_round_trip() {
    let mut ctx = network_context();
    let index = ctx.add_sig(PKCS::new(), SIGTYPE::NETWORK);
    let request = ctx.network_sign_request().unwrap();
    assert_eq!(request.priv_key, "PRIV");
    assert_eq!(request.base_config.algo, "sm2");
    let digest = PKCS::new().gen_digest_256(&[0u8; 100]).unwrap();
    assert_eq!(request.digest, digest_to_hex_string(&digest));

    ctx.set_network_signature(index, "deadbeef".to_string()).unwrap();
    let (pkg, _table, bin) = ctx.encode_to_crate_package().unwrap();
    assert_eq!(pkg.data_sections.len(), 4);
    let stored = NetworkSignature::from_bytes(&pkg.sig_structure_section(0).unwrap().sigstruct_sig).unwrap();
    assert_eq!(stored.pub_key, "PUB");
    assert_eq!(stored.signature, "deadbeef");
    assert_eq!(stored.algo, "sm2");
    assert_eq!(stored.flow, "classic");
    assert_eq!(stored.kms, None);
    assert_eq!(stored.key_id, Some("k1".to_string()));

    let parsed = CratePackage::decode_from_slice(&bin).unwrap();
    let requests = PackageContext::network_verify_requests(&parsed).unwrap();
    assert_eq!(requests.len(), 1);
    assert_eq!(requests[0].pub_key, "PUB");
    assert_eq!(requests[0].signature, "deadbeef");
    assert_eq!(requests[0].digest, request.digest);
    assert_eq!(requests[0].base_config.algo, "sm2");
    assert_eq!(requests[0].base_config.kms, "");

    let mut back = PackageContext::new();
    back.network_client = Some(client(3));
    back.decode_with_verdicts(&bin, &[RemoteVerdict::Accepted]).unwrap();
    assert_eq!(back.pack_info, ctx.pack_info);
    assert_eq!(back.dep_infos, ctx.dep_infos);
    assert_eq!(back.crate_binary, ctx.crate_binary);
    assert_eq!(back.sigs[0].typ, 2);
    assert_eq!(back.sigs[0].pub_key, Some("PUB".to_string()));

    let mut back = PackageContext::new();
    back.network_client = Some(client(3));
    assert!(matches!(
        back.decode_with_verdicts(&bin, &[RemoteVerdict::Rejected]),
        Err(CrateSpecError::SignatureError(_))
    ));
    let mut back = PackageContext::new();
    back.network_client = Some(client(3));
    assert!(matches!(
        back.decode_with_verdicts(&bin, &[RemoteVerdict::Failed("down".to_string())]),
        Err(CrateSpecError::PkiError(_))
    ));
    // without a verdict, and without a client, a network signature cannot hold
    let mut back = PackageContext::new();
    back.network_client = Some(client(3));
    assert!(matches!(back.decode_from_crate_package(&bin), Err(CrateSpecError::Other(_))));
    let mut back = PackageContext::new();
    assert!(matches!(
        back.decode_with_verdicts(&bin, &[RemoteVerdict::Accepted]),
        Err(CrateSpecError::Other(_))
    ));
}

#[test]
fn network_signature_needs_a_key_pair_and_a_network_record() {
    let mut ctx = network_context();
    let local = ctx.add_sig(PKCS::new(), SIGTYPE::CRATEBIN);
    assert!(ctx.set_network_signature(local, "s".to_string()).is_err());
    assert!(ctx.set_network_signature(5, "s".to_string()).is_err());
    let network = ctx.add_sig(PKCS::new(), SIGTYPE::NETWORK);
    ctx.network_keypair = None;
    assert!(ctx.set_network_signature(network, "s".to_string()).is_err());
    assert!(matches!(ctx.network_sign_request(), Err(CrateSpecError::Other(_))));
}

#[test]
fn network_record_without_signature_cannot_be_written() {
    let mut ctx = network_context();
    ctx.add_sig(PKCS::new(), SIGTYPE::NETWORK);
    assert!(matches!(ctx.encode_to_crate_package(), Err(CrateSpecError::Other(_))));
}

#[test]
fn overlong_network_signature_overflows_its_room() {
    let mut ctx = network_context();
    let index = ctx.add_sig(PKCS::new(), SIGTYPE::NETWORK);
    ctx.set_network_signature(index, "x".repeat(2000)).unwrap();
    match ctx.encode_to_crate_package() {
        Err(CrateSpecError::EncodeError(m)) => assert_eq!(m, "signature overflow"),
        other => panic!("expected an encode error, got {:?}", other.map(|_| ())),
    }
}

#[test]
fn verify_request_of_a_malformed_signature_is_a_decode_error() {
    assert!(matches!(
        network_verify_request(&[9, 1], &[1, 2, 3]),
        Err(CrateSpecError::DecodeError(_))
    ));
}

#[test]
fn key_pair_requests_end_with_the_first_outcome() {
    let answer = HttpOutcome::Answer(KeyPairResponse {
        base_config: base_config(),
        priv_key: "a".to_string(),
        pub_key: "b".to_string(),
        key_id: Some("id".to_string()),
    });
    let kp = KeyPair::fetch_step(answer).unwrap();
    assert_eq!((kp.priv_key.as_str(), kp.pub_key.as_str(), kp.key_id.as_str()), ("a", "b", "id"));
    assert_eq!(
        KeyPair::fetch_step(HttpOutcome::BadStatus("503".to_string(), "busy".to_string())).unwrap_err(),
        "PKI service returned an error (HTTP 503): busy"
    );
    assert_eq!(
        KeyPair::fetch_step(HttpOutcome::BadBody("eof".to_string())).unwrap_err(),
        "cannot parse response JSON: eof"
    );
    assert_eq!(
        KeyPair::fetch_step(refused()).unwrap_err(),
        "network failure: connection refused"
    );
}

#[test]
fn verdicts_of_calls() {
    assert!(matches!(RemoteVerdict::from_call(Ok(true)), RemoteVerdict::Accepted));
    assert!(matches!(RemoteVerdict::from_call(Ok(false)), RemoteVerdict::Rejected));
    assert!(matches!(
        RemoteVerdict::from_call(Err("down".to_string())),
        RemoteVerdict::Failed(m) if m == "down"
    ));
}

#[test]
fn every_network_signature_needs_its_own_verdict() {
    let mut ctx = network_context();
    let first = ctx.add_sig(PKCS::new(), SIGTYPE::NETWORK);
    let second = ctx.add_sig(PKCS::new(), SIGTYPE::NETWORK);
    ctx.set_network_signature(first, "one".to_string()).unwrap();
    ctx.set_network_signature(second, "two".to_string()).unwrap();
    let (_pkg, _table, bin) = ctx.encode_to_crate_package().unwrap();

    let parsed = CratePackage::decode_from_slice(&bin).unwrap();
    let requests = PackageContext::network_verify_requests(&parsed).unwrap();
    let signatures: Vec<&str> = requests.iter().map(|q| q.signature.as_str()).collect();
    assert_eq!(signatures, vec!["one", "two"]);

    let decode = |verdicts: Vec<RemoteVerdict>| {
        let mut back = PackageContext::new();
        back.network_client = Some(client(3));
        back.decode_with_verdicts(&bin, &verdicts).map(|_| back.sigs.len())
    };
    assert_eq!(decode(vec![RemoteVerdict::Accepted, RemoteVerdict::Accepted]).unwrap(), 2);
    assert!(matches!(
        decode(vec![RemoteVerdict::Accepted, RemoteVerdict::Rejected]),
        Err(CrateSpecError::SignatureError(_))
    ));
    assert!(matches!(
        decode(vec![RemoteVerdict::Rejected, RemoteVerdict::Accepted]),
        Err(CrateSpecError::SignatureError(_))
    ));
    assert!(matches!(decode(vec![RemoteVerdict::Accepted]), Err(CrateSpecError::Other(_))));
}

#[test]
fn a_context_with_signature_records_cannot_take_a_signed_container() {
    let mut ctx = network_context();
    let index = ctx.add_sig(PKCS::new(), SIGTYPE::NETWORK);
    ctx.set_network_signature(index, "one".to_string()).unwrap();
    let (_pkg, _table, bin) = ctx.encode_to_crate_package().unwrap();
    let mut used = PackageContext::new();
    used.network_client = Some(client(3));
    used.add_sig(PKCS::new(), SIGTYPE::NETWORK);
    assert!(matches!(
        used.decode_with_verdicts(&bin, &[RemoteVerdict::Accepted, RemoteVerdict::Accepted]),
        Err(CrateSpecError::Other(_))
    ));
}

/// Runs a verification call whose attempts end as `outcomes` say and gives
/// the verdict that the call amounts to.
fn verdict_after(c: &PkiClient, outcomes: Vec<HttpOutcome<VerifyDigestResponse>>) -> RemoteVerdict {
    let mut attempt = 0;
    for outcome in outcomes {
        match c.verify_step(attempt, outcome) {
            Step::Done(r) => return RemoteVerdict::from_call(r),
            Step::RetryAfter(_, next) => attempt = next,
        }
    }
    panic!("the call did not end");
}

#[test]
fn a_signature_that_the_service_rejects_is_a_signature_error() {
    let c = client(2);
    let rejected = verdict_after(&c, vec![refused(), verified("INVALID", Some("digest differs"))]);
    assert!(matches!(rejected, RemoteVerdict::Rejected));
    assert!(matches!(judge_remote(&rejected), Err(CrateSpecError::SignatureError(_))));
    let accepted = verdict_after(&c, vec![verified("OK", None)]);
    assert!(judge_remote(&accepted).is_ok());
    let failed = verdict_after(&c, vec![HttpOutcome::BadStatus("500".to_string(), "x".to_string())]);
    assert!(matches!(judge_remote(&failed), Err(CrateSpecError::PkiError(_))));
    let unreachable = verdict_after(&c, vec![refused(), refused(), refused()]);
    match judge_remote(&unreachable) {
        Err(CrateSpecError::PkiError(m)) => assert!(m.starts_with("network failure"), "{}", m),
        other => panic!("expected a PKI error, got {:?}", other),
    }
}

#[test]
fn a_length_that_the_input_only_claims_is_refused() {
    // 253 announces a 64-bit length; the length claimed is 2^64 - 1
    let claim = [253u8, 0xff, 0xff, 0xff, 0xff, 0xff, 0xff, 0xff, 0xff];
    assert!(NetworkSignature::from_bytes(&claim).is_err());
    assert!(KeyPair::from_bytes(&claim).is_err());
    assert!(KeyPair::get_or_fetch_step(Some(claim.to_vec())).is_none());
    assert!(matches!(
        network_verify_request(&claim, &[1, 2, 3]),
        Err(CrateSpecError::DecodeError(_))
    ));
    // a length beyond the limit of the reader, with bytes to match
    let mut long = vec![252u8, 0x00, 0x00, 0x02, 0x00];
    long.extend(vec![b'a'; 0x20000]);
    long.extend(vec![0u8; 8]);
    assert!(NetworkSignature::from_bytes(&long).is_err());
    // a key pair may be that long
    let kp = KeyPair::from_bytes(&long).unwrap();
    assert_eq!(kp.priv_key.len(), 0x20000);
    assert_eq!(KeyPair::from_bytes(&kp.to_bytes().unwrap()).unwrap().priv_key, kp.priv_key);
}

#[test]
fn signatures_are_judged_in_their_order() {
    let mut ctx = network_context();
    ctx.add_sig(PKCS::new(), SIGTYPE::CRATEBIN);
    let network = ctx.add_sig(PKCS::new(), SIGTYPE::NETWORK);
    ctx.add_sig(PKCS::new(), SIGTYPE::FILE);
    ctx.set_network_signature(network, "deadbeef".to_string()).unwrap();
    let file = vec![1u8; 32];
    let archive = vec![2u8; 32];
    let accepted = [RemoteVerdict::Accepted];
    let good = vec![Ok(archive.clone()), Ok(file.clone())];
    assert!(ctx.judge_signatures(&file, &archive, &good, &accepted).is_ok());
    // every local signature must enclose the digest of what it covers
    let swapped = vec![Ok(file.clone()), Ok(archive.clone())];
    assert!(matches!(
        ctx.judge_signatures(&file, &archive, &swapped, &accepted),
        Err(CrateSpecError::SignatureError(_))
    ));
    // and must have been verified
    let failed = vec![Ok(archive.clone()), Err(CrateSpecError::Other("no store".to_string()))];
    match ctx.judge_signatures(&file, &archive, &failed, &accepted) {
        Err(CrateSpecError::SignatureError(m)) => assert_eq!(m, "no store"),
        other => panic!("expected a signature error, got {:?}", other),
    }
    let one = vec![Ok(archive.clone())];
    assert!(matches!(
        ctx.judge_signatures(&file, &archive, &one, &accepted),
        Err(CrateSpecError::Other(_))
    ));
    // the first record at fault decides
    let rejected = [RemoteVerdict::Rejected];
    assert!(matches!(
        ctx.judge_signatures(&file, &archive, &one, &rejected),
        Err(CrateSpecError::SignatureError(_))
    ));
    let down = [RemoteVerdict::Failed("down".to_string())];
    assert!(matches!(
        ctx.judge_signatures(&file, &archive, &good, &down),
        Err(CrateSpecError::PkiError(_))
    ));
    assert!(matches!(
        ctx.judge_signatures(&file, &archive, &swapped, &down),
        Err(CrateSpecError::SignatureError(_))
    ));
    assert!(matches!(
        ctx.judge_signatures(&file, &archive, &good, &[]),
        Err(CrateSpecError::Other(_))
    ));
}

#[test]
fn what_is_written_is_read_back() {
    let kp = KeyPair {
        priv_key: "p".repeat(3000),
        pub_key: "q".repeat(500),
        key_id: String::new(),
        base_config: base_config(),
    };
    let bytes = kp.to_bytes().unwrap();
    let back = KeyPair::get_or_fetch_step(Some(bytes)).unwrap();
    assert_eq!(back.priv_key, kp.priv_key);
    assert_eq!(back.pub_key, kp.pub_key);
    assert_eq!(back.key_id, "");
    assert_eq!(back.base_config.flow, "classic");

    // a signature that fills the room reserved for it to the last byte
    let sig = NetworkSignature {
        pub_key: "k".repeat(400),
        signature: "s".repeat(600),
        algo: "a".repeat(14),
        flow: String::new(),
        kms: None,
        key_id: None,
    };
    let bytes = sig.to_bytes().unwrap();
    assert_eq!(bytes.len(), 1024);
    let back = NetworkSignature::from_bytes(&bytes).unwrap();
    assert_eq!(back.pub_key, sig.pub_key);
    assert_eq!(back.signature, sig.signature);
    assert_eq!(back.algo, sig.algo);
}

#[test]
fn the_first_record_at_fault_ends_the_encoding() {
    let mut ctx = network_context();
    let long = ctx.add_sig(PKCS::new(), SIGTYPE::NETWORK);
    ctx.add_sig(PKCS::new(), SIGTYPE::NETWORK);
    ctx.set_network_signature(long, "x".repeat(2000)).unwrap();
    assert!(matches!(ctx.encode_to_crate_package(), Err(CrateSpecError::EncodeError(_))));

    let mut ctx = network_context();
    ctx.add_sig(PKCS::new(), SIGTYPE::NETWORK);
    let long = ctx.add_sig(PKCS::new(), SIGTYPE::NETWORK);
    ctx.set_network_signature(long, "x".repeat(2000)).unwrap();
    assert!(matches!(ctx.encode_to_crate_package(), Err(CrateSpecError::Other(_))));

    let mut ctx = network_context();
    let first = ctx.add_sig(PKCS::new(), SIGTYPE::NETWORK);
    let second = ctx.add_sig(PKCS::new(), SIGTYPE::NETWORK);
    ctx.set_network_signature(first, "aa".to_string()).unwrap();
    ctx.set_network_signature(second, "bb".to_string()).unwrap();
    assert!(ctx.encode_to_crate_package().is_ok());
}
