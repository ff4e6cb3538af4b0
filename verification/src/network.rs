//! The remote signer: the values exchanged with the PKI service, their
//! compact binary form, and the decisions of the retry policy.
//!
//! The HTTP calls themselves are made by the caller. This module says what
//! to send, what to do with each outcome, and when to try again.

use vstd::prelude::*;
use vstd::string::*;

verus! {

/// Seconds after which one HTTP attempt is given up.
pub const DEFAULT_HTTP_TIMEOUT_SECS: u64 = 30;

/// Mode bits of the key-pair file: read and write for the owner only.
pub const KEYPAIR_FILE_MODE: u32 = 0o600;

/// Retries where the configuration names none.
pub const DEFAULT_RETRY_TIMES: u32 = 3;

/// Milliseconds between attempts where the configuration names none.
pub const DEFAULT_RETRY_DELAY_MS: u64 = 1000;

/// The algorithm family, the key-management target and the signing flow
/// that every call to the PKI service names.
#[derive(Debug, Clone)]
pub struct BaseConfig {
    pub algo: String,
    pub kms: String,
    pub flow: String,
}

/// The value of a `BaseConfig`.
pub struct BaseConfigView {
    pub algo: Seq<char>,
    pub kms: Seq<char>,
    pub flow: Seq<char>,
}

impl View for BaseConfig {
    type V = BaseConfigView;

    open spec fn view(&self) -> BaseConfigView {
        BaseConfigView { algo: self.algo@, kms: self.kms@, flow: self.flow@ }
    }
}

/// A key pair issued by the PKI service.
#[derive(Debug, Clone)]
pub struct KeyPair {
    pub priv_key: String,
    pub pub_key: String,
    pub key_id: String,
    pub base_config: BaseConfig,
}

/// The value of a `KeyPair`.
pub struct KeyPairView {
    pub priv_key: Seq<char>,
    pub pub_key: Seq<char>,
    pub key_id: Seq<char>,
    pub base_config: BaseConfigView,
}

impl View for KeyPair {
    type V = KeyPairView;

    open spec fn view(&self) -> KeyPairView {
        KeyPairView {
            priv_key: self.priv_key@,
            pub_key: self.pub_key@,
            key_id: self.key_id@,
            base_config: self.base_config@,
        }
    }
}

/// A signature made by the PKI service, as it is stored in a signature
/// structure.
#[derive(Debug, Clone)]
pub struct NetworkSignature {
    pub pub_key: String,
    pub signature: String,
    pub algo: String,
    pub flow: String,
    pub kms: Option<String>,
    pub key_id: Option<String>,
}

/// The value of a `NetworkSignature`.
pub struct NetworkSignatureView {
    pub pub_key: Seq<char>,
    pub signature: Seq<char>,
    pub algo: Seq<char>,
    pub flow: Seq<char>,
    pub kms: Option<Seq<char>>,
    pub key_id: Option<Seq<char>>,
}

/// The value of an optional string.
pub open spec fn opt_view(o: Option<String>) -> Option<Seq<char>> {
    match o {
        Some(s) => Some(s@),
        None => None,
    }
}

impl View for NetworkSignature {
    type V = NetworkSignatureView;

    open spec fn view(&self) -> NetworkSignatureView {
        NetworkSignatureView {
            pub_key: self.pub_key@,
            signature: self.signature@,
            algo: self.algo@,
            flow: self.flow@,
            kms: opt_view(self.kms),
            key_id: opt_view(self.key_id),
        }
    }
}

/// The address of the PKI service and the retry policy of its client.
#[derive(Debug, Clone)]
pub struct PkiClient {
    pub base_url: String,
    pub retry_times: u32,
    pub retry_delay: u64,
}

/// The most bytes that reading a network signature may claim. A signature
/// that fits the room reserved for it claims fewer.
pub const NETWORK_SIGNATURE_LIMIT: usize = 2048;

/// The most bytes that reading a key pair may claim: sixteen mebibytes,
/// far above what keys in PEM form take. There has to be a limit, since a
/// reader without one allocates whatever length its input claims.
pub const KEY_PAIR_LIMIT: usize = 0x100_0000;

/// What reading a compact binary form claims beyond its length: eight
/// bytes for every length, whatever it takes on the wire.
pub const CLAIM_SLACK: usize = 64;

/// The compact binary form of a network signature.
pub uninterp spec fn network_signature_bytes(sig: NetworkSignatureView) -> Seq<u8>;

/// The network signature that a compact binary form stands for, if it
/// stands for one that can be read within `NETWORK_SIGNATURE_LIMIT`.
pub uninterp spec fn network_signature_from(bytes: Seq<u8>) -> Option<NetworkSignatureView>;

/// The compact binary form of a key pair.
pub uninterp spec fn key_pair_bytes(kp: KeyPairView) -> Seq<u8>;

/// The key pair that a compact binary form stands for, if it stands for
/// one that can be read within `KEY_PAIR_LIMIT`.
pub uninterp spec fn key_pair_from(bytes: Seq<u8>) -> Option<KeyPairView>;

/// `bincode::encode_to_vec` with the standard configuration, on the fields
/// of a network signature in their order. Writing strings and optional
/// strings into a vector has no way to fail, so it succeeds, and the result
/// is the compact binary form of the signature. As bincode documents,
/// reading that form gives the signature back; this is stated where the
/// form is short enough for the limit of the reader.
#[verifier::external_body]
fn bincode_encode_network_signature(sig: &NetworkSignature) -> (r: core::result::Result<
    Vec<u8>,
    String,
>)
    ensures
        r is Ok,
        r matches Ok(v) ==> v@ == network_signature_bytes(sig@),
        r matches Ok(v) ==> (v@.len() + CLAIM_SLACK <= NETWORK_SIGNATURE_LIMIT
            ==> network_signature_from(v@) == Some(sig@)),
{
    let fields = (&sig.pub_key, &sig.signature, &sig.algo, &sig.flow, &sig.kms, &sig.key_id);
    bincode::encode_to_vec(fields, bincode::config::standard()).map_err(|e| e.to_string())
}

/// `bincode::decode_from_slice` with the standard configuration and a limit
/// of `NETWORK_SIGNATURE_LIMIT` bytes, for the fields of a network
/// signature in their order: it succeeds exactly where the bytes begin with
/// the compact binary form of a signature that can be read within the
/// limit, and yields it. The limit keeps bincode from allocating what a
/// length in the input claims.
#[verifier::external_body]
fn bincode_decode_network_signature(bytes: &[u8]) -> (r: core::result::Result<
    NetworkSignature,
    String,
>)
    ensures
        r is Ok <==> network_signature_from(bytes@) is Some,
        r matches Ok(sig) ==> Some(sig@) == network_signature_from(bytes@),
{
    bincode::decode_from_slice::<
        (String, String, String, String, Option<String>, Option<String>),
        _,
    >(bytes, bincode::config::standard().with_limit::<NETWORK_SIGNATURE_LIMIT>())
        .map(|(f, _)| NetworkSignature { pub_key: f.0, signature: f.1, algo: f.2, flow: f.3, kms: f.4, key_id: f.5 })
        .map_err(|e| e.to_string())
}

/// `bincode::encode_to_vec` with the standard configuration, on the fields
/// of a key pair in their order. Writing strings into a vector has no way
/// to fail, so it succeeds, and the result is the compact binary form of
/// the key pair. As bincode documents, reading that form gives the key pair
/// back; this is stated where the form is short enough for the limit of
/// the reader.
#[verifier::external_body]
fn bincode_encode_key_pair(kp: &KeyPair) -> (r: core::result::Result<Vec<u8>, String>)
    ensures
        r is Ok,
        r matches Ok(v) ==> v@ == key_pair_bytes(kp@),
        r matches Ok(v) ==> (v@.len() + CLAIM_SLACK <= KEY_PAIR_LIMIT ==> key_pair_from(v@) == Some(
            kp@,
        )),
{
    let base = (&kp.base_config.algo, &kp.base_config.kms, &kp.base_config.flow);
    let fields = (&kp.priv_key, &kp.pub_key, &kp.key_id, base);
    bincode::encode_to_vec(fields, bincode::config::standard()).map_err(|e| e.to_string())
}

/// `bincode::decode_from_slice` with the standard configuration and a limit
/// of `KEY_PAIR_LIMIT` bytes, for the fields of a key pair in their order:
/// it succeeds exactly where the bytes begin with the compact binary form
/// of a key pair that can be read within the limit, and yields it. The
/// limit keeps bincode from allocating what a length in the input claims.
#[verifier::external_body]
fn bincode_decode_key_pair(bytes: &[u8]) -> (r: core::result::Result<KeyPair, String>)
    ensures
        r is Ok <==> key_pair_from(bytes@) is Some,
        r matches Ok(kp) ==> Some(kp@) == key_pair_from(bytes@),
{
    bincode::decode_from_slice::<(String, String, String, (String, String, String)), _>(
        bytes,
        bincode::config::standard().with_limit::<KEY_PAIR_LIMIT>(),
    )
        .map(|(f, _)| KeyPair { priv_key: f.0, pub_key: f.1, key_id: f.2, base_config: BaseConfig { algo: (f.3).0, kms: (f.3).1, flow: (f.3).2 } })
        .map_err(|e| e.to_string())
}

impl NetworkSignature {
    /// The compact binary form of the signature. Reading it gives the
    /// signature back where it is short enough for the reader.
    pub fn to_bytes(&self) -> (r: core::result::Result<Vec<u8>, String>)
        ensures
            r is Ok,
            r matches Ok(v) ==> v@ == network_signature_bytes(self@),
            r matches Ok(v) ==> (v@.len() + CLAIM_SLACK <= NETWORK_SIGNATURE_LIMIT
                ==> network_signature_from(v@) == Some(self@)),
    {
        bincode_encode_network_signature(self)
    }

    /// The signature that `bytes` begin with.
    pub fn from_bytes(bytes: &[u8]) -> (r: core::result::Result<NetworkSignature, String>)
        ensures
            r is Ok <==> network_signature_from(bytes@) is Some,
            r matches Ok(sig) ==> Some(sig@) == network_signature_from(bytes@),
    {
        bincode_decode_network_signature(bytes)
    }
}

/// The key pair that is found in what was read of the key-pair file: none
/// where there was no file, or where it holds no key pair.
pub open spec fn stored_key_pair(stored: Option<Seq<u8>>) -> Option<KeyPairView> {
    match stored {
        None => None,
        Some(bytes) => key_pair_from(bytes),
    }
}

/// The bytes of what was read of the key-pair file.
pub open spec fn stored_bytes(stored: Option<Vec<u8>>) -> Option<Seq<u8>> {
    match stored {
        None => None,
        Some(bytes) => Some(bytes@),
    }
}

impl KeyPair {
    /// The compact binary form of the key pair, as it is kept in a file.
    /// Reading it gives the key pair back where it is short enough for the
    /// reader: a key pair that was kept is found again, and none is fetched
    /// in its place.
    pub fn to_bytes(&self) -> (r: core::result::Result<Vec<u8>, String>)
        ensures
            r is Ok,
            r matches Ok(v) ==> v@ == key_pair_bytes(self@),
            r matches Ok(v) ==> (v@.len() + CLAIM_SLACK <= KEY_PAIR_LIMIT ==> stored_key_pair(
                Some(v@),
            ) == Some(self@)),
    {
        bincode_encode_key_pair(self)
    }

    /// The key pair that `bytes` begin with.
    pub fn from_bytes(bytes: &[u8]) -> (r: core::result::Result<KeyPair, String>)
        ensures
            r is Ok <==> key_pair_from(bytes@) is Some,
            r matches Ok(kp) ==> Some(kp@) == key_pair_from(bytes@),
    {
        bincode_decode_key_pair(bytes)
    }
}

/// The lower-case hexadecimal digit of a value below 16.
pub open spec fn hex_char(n: int) -> char {
    if n == 0 {
        '0'
    } else if n == 1 {
        '1'
    } else if n == 2 {
        '2'
    } else if n == 3 {
        '3'
    } else if n == 4 {
        '4'
    } else if n == 5 {
        '5'
    } else if n == 6 {
        '6'
    } else if n == 7 {
        '7'
    } else if n == 8 {
        '8'
    } else if n == 9 {
        '9'
    } else if n == 10 {
        'a'
    } else if n == 11 {
        'b'
    } else if n == 12 {
        'c'
    } else if n == 13 {
        'd'
    } else if n == 14 {
        'e'
    } else {
        'f'
    }
}

/// The lower-case hexadecimal form of a sequence of bytes: two digits for
/// every byte, the high one first.
pub open spec fn hex_of(bytes: Seq<u8>) -> Seq<char>
    decreases bytes.len(),
{
    if bytes.len() == 0 {
        Seq::empty()
    } else {
        hex_of(bytes.drop_last()) + seq![
            hex_char(bytes.last() as int / 16),
            hex_char(bytes.last() as int % 16),
        ]
    }
}

/// The hexadecimal form has two characters for every byte.
pub proof fn lemma_hex_len(bytes: Seq<u8>)
    ensures
        hex_of(bytes).len() == 2 * bytes.len(),
    decreases bytes.len(),
{
    if bytes.len() > 0 {
        lemma_hex_len(bytes.drop_last());
    }
}

/// The one-character string of a hexadecimal digit.
fn hex_digit_str(n: u8) -> (r: &'static str)
    requires
        n < 16,
    ensures
        r@ == seq![hex_char(n as int)],
{
    proof {
        reveal_strlit("0");
        reveal_strlit("1");
        reveal_strlit("2");
        reveal_strlit("3");
        reveal_strlit("4");
        reveal_strlit("5");
        reveal_strlit("6");
        reveal_strlit("7");
        reveal_strlit("8");
        reveal_strlit("9");
        reveal_strlit("a");
        reveal_strlit("b");
        reveal_strlit("c");
        reveal_strlit("d");
        reveal_strlit("e");
        reveal_strlit("f");
    }
    let r = match n {
        0 => "0",
        1 => "1",
        2 => "2",
        3 => "3",
        4 => "4",
        5 => "5",
        6 => "6",
        7 => "7",
        8 => "8",
        9 => "9",
        10 => "a",
        11 => "b",
        12 => "c",
        13 => "d",
        14 => "e",
        _ => "f",
    };
    proof {
        assert(r@ =~= seq![hex_char(n as int)]);
    }
    r
}

/// The lower-case hexadecimal form of a digest.
pub fn digest_to_hex_string(digest: &[u8]) -> (r: String)
    ensures
        r@ == hex_of(digest@),
{
    let mut out = String::new();
    let mut i: usize = 0;
    proof {
        assert(digest@.take(0) =~= Seq::<u8>::empty());
    }
    while i < digest.len()
        invariant
            i <= digest@.len(),
            out@ == hex_of(digest@.take(i as int)),
        decreases digest@.len() - i,
    {
        let b: u8 = digest[i];
        proof {
            assert(digest@.take(i + 1).drop_last() =~= digest@.take(i as int));
            assert(digest@.take(i + 1).last() == b);
        }
        out.append(hex_digit_str(b / 16));
        out.append(hex_digit_str(b % 16));
        i = i + 1;
        proof {
            assert(out@ =~= hex_of(digest@.take(i as int)));
        }
    }
    proof {
        assert(digest@.take(i as int) =~= digest@);
    }
    out
}

/// What is sent to the PKI service to have a key pair issued.
#[derive(Debug, Clone)]
pub struct KeyPairRequest {
    pub algo: String,
    pub kms: String,
    pub flow: String,
}

/// What the PKI service answers to a key-pair request.
#[derive(Debug, Clone)]
pub struct KeyPairResponse {
    pub base_config: BaseConfig,
    pub priv_key: String,
    pub pub_key: String,
    pub key_id: Option<String>,
}

/// What is sent to the PKI service to have a digest signed.
#[derive(Debug, Clone)]
pub struct SignDigestRequest {
    pub base_config: BaseConfig,
    pub priv_key: String,
    pub digest: String,
}

/// What the PKI service answers to a signing request.
#[derive(Debug, Clone)]
pub struct SignDigestResponse {
    pub base_config: BaseConfig,
    pub signature: String,
    pub cert: Option<String>,
}

/// What is sent to the PKI service to have a signature verified.
#[derive(Debug, Clone)]
pub struct VerifyDigestRequest {
    pub base_config: BaseConfig,
    pub pub_key: String,
    pub digest: String,
    pub signature: String,
}

/// What the PKI service answers to a verification request.
#[derive(Debug, Clone)]
pub struct VerifyDigestResponse {
    pub base_config: BaseConfig,
    pub result: String,
    pub error: Option<String>,
}

/// How one HTTP attempt ended.
#[derive(Debug)]
pub enum HttpOutcome<T> {
    /// The service answered with a success status and a body that parsed.
    Answer(T),
    /// The service answered with a success status and a body that did not
    /// parse; holds the parser's message.
    BadBody(String),
    /// The service answered with another status; holds the status and the body.
    BadStatus(String, String),
    /// No answer came; says whether the failure is a timeout, a failure to
    /// connect or a failure to build the request, and holds its message.
    Transport(bool, String),
}

/// What the client does after one HTTP attempt.
#[derive(Debug)]
pub enum Step<T> {
    /// The call is over, with this result.
    Done(core::result::Result<T, String>),
    /// Wait for so many milliseconds, then make the attempt of this number.
    RetryAfter(u64, u32),
}

impl KeyPair {
    /// The address of the key-pair endpoint under `base_url`.
    pub fn keypair_url(base_url: &str) -> (r: String)
        ensures
            r@ == base_url@ + "/v1/keypair"@,
    {
        let mut url = String::from_str(base_url);
        url.append("/v1/keypair");
        url
    }

    /// The request that asks for a key pair under `base_config`.
    pub fn fetch_request(base_config: &BaseConfig) -> (r: KeyPairRequest)
        ensures
            r.algo@ == base_config.algo@,
            r.kms@ == base_config.kms@,
            r.flow@ == base_config.flow@,
    {
        KeyPairRequest {
            algo: base_config.algo.clone(),
            kms: base_config.kms.clone(),
            flow: base_config.flow.clone(),
        }
    }

    /// The key pair that the service's answer holds; a missing key id is
    /// the empty string.
    pub fn from_response(resp: KeyPairResponse) -> (r: KeyPair)
        ensures
            r.priv_key == resp.priv_key,
            r.pub_key == resp.pub_key,
            r.base_config == resp.base_config,
            r.key_id@ == (match resp.key_id {
                Some(k) => k@,
                None => Seq::<char>::empty(),
            }),
    {
        let key_id = match resp.key_id {
            Some(k) => k,
            None => String::new(),
        };
        KeyPair {
            priv_key: resp.priv_key,
            pub_key: resp.pub_key,
            key_id,
            base_config: resp.base_config,
        }
    }

    /// The key pair that a key-pair request ended with: the one that the
    /// service's answer holds, or an error where the service refused, its
    /// answer did not parse, or no answer came. A key-pair request is not
    /// retried.
    pub fn fetch_step(outcome: HttpOutcome<KeyPairResponse>) -> (r: core::result::Result<
        KeyPair,
        String,
    >)
        ensures
            r is Ok <==> outcome is Answer,
            r matches Ok(kp) ==> {
                let resp = outcome->Answer_0;
                &&& kp.priv_key == resp.priv_key
                &&& kp.pub_key == resp.pub_key
                &&& kp.base_config == resp.base_config
                &&& kp.key_id@ == (match resp.key_id {
                    Some(k) => k@,
                    None => Seq::<char>::empty(),
                })
            },
            r matches Err(m) ==> m@ == (match outcome {
                HttpOutcome::Answer(_) => Seq::<char>::empty(),
                HttpOutcome::BadBody(d) => "cannot parse response JSON: "@ + d@,
                HttpOutcome::BadStatus(status, body) => "PKI service returned an error (HTTP "@
                    + status@ + "): "@ + body@,
                HttpOutcome::Transport(_, d) => "network failure: "@ + d@,
            }),
    {
        match outcome {
            HttpOutcome::Answer(resp) => Ok(KeyPair::from_response(resp)),
            HttpOutcome::BadBody(m) => Err(bad_body_message(m.as_str())),
            HttpOutcome::BadStatus(status, body) => Err(
                bad_status_message(status.as_str(), body.as_str()),
            ),
            HttpOutcome::Transport(_, m) => {
                let mut message = String::from_str("network failure: ");
                message.append(m.as_str());
                Err(message)
            },
        }
    }

    /// What to do with the outcome of reading the key-pair file: use the key
    /// pair that it held, or fetch a new one where the file is missing or
    /// does not hold one.
    pub fn get_or_fetch_step(stored: Option<Vec<u8>>) -> (r: Option<KeyPair>)
        ensures
            r is Some <==> stored_key_pair(stored_bytes(stored)) is Some,
            r matches Some(kp) ==> Some(kp@) == stored_key_pair(stored_bytes(stored)),
    {
        match stored {
            None => None,
            Some(bytes) => match KeyPair::from_bytes(bytes.as_slice()) {
                Ok(kp) => Some(kp),
                Err(_) => None,
            },
        }
    }
}

impl PkiClient {
    /// A client of the service at `base_url` that retries `retry_times`
    /// times, `retry_delay` milliseconds apart.
    pub fn new(base_url: String, retry_times: u32, retry_delay: u64) -> (r: core::result::Result<
        Self,
        String,
    >)
        ensures
            r matches Ok(c) && c.base_url == base_url && c.retry_times == retry_times
                && c.retry_delay == retry_delay,
    {
        Ok(PkiClient { base_url, retry_times, retry_delay })
    }

    /// The address of the signing endpoint.
    pub fn sign_url(&self) -> (r: String)
        ensures
            r@ == self.base_url@ + "/v1/sign/digest"@,
    {
        let mut url = self.base_url.clone();
        url.append("/v1/sign/digest");
        url
    }

    /// The address of the verification endpoint.
    pub fn verify_url(&self) -> (r: String)
        ensures
            r@ == self.base_url@ + "/v1/verify/digest"@,
    {
        let mut url = self.base_url.clone();
        url.append("/v1/verify/digest");
        url
    }

    /// The request that asks to sign `digest` with `priv_key`.
    pub fn sign_request(priv_key: &str, digest: &str, base_config: &BaseConfig) -> (r:
        SignDigestRequest)
        ensures
            r.base_config@ == base_config@,
            r.priv_key@ == priv_key@,
            r.digest@ == digest@,
    {
        SignDigestRequest {
            base_config: BaseConfig {
                algo: base_config.algo.clone(),
                kms: base_config.kms.clone(),
                flow: base_config.flow.clone(),
            },
            priv_key: String::from_str(priv_key),
            digest: String::from_str(digest),
        }
    }

    /// The request that asks to verify `signature` over `digest` with `pub_key`.
    pub fn verify_request(pub_key: &str, digest: &str, signature: &str, base_config: &BaseConfig) -> (r:
        VerifyDigestRequest)
        ensures
            r.base_config@ == base_config@,
            r.pub_key@ == pub_key@,
            r.digest@ == digest@,
            r.signature@ == signature@,
    {
        VerifyDigestRequest {
            base_config: BaseConfig {
                algo: base_config.algo.clone(),
                kms: base_config.kms.clone(),
                flow: base_config.flow.clone(),
            },
            pub_key: String::from_str(pub_key),
            digest: String::from_str(digest),
            signature: String::from_str(signature),
        }
    }

    /// What to do after attempt `attempt` of a call failed without an answer.
    fn transport_step<T>(&self, attempt: u32, retryable: bool, message: String, url: &str) -> (r:
        Step<T>)
        ensures
            retryable && attempt < self.retry_times ==> r == Step::<T>::RetryAfter(
                self.retry_delay,
                (attempt + 1) as u32,
            ),
            !(retryable && attempt < self.retry_times) ==> (r matches Step::Done(Err(m)) && m@
                == transport_message(message@, url@)),
    {
        if retryable && attempt < self.retry_times {
            Step::RetryAfter(self.retry_delay, attempt + 1)
        } else {
            let mut m = String::from_str("network failure: ");
            m.append(message.as_str());
            m.append(" (URL: ");
            m.append(url);
            m.append(")");
            Step::Done(Err(m))
        }
    }

    /// What to do after attempt `attempt` of a signing call ended with
    /// `outcome`: an answer of the service ends the call, with the signature
    /// and the certificate where the status was a success and the body
    /// parsed, with an error otherwise; a transport failure is retried while
    /// it is retryable and retries are left.
    pub fn sign_step(&self, attempt: u32, outcome: HttpOutcome<SignDigestResponse>) -> (r: Step<
        (String, Option<String>),
    >)
        ensures
            decision_of(r) == decide(*self, attempt, sign_kind(outcome)),
            outcome matches HttpOutcome::Answer(resp) ==> r == Step::Done(
                Ok::<(String, Option<String>), String>((resp.signature, resp.cert)),
            ),
            r matches Step::RetryAfter(delay, next) ==> delay == self.retry_delay && next == attempt
                + 1,
            r matches Step::Done(Err(m)) ==> m@ == failure_message(
                *self,
                outcome,
                self.base_url@ + "/v1/sign/digest"@,
            ),
    {
        match outcome {
            HttpOutcome::Answer(resp) => Step::Done(Ok((resp.signature, resp.cert))),
            HttpOutcome::BadBody(m) => Step::Done(Err(bad_body_message(m.as_str()))),
            HttpOutcome::BadStatus(status, body) => Step::Done(
                Err(bad_status_message(status.as_str(), body.as_str())),
            ),
            HttpOutcome::Transport(retryable, m) => {
                let url = self.sign_url();
                self.transport_step(attempt, retryable, m, url.as_str())
            },
        }
    }

    /// What to do after attempt `attempt` of a verification call ended with
    /// `outcome`: an answer of the service ends the call, with `true` where
    /// the result is `OK` and with `false` where it is anything else; an
    /// answer that is no success or does not parse ends it with an error; a
    /// transport failure is retried while it is retryable and retries are
    /// left.
    pub fn verify_step(&self, attempt: u32, outcome: HttpOutcome<VerifyDigestResponse>) -> (r: Step<
        bool,
    >)
        ensures
            verdict_of(r) == decide(*self, attempt, verify_kind(outcome)),
            r matches Step::RetryAfter(delay, next) ==> delay == self.retry_delay && next == attempt
                + 1,
            r matches Step::Done(Err(m)) ==> m@ == failure_message(
                *self,
                outcome,
                self.base_url@ + "/v1/verify/digest"@,
            ),
    {
        match outcome {
            HttpOutcome::Answer(resp) => Step::Done(Ok(str_eq(resp.result.as_str(), "OK"))),
            HttpOutcome::BadBody(m) => Step::Done(Err(bad_body_message(m.as_str()))),
            HttpOutcome::BadStatus(status, body) => Step::Done(
                Err(bad_status_message(status.as_str(), body.as_str())),
            ),
            HttpOutcome::Transport(retryable, m) => {
                let url = self.verify_url();
                self.transport_step(attempt, retryable, m, url.as_str())
            },
        }
    }
}

/// How one HTTP attempt ended, as far as the retry policy looks at it.
pub enum OutcomeKind {
    /// The service answered with a success status and a body that parsed;
    /// says whether the answer is the one that was hoped for.
    Answer(bool),
    /// The service answered with something else.
    Refusal,
    /// No answer came; says whether the failure is of a retryable kind.
    Transport(bool),
}

/// What the client does after one HTTP attempt.
pub enum Decision {
    /// The call ends: the service gave the answer that was hoped for.
    Accept,
    /// The call ends: the service answered, and said otherwise.
    Reject,
    /// The call ends without an answer that can be used.
    Fail,
    /// Another attempt follows.
    Retry,
}

/// How a call ends.
pub enum CallEnd {
    /// The service gave the answer that was hoped for.
    Accepted,
    /// The service answered, and said otherwise.
    Rejected,
    /// No answer that can be used came.
    Failed,
}

/// How an attempt of a signing call ended: every answer that parsed is a
/// signature.
pub open spec fn sign_kind(outcome: HttpOutcome<SignDigestResponse>) -> OutcomeKind {
    match outcome {
        HttpOutcome::Answer(_) => OutcomeKind::Answer(true),
        HttpOutcome::BadBody(_) => OutcomeKind::Refusal,
        HttpOutcome::BadStatus(_, _) => OutcomeKind::Refusal,
        HttpOutcome::Transport(retryable, _) => OutcomeKind::Transport(retryable),
    }
}

/// How an attempt of a verification call ended: the answer that is hoped
/// for is the result `OK`.
pub open spec fn verify_kind(outcome: HttpOutcome<VerifyDigestResponse>) -> OutcomeKind {
    match outcome {
        HttpOutcome::Answer(resp) => OutcomeKind::Answer(resp.result@ == "OK"@),
        HttpOutcome::BadBody(_) => OutcomeKind::Refusal,
        HttpOutcome::BadStatus(_, _) => OutcomeKind::Refusal,
        HttpOutcome::Transport(retryable, _) => OutcomeKind::Transport(retryable),
    }
}

/// The retry policy: an answer of the service ends the call, whatever it
/// says; a transport failure is followed by another attempt where it is
/// of a retryable kind and the attempts made are fewer than the retries.
pub open spec fn decide(client: PkiClient, attempt: u32, kind: OutcomeKind) -> Decision {
    match kind {
        OutcomeKind::Answer(true) => Decision::Accept,
        OutcomeKind::Answer(false) => Decision::Reject,
        OutcomeKind::Refusal => Decision::Fail,
        OutcomeKind::Transport(retryable) => if retryable && attempt < client.retry_times {
            Decision::Retry
        } else {
            Decision::Fail
        },
    }
}

/// What a step amounts to, where every result is the answer hoped for.
pub open spec fn decision_of<T>(step: Step<T>) -> Decision {
    match step {
        Step::Done(Ok(_)) => Decision::Accept,
        Step::Done(Err(_)) => Decision::Fail,
        Step::RetryAfter(_, _) => Decision::Retry,
    }
}

/// What a step of a verification call amounts to.
pub open spec fn verdict_of(step: Step<bool>) -> Decision {
    match step {
        Step::Done(Ok(true)) => Decision::Accept,
        Step::Done(Ok(false)) => Decision::Reject,
        Step::Done(Err(_)) => Decision::Fail,
        Step::RetryAfter(_, _) => Decision::Retry,
    }
}

/// The message of a call that is given up after a transport failure.
pub open spec fn transport_message(message: Seq<char>, url: Seq<char>) -> Seq<char> {
    "network failure: "@ + message + " (URL: "@ + url + ")"@
}

/// The message of a call that fails on an attempt that ended with
/// `outcome`, where the failure is not in what the answer says.
pub open spec fn failure_message<T>(client: PkiClient, outcome: HttpOutcome<T>, url: Seq<char>) -> Seq<
    char,
> {
    match outcome {
        HttpOutcome::Answer(_) => Seq::empty(),
        HttpOutcome::BadBody(m) => "cannot parse response JSON: "@ + m@,
        HttpOutcome::BadStatus(status, body) => "PKI service returned an error (HTTP "@ + status@
            + "): "@ + body@,
        HttpOutcome::Transport(_, m) => transport_message(m@, url),
    }
}

/// How a call ends whose attempts end as `kinds` say, one after the other,
/// the first of them being attempt `attempt`, and how many attempts it
/// makes; `None` where `kinds` run out before the call ends.
pub open spec fn call_outcome(client: PkiClient, attempt: u32, kinds: Seq<OutcomeKind>) -> Option<
    (CallEnd, nat),
>
    decreases kinds.len(),
{
    if kinds.len() == 0 {
        None
    } else {
        match decide(client, attempt, kinds[0]) {
            Decision::Accept => Some((CallEnd::Accepted, 1nat)),
            Decision::Reject => Some((CallEnd::Rejected, 1nat)),
            Decision::Fail => Some((CallEnd::Failed, 1nat)),
            Decision::Retry => match call_outcome(client, (attempt + 1) as u32, kinds.skip(1)) {
                None => None,
                Some((end, n)) => Some((end, n + 1)),
            },
        }
    }
}

/// `failures` attempts that fail to connect, then one that is answered as
/// hoped for.
pub open spec fn refused_then_answered(failures: nat) -> Seq<OutcomeKind> {
    Seq::new(failures, |i: int| OutcomeKind::Transport(true)).push(OutcomeKind::Answer(true))
}

/// A call against a service that refuses `failures` connections and then
/// answers succeeds exactly where the failures are no more than the
/// retries; it makes one attempt more than it met failures, or than it has
/// retries.
pub proof fn lemma_retry_semantics(client: PkiClient, attempt: u32, failures: nat)
    requires
        attempt <= client.retry_times,
    ensures
        call_outcome(client, attempt, refused_then_answered(failures)) == Some(
            if attempt + failures <= client.retry_times {
                (CallEnd::Accepted, failures + 1)
            } else {
                (CallEnd::Failed, (client.retry_times - attempt + 1) as nat)
            },
        ),
    decreases failures,
{
    let kinds = refused_then_answered(failures);
    if failures == 0 {
        assert(kinds[0] == OutcomeKind::Answer(true));
    } else {
        assert(kinds[0] == OutcomeKind::Transport(true));
        if attempt < client.retry_times {
            assert(kinds.skip(1) =~= refused_then_answered((failures - 1) as nat));
            lemma_retry_semantics(client, (attempt + 1) as u32, (failures - 1) as nat);
        }
    }
}

/// A call whose first attempt is answered by the service, with whatever
/// status, ends with that attempt: an answer is never retried. It is
/// accepted where the answer is the one hoped for, rejected where the
/// service says otherwise, and failed where the status is no success or the
/// body does not parse.
pub proof fn lemma_answers_are_final(client: PkiClient, attempt: u32, kinds: Seq<OutcomeKind>)
    requires
        kinds.len() > 0,
        kinds[0] is Answer || kinds[0] is Refusal,
    ensures
        call_outcome(client, attempt, kinds) == Some(
            (
                match kinds[0] {
                    OutcomeKind::Answer(true) => CallEnd::Accepted,
                    OutcomeKind::Answer(false) => CallEnd::Rejected,
                    _ => CallEnd::Failed,
                },
                1nat,
            ),
        ),
{
}

/// Whether two strings hold the same characters.
pub fn str_eq(a: &str, b: &str) -> (r: bool)
    ensures
        r == (a@ == b@),
{
    let x = String::from_str(a);
    let y = String::from_str(b);
    x == y
}

/// The message for an answer whose body did not parse.
fn bad_body_message(detail: &str) -> (r: String)
    ensures
        r@ == "cannot parse response JSON: "@ + detail@,
{
    let mut m = String::from_str("cannot parse response JSON: ");
    m.append(detail);
    m
}

/// The message for an answer with a status that is no success.
fn bad_status_message(status: &str, body: &str) -> (r: String)
    ensures
        r@ == "PKI service returned an error (HTTP "@ + status@ + "): "@ + body@,
{
    let mut m = String::from_str("PKI service returned an error (HTTP ");
    m.append(status);
    m.append("): ");
    m.append(body);
    m
}

} // verus!
