//! The core relayer's submission of a proof to the Solana hub: the account
//! it writes (a program-derived address), the Anchor instruction, the
//! transaction message and its signature. Fetching the blockhash, reading
//! the keypair and sending the transaction happen outside.
use vstd::prelude::*;
use vstd::string::StringSliceAdditionalSpecFns;
use vstd::string::StrSliceExecFns;
use crate::bytes::{sha256_digest, sha256_spec};
use crate::bn254::{
    be_val, scalar_modulus, field_add, field_mul, ge_scalar_field, lemma_moduli, lemma_field_add_reduced,
    scalar_from_u64,
};
use crate::types::InterlinkError;
use crate::rpc_json::{json_byte_array, json_byte_array_spec, json_scalar_at, json_text_at};

verus! {

/// Where the relayer listens and where it submits.
#[derive(Debug, Clone)]
pub struct RelayerConfig {
    pub chain_id: u64,
    /// WebSocket endpoint of the source chain.
    pub rpc_url: String,
    /// RPC endpoint of the Solana hub.
    pub hub_url: String,
    pub gateway_address: String,
    pub solana_program_id: String,
    pub keypair_path: String,
}

/// The relayer node.
#[derive(Debug)]
pub struct Relayer {
    config: RelayerConfig,
}

impl Relayer {
    /// A relayer with this configuration.
    pub fn new(config: RelayerConfig) -> (r: Relayer)
        ensures
            r.config() == config,
    {
        Relayer { config }
    }

    /// The configuration.
    pub closed spec fn config(&self) -> RelayerConfig {
        self.config
    }

    /// The configuration.
    pub fn config_ref(&self) -> (r: &RelayerConfig)
        ensures
            *r == self.config(),
    {
        &self.config
    }
}

/// Anchor discriminator of the hub's `submit_proof` instruction.
pub const SUBMIT_PROOF_SIGHASH: [u8; 8] = [0x1d, 0x11, 0x18, 0x17, 0x11, 0x1a, 0x1c, 0x12];

/// Source chain id written into the instruction.
pub const SUBMIT_SOURCE_ID: u64 = 1;

/// Round constant of the commitment the prover publishes.
pub const PROVER_ROUND_CONSTANT: u64 = 0x1337;

/// The `n` low bytes of `v`, least significant first.
pub open spec fn le_bytes(v: nat, n: nat) -> Seq<u8>
    decreases n,
{
    if n == 0 {
        Seq::empty()
    } else {
        seq![(v % 256) as u8] + le_bytes(v / 256, (n - 1) as nat)
    }
}

fn le_bytes_exec(v: u64, n: usize) -> (r: Vec<u8>)
    requires
        n <= 8,
    ensures
        r@ == le_bytes(v as nat, n as nat),
{
    let mut out: Vec<u8> = Vec::new();
    let mut x: u64 = v;
    let mut k: usize = 0;
    while k < n
        invariant
            k <= n,
            out@ + le_bytes(x as nat, (n - k) as nat) == le_bytes(v as nat, n as nat),
        decreases n - k,
    {
        let ghost before = out@;
        let ghost ox = x;
        let ghost ok = k;
        assert(le_bytes(x as nat, (n - k) as nat) == seq![(x % 256) as u8] + le_bytes(
            (x / 256) as nat,
            (n - k - 1) as nat,
        ));
        out.push((x % 256) as u8);
        x = x / 256;
        k = k + 1;
        assert(out@ + le_bytes(x as nat, (n - k) as nat) =~= before + le_bytes(ox as nat, (n - ok) as nat));
    }
    assert(le_bytes(x as nat, 0) =~= Seq::<u8>::empty());
    assert(out@ =~= out@ + le_bytes(x as nat, 0));
    out
}

/// The little-endian value of a byte string.
pub open spec fn le_val(s: Seq<u8>) -> nat {
    be_val(s.reverse())
}

fn reversed32(s: &[u8; 32]) -> (r: [u8; 32])
    ensures
        r@ == s@.reverse(),
{
    let mut out = [0u8; 32];
    let mut i: usize = 0;
    while i < 32
        invariant
            i <= 32,
            out@.len() == 32,
            forall|k: int| 0 <= k < i ==> #[trigger] out@[k] == s@[31 - k],
        decreases 32 - i,
    {
        out.set(i, s[31 - i]);
        i = i + 1;
    }
    assert(out@ =~= s@.reverse());
    out
}

/// The prover's public input for a payload: the payload hash read as a
/// little-endian field element (the sequence when it is not canonical), plus
/// the round constant, cubed, plus the sequence, modulo r.
pub open spec fn prover_commitment_value(payload_hash: Seq<u8>, sequence: u64) -> nat {
    let r = scalar_modulus();
    let p: nat = if le_val(payload_hash) < r { le_val(payload_hash) } else { sequence as nat };
    let d: nat = (p + PROVER_ROUND_CONSTANT as nat) % r;
    ((((d * d) % r) * d) % r + sequence as nat) % r
}

/// The prover's commitment, as the 32-byte little-endian encoding of the
/// field element.
pub fn prover_commitment(payload_hash: &[u8; 32], sequence: u64) -> (r: [u8; 32])
    ensures
        le_val(r@) == prover_commitment_value(payload_hash@, sequence),
{
    proof {
        lemma_moduli();
    }
    let be = reversed32(payload_hash);
    let p = if ge_scalar_field(&be) {
        scalar_from_u64(sequence)
    } else {
        be
    };
    let c = scalar_from_u64(PROVER_ROUND_CONSTANT);
    proof {
        assert(le_val(payload_hash@) == be_val(be@));
        lemma_field_add_reduced(be_val(p@), be_val(c@));
    }
    let d = field_add(&p, &c);
    let sq = field_mul(&d, &d);
    let cube = field_mul(&sq, &d);
    let s = scalar_from_u64(sequence);
    proof {
        vstd::arithmetic::div_mod::lemma_mod_pos_bound((be_val(sq@) * be_val(d@)) as int, scalar_modulus() as int);
        lemma_field_add_reduced(be_val(cube@), be_val(s@));
    }
    let out = field_add(&cube, &s);
    let r = reversed32(&out);
    assert(r@.reverse() =~= out@);
    r
}

/// The hub's state account: SHA-256 of the seed `state`, the bump 255, the
/// program id and the derivation marker.
pub open spec fn registry_pda_spec(program_id: Seq<u8>) -> Seq<u8> {
    sha256_spec("state".spec_bytes() + seq![255u8] + program_id + "ProgramDerivedAddress".spec_bytes())
}

fn append_bytes(v: &mut Vec<u8>, s: &[u8])
    ensures
        final(v)@ == old(v)@ + s@,
{
    let mut i: usize = 0;
    while i < s.len()
        invariant
            i <= s@.len(),
            v@ == old(v)@ + s@.subrange(0, i as int),
        decreases s@.len() - i,
    {
        v.push(s[i]);
        i = i + 1;
        assert(v@ =~= old(v)@ + s@.subrange(0, i as int));
    }
    assert(s@.subrange(0, s@.len() as int) =~= s@);
}

/// The address of the hub's state account for a program.
pub fn registry_pda(program_id: &[u8]) -> (r: [u8; 32])
    ensures
        r@ == registry_pda_spec(program_id@),
{
    let mut seed: Vec<u8> = Vec::new();
    append_bytes(&mut seed, "state".as_bytes());
    seed.push(255u8);
    append_bytes(&mut seed, program_id);
    append_bytes(&mut seed, "ProgramDerivedAddress".as_bytes());
    assert(seed@ =~= "state".spec_bytes() + seq![255u8] + program_id@
        + "ProgramDerivedAddress".spec_bytes());
    sha256_digest(seed.as_slice())
}

/// The `submit_proof` instruction data: discriminator, source id, sequence,
/// proof length and proof, payload hash and commitment.
pub open spec fn submit_ix_data(
    sequence: u64,
    proof: Seq<u8>,
    payload_hash: Seq<u8>,
    commitment: Seq<u8>,
) -> Seq<u8> {
    SUBMIT_PROOF_SIGHASH@ + le_bytes(SUBMIT_SOURCE_ID as nat, 8) + le_bytes(sequence as nat, 8)
        + le_bytes((proof.len() as u32) as nat, 4) + proof + payload_hash + commitment
}

/// Build the `submit_proof` instruction data.
pub fn build_submit_ix_data(
    sequence: u64,
    proof: &[u8],
    payload_hash: &[u8; 32],
    commitment: &[u8; 32],
) -> (r: Vec<u8>)
    ensures
        r@ == submit_ix_data(sequence, proof@, payload_hash@, commitment@),
{
    let mut ix: Vec<u8> = Vec::new();
    append_bytes(&mut ix, &SUBMIT_PROOF_SIGHASH);
    let t = le_bytes_exec(SUBMIT_SOURCE_ID, 8);
    append_bytes(&mut ix, t.as_slice());
    let t = le_bytes_exec(sequence, 8);
    append_bytes(&mut ix, t.as_slice());
    let t = le_bytes_exec(proof.len() as u32 as u64, 4);
    append_bytes(&mut ix, t.as_slice());
    append_bytes(&mut ix, proof);
    append_bytes(&mut ix, payload_hash);
    append_bytes(&mut ix, commitment);
    ix
}

/// The transaction message: header, the three accounts (relayer, state,
/// program), the blockhash and the one instruction with its data.
pub open spec fn submit_message(
    public_key: Seq<u8>,
    registry: Seq<u8>,
    program_id: Seq<u8>,
    blockhash: Seq<u8>,
    ix_data: Seq<u8>,
) -> Seq<u8> {
    seq![1u8, 0, 1, 3] + public_key + registry + program_id + blockhash + seq![1u8, 2, 2, 1, 0]
        + le_bytes((ix_data.len() as u16) as nat, 2) + ix_data
}

/// Build the transaction message.
pub fn build_submit_message(
    public_key: &[u8; 32],
    registry: &[u8; 32],
    program_id: &[u8],
    blockhash: &[u8],
    ix_data: &[u8],
) -> (r: Vec<u8>)
    ensures
        r@ == submit_message(public_key@, registry@, program_id@, blockhash@, ix_data@),
{
    let mut msg: Vec<u8> = Vec::new();
    msg.push(1);
    msg.push(0);
    msg.push(1);
    msg.push(3);
    append_bytes(&mut msg, public_key);
    append_bytes(&mut msg, registry);
    append_bytes(&mut msg, program_id);
    append_bytes(&mut msg, blockhash);
    msg.push(1);
    msg.push(2);
    msg.push(2);
    msg.push(1);
    msg.push(0);
    let t = le_bytes_exec(ix_data.len() as u16 as u64, 2);
    append_bytes(&mut msg, t.as_slice());
    append_bytes(&mut msg, ix_data);
    assert(msg@ =~= submit_message(public_key@, registry@, program_id@, blockhash@, ix_data@));
    msg
}

/// A signed transaction: one signature, then the message.
pub open spec fn signed_transaction(signature: Seq<u8>, msg: Seq<u8>) -> Seq<u8> {
    seq![1u8] + signature + msg
}

/// Whether `s` holds `w` at some position.
pub open spec fn contains_text(s: Seq<char>, w: Seq<char>) -> bool {
    exists|i: int| 0 <= i && i + w.len() <= s.len() && #[trigger] s.subrange(i, i + w.len()) == w
}

/// Whether the hub's answer to a submission reports an error.
pub fn hub_rejected(response: &str) -> (r: bool)
    ensures
        r == contains_text(response@, "error"@),
{
    proof {
        reveal_strlit("error");
    }
    let n = response.unicode_len();
    if n < 5 {
        return false;
    }
    let mut i: usize = 0;
    while i <= n - 5
        invariant
            n == response@.len(),
            n >= 5,
            i <= n - 4,
            "error"@ == seq!['e', 'r', 'r', 'o', 'r'],
            forall|j: int| 0 <= j < i ==> #[trigger] response@.subrange(j, j + 5) != "error"@,
        decreases n - i,
    {
        if response.get_char(i) == 'e' && response.get_char(i + 1) == 'r' && response.get_char(i + 2)
            == 'r' && response.get_char(i + 3) == 'o' && response.get_char(i + 4) == 'r' {
            assert(response@.subrange(i as int, i + 5) =~= "error"@);
            return true;
        }
        assert(response@.subrange(i as int, i + 5) != "error"@ ) by {
            if response@.subrange(i as int, i + 5) == "error"@ {
                assert(response@.subrange(i as int, i + 5)[0] == response@[i as int]);
                assert(response@.subrange(i as int, i + 5)[1] == response@[i + 1]);
                assert(response@.subrange(i as int, i + 5)[2] == response@[i + 2]);
                assert(response@.subrange(i as int, i + 5)[3] == response@[i + 3]);
                assert(response@.subrange(i as int, i + 5)[4] == response@[i + 4]);
            }
        }
        i = i + 1;
    }
    false
}

/// A text is base64 when it is the standard, padded encoding of some bytes.
pub open spec fn is_base64_text(s: Seq<char>) -> bool {
    exists|b: Seq<u8>| #[trigger] base64_encode_spec(b) == s
}

/// Wraps `base64::engine::general_purpose::STANDARD.decode`. That engine
/// requires canonical padding and zero trailing bits, so it accepts exactly
/// the texts its encoder produces: `Ok` exactly when the text is the
/// encoding of some bytes, and then those bytes. The error is the crate's
/// error rendered as text, of which nothing is claimed.
#[verifier::external_body]
fn base64_decode(s: &str) -> (r: Result<Vec<u8>, String>)
    ensures
        r is Ok <==> is_base64_text(s@),
        r matches Ok(v) ==> base64_encode_spec(v@) == s@,
{
    match base64::Engine::decode(&base64::engine::general_purpose::STANDARD, s) {
        Ok(v) => Ok(v),
        Err(e) => Err(e.to_string()),
    }
}

/// The character of the standard base64 alphabet for a six-bit value.
pub open spec fn base64_char(v: int) -> char {
    if v < 26 {
        ('A' as int + v) as char
    } else if v < 52 {
        ('a' as int + (v - 26)) as char
    } else if v < 62 {
        ('0' as int + (v - 52)) as char
    } else if v == 62 {
        '+'
    } else {
        '/'
    }
}

/// Standard-alphabet, padded base64 encoding of bytes: each group of three
/// bytes becomes four characters, and a last group of one or two bytes is
/// filled with `=` to four.
pub open spec fn base64_encode_spec(data: Seq<u8>) -> Seq<char>
    decreases data.len(),
{
    if data.len() == 0 {
        seq![]
    } else if data.len() == 1 {
        let a = data[0] as int;
        seq![base64_char(a / 4), base64_char((a % 4) * 16), '=', '=']
    } else if data.len() == 2 {
        let a = data[0] as int;
        let b = data[1] as int;
        seq![base64_char(a / 4), base64_char((a % 4) * 16 + b / 16), base64_char((b % 16) * 4), '=']
    } else {
        let a = data[0] as int;
        let b = data[1] as int;
        let c = data[2] as int;
        seq![
            base64_char(a / 4),
            base64_char((a % 4) * 16 + b / 16),
            base64_char((b % 16) * 4 + c / 64),
            base64_char(c % 64),
        ] + base64_encode_spec(data.subrange(3, data.len() as int))
    }
}

/// Wraps `base64::engine::general_purpose::STANDARD.encode`: the text is
/// `base64_encode_spec` of the bytes. The crate panics when the encoded length
/// overflows `usize`, which the bound on the input rules out.
#[verifier::external_body]
fn base64_encode(data: &[u8]) -> (r: String)
    requires
        data@.len() <= usize::MAX / 2,
    ensures
        r@ == base64_encode_spec(data@),
{
    base64::Engine::encode(&base64::engine::general_purpose::STANDARD, data)
}

/// Base58 (Bitcoin alphabet) decoding of a text, where it decodes.
pub uninterp spec fn bs58_decode_spec(s: Seq<char>) -> Option<Seq<u8>>;

/// Wraps `bs58::decode(..).into_vec()`: `Some` exactly when the text
/// decodes, with the bytes named `bs58_decode_spec`.
#[verifier::external_body]
fn bs58_decode(s: &str) -> (r: Option<Vec<u8>>)
    ensures
        r is Some <==> bs58_decode_spec(s@) is Some,
        r matches Some(v) ==> bs58_decode_spec(s@) == Some(v@),
{
    match bs58::decode(s).into_vec() {
        Ok(v) => Some(v),
        Err(_) => None,
    }
}

/// The Ed25519 public key of a 32-byte secret key.
pub uninterp spec fn ed25519_public_key_spec(secret: Seq<u8>) -> Seq<u8>;

/// Wraps `ed25519_dalek::SigningKey::from_bytes(..).verifying_key().to_bytes()`:
/// the public key is named `ed25519_public_key_spec`.
#[verifier::external_body]
fn ed25519_public_key(secret: &[u8; 32]) -> (r: [u8; 32])
    ensures
        r@ == ed25519_public_key_spec(secret@),
{
    ed25519_dalek::SigningKey::from_bytes(secret).verifying_key().to_bytes()
}

/// The Ed25519 signature of a message under a 32-byte secret key (Ed25519
/// signing is deterministic).
pub uninterp spec fn ed25519_sign_spec(secret: Seq<u8>, msg: Seq<u8>) -> Seq<u8>;

/// Wraps `ed25519_dalek::Signer::sign` on `SigningKey::from_bytes(secret)`,
/// then `Signature::to_bytes`: the signature is named `ed25519_sign_spec`.
#[verifier::external_body]
fn ed25519_sign(secret: &[u8; 32], msg: &[u8]) -> (r: [u8; 64])
    ensures
        r@ == ed25519_sign_spec(secret@, msg@),
{
    ed25519_dalek::Signer::sign(&ed25519_dalek::SigningKey::from_bytes(secret), msg).to_bytes()
}

/// A signed `submit_proof` transaction, ready to encode and send.
#[derive(Debug, Clone)]
pub struct HubSubmission {
    pub commitment: [u8; 32],
    pub public_key: [u8; 32],
    pub registry: [u8; 32],
    pub message: Vec<u8>,
    pub signature: [u8; 64],
    pub transaction: Vec<u8>,
}

/// The secret key: the first 32 bytes of the keypair.
pub open spec fn secret_of(key_bytes: Seq<u8>) -> Seq<u8> {
    key_bytes.subrange(0, 32)
}

/// Whether `sub` is the transaction for this proof, under the given
/// blockhash and program id.
pub open spec fn is_submission_for(
    sub: HubSubmission,
    blockhash: Seq<u8>,
    key_bytes: Seq<u8>,
    program_id: Seq<u8>,
    sequence: u64,
    payload_hash: Seq<u8>,
    proof: Seq<u8>,
) -> bool {
    &&& le_val(sub.commitment@) == prover_commitment_value(payload_hash, sequence)
    &&& sub.public_key@ == ed25519_public_key_spec(secret_of(key_bytes))
    &&& sub.registry@ == registry_pda_spec(program_id)
    &&& sub.message@ == submit_message(
        sub.public_key@,
        sub.registry@,
        program_id,
        blockhash,
        submit_ix_data(sequence, proof, payload_hash, sub.commitment@),
    )
    &&& sub.signature@ == ed25519_sign_spec(secret_of(key_bytes), sub.message@)
    &&& sub.transaction@ == signed_transaction(sub.signature@, sub.message@)
}

fn first32(key_bytes: &[u8]) -> (r: [u8; 32])
    requires
        key_bytes@.len() >= 32,
    ensures
        r@ == key_bytes@.subrange(0, 32),
{
    let mut out = [0u8; 32];
    let mut i: usize = 0;
    while i < 32
        invariant
            i <= 32,
            key_bytes@.len() >= 32,
            out@.len() == 32,
            forall|k: int| 0 <= k < i ==> out@[k] == key_bytes@[k],
        decreases 32 - i,
    {
        out.set(i, key_bytes[i]);
        i = i + 1;
    }
    assert(out@ =~= key_bytes@.subrange(0, 32));
    out
}

/// Decode the blockhash the hub reported (base64).
pub fn decode_blockhash(blockhash_b64: &str) -> (r: Result<Vec<u8>, InterlinkError>)
    ensures
        !is_base64_text(blockhash_b64@) ==> r matches Err(InterlinkError::NetworkError(_)),
        is_base64_text(blockhash_b64@) ==> (r matches Ok(b) && base64_encode_spec(b@) == blockhash_b64@),
{
    match base64_decode(blockhash_b64) {
        Ok(b) => Ok(b),
        Err(e) => Err(InterlinkError::NetworkError(e)),
    }
}

/// The blockhash in a `getLatestBlockhash` answer: the base64 text at
/// `result.value.blockhash`, decoded. An answer without that text is
/// refused with "Failed to fetch blockhash".
pub fn blockhash_from_response(body: &[u8]) -> (r: Result<Vec<u8>, InterlinkError>)
    ensures
        match json_text_at(body@, "/result/value/blockhash"@) {
            None => r matches Err(InterlinkError::NetworkError(m)) && m@ == "Failed to fetch blockhash"@,
            Some(t) => if is_base64_text(t) {
                r matches Ok(v) && base64_encode_spec(v@) == t
            } else {
                r matches Err(InterlinkError::NetworkError(_))
            },
        },
{
    match json_scalar_at(body, "/result/value/blockhash") {
        Ok((Some(text), _)) => decode_blockhash(text.as_str()),
        _ => Err(InterlinkError::NetworkError("Failed to fetch blockhash".to_owned())),
    }
}

/// The bytes of a keypair file: the JSON array of numbers it holds. A file
/// that is not such an array is refused with "Invalid key format".
pub fn keypair_bytes(keypair_json: &[u8]) -> (r: Result<Vec<u8>, InterlinkError>)
    ensures
        match json_byte_array_spec(keypair_json@) {
            None => r matches Err(InterlinkError::NetworkError(m)) && m@ == "Invalid key format"@,
            Some(k) => r matches Ok(v) && v@ == k,
        },
{
    match json_byte_array(keypair_json) {
        Some(v) => Ok(v),
        None => Err(InterlinkError::NetworkError("Invalid key format".to_owned())),
    }
}

/// Build and sign the `submit_proof` transaction for a proof under a
/// decoded blockhash: decode the program id (base58), derive the state
/// account, compute the commitment, and sign the message with the
/// keypair's secret key (its first 32 bytes).
pub fn prepare_hub_submission(
    blockhash: &[u8],
    key_bytes: &[u8],
    program_id: &str,
    sequence: u64,
    payload_hash: &[u8; 32],
    proof: &[u8],
) -> (r: Result<HubSubmission, InterlinkError>)
    requires
        key_bytes@.len() >= 32,
    ensures
        bs58_decode_spec(program_id@) is None ==> (r matches Err(InterlinkError::NetworkError(m))
            && m@ == "Invalid program id"@),
        bs58_decode_spec(program_id@) is Some ==> (r matches Ok(sub) && is_submission_for(
            sub,
            blockhash@,
            key_bytes@,
            bs58_decode_spec(program_id@)->0,
            sequence,
            payload_hash@,
            proof@,
        )),
{
    let secret = first32(key_bytes);
    let public_key = ed25519_public_key(&secret);
    let program_id_raw = match bs58_decode(program_id) {
        Some(p) => p,
        None => {
            return Err(InterlinkError::NetworkError("Invalid program id".to_owned()));
        },
    };
    let registry = registry_pda(program_id_raw.as_slice());
    let commitment = prover_commitment(payload_hash, sequence);
    let ix_data = build_submit_ix_data(sequence, proof, payload_hash, &commitment);
    let message = build_submit_message(
        &public_key,
        &registry,
        program_id_raw.as_slice(),
        blockhash,
        ix_data.as_slice(),
    );
    let signature = ed25519_sign(&secret, message.as_slice());
    let mut transaction: Vec<u8> = Vec::new();
    transaction.push(1);
    append_bytes(&mut transaction, &signature);
    append_bytes(&mut transaction, message.as_slice());
    assert(transaction@ =~= signed_transaction(signature@, message@));
    Ok(HubSubmission { commitment, public_key, registry, message, signature, transaction })
}

/// The base64 text a signed transaction is sent as.
pub fn encode_transaction(transaction: &[u8]) -> (r: String)
    requires
        transaction@.len() <= usize::MAX / 2,
    ensures
        r@ == base64_encode_spec(transaction@),
{
    base64_encode(transaction)
}

/// Longest wait between reconnection attempts of the event watcher, in
/// seconds.
pub const WATCH_BACKOFF_MAX_SECS: u64 = 30;

/// The wait after `current` seconds: doubled, at most thirty seconds.
pub fn next_watch_backoff(current: u64) -> (r: u64)
    requires
        current <= u64::MAX / 2,
    ensures
        r == (if current * 2 < WATCH_BACKOFF_MAX_SECS { current * 2 } else { WATCH_BACKOFF_MAX_SECS as int }),
{
    let doubled = current * 2;
    if doubled < WATCH_BACKOFF_MAX_SECS {
        doubled
    } else {
        WATCH_BACKOFF_MAX_SECS
    }
}

} // verus!
