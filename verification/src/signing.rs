//! Request signing: `signature = hex(HMAC_SHA256(sign_key, canonical))`,
//! where the canonical string lists the share type, the client key, the
//! nonce and the timestamp in a fixed order.

use hmac::Mac;
use vstd::prelude::*;
use vstd::string::StringExecFns;
use vstd::utf8::encode_utf8;
use vstd::wrapping::u64_specs;
use crate::config::ClientConfig;
use crate::error::{CloudError, Result};
use crate::text::{hex_digit, hex_fixed, hex_lower, is_lower_hex, push_hex_fixed};

verus! {

/// Error type of `KeyInit::new_from_slice` (a key of unsupported length).
#[verifier::external_type_specification]
#[verifier::external_body]
pub struct ExInvalidLength(hmac::digest::InvalidLength);

/// The HMAC-SHA256 tag of `msg` under `key`.
pub uninterp spec fn spec_hmac_sha256(key: Seq<u8>, msg: Seq<u8>) -> Seq<u8>;

/// Trusted wrapper of `hmac::Hmac::<sha2::Sha256>::new_from_slice`, `Mac::update`
/// and `Mac::finalize`: the one-shot HMAC-SHA256 of `msg` under `key`.
/// The result is named by `spec_hmac_sha256`. `new_from_slice` of `Hmac`
/// accepts keys of every length, so the result is always `Ok`, and a SHA-256
/// tag is 32 bytes long.
#[verifier::external_body]
fn hmac_sha256(key: &[u8], msg: &[u8]) -> (r: core::result::Result<Vec<u8>, hmac::digest::InvalidLength>)
    ensures
        r is Ok,
        r matches Ok(tag) ==> tag@ == spec_hmac_sha256(key@, msg@) && tag@.len() == 32,
{
    let mut mac = <hmac::Hmac<sha2::Sha256> as Mac>::new_from_slice(key)?;
    mac.update(msg);
    Ok(mac.finalize().into_bytes().to_vec())
}

/// Trusted wrapper of `hex::encode`: two lowercase hexadecimal digits per
/// byte, most significant nibble first.
#[verifier::external_body]
fn hex_encode(bytes: &[u8]) -> (r: String)
    ensures
        r@ == hex_lower(bytes@),
{
    hex::encode(bytes)
}

/// Parameters that vary per request and feed the canonical string.
#[derive(Debug, Clone)]
pub struct SignParams {
    pub client_key: String,
    pub nonce: String,
    pub timestamp: String,
}

/// A computed signature plus the nonce/timestamp that produced it.
#[derive(Debug, Clone)]
pub struct Signature {
    pub signature: String,
    pub nonce: String,
    pub timestamp: String,
}

/// Builds request signatures from the static [`ClientConfig`] material.
#[derive(Debug, Clone)]
pub struct Signer {
    app_key: String,
    sign_key: String,
    can_sign: bool,
}

/// The abstract state of a [`Signer`].
pub struct SignerView {
    pub app_key: Seq<char>,
    pub sign_key: Seq<char>,
    pub can_sign: bool,
}

impl View for Signer {
    type V = SignerView;

    closed spec fn view(&self) -> SignerView {
        SignerView { app_key: self.app_key@, sign_key: self.sign_key@, can_sign: self.can_sign }
    }
}

/// The canonical string that gets authenticated.
pub open spec fn spec_canonical(client_key: Seq<char>, nonce: Seq<char>, timestamp: Seq<char>) -> Seq<
    char,
> {
    "share_type=pc&client_key="@ + client_key + "&nonce_str="@ + nonce + "&timestamp="@ + timestamp
}

/// The signature of a nonce and timestamp under the given key material.
pub open spec fn spec_signature(
    app_key: Seq<char>,
    sign_key: Seq<char>,
    nonce: Seq<char>,
    timestamp: Seq<char>,
) -> Seq<char> {
    hex_lower(
        spec_hmac_sha256(encode_utf8(sign_key), encode_utf8(spec_canonical(app_key, nonce, timestamp))),
    )
}

/// The message of the error returned when signing material is missing.
pub open spec fn not_configured_message() -> Seq<char> {
    "app_key/sign_key not configured — recover them via capture"@
}

impl Signer {
    /// A signer holding the key material of `cfg`.
    pub fn new(cfg: &ClientConfig) -> (s: Signer)
        ensures
            s@ == (SignerView {
                app_key: cfg.app_key@,
                sign_key: cfg.sign_key@,
                can_sign: cfg.spec_can_sign(),
            }),
    {
        Signer { app_key: cfg.app_key.clone(), sign_key: cfg.sign_key.clone(), can_sign: cfg.can_sign() }
    }

    /// Build the canonical string that gets authenticated (keys in a fixed
    /// order, not sorted).
    fn canonical(&self, p: &SignParams) -> (s: String)
        ensures
            s@ == spec_canonical(p.client_key@, p.nonce@, p.timestamp@),
    {
        let mut s = "share_type=pc&client_key=".to_owned();
        s.append(p.client_key.as_str());
        s.append("&nonce_str=");
        s.append(p.nonce.as_str());
        s.append("&timestamp=");
        s.append(p.timestamp.as_str());
        s
    }

    /// Compute `HMAC_SHA256(sign_key, canonical)` as lowercase hex; fails
    /// when the signer lacks its key material.
    pub fn sign(&self, nonce: &str, timestamp: &str) -> (r: Result<Signature>)
        ensures
            !self@.can_sign ==> (r matches Err(CloudError::Signing(m)) && m@
                == not_configured_message()),
            self@.can_sign ==> (r matches Ok(s) && {
                &&& s.signature@ == spec_signature(
                    self@.app_key,
                    self@.sign_key,
                    nonce@,
                    timestamp@,
                )
                &&& s.signature@.len() == 64
                &&& forall|i: int| 0 <= i < 64 ==> is_lower_hex(#[trigger] s.signature@[i])
                &&& s.nonce@ == nonce@
                &&& s.timestamp@ == timestamp@
            }),
    {
        if !self.can_sign {
            return Err(
                CloudError::Signing(
                    "app_key/sign_key not configured — recover them via capture".to_owned(),
                ),
            );
        }
        let params = SignParams {
            client_key: self.app_key.clone(),
            nonce: nonce.to_owned(),
            timestamp: timestamp.to_owned(),
        };
        let canonical = self.canonical(&params);
        let tag = match hmac_sha256(self.sign_key.as_str().as_bytes(), canonical.as_str().as_bytes()) {
            Ok(t) => t,
            Err(_) => {
                return Err(CloudError::Signing("bad hmac key: Invalid Length".to_owned()));
            },
        };
        let sig = hex_encode(tag.as_slice());
        proof {
            lemma_hex_lower_shape(tag@);
        }
        Ok(Signature { signature: sig, nonce: nonce.to_owned(), timestamp: timestamp.to_owned() })
    }

    /// Whether this signer has the material needed to produce a signature.
    pub fn is_ready(&self) -> (r: bool)
        ensures
            r == self@.can_sign,
    {
        self.can_sign
    }
}

/// The splitmix64 step applied to a seed.
pub open spec fn spec_mix(seed: u64) -> u64 {
    let x = u64_specs::wrapping_add(seed, 0x9E37_79B9_7F4A_7C15);
    let x = u64_specs::wrapping_mul(x ^ (x >> 30u64), 0xBF58_476D_1CE4_E5B9);
    let x = u64_specs::wrapping_mul(x ^ (x >> 27u64), 0x94D0_49BB_1331_11EB);
    x ^ (x >> 31u64)
}

/// A nonce string: 16 lowercase hex digits of the splitmix64 step of `seed`.
/// Nonces only need to be unique per request, not cryptographically strong.
pub fn make_nonce(seed: u64) -> (s: String)
    ensures
        s@ == hex_fixed(spec_mix(seed) as nat, 16),
        s@.len() == 16,
        forall|i: int| 0 <= i < 16 ==> is_lower_hex(#[trigger] s@[i]),
{
    let mut x = seed.wrapping_add(0x9E37_79B9_7F4A_7C15);
    x = (x ^ (x >> 30u64)).wrapping_mul(0xBF58_476D_1CE4_E5B9);
    x = (x ^ (x >> 27u64)).wrapping_mul(0x94D0_49BB_1331_11EB);
    x = x ^ (x >> 31u64);
    let mut s = String::new();
    push_hex_fixed(&mut s, x, 16);
    proof {
        lemma_nonce_shape(seed);
    }
    s
}

/// Adding a constant with wraparound loses nothing: equal sums come from
/// equal summands.
pub proof fn lemma_wrapping_add_injective(a: u64, b: u64, c: u64)
    requires
        u64_specs::wrapping_add(a, c) == u64_specs::wrapping_add(b, c),
    ensures
        a == b,
{
}

/// A right xorshift loses nothing: equal results come from equal inputs.
pub proof fn lemma_xorshift_injective(a: u64, b: u64, k: u64)
    requires
        0 < k < 64,
        a ^ (a >> k) == b ^ (b >> k),
    ensures
        a == b,
{
    assert(a == b) by (bit_vector)
        requires
            0 < k < 64,
            a ^ (a >> k) == b ^ (b >> k),
    ;
}

/// Multiplying with wraparound by `c` and then by an inverse `cinv` of `c`
/// modulo `2^64` gives back the start.
pub proof fn lemma_wrapping_mul_inverse(a: u64, c: u64, cinv: u64, k: int)
    requires
        k >= 0,
        c as int * cinv as int == 1 + k * 0x1_0000_0000_0000_0000,
    ensures
        u64_specs::wrapping_mul(u64_specs::wrapping_mul(a, c), cinv) == a,
{
    let m: int = 0x1_0000_0000_0000_0000;
    let ac: int = a as int * c as int;
    let p = u64_specs::wrapping_mul(a, c);
    assert(p as int == ac % m);
    vstd::arithmetic::div_mod::lemma_mul_mod_noop_left(ac, cinv as int, m);
    vstd::arithmetic::mul::lemma_mul_is_associative(a as int, c as int, cinv as int);
    assert(a as int * (c as int * cinv as int) == (a as int * k) * m + a as int) by (nonlinear_arith)
        requires
            c as int * cinv as int == 1 + k * m,
    ;
    vstd::arithmetic::div_mod::lemma_fundamental_div_mod_converse(
        ac * cinv as int,
        m,
        a as int * k,
        a as int,
    );
}

/// Multiplying with wraparound by an invertible constant loses nothing.
pub proof fn lemma_wrapping_mul_injective(a: u64, b: u64, c: u64, cinv: u64, k: int)
    requires
        k >= 0,
        c as int * cinv as int == 1 + k * 0x1_0000_0000_0000_0000,
        u64_specs::wrapping_mul(a, c) == u64_specs::wrapping_mul(b, c),
    ensures
        a == b,
{
    lemma_wrapping_mul_inverse(a, c, cinv, k);
    lemma_wrapping_mul_inverse(b, c, cinv, k);
}

/// The splitmix64 step is one-to-one: distinct seeds give distinct values.
pub proof fn lemma_mix_injective(s1: u64, s2: u64)
    requires
        spec_mix(s1) == spec_mix(s2),
    ensures
        s1 == s2,
{
    let a1 = u64_specs::wrapping_add(s1, 0x9E37_79B9_7F4A_7C15);
    let a2 = u64_specs::wrapping_add(s2, 0x9E37_79B9_7F4A_7C15);
    let b1 = u64_specs::wrapping_mul(a1 ^ (a1 >> 30u64), 0xBF58_476D_1CE4_E5B9);
    let b2 = u64_specs::wrapping_mul(a2 ^ (a2 >> 30u64), 0xBF58_476D_1CE4_E5B9);
    let c1 = u64_specs::wrapping_mul(b1 ^ (b1 >> 27u64), 0x94D0_49BB_1331_11EB);
    let c2 = u64_specs::wrapping_mul(b2 ^ (b2 >> 27u64), 0x94D0_49BB_1331_11EB);
    lemma_xorshift_injective(c1, c2, 31);
    lemma_wrapping_mul_injective(
        b1 ^ (b1 >> 27u64),
        b2 ^ (b2 >> 27u64),
        0x94D0_49BB_1331_11EB,
        0x3196_42B2_D24D_8EC3,
        2077064247507883091,
    );
    lemma_xorshift_injective(b1, b2, 27);
    lemma_wrapping_mul_injective(
        a1 ^ (a1 >> 30u64),
        a2 ^ (a2 >> 30u64),
        0xBF58_476D_1CE4_E5B9,
        0x96DE_1B17_3F11_9089,
        8125545580553827436,
    );
    lemma_xorshift_injective(a1, a2, 30);
    lemma_wrapping_add_injective(s1, s2, 0x9E37_79B9_7F4A_7C15);
}

/// A zero-padded hexadecimal rendering has exactly the requested width and
/// consists of lowercase hexadecimal digits only.
pub proof fn lemma_hex_fixed_shape(x: nat, n: nat)
    ensures
        hex_fixed(x, n).len() == n,
        forall|i: int| 0 <= i < n ==> is_lower_hex(#[trigger] hex_fixed(x, n)[i]),
    decreases n,
{
    if n > 0 {
        lemma_hex_fixed_shape(x / 16, (n - 1) as nat);
        lemma_hex_digit_is_lower_hex((x % 16) as nat);
    }
}

/// Every hexadecimal digit character is one of `0-9a-f`.
pub proof fn lemma_hex_digit_is_lower_hex(d: nat)
    requires
        d < 16,
    ensures
        is_lower_hex(hex_digit(d)),
{
}

/// A hex rendering of bytes has two characters per byte, each one of `0-9a-f`.
pub proof fn lemma_hex_lower_shape(bytes: Seq<u8>)
    ensures
        hex_lower(bytes).len() == 2 * bytes.len(),
        forall|i: int| 0 <= i < 2 * bytes.len() ==> is_lower_hex(#[trigger] hex_lower(bytes)[i]),
{
    assert forall|i: int| 0 <= i < 2 * bytes.len() implies is_lower_hex(
        #[trigger] hex_lower(bytes)[i],
    ) by {
        lemma_hex_digit_is_lower_hex((bytes[i / 2] / 16) as nat);
        lemma_hex_digit_is_lower_hex((bytes[i / 2] % 16) as nat);
    }
}

/// A nonce is 16 lowercase hexadecimal digits.
pub proof fn lemma_nonce_shape(seed: u64)
    ensures
        hex_fixed(spec_mix(seed) as nat, 16).len() == 16,
        forall|i: int| 0 <= i < 16 ==> is_lower_hex(#[trigger] hex_fixed(spec_mix(seed) as nat, 16)[i]),
{
    lemma_hex_fixed_shape(spec_mix(seed) as nat, 16);
}

} // verus!
