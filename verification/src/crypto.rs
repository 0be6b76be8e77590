//! `BNCrypto`: the provider that owns the `Bytes` buffer registry and turns
//! member calls into either an immediate value or a request for one of the
//! cryptographic primitives, whose result `complete` then stores.
use std::collections::HashMap;
use vstd::prelude::*;
use crate::source::Span;
use crate::text::{chars_are, chars_of};
use crate::types::IntegerType;
use crate::value::{
    Expected, FailureV, ProviderError, ProviderErrorKind, Value, ValueV, arity_check, error_value,
    make_error, member_method, method_of, mismatch, require_arity,
};

verus! {

broadcast use vstd::std_specs::hash::group_hash_axioms;

/// A cryptographic primitive a member call needs.
#[derive(Clone, Copy, Debug, PartialEq, Eq, Structural)]
pub enum CryptoOp {
    Sha256,
    Sha512,
    FromHex,
    ToHex,
    /// AES-256-GCM when `aes`, else ChaCha20-Poly1305.
    Seal { aes: bool },
    Open { aes: bool },
    HmacSha256,
    VerifyHmacSha256,
    Argon2id { memory_kib: u32, iterations: u32, parallelism: u32 },
    /// Ed25519 when `ed25519`, else ECDSA P-256.
    PublicKey { ed25519: bool },
    Sign { ed25519: bool },
    Verify { ed25519: bool },
    MlKemKeypair,
    MlDsaKeypair,
    MlKemEncapsulate,
    MlKemDecapsulate,
    MlDsaSign,
    MlDsaVerify,
}

/// A primitive to run, on a text operand (for digests and hex decoding) and
/// buffer operands, in the member's argument order.
#[derive(Debug)]
pub struct CryptoRequest {
    pub op: CryptoOp,
    pub text: String,
    pub operands: Vec<Vec<u8>>,
}

/// What a member call comes to: a value now, or a primitive to run first.
#[derive(Debug)]
pub enum CryptoStep {
    Done(Value),
    Compute(CryptoRequest),
}

/// What a primitive produced.
#[derive(Debug)]
pub enum CryptoOutcome {
    /// A buffer, or a rejection of the operands.
    Bytes(Option<Vec<u8>>),
    /// Two buffers (a key pair, or a ciphertext and its shared secret), or a rejection.
    Pair(Option<(Vec<u8>, Vec<u8>)>),
    /// A text result (a digest or hex encoding).
    Text(String),
    /// A verification answer.
    Flag(bool),
}

/// The planned effect of a member call.
pub ghost enum PlanV {
    /// Return this value.
    Done(ValueV),
    /// Store these bytes as a new buffer and return its handle.
    Store(Seq<u8>),
    /// Run this primitive on this text and these buffers.
    Compute(CryptoOp, Seq<char>, Seq<Seq<u8>>),
}

/// The contents of buffer operands.
pub open spec fn operands_view(v: Seq<Vec<u8>>) -> Seq<Seq<u8>> {
    v.map_values(|b: Vec<u8>| b@)
}

/// The failure for a handle that names no live buffer.
pub open spec fn invalid_bytes() -> FailureV {
    FailureV::UseAfterRelease("BNCrypto.Bytes is invalid"@)
}

/// The buffer behind argument `i`.
pub open spec fn bytes_at(b: Map<u64, Seq<u8>>, args: Seq<Value>, i: int, member: Seq<char>) -> Result<
    Seq<u8>,
    FailureV,
> {
    if 0 <= i < args.len() && args[i] is CryptoBytes {
        let h = args[i]->CryptoBytes_0;
        if b.contains_key(h) {
            Ok(b[h])
        } else {
            Err(invalid_bytes())
        }
    } else {
        Err(FailureV::TypeMismatch { expected: Expected::CryptoBytes, member })
    }
}

/// The buffers behind the first `n` arguments, checked in order.
pub open spec fn buffers_at(b: Map<u64, Seq<u8>>, args: Seq<Value>, member: Seq<char>, n: nat) -> Result<
    Seq<Seq<u8>>,
    FailureV,
>
    decreases n,
{
    if n == 0 {
        Ok(Seq::empty())
    } else {
        match buffers_at(b, args, member, (n - 1) as nat) {
            Err(f) => Err(f),
            Ok(s) => match bytes_at(b, args, n - 1, member) {
                Err(f) => Err(f),
                Ok(x) => Ok(s.push(x)),
            },
        }
    }
}

/// A failure among the first `k` arguments is the failure for the first `m >= k`.
pub proof fn lemma_buffers_at_failure(b: Map<u64, Seq<u8>>, args: Seq<Value>, member: Seq<char>, k: nat, m: nat)
    requires
        k <= m,
        buffers_at(b, args, member, k) is Err,
    ensures
        buffers_at(b, args, member, m) == buffers_at(b, args, member, k),
    decreases m,
{
    if m > k {
        lemma_buffers_at_failure(b, args, member, k, (m - 1) as nat);
    }
}

/// The `STRING` argument at `i`.
pub open spec fn text_at(args: Seq<Value>, i: int, member: Seq<char>) -> Result<Seq<char>, FailureV> {
    if 0 <= i < args.len() && args[i] is String {
        Ok(args[i]->String_0@)
    } else {
        Err(FailureV::TypeMismatch { expected: Expected::Text, member })
    }
}

/// The `INTEGER` argument at `i`, which must lie in `0..=max`.
pub open spec fn count_at(args: Seq<Value>, i: int, member: Seq<char>, max: int) -> Result<int, FailureV> {
    if 0 <= i < args.len() && args[i] is Integer {
        let v = args[i]->Integer_0;
        if 0 <= v <= max {
            Ok(v as int)
        } else {
            Err(FailureV::TypeMismatch { expected: Expected::NonNegativeInteger, member })
        }
    } else {
        Err(FailureV::TypeMismatch { expected: Expected::Integer, member })
    }
}

/// Digests, buffer construction and inspection: the members without a key.
pub open spec fn plan_digest_or_buffer(
    b: Map<u64, Seq<u8>>,
    method: Seq<char>,
    member: Seq<char>,
    args: Seq<Value>,
) -> Result<PlanV, FailureV> {
    let n = args.len();
    if method == "SHA256"@ || method == "SHA512"@ || method == "FromText"@ || method
        == "FromHex"@ {
        match arity_check(member, 1, n) {
            Some(f) => Err(f),
            None => match text_at(args, 0, member) {
                Err(f) => Err(f),
                Ok(t) => Ok(
                    if method == "SHA256"@ {
                        PlanV::Compute(CryptoOp::Sha256, t, Seq::empty())
                    } else if method == "SHA512"@ {
                        PlanV::Compute(CryptoOp::Sha512, t, Seq::empty())
                    } else if method == "FromText"@ {
                        PlanV::Store(vstd::utf8::encode_utf8(t))
                    } else {
                        PlanV::Compute(CryptoOp::FromHex, t, Seq::empty())
                    },
                ),
            },
        }
    } else if method == "Length"@ || method == "ToHex"@ {
        match arity_check(member, 1, n) {
            Some(f) => Err(f),
            None => match bytes_at(b, args, 0, member) {
                Err(f) => Err(f),
                Ok(x) => Ok(
                    if method == "Length"@ {
                        PlanV::Done(ValueV::Integer(x.len() as i128, IntegerType::Int32))
                    } else {
                        PlanV::Compute(CryptoOp::ToHex, Seq::empty(), seq![x])
                    },
                ),
            },
        }
    } else {
        match arity_check(member, 3, n) {
            Some(f) => Err(f),
            None => match bytes_at(b, args, 0, member) {
                Err(f) => Err(f),
                Ok(x) => match count_at(args, 1, member, usize::MAX as int) {
                    Err(f) => Err(f),
                    Ok(start) => match count_at(args, 2, member, usize::MAX as int) {
                        Err(f) => Err(f),
                        Ok(len) => Ok(
                            if start + len <= usize::MAX && start + len <= x.len() {
                                PlanV::Store(x.subrange(start, start + len))
                            } else {
                                PlanV::Done(error_value("BNCrypto.Slice range is outside the buffer"@))
                            },
                        ),
                    },
                },
            },
        }
    }
}

/// Sealing and opening under an AEAD: four buffer operands.
pub open spec fn plan_aead(b: Map<u64, Seq<u8>>, method: Seq<char>, member: Seq<char>, args: Seq<Value>) -> Result<
    PlanV,
    FailureV,
> {
    match arity_check(member, 4, args.len()) {
        Some(f) => Err(f),
        None => match buffers_at(b, args, member, 4) {
            Err(f) => Err(f),
            Ok(ops) => {
                let aes = method == "SealAesGcm"@ || method == "OpenAesGcm"@;
                let sealing = method == "SealAesGcm"@ || method == "SealChaCha20"@;
                Ok(
                    PlanV::Compute(
                        if sealing {
                            CryptoOp::Seal { aes }
                        } else {
                            CryptoOp::Open { aes }
                        },
                        Seq::empty(),
                        ops,
                    ),
                )
            },
        },
    }
}

/// HMAC-SHA-256, its verification, and Argon2id.
pub open spec fn plan_mac_or_kdf(
    b: Map<u64, Seq<u8>>,
    method: Seq<char>,
    member: Seq<char>,
    args: Seq<Value>,
) -> Result<PlanV, FailureV> {
    if method == "HmacSha256"@ || method == "VerifyHmacSha256"@ {
        let n: nat = if method == "HmacSha256"@ { 2 } else { 3 };
        match arity_check(member, n, args.len()) {
            Some(f) => Err(f),
            None => match buffers_at(b, args, member, n) {
                Err(f) => Err(f),
                Ok(ops) => Ok(
                    PlanV::Compute(
                        if n == 2 {
                            CryptoOp::HmacSha256
                        } else {
                            CryptoOp::VerifyHmacSha256
                        },
                        Seq::empty(),
                        ops,
                    ),
                ),
            },
        }
    } else {
        match arity_check(member, 5, args.len()) {
            Some(f) => Err(f),
            None => match buffers_at(b, args, member, 2) {
                Err(f) => Err(f),
                Ok(ops) => match count_at(args, 2, member, u32::MAX as int) {
                    Err(f) => Err(f),
                    Ok(memory) => match count_at(args, 3, member, u32::MAX as int) {
                        Err(f) => Err(f),
                        Ok(iterations) => match count_at(args, 4, member, u32::MAX as int) {
                            Err(f) => Err(f),
                            Ok(parallelism) => Ok(
                                PlanV::Compute(
                                    CryptoOp::Argon2id {
                                        memory_kib: memory as u32,
                                        iterations: iterations as u32,
                                        parallelism: parallelism as u32,
                                    },
                                    Seq::empty(),
                                    ops,
                                ),
                            ),
                        },
                    },
                },
            },
        }
    }
}

/// Ed25519 and ECDSA P-256 keys, signatures and verification. A key is read
/// before the arity of a key or signing member is checked.
pub open spec fn plan_signature(
    b: Map<u64, Seq<u8>>,
    method: Seq<char>,
    member: Seq<char>,
    args: Seq<Value>,
) -> Result<PlanV, FailureV> {
    let ed25519 = method == "Ed25519PublicKey"@ || method == "Ed25519Sign"@ || method
        == "Ed25519Verify"@;
    if method == "Ed25519Verify"@ || method == "EcdsaP256Verify"@ {
        match arity_check(member, 3, args.len()) {
            Some(f) => Err(f),
            None => match buffers_at(b, args, member, 3) {
                Err(f) => Err(f),
                Ok(ops) => Ok(PlanV::Compute(CryptoOp::Verify { ed25519 }, Seq::empty(), ops)),
            },
        }
    } else {
        match bytes_at(b, args, 0, member) {
            Err(f) => Err(f),
            Ok(key) => if method == "Ed25519PublicKey"@ || method == "EcdsaP256PublicKey"@ {
                match arity_check(member, 1, args.len()) {
                    Some(f) => Err(f),
                    None => Ok(PlanV::Compute(CryptoOp::PublicKey { ed25519 }, Seq::empty(), seq![key])),
                }
            } else {
                match arity_check(member, 2, args.len()) {
                    Some(f) => Err(f),
                    None => match bytes_at(b, args, 1, member) {
                        Err(f) => Err(f),
                        Ok(message) => Ok(
                            PlanV::Compute(CryptoOp::Sign { ed25519 }, Seq::empty(), seq![key, message]),
                        ),
                    },
                }
            },
        }
    }
}

/// ML-KEM-768 and ML-DSA-65.
pub open spec fn plan_post_quantum(
    b: Map<u64, Seq<u8>>,
    method: Seq<char>,
    member: Seq<char>,
    args: Seq<Value>,
) -> Result<PlanV, FailureV> {
    let (n, op): (nat, CryptoOp) = if method == "MlKemKeypair"@ {
        (1, CryptoOp::MlKemKeypair)
    } else if method == "MlDsaKeypair"@ {
        (1, CryptoOp::MlDsaKeypair)
    } else if method == "MlKemEncapsulate"@ {
        (1, CryptoOp::MlKemEncapsulate)
    } else if method == "MlDsaVerify"@ {
        (3, CryptoOp::MlDsaVerify)
    } else if method == "MlKemDecapsulate"@ {
        (2, CryptoOp::MlKemDecapsulate)
    } else {
        (2, CryptoOp::MlDsaSign)
    };
    match arity_check(member, n, args.len()) {
        Some(f) => Err(f),
        None => match buffers_at(b, args, member, n) {
            Err(f) => Err(f),
            Ok(ops) => Ok(PlanV::Compute(op, Seq::empty(), ops)),
        },
    }
}

pub open spec fn digest_or_buffer_member(m: Seq<char>) -> bool {
    ||| m == "SHA256"@
    ||| m == "SHA512"@
    ||| m == "FromText"@
    ||| m == "FromHex"@
    ||| m == "Length"@
    ||| m == "ToHex"@
    ||| m == "Slice"@
}

pub open spec fn aead_member(m: Seq<char>) -> bool {
    m == "SealAesGcm"@ || m == "SealChaCha20"@ || m == "OpenAesGcm"@ || m == "OpenChaCha20"@
}

pub open spec fn mac_or_kdf_member(m: Seq<char>) -> bool {
    m == "HmacSha256"@ || m == "VerifyHmacSha256"@ || m == "Argon2id"@
}

pub open spec fn signature_member(m: Seq<char>) -> bool {
    ||| m == "Ed25519PublicKey"@
    ||| m == "Ed25519Sign"@
    ||| m == "Ed25519Verify"@
    ||| m == "EcdsaP256PublicKey"@
    ||| m == "EcdsaP256Sign"@
    ||| m == "EcdsaP256Verify"@
}

pub open spec fn post_quantum_member(m: Seq<char>) -> bool {
    ||| m == "MlKemKeypair"@
    ||| m == "MlKemEncapsulate"@
    ||| m == "MlKemDecapsulate"@
    ||| m == "MlDsaKeypair"@
    ||| m == "MlDsaSign"@
    ||| m == "MlDsaVerify"@
}

/// What calling `member` with `args` comes to, given the live buffers.
pub open spec fn crypto_plan(b: Map<u64, Seq<u8>>, member: Seq<char>, args: Seq<Value>) -> Result<
    PlanV,
    FailureV,
> {
    let m = member_method(member);
    if digest_or_buffer_member(m) {
        plan_digest_or_buffer(b, m, member, args)
    } else if aead_member(m) {
        plan_aead(b, m, member, args)
    } else if mac_or_kdf_member(m) {
        plan_mac_or_kdf(b, m, member, args)
    } else if signature_member(m) {
        plan_signature(b, m, member, args)
    } else if post_quantum_member(m) {
        plan_post_quantum(b, m, member, args)
    } else if m == "CONSTRUCTOR"@ {
        Ok(PlanV::Done(ValueV::Null))
    } else {
        Err(FailureV::NameNotFound { name: m, kind: "BNCrypto function"@ })
    }
}

/// The effect of completing a primitive.
pub ghost enum CompletionV {
    Give(ValueV),
    Store(Seq<u8>),
}

/// The message of the `Error` value for a rejected primitive.
pub open spec fn rejection_message(op: CryptoOp) -> Seq<char> {
    match op {
        CryptoOp::FromHex => "BNCrypto.FromHex expects an even-length hexadecimal string"@,
        CryptoOp::Seal { .. } => "BNCrypto seal rejected the key or nonce length"@,
        CryptoOp::Open { .. } => "BNCrypto open failed: authentication tag did not verify"@,
        CryptoOp::Argon2id { .. } => "BNCrypto.Argon2id rejected the cost parameters"@,
        CryptoOp::MlKemKeypair | CryptoOp::MlDsaKeypair => "BNCrypto rejected the seed length"@,
        CryptoOp::MlKemEncapsulate => "BNCrypto rejected the encapsulation key"@,
        CryptoOp::MlKemDecapsulate => "BNCrypto rejected the ciphertext"@,
        CryptoOp::MlDsaSign => "BNCrypto rejected the signing key"@,
        _ => "BNCrypto rejected the key material"@,
    }
}

/// What completing `op` with `outcome` does: store the produced buffer (the
/// two parts of a pair concatenated), or give a value.
pub open spec fn completion(op: CryptoOp, outcome: CryptoOutcome) -> CompletionV {
    match outcome {
        CryptoOutcome::Bytes(Some(bytes)) => CompletionV::Store(bytes@),
        CryptoOutcome::Pair(Some((first, second))) => CompletionV::Store(first@ + second@),
        CryptoOutcome::Text(t) => CompletionV::Give(ValueV::String(t@)),
        CryptoOutcome::Flag(f) => CompletionV::Give(ValueV::Boolean(f)),
        _ => CompletionV::Give(error_value(rejection_message(op))),
    }
}


/// A rejected seal or open gives the `Error` value naming the rejection and
/// stores nothing: never a partial or unauthenticated buffer.
pub proof fn lemma_rejected_aead_stores_nothing(op: CryptoOp)
    requires
        op is Seal || op is Open,
    ensures
        completion(op, CryptoOutcome::Bytes(None)) == CompletionV::Give(error_value(rejection_message(op))),
{
}

/// A call's result and the provider's new state follow its plan.
pub open spec fn step_follows(
    plan: Result<PlanV, FailureV>,
    span: Span,
    old_b: Map<u64, Seq<u8>>,
    old_last: u64,
    new_b: Map<u64, Seq<u8>>,
    new_last: u64,
    r: Result<CryptoStep, ProviderError>,
) -> bool {
    match plan {
        Err(f) => (r matches Err(e) && e@ == f && e.span == span) && new_b == old_b && new_last == old_last,
        Ok(PlanV::Done(v)) => (r matches Ok(CryptoStep::Done(x)) && x@ == v) && new_b == old_b && new_last
            == old_last,
        Ok(PlanV::Store(bytes)) => (r matches Ok(CryptoStep::Done(x)) && x@ == ValueV::CryptoBytes(new_last))
            && new_last == old_last + 1 && new_b == old_b.insert(new_last, bytes),
        Ok(PlanV::Compute(op, t, ops)) => (r matches Ok(CryptoStep::Compute(q)) && q.op == op && q.text@ == t
            && operands_view(q.operands@) == ops) && new_b == old_b && new_last == old_last,
    }
}

fn text_at_exec<'a>(arguments: &'a Vec<Value>, index: usize, member: &str, span: Span) -> (r: Result<
    &'a String,
    ProviderError,
>)
    ensures
        match text_at(arguments@, index as int, member@) {
            Ok(t) => r matches Ok(s) && s@ == t,
            Err(f) => r matches Err(e) && e@ == f && e.span == span,
        },
{
    if index < arguments.len() {
        match &arguments[index] {
            Value::String(s) => return Ok(s),
            _ => {},
        }
    }
    Err(mismatch(Expected::Text, member, span))
}

fn count_at_exec(arguments: &Vec<Value>, index: usize, member: &str, max: i128, span: Span) -> (r: Result<
    i128,
    ProviderError,
>)
    requires
        max >= 0,
    ensures
        match count_at(arguments@, index as int, member@, max as int) {
            Ok(v) => r matches Ok(x) && x == v,
            Err(f) => r matches Err(e) && e@ == f && e.span == span,
        },
{
    if index < arguments.len() {
        match &arguments[index] {
            Value::Integer(v, _) => {
                if *v < 0 || *v > max {
                    return Err(mismatch(Expected::NonNegativeInteger, member, span));
                }
                return Ok(*v);
            },
            _ => {},
        }
    }
    Err(mismatch(Expected::Integer, member, span))
}

fn is(m: &Vec<char>, lit: &str) -> (r: bool)
    ensures
        r == (m@ == lit@),
{
    let l = chars_of(lit);
    chars_are(m, l.as_slice())
}

fn compute(op: CryptoOp, text: String, operands: Vec<Vec<u8>>) -> (r: CryptoStep)
    ensures
        r matches CryptoStep::Compute(q) && q.op == op && q.text@ == text@ && q.operands@ == operands@,
{
    CryptoStep::Compute(CryptoRequest { op, text, operands })
}

fn no_text() -> (s: String)
    ensures
        s@ == Seq::<char>::empty(),
{
    String::new()
}

// ---------------------------------------------------------------------------
// Laws of the buffer registry

/// A handle stored by a call was not live before: the next handle is never
/// in use.
pub proof fn lemma_next_handle_is_fresh(p: CryptoProvider)
    requires
        p.wf(),
        p.last_handle() < u64::MAX,
    ensures
        !p.buffers_view().contains_key((p.last_handle() + 1) as u64),
{
}

/// The length and first character of each member name the provider tells
/// apart; together they tell the names apart.
proof fn lemma_member_name_shapes()
    ensures
        "Argon2id"@.len() == 8 && "Argon2id"@[0] == 'A',
        "Bytes"@.len() == 5 && "Bytes"@[0] == 'B',
        "CONSTRUCTOR"@.len() == 11 && "CONSTRUCTOR"@[0] == 'C',
        "EcdsaP256PublicKey"@.len() == 18 && "EcdsaP256PublicKey"@[0] == 'E',
        "EcdsaP256Sign"@.len() == 13 && "EcdsaP256Sign"@[0] == 'E',
        "EcdsaP256Verify"@.len() == 15 && "EcdsaP256Verify"@[0] == 'E',
        "Ed25519PublicKey"@.len() == 16 && "Ed25519PublicKey"@[0] == 'E',
        "Ed25519Sign"@.len() == 11 && "Ed25519Sign"@[0] == 'E',
        "Ed25519Verify"@.len() == 13 && "Ed25519Verify"@[0] == 'E',
        "FromHex"@.len() == 7 && "FromHex"@[0] == 'F',
        "FromText"@.len() == 8 && "FromText"@[0] == 'F',
        "HmacSha256"@.len() == 10 && "HmacSha256"@[0] == 'H',
        "Length"@.len() == 6 && "Length"@[0] == 'L',
        "MlDsaKeypair"@.len() == 12 && "MlDsaKeypair"@[0] == 'M',
        "MlDsaSign"@.len() == 9 && "MlDsaSign"@[0] == 'M',
        "MlDsaVerify"@.len() == 11 && "MlDsaVerify"@[0] == 'M',
        "MlKemDecapsulate"@.len() == 16 && "MlKemDecapsulate"@[0] == 'M',
        "MlKemEncapsulate"@.len() == 16 && "MlKemEncapsulate"@[0] == 'M',
        "MlKemKeypair"@.len() == 12 && "MlKemKeypair"@[0] == 'M',
        "OpenAesGcm"@.len() == 10 && "OpenAesGcm"@[0] == 'O',
        "OpenChaCha20"@.len() == 12 && "OpenChaCha20"@[0] == 'O',
        "SHA256"@.len() == 6 && "SHA256"@[0] == 'S',
        "SHA512"@.len() == 6 && "SHA512"@[0] == 'S',
        "SealAesGcm"@.len() == 10 && "SealAesGcm"@[0] == 'S',
        "SealChaCha20"@.len() == 12 && "SealChaCha20"@[0] == 'S',
        "Slice"@.len() == 5 && "Slice"@[0] == 'S',
        "ToHex"@.len() == 5 && "ToHex"@[0] == 'T',
        "VerifyHmacSha256"@.len() == 16 && "VerifyHmacSha256"@[0] == 'V',
{
    reveal_strlit("Argon2id");
    reveal_strlit("Bytes");
    reveal_strlit("CONSTRUCTOR");
    reveal_strlit("EcdsaP256PublicKey");
    reveal_strlit("EcdsaP256Sign");
    reveal_strlit("EcdsaP256Verify");
    reveal_strlit("Ed25519PublicKey");
    reveal_strlit("Ed25519Sign");
    reveal_strlit("Ed25519Verify");
    reveal_strlit("FromHex");
    reveal_strlit("FromText");
    reveal_strlit("HmacSha256");
    reveal_strlit("Length");
    reveal_strlit("MlDsaKeypair");
    reveal_strlit("MlDsaSign");
    reveal_strlit("MlDsaVerify");
    reveal_strlit("MlKemDecapsulate");
    reveal_strlit("MlKemEncapsulate");
    reveal_strlit("MlKemKeypair");
    reveal_strlit("OpenAesGcm");
    reveal_strlit("OpenChaCha20");
    reveal_strlit("SHA256");
    reveal_strlit("SHA512");
    reveal_strlit("SealAesGcm");
    reveal_strlit("SealChaCha20");
    reveal_strlit("Slice");
    reveal_strlit("ToHex");
    reveal_strlit("VerifyHmacSha256");
}

/// Once a buffer is released, reading it fails with the invalid-handle
/// error: `Length` of a released handle is `UseAfterRelease`.
pub proof fn lemma_released_buffer_is_invalid(b: Map<u64, Seq<u8>>, h: u64, member: Seq<char>)
    requires
        member_method(member) == "Length"@,
    ensures
        crypto_plan(b.remove(h), member, seq![Value::CryptoBytes(h)]) == Err::<PlanV, FailureV>(invalid_bytes()),
{
    lemma_member_name_shapes();
    assert(!b.remove(h).contains_key(h));
}

/// A stored buffer reads back: `Length` of its handle is its length, and
/// slicing it whole stores a copy of it.
pub proof fn lemma_stored_buffer_reads_back(
    b: Map<u64, Seq<u8>>,
    h: u64,
    bytes: Seq<u8>,
    length: Seq<char>,
    slice: Seq<char>,
    k: IntegerType,
)
    requires
        member_method(length) == "Length"@,
        member_method(slice) == "Slice"@,
        bytes.len() <= usize::MAX,
    ensures
        crypto_plan(b.insert(h, bytes), length, seq![Value::CryptoBytes(h)]) == Ok::<PlanV, FailureV>(
            PlanV::Done(ValueV::Integer(bytes.len() as i128, IntegerType::Int32)),
        ),
        crypto_plan(
            b.insert(h, bytes),
            slice,
            seq![Value::CryptoBytes(h), Value::Integer(0, k), Value::Integer(bytes.len() as i128, k)],
        ) == Ok::<PlanV, FailureV>(PlanV::Store(bytes)),
{
    lemma_member_name_shapes();
    assert(bytes.subrange(0, bytes.len() as int) =~= bytes);
}

/// The owner of `BNCrypto.Bytes` buffers, which it hands out as `u64`
/// handles numbered from 1.
pub struct CryptoProvider {
    buffers: HashMap<u64, Vec<u8>>,
    next: u64,
}

impl CryptoProvider {
    /// The live buffers by handle.
    pub closed spec fn buffers_view(&self) -> Map<u64, Seq<u8>> {
        self.buffers@.map_values(|v: Vec<u8>| v@)
    }

    /// The last handle handed out.
    pub closed spec fn last_handle(&self) -> u64 {
        self.next
    }

    /// Every live handle has been handed out.
    pub closed spec fn wf(&self) -> bool {
        forall|h: u64| #[trigger] self.buffers@.dom().contains(h) ==> 1 <= h <= self.next
    }

    /// A provider with no buffers.
    pub fn new() -> (p: Self)
        ensures
            p.wf(),
            p.buffers_view() == Map::<u64, Seq<u8>>::empty(),
            p.last_handle() == 0,
    {
        let p = CryptoProvider { buffers: HashMap::new(), next: 0 };
        assert(p.buffers_view() =~= Map::<u64, Seq<u8>>::empty());
        p
    }

    /// Stores `bytes` under the next handle.
    fn insert(&mut self, bytes: Vec<u8>) -> (r: Value)
        requires
            old(self).wf(),
            old(self).last_handle() < u64::MAX,
        ensures
            final(self).wf(),
            final(self).last_handle() == old(self).last_handle() + 1,
            final(self).buffers_view() == old(self).buffers_view().insert(
                final(self).last_handle(),
                bytes@,
            ),
            !old(self).buffers_view().contains_key(final(self).last_handle()),
            r@ == ValueV::CryptoBytes(final(self).last_handle()),
    {
        self.next = self.next + 1;
        let handle = self.next;
        let ghost before = self.buffers@;
        assert(!before.dom().contains(handle));
        self.buffers.insert(handle, bytes);
        assert(self.buffers_view() =~= old(self).buffers_view().insert(handle, bytes@));
        Value::CryptoBytes(handle)
    }

    /// The buffer behind `handle`.
    fn buffer(&self, handle: u64, span: Span) -> (r: Result<&Vec<u8>, ProviderError>)
        ensures
            match r {
                Ok(v) => self.buffers_view().contains_key(handle) && v@ == self.buffers_view()[handle],
                Err(e) => !self.buffers_view().contains_key(handle) && e@ == invalid_bytes() && e.span
                    == span,
            },
    {
        match self.buffers.get(&handle) {
            Some(v) => Ok(v),
            None => {
                let message: Vec<char> = chars_of("BNCrypto.Bytes is invalid");
                Err(
                    ProviderError {
                        kind: ProviderErrorKind::UseAfterRelease(crate::text::string_of(&message)),
                        span,
                    },
                )
            },
        }
    }

    /// A copy of the buffer behind argument `index`.
    fn bytes_at(&self, arguments: &Vec<Value>, index: usize, member: &str, span: Span) -> (r: Result<
        Vec<u8>,
        ProviderError,
    >)
        ensures
            match bytes_at(self.buffers_view(), arguments@, index as int, member@) {
                Ok(x) => r matches Ok(v) && v@ == x,
                Err(f) => r matches Err(e) && e@ == f && e.span == span,
            },
    {
        if index >= arguments.len() {
            return Err(mismatch(Expected::CryptoBytes, member, span));
        }
        match &arguments[index] {
            Value::CryptoBytes(handle) => {
                let buffer = self.buffer(*handle, span)?;
                Ok(vstd::slice::slice_to_vec(buffer.as_slice()))
            },
            _ => Err(mismatch(Expected::CryptoBytes, member, span)),
        }
    }

    /// Copies of the buffers behind the first `n` arguments.
    fn buffers_at(&self, arguments: &Vec<Value>, member: &str, n: usize, span: Span) -> (r: Result<
        Vec<Vec<u8>>,
        ProviderError,
    >)
        ensures
            match buffers_at(self.buffers_view(), arguments@, member@, n as nat) {
                Ok(x) => r matches Ok(v) && operands_view(v@) == x,
                Err(f) => r matches Err(e) && e@ == f && e.span == span,
            },
    {
        let mut out: Vec<Vec<u8>> = Vec::new();
        let mut i: usize = 0;
        assert(operands_view(out@) =~= Seq::<Seq<u8>>::empty());
        while i < n
            invariant
                0 <= i <= n,
                buffers_at(self.buffers_view(), arguments@, member@, i as nat) == Ok::<
                    Seq<Seq<u8>>,
                    FailureV,
                >(operands_view(out@)),
            decreases n - i,
        {
            let x = match self.bytes_at(arguments, i, member, span) {
                Ok(x) => x,
                Err(e) => {
                    proof {
                        lemma_buffers_at_failure(self.buffers_view(), arguments@, member@, (i + 1) as nat, n as nat);
                    }
                    return Err(e);
                },
            };
            let ghost before = out@;
            out.push(x);
            assert(operands_view(out@) =~= operands_view(before).push(x@));
            i += 1;
        }
        Ok(out)
    }

    /// Digests, buffer construction and inspection.
    fn digest_or_buffer(&mut self, method: &Vec<char>, member: &str, arguments: &Vec<Value>, span: Span) -> (r:
        Result<CryptoStep, ProviderError>)
        requires
            old(self).wf(),
            old(self).last_handle() < u64::MAX,
            digest_or_buffer_member(method@),
        ensures
            final(self).wf(),
            step_follows(
                plan_digest_or_buffer(old(self).buffers_view(), method@, member@, arguments@),
                span,
                old(self).buffers_view(),
                old(self).last_handle(),
                final(self).buffers_view(),
                final(self).last_handle(),
                r,
            ),
    {
        proof {
            assert(operands_view(Seq::<Vec<u8>>::empty()) =~= Seq::<Seq<u8>>::empty());
        }
        if is(method, "SHA256") || is(method, "SHA512") || is(method, "FromText") || is(
            method,
            "FromHex",
        ) {
            require_arity(member, arguments, 1, span)?;
            let text = text_at_exec(arguments, 0, member, span)?;
            if is(method, "SHA256") {
                return Ok(compute(CryptoOp::Sha256, text.clone(), Vec::new()));
            }
            if is(method, "SHA512") {
                return Ok(compute(CryptoOp::Sha512, text.clone(), Vec::new()));
            }
            if is(method, "FromText") {
                let bytes = vstd::slice::slice_to_vec(text.as_str().as_bytes());
                return Ok(CryptoStep::Done(self.insert(bytes)));
            }
            return Ok(compute(CryptoOp::FromHex, text.clone(), Vec::new()));
        }
        if is(method, "Length") || is(method, "ToHex") {
            require_arity(member, arguments, 1, span)?;
            let x = self.bytes_at(arguments, 0, member, span)?;
            if is(method, "Length") {
                return Ok(CryptoStep::Done(Value::Integer(x.len() as i128, IntegerType::Int32)));
            }
            let ghost xv = x@;
            let mut ops: Vec<Vec<u8>> = Vec::new();
            ops.push(x);
            assert(operands_view(ops@) =~= seq![xv]);
            return Ok(compute(CryptoOp::ToHex, no_text(), ops));
        }
        require_arity(member, arguments, 3, span)?;
        let x = self.bytes_at(arguments, 0, member, span)?;
        let start = count_at_exec(arguments, 1, member, usize::MAX as i128, span)?;
        let len = count_at_exec(arguments, 2, member, usize::MAX as i128, span)?;
        let start = start as usize;
        let len = len as usize;
        match start.checked_add(len) {
            Some(end) => {
                if end <= x.len() {
                    let part = vstd::slice::slice_to_vec(vstd::slice::slice_subrange(x.as_slice(), start, end));
                    return Ok(CryptoStep::Done(self.insert(part)));
                }
            },
            None => {},
        }
        let message: Vec<char> = chars_of("BNCrypto.Slice range is outside the buffer");
        Ok(CryptoStep::Done(make_error(&message)))
    }

    /// Sealing and opening under an AEAD.
    fn aead(&mut self, method: &Vec<char>, member: &str, arguments: &Vec<Value>, span: Span) -> (r: Result<
        CryptoStep,
        ProviderError,
    >)
        requires
            old(self).wf(),
            old(self).last_handle() < u64::MAX,
        ensures
            final(self).wf(),
            step_follows(
                plan_aead(old(self).buffers_view(), method@, member@, arguments@),
                span,
                old(self).buffers_view(),
                old(self).last_handle(),
                final(self).buffers_view(),
                final(self).last_handle(),
                r,
            ),
    {
        proof {
        }
        require_arity(member, arguments, 4, span)?;
        let ops = self.buffers_at(arguments, member, 4, span)?;
        let aes = is(method, "SealAesGcm") || is(method, "OpenAesGcm");
        let sealing = is(method, "SealAesGcm") || is(method, "SealChaCha20");
        let op = if sealing {
            CryptoOp::Seal { aes }
        } else {
            CryptoOp::Open { aes }
        };
        Ok(compute(op, no_text(), ops))
    }

    /// HMAC-SHA-256, its verification, and Argon2id.
    fn mac_or_kdf(&mut self, method: &Vec<char>, member: &str, arguments: &Vec<Value>, span: Span) -> (r:
        Result<CryptoStep, ProviderError>)
        requires
            old(self).wf(),
            old(self).last_handle() < u64::MAX,
        ensures
            final(self).wf(),
            step_follows(
                plan_mac_or_kdf(old(self).buffers_view(), method@, member@, arguments@),
                span,
                old(self).buffers_view(),
                old(self).last_handle(),
                final(self).buffers_view(),
                final(self).last_handle(),
                r,
            ),
    {
        proof {
        }
        if is(method, "HmacSha256") || is(method, "VerifyHmacSha256") {
            let hmac = is(method, "HmacSha256");
            let n: usize = if hmac { 2 } else { 3 };
            require_arity(member, arguments, n, span)?;
            let ops = self.buffers_at(arguments, member, n, span)?;
            let op = if hmac {
                CryptoOp::HmacSha256
            } else {
                CryptoOp::VerifyHmacSha256
            };
            return Ok(compute(op, no_text(), ops));
        }
        require_arity(member, arguments, 5, span)?;
        let ops = self.buffers_at(arguments, member, 2, span)?;
        let memory = count_at_exec(arguments, 2, member, u32::MAX as i128, span)?;
        let iterations = count_at_exec(arguments, 3, member, u32::MAX as i128, span)?;
        let parallelism = count_at_exec(arguments, 4, member, u32::MAX as i128, span)?;
        let op = CryptoOp::Argon2id {
            memory_kib: memory as u32,
            iterations: iterations as u32,
            parallelism: parallelism as u32,
        };
        Ok(compute(op, no_text(), ops))
    }

    /// Ed25519 and ECDSA P-256.
    fn signature(&mut self, method: &Vec<char>, member: &str, arguments: &Vec<Value>, span: Span) -> (r:
        Result<CryptoStep, ProviderError>)
        requires
            old(self).wf(),
            old(self).last_handle() < u64::MAX,
        ensures
            final(self).wf(),
            step_follows(
                plan_signature(old(self).buffers_view(), method@, member@, arguments@),
                span,
                old(self).buffers_view(),
                old(self).last_handle(),
                final(self).buffers_view(),
                final(self).last_handle(),
                r,
            ),
    {
        proof {
        }
        let ed25519 = is(method, "Ed25519PublicKey") || is(method, "Ed25519Sign") || is(
            method,
            "Ed25519Verify",
        );
        if is(method, "Ed25519Verify") || is(method, "EcdsaP256Verify") {
            require_arity(member, arguments, 3, span)?;
            let ops = self.buffers_at(arguments, member, 3, span)?;
            return Ok(compute(CryptoOp::Verify { ed25519 }, no_text(), ops));
        }
        let key = self.bytes_at(arguments, 0, member, span)?;
        let ghost kv = key@;
        if is(method, "Ed25519PublicKey") || is(method, "EcdsaP256PublicKey") {
            require_arity(member, arguments, 1, span)?;
            let mut ops: Vec<Vec<u8>> = Vec::new();
            ops.push(key);
            assert(operands_view(ops@) =~= seq![kv]);
            return Ok(compute(CryptoOp::PublicKey { ed25519 }, no_text(), ops));
        }
        require_arity(member, arguments, 2, span)?;
        let message = self.bytes_at(arguments, 1, member, span)?;
        let ghost mv = message@;
        let mut ops: Vec<Vec<u8>> = Vec::new();
        ops.push(key);
        ops.push(message);
        assert(operands_view(ops@) =~= seq![kv, mv]);
        Ok(compute(CryptoOp::Sign { ed25519 }, no_text(), ops))
    }

    /// ML-KEM-768 and ML-DSA-65.
    fn post_quantum(&mut self, method: &Vec<char>, member: &str, arguments: &Vec<Value>, span: Span) -> (r:
        Result<CryptoStep, ProviderError>)
        requires
            old(self).wf(),
            old(self).last_handle() < u64::MAX,
        ensures
            final(self).wf(),
            step_follows(
                plan_post_quantum(old(self).buffers_view(), method@, member@, arguments@),
                span,
                old(self).buffers_view(),
                old(self).last_handle(),
                final(self).buffers_view(),
                final(self).last_handle(),
                r,
            ),
    {
        proof {
        }
        let (n, op): (usize, CryptoOp) = if is(method, "MlKemKeypair") {
            (1, CryptoOp::MlKemKeypair)
        } else if is(method, "MlDsaKeypair") {
            (1, CryptoOp::MlDsaKeypair)
        } else if is(method, "MlKemEncapsulate") {
            (1, CryptoOp::MlKemEncapsulate)
        } else if is(method, "MlDsaVerify") {
            (3, CryptoOp::MlDsaVerify)
        } else if is(method, "MlKemDecapsulate") {
            (2, CryptoOp::MlKemDecapsulate)
        } else {
            (2, CryptoOp::MlDsaSign)
        };
        require_arity(member, arguments, n, span)?;
        let ops = self.buffers_at(arguments, member, n, span)?;
        Ok(compute(op, no_text(), ops))
    }

    /// Calls `member` with `arguments`: a value now (storing a new buffer
    /// where the member makes one), or a primitive for the caller to run and
    /// hand to [`CryptoProvider::complete`].
    pub fn call(&mut self, member: &str, arguments: Vec<Value>, span: Span) -> (r: Result<CryptoStep, ProviderError>)
        requires
            old(self).wf(),
            old(self).last_handle() < u64::MAX,
        ensures
            final(self).wf(),
            step_follows(
                crypto_plan(old(self).buffers_view(), member@, arguments@),
                span,
                old(self).buffers_view(),
                old(self).last_handle(),
                final(self).buffers_view(),
                final(self).last_handle(),
                r,
            ),
    {
        let method = method_of(member);
        proof {
        }
        if is(&method, "SHA256") || is(&method, "SHA512") || is(&method, "FromText") || is(
            &method,
            "FromHex",
        ) || is(&method, "Length") || is(&method, "ToHex") || is(&method, "Slice") {
            return self.digest_or_buffer(&method, member, &arguments, span);
        }
        if is(&method, "SealAesGcm") || is(&method, "SealChaCha20") || is(&method, "OpenAesGcm")
            || is(&method, "OpenChaCha20") {
            return self.aead(&method, member, &arguments, span);
        }
        if is(&method, "HmacSha256") || is(&method, "VerifyHmacSha256") || is(
            &method,
            "Argon2id",
        ) {
            return self.mac_or_kdf(&method, member, &arguments, span);
        }
        if is(&method, "Ed25519PublicKey") || is(&method, "Ed25519Sign") || is(
            &method,
            "Ed25519Verify",
        ) || is(&method, "EcdsaP256PublicKey") || is(&method, "EcdsaP256Sign") || is(
            &method,
            "EcdsaP256Verify",
        ) {
            return self.signature(&method, member, &arguments, span);
        }
        if is(&method, "MlKemKeypair") || is(&method, "MlKemEncapsulate") || is(
            &method,
            "MlKemDecapsulate",
        ) || is(&method, "MlDsaKeypair") || is(&method, "MlDsaSign") || is(
            &method,
            "MlDsaVerify",
        ) {
            return self.post_quantum(&method, member, &arguments, span);
        }
        if is(&method, "CONSTRUCTOR") {
            return Ok(CryptoStep::Done(Value::Null));
        }
        let kind: Vec<char> = chars_of("BNCrypto function");
        Err(
            ProviderError {
                kind: ProviderErrorKind::NameNotFound {
                    name: crate::text::string_of(&method),
                    kind: crate::text::string_of(&kind),
                },
                span,
            },
        )
    }

    /// Completes a primitive a call asked for: stores the buffer it produced
    /// (a pair concatenated), or gives its text, its answer, or the `Error`
    /// value for its rejection.
    pub fn complete(&mut self, op: CryptoOp, outcome: CryptoOutcome) -> (r: Value)
        requires
            old(self).wf(),
            old(self).last_handle() < u64::MAX,
        ensures
            final(self).wf(),
            match completion(op, outcome) {
                CompletionV::Give(v) => r@ == v && final(self).buffers_view() == old(self).buffers_view()
                    && final(self).last_handle() == old(self).last_handle(),
                CompletionV::Store(b) => r@ == ValueV::CryptoBytes(final(self).last_handle())
                    && final(self).last_handle() == old(self).last_handle() + 1
                    && final(self).buffers_view() == old(self).buffers_view().insert(
                    final(self).last_handle(),
                    b,
                ),
            },
    {
        match outcome {
            CryptoOutcome::Bytes(Some(bytes)) => self.insert(bytes),
            CryptoOutcome::Pair(Some((first, second))) => {
                let mut joined = first;
                let mut rest = second;
                joined.append(&mut rest);
                self.insert(joined)
            },
            CryptoOutcome::Text(t) => Value::String(t),
            CryptoOutcome::Flag(f) => Value::Boolean(f),
            _ => {
                let message: Vec<char> = match op {
                    CryptoOp::FromHex => chars_of("BNCrypto.FromHex expects an even-length hexadecimal string"),
                    CryptoOp::Seal { .. } => chars_of("BNCrypto seal rejected the key or nonce length"),
                    CryptoOp::Open { .. } => chars_of("BNCrypto open failed: authentication tag did not verify"),
                    CryptoOp::Argon2id { .. } => chars_of("BNCrypto.Argon2id rejected the cost parameters"),
                    CryptoOp::MlKemKeypair | CryptoOp::MlDsaKeypair => chars_of("BNCrypto rejected the seed length"),
                    CryptoOp::MlKemEncapsulate => chars_of("BNCrypto rejected the encapsulation key"),
                    CryptoOp::MlKemDecapsulate => chars_of("BNCrypto rejected the ciphertext"),
                    CryptoOp::MlDsaSign => chars_of("BNCrypto rejected the signing key"),
                    _ => chars_of("BNCrypto rejected the key material"),
                };
                assert(message@ =~= rejection_message(op));
                make_error(&message)
            },
        }
    }

    /// Makes an empty buffer for `NEW BNCrypto.Bytes`; other classes are not
    /// this provider's.
    pub fn allocate(&mut self, class: &str, span: Span) -> (r: Option<Result<Value, ProviderError>>)
        requires
            old(self).wf(),
            old(self).last_handle() < u64::MAX,
        ensures
            final(self).wf(),
            member_method(class@) == "Bytes"@ ==> (r matches Some(Ok(v)) && v@ == ValueV::CryptoBytes(
                final(self).last_handle(),
            ) && final(self).last_handle() == old(self).last_handle() + 1 && final(self).buffers_view()
                == old(self).buffers_view().insert(final(self).last_handle(), Seq::empty())),
            member_method(class@) != "Bytes"@ ==> r is None && final(self).buffers_view() == old(
                self,
            ).buffers_view() && final(self).last_handle() == old(self).last_handle(),
    {
        let name = method_of(class);
        if is(&name, "Bytes") {
            let empty: Vec<u8> = Vec::new();
            assert(empty@ =~= Seq::<u8>::empty());
            Some(Ok(self.insert(empty)))
        } else {
            None
        }
    }

    /// Releases the buffer behind a `Bytes` handle; other values are not this
    /// provider's. Releasing twice fails.
    pub fn release(&mut self, value: &Value, span: Span) -> (r: Option<Result<(), ProviderError>>)
        requires
            old(self).wf(),
        ensures
            final(self).wf(),
            final(self).last_handle() == old(self).last_handle(),
            match value {
                Value::CryptoBytes(h) => final(self).buffers_view() == old(self).buffers_view().remove(*h)
                    && if old(self).buffers_view().contains_key(*h) {
                    r matches Some(Ok(()))
                } else {
                    r matches Some(Err(e)) && e@ == FailureV::UseAfterRelease(
                        "BNCrypto.Bytes was already released"@,
                    ) && e.span == span
                },
                _ => r is None && final(self).buffers_view() == old(self).buffers_view(),
            },
    {
        let handle = match value {
            Value::CryptoBytes(h) => *h,
            _ => return None,
        };
        let removed = self.buffers.remove(&handle);
        assert(self.buffers_view() =~= old(self).buffers_view().remove(handle));
        match removed {
            Some(_) => Some(Ok(())),
            None => {
                let message: Vec<char> = chars_of("BNCrypto.Bytes was already released");
                Some(
                    Err(
                        ProviderError {
                            kind: ProviderErrorKind::UseAfterRelease(crate::text::string_of(&message)),
                            span,
                        },
                    ),
                )
            },
        }
    }
}


impl Default for CryptoProvider {
    fn default() -> (p: Self)
        ensures
            p.wf(),
            p.buffers_view() == Map::<u64, Seq<u8>>::empty(),
            p.last_handle() == 0,
    {
        CryptoProvider::new()
    }
}

/// Whether an AEAD primitive runs under AES-256-GCM.
pub open spec fn aead_uses_aes(op: CryptoOp) -> bool {
    match op {
        CryptoOp::Seal { aes } => aes,
        CryptoOp::Open { aes } => aes,
        _ => false,
    }
}

/// A sealing or opening request names its operation and cipher after the
/// member: it seals exactly when the member's name starts with `Seal`, and it
/// uses AES-256-GCM exactly when the name ends in `AesGcm`.
pub proof fn lemma_aead_request_follows_the_name(b: Map<u64, Seq<u8>>, member: Seq<char>, args: Seq<Value>)
    ensures
        match crypto_plan(b, member, args) {
            Ok(PlanV::Compute(op, _, _)) => (op is Seal || op is Open) ==> {
                let m = member_method(member);
                &&& m.len() >= 10
                &&& (op is Seal <==> m.take(4) == "Seal"@)
                &&& (aead_uses_aes(op) <==> m.skip(m.len() - 6) == "AesGcm"@)
            },
            _ => true,
        },
{
    let m = member_method(member);
    reveal_strlit("SealAesGcm");
    reveal_strlit("SealChaCha20");
    reveal_strlit("OpenAesGcm");
    reveal_strlit("OpenChaCha20");
    reveal_strlit("Seal");
    reveal_strlit("AesGcm");
    match crypto_plan(b, member, args) {
        Ok(PlanV::Compute(op, _, _)) => {
            if op is Seal || op is Open {
                assert(aead_member(m));
                if m == "SealAesGcm"@ {
                    assert(m.take(4) =~= "Seal"@);
                    assert(m.skip(m.len() - 6) =~= "AesGcm"@);
                } else if m == "SealChaCha20"@ {
                    assert(m.take(4) =~= "Seal"@);
                    assert(m.skip(m.len() - 6)[0] != "AesGcm"@[0]);
                } else if m == "OpenAesGcm"@ {
                    assert(m.take(4)[0] != "Seal"@[0]);
                    assert(m.skip(m.len() - 6) =~= "AesGcm"@);
                } else {
                    assert(m.take(4)[0] != "Seal"@[0]);
                    assert(m.skip(m.len() - 6)[0] != "AesGcm"@[0]);
                }
            }
        },
        _ => {},
    }
}

/// `suffix` ends `m`.
pub open spec fn ends_with(m: Seq<char>, suffix: Seq<char>) -> bool {
    m.len() >= suffix.len() && m.skip(m.len() - suffix.len()) == suffix
}

/// Whether a signature primitive uses Ed25519 (else ECDSA P-256).
pub open spec fn signature_uses_ed25519(op: CryptoOp) -> bool {
    match op {
        CryptoOp::PublicKey { ed25519 } => ed25519,
        CryptoOp::Sign { ed25519 } => ed25519,
        CryptoOp::Verify { ed25519 } => ed25519,
        _ => false,
    }
}

/// A signature request follows the member's name: it uses Ed25519 exactly
/// when the name starts with `Ed25519`, verifies exactly when the name ends in
/// `Verify`, and signs exactly when it ends in `Sign`.
pub proof fn lemma_signature_request_follows_the_name(b: Map<u64, Seq<u8>>, member: Seq<char>, args: Seq<Value>)
    ensures
        match crypto_plan(b, member, args) {
            Ok(PlanV::Compute(op, _, _)) => (op is PublicKey || op is Sign || op is Verify) ==> {
                let m = member_method(member);
                &&& m.len() >= 7
                &&& (signature_uses_ed25519(op) <==> m.take(7) == "Ed25519"@)
                &&& (op is Verify <==> ends_with(m, "Verify"@))
                &&& (op is Sign <==> ends_with(m, "Sign"@))
            },
            _ => true,
        },
{
    let m = member_method(member);
    reveal_strlit("Ed25519PublicKey");
    reveal_strlit("Ed25519Sign");
    reveal_strlit("Ed25519Verify");
    reveal_strlit("EcdsaP256PublicKey");
    reveal_strlit("EcdsaP256Sign");
    reveal_strlit("EcdsaP256Verify");
    reveal_strlit("Ed25519");
    reveal_strlit("Verify");
    reveal_strlit("Sign");
    match crypto_plan(b, member, args) {
        Ok(PlanV::Compute(op, _, _)) => {
            if op is PublicKey || op is Sign || op is Verify {
                assert(signature_member(m));
            if m == "Ed25519PublicKey"@ {
                assert(m.take(7) =~= "Ed25519"@);
                assert(m.skip(m.len() - 6)[0] != "Verify"@[0]);
                assert(m.skip(m.len() - 4)[0] != "Sign"@[0]);
            } else if m == "Ed25519Sign"@ {
                assert(m.take(7) =~= "Ed25519"@);
                assert(m.skip(m.len() - 6)[0] != "Verify"@[0]);
                assert(m.skip(m.len() - 4) =~= "Sign"@);
            } else if m == "Ed25519Verify"@ {
                assert(m.take(7) =~= "Ed25519"@);
                assert(m.skip(m.len() - 6) =~= "Verify"@);
                assert(m.skip(m.len() - 4)[0] != "Sign"@[0]);
            } else if m == "EcdsaP256PublicKey"@ {
                assert(m.take(7)[1] != "Ed25519"@[1]);
                assert(m.skip(m.len() - 6)[0] != "Verify"@[0]);
                assert(m.skip(m.len() - 4)[0] != "Sign"@[0]);
            } else if m == "EcdsaP256Sign"@ {
                assert(m.take(7)[1] != "Ed25519"@[1]);
                assert(m.skip(m.len() - 6)[0] != "Verify"@[0]);
                assert(m.skip(m.len() - 4) =~= "Sign"@);
            } else {
                assert(m.take(7)[1] != "Ed25519"@[1]);
                assert(m.skip(m.len() - 6) =~= "Verify"@);
                assert(m.skip(m.len() - 4)[0] != "Sign"@[0]);
            }
            }
        },
        _ => {},
    }
}

/// The member that asks for a primitive which only one member asks for.
pub open spec fn sole_member_of(op: CryptoOp) -> Option<Seq<char>> {
    match op {
        CryptoOp::Sha256 => Some("SHA256"@),
        CryptoOp::Sha512 => Some("SHA512"@),
        CryptoOp::FromHex => Some("FromHex"@),
        CryptoOp::ToHex => Some("ToHex"@),
        CryptoOp::HmacSha256 => Some("HmacSha256"@),
        CryptoOp::VerifyHmacSha256 => Some("VerifyHmacSha256"@),
        CryptoOp::Argon2id { .. } => Some("Argon2id"@),
        CryptoOp::MlKemKeypair => Some("MlKemKeypair"@),
        CryptoOp::MlDsaKeypair => Some("MlDsaKeypair"@),
        CryptoOp::MlKemEncapsulate => Some("MlKemEncapsulate"@),
        CryptoOp::MlKemDecapsulate => Some("MlKemDecapsulate"@),
        CryptoOp::MlDsaSign => Some("MlDsaSign"@),
        CryptoOp::MlDsaVerify => Some("MlDsaVerify"@),
        _ => None,
    }
}

/// Each single-member primitive is requested only by its own member: a
/// digest, hex conversion, MAC, key derivation or post-quantum request names
/// the member that was called.
pub proof fn lemma_primitive_requests_name_their_member(b: Map<u64, Seq<u8>>, member: Seq<char>, args: Seq<Value>)
    ensures
        match crypto_plan(b, member, args) {
            Ok(PlanV::Compute(op, _, _)) => sole_member_of(op) matches Some(name) ==> member_method(member) == name,
            _ => true,
        },
{
}

} // verus!
