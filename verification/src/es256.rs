//! ECDSA over the curve P-256 with SHA-256, the signature scheme ES256.
//!
//! Keys are held as the big-endian bytes of their numbers. Which bytes are
//! keys and signatures is stated over those numbers; what a signature is, and
//! which signatures a key accepts, is named.

use p256::ecdsa::signature::{Signer, Verifier};
use p256::elliptic_curve::sec1::FromEncodedPoint;
use vstd::prelude::*;

verus! {

/// The number that big-endian bytes stand for.
pub open spec fn big_endian(bytes: Seq<u8>) -> nat
    decreases bytes.len(),
{
    if bytes.len() == 0 {
        0
    } else {
        big_endian(bytes.drop_last()) * 256 + bytes.last() as nat
    }
}

/// The order of the group of points of P-256.
pub open spec fn group_order() -> nat {
    0xffffffff00000000ffffffffffffffffbce6faada7179e84f3b9cac2fc632551nat
}

/// The prime over which the curve P-256 is defined.
pub open spec fn field_prime() -> int {
    0xffffffff00000001000000000000000000000000ffffffffffffffffffffffffint
}

/// Whether 32 bytes are a secret scalar: a number from 1 to below the order.
pub open spec fn valid_scalar(bytes: Seq<u8>) -> bool {
    bytes.len() == 32 && 0 < big_endian(bytes) < group_order()
}

/// Whether two coordinates of 32 bytes are a point of the curve
/// `y^2 = x^3 - 3x + b`.
pub open spec fn on_curve(x_bytes: Seq<u8>, y_bytes: Seq<u8>) -> bool {
    let x = big_endian(x_bytes) as int;
    let y = big_endian(y_bytes) as int;
    let b = 0x5ac635d8aa3a93e7b3ebbd55769886bc651d06b0cc53b0f63bce3c3e27d2604bint;
    &&& x_bytes.len() == 32 && x < field_prime()
    &&& y_bytes.len() == 32 && y < field_prime()
    &&& (y * y) % field_prime() == (x * x * x - 3 * x + b) % field_prime()
}

/// Whether bytes are a signature: two scalars, one after the other.
pub open spec fn valid_signature(bytes: Seq<u8>) -> bool {
    bytes.len() == 64 && valid_scalar(bytes.take(32)) && valid_scalar(bytes.skip(32))
}

/// The signature that `SigningKey::try_sign` makes, if it makes one.
pub uninterp spec fn es256_signature(key: Seq<u8>, message: Seq<u8>) -> Option<Seq<u8>>;

/// Whether `VerifyingKey::verify` accepts a signature of a message.
pub uninterp spec fn es256_accepts(
    x: Seq<u8>,
    y: Seq<u8>,
    message: Seq<u8>,
    signature: Seq<u8>,
) -> bool;

/// The public point that `VerifyingKey::from` finds for a secret scalar.
pub uninterp spec fn es256_public_point(key: Seq<u8>) -> (Seq<u8>, Seq<u8>);

/// `SigningKey::from_bytes`: there is a key exactly for the secret scalars.
#[verifier::external_body]
fn scalar_is_key(bytes: &[u8; 32]) -> (is_key: bool)
    ensures
        is_key == valid_scalar(bytes@),
{
    p256::ecdsa::SigningKey::from_bytes(bytes.into()).is_ok()
}

/// `PublicKey::from_encoded_point` on an uncompressed point: there is a key
/// exactly for the points of the curve.
#[verifier::external_body]
fn point_is_key(x: &[u8], y: &[u8]) -> (is_key: bool)
    requires
        x@.len() == 32,
        y@.len() == 32,
    ensures
        is_key == on_curve(x@, y@),
{
    let point = p256::EncodedPoint::from_affine_coordinates(
        p256::FieldBytes::from_slice(x),
        p256::FieldBytes::from_slice(y),
        false,
    );
    Option::<p256::PublicKey>::from(p256::PublicKey::from_encoded_point(&point)).is_some()
}

/// `Signature::from_slice`: bytes are read as a signature exactly if they are
/// two scalars; the error says no more than that it is one.
#[verifier::external_body]
fn read_signature(bytes: &[u8]) -> (read: Result<(), String>)
    ensures
        match read {
            Ok(_) => valid_signature(bytes@),
            Err(error) => !valid_signature(bytes@) && error@ == "signature error"@,
        },
{
    p256::ecdsa::Signature::from_slice(bytes).map(|_signature| ()).map_err(
        |error| error.to_string(),
    )
}

/// `VerifyingKey::verify` for the key at a point of the curve; the error says
/// no more than that it is one.
#[verifier::external_body]
fn check_signature(x: &[u8], y: &[u8], message: &[u8], signature: &[u8]) -> (checked: Result<
    (),
    String,
>)
    requires
        on_curve(x@, y@),
        valid_signature(signature@),
    ensures
        match checked {
            Ok(_) => es256_accepts(x@, y@, message@, signature@),
            Err(error) => !es256_accepts(x@, y@, message@, signature@) && error@
                == "signature error"@,
        },
{
    let point = p256::EncodedPoint::from_affine_coordinates(
        p256::FieldBytes::from_slice(x),
        p256::FieldBytes::from_slice(y),
        false,
    );
    let key = p256::ecdsa::VerifyingKey::from_encoded_point(&point).unwrap();
    let signature = p256::ecdsa::Signature::from_slice(signature).unwrap();
    key.verify(message, &signature).map_err(|error| error.to_string())
}

/// Whether a signature is one, and is accepted at the public point of a key.
pub open spec fn signs(key: Seq<u8>, message: Seq<u8>, signature: Seq<u8>) -> bool {
    &&& valid_signature(signature)
    &&& es256_accepts(
        es256_public_point(key).0,
        es256_public_point(key).1,
        message,
        signature,
    )
}

/// `SigningKey::try_sign`: the signature is a function of key and message
/// (RFC 6979), and the key's own public point accepts it.
#[verifier::external_body]
fn make_signature(key: &[u8; 32], message: &[u8]) -> (made: Option<Vec<u8>>)
    requires
        valid_scalar(key@),
    ensures
        match made {
            Some(signature) => es256_signature(key@, message@) == Some(signature@) && signs(
                key@,
                message@,
                signature@,
            ),
            None => es256_signature(key@, message@) is None,
        },
{
    let key = p256::ecdsa::SigningKey::from_bytes(key.into()).unwrap();
    let signed: Result<p256::ecdsa::Signature, p256::ecdsa::Error> = key.try_sign(message);
    signed.ok().map(|signature| signature.to_vec())
}

/// `VerifyingKey::from` a signing key: the public point is on the curve.
#[verifier::external_body]
fn find_public_point(key: &[u8; 32]) -> (point: ([u8; 32], [u8; 32]))
    requires
        valid_scalar(key@),
    ensures
        es256_public_point(key@) == (point.0@, point.1@),
        on_curve(point.0@, point.1@),
{
    let key = p256::ecdsa::SigningKey::from_bytes(key.into()).unwrap();
    let point = p256::ecdsa::VerifyingKey::from(&key).to_encoded_point(false);
    let x: [u8; 32] = (*point.x().unwrap()).into();
    let y: [u8; 32] = (*point.y().unwrap()).into();
    (x, y)
}

/// `SigningKey::random` with the operating system's random numbers: some
/// secret scalar. Which one is left to chance. Where the operating system has
/// no random numbers to give, the call panics.
#[verifier::external_body]
fn draw_scalar() -> (bytes: [u8; 32])
    ensures
        valid_scalar(bytes@),
{
    p256::ecdsa::SigningKey::random(&mut rand::rngs::OsRng).to_bytes().into()
}

/// Whether bytes are a secret scalar that was drawn at random.
pub closed spec fn fresh_scalar(bytes: Seq<u8>) -> bool {
    exists|drawn: [u8; 32]| #[trigger] call_ensures(draw_scalar, (), drawn) && drawn@ == bytes
}

/// A scalar that counts as drawn was given by a call of the generator.
proof fn drawn_scalars_come_from_the_generator(bytes: Seq<u8>)
    requires
        fresh_scalar(bytes),
    ensures
        exists|drawn: [u8; 32]| #[trigger] call_ensures(draw_scalar, (), drawn) && drawn@ == bytes,
{
}

/// A key that signs: a secret scalar.
pub struct SigningKey {
    scalar: [u8; 32],
}

impl View for SigningKey {
    type V = Seq<u8>;

    closed spec fn view(&self) -> Seq<u8> {
        self.scalar@
    }
}

impl SigningKey {
    #[verifier::type_invariant]
    spec fn well_formed(&self) -> bool {
        valid_scalar(self.scalar@)
    }

    /// The key with this secret scalar, if it is one.
    pub fn from_bytes(scalar: [u8; 32]) -> (key: Option<SigningKey>)
        ensures
            match key {
                Some(key) => valid_scalar(scalar@) && key@ == scalar@,
                None => !valid_scalar(scalar@),
            },
    {
        if scalar_is_key(&scalar) {
            Some(SigningKey { scalar })
        } else {
            None
        }
    }

    /// Some key, drawn at random.
    pub fn random() -> (key: SigningKey)
        ensures
            valid_scalar(key@),
            fresh_scalar(key@),
    {
        SigningKey { scalar: draw_scalar() }
    }

    /// The secret scalar.
    pub fn to_bytes(&self) -> (scalar: [u8; 32])
        ensures
            scalar@ == self@,
            valid_scalar(scalar@),
    {
        proof {
            use_type_invariant(self);
        }
        self.scalar
    }

    /// The coordinates of the public point.
    pub fn public_point(&self) -> (point: ([u8; 32], [u8; 32]))
        ensures
            es256_public_point(self@) == (point.0@, point.1@),
            on_curve(point.0@, point.1@),
    {
        proof {
            use_type_invariant(self);
        }
        find_public_point(&self.scalar)
    }

    /// The signature of a message. For a message whose signature would hold a
    /// zero there is none.
    pub fn sign(&self, message: &[u8]) -> (made: Option<Vec<u8>>)
        ensures
            match made {
                Some(signature) => es256_signature(self@, message@) == Some(signature@) && signs(
                    self@,
                    message@,
                    signature@,
                ),
                None => es256_signature(self@, message@) is None,
            },
    {
        proof {
            use_type_invariant(self);
        }
        make_signature(&self.scalar, message)
    }
}

/// A key that checks signatures: a point of the curve.
pub struct VerifyingKey {
    x: Vec<u8>,
    y: Vec<u8>,
}

impl View for VerifyingKey {
    type V = (Seq<u8>, Seq<u8>);

    closed spec fn view(&self) -> (Seq<u8>, Seq<u8>) {
        (self.x@, self.y@)
    }
}

impl VerifyingKey {
    #[verifier::type_invariant]
    spec fn well_formed(&self) -> bool {
        on_curve(self.x@, self.y@)
    }

    /// The key at these coordinates, if they are a point of the curve.
    pub fn from_coordinates(x: Vec<u8>, y: Vec<u8>) -> (key: Option<VerifyingKey>)
        requires
            x@.len() == 32,
            y@.len() == 32,
        ensures
            match key {
                Some(key) => on_curve(x@, y@) && key@ == (x@, y@),
                None => !on_curve(x@, y@),
            },
    {
        if point_is_key(x.as_slice(), y.as_slice()) {
            Some(VerifyingKey { x, y })
        } else {
            None
        }
    }

    /// Checks a signature of a message.
    pub fn verify(&self, message: &[u8], signature: &[u8]) -> (checked: Result<(), String>)
        ensures
            match checked {
                Ok(_) => signature_verdict(self@, message@, signature@) is Ok,
                Err(error) => signature_verdict(self@, message@, signature@) matches Err(text)
                    && text == error@,
            },
    {
        proof {
            use_type_invariant(self);
        }
        match read_signature(signature) {
            Ok(_) => {},
            Err(error) => {
                return Err("malformed signature: ".to_owned().concat(error.as_str()));
            },
        }
        match check_signature(self.x.as_slice(), self.y.as_slice(), message, signature) {
            Ok(_) => Ok(()),
            Err(error) => Err("signature verification failed: ".to_owned().concat(error.as_str())),
        }
    }
}

/// What becomes of a signature of a message under a key: nothing if it is
/// accepted, or else what is wrong with it.
pub open spec fn signature_verdict(
    key: (Seq<u8>, Seq<u8>),
    message: Seq<u8>,
    signature: Seq<u8>,
) -> Result<(), Seq<char>> {
    if !valid_signature(signature) {
        Err("malformed signature: "@ + "signature error"@)
    } else if !es256_accepts(key.0, key.1, message, signature) {
        Err("signature verification failed: "@ + "signature error"@)
    } else {
        Ok(())
    }
}

} // verus!
