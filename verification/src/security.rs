//! Security function set: device identifiers derived from a certificate.
use sha2::{Digest, Sha256};
use vstd::prelude::*;

verus! {

/// The sum of the decimal digits of `x`.
pub open spec fn digit_sum(x: nat) -> nat
    decreases x,
{
    if x == 0 {
        0
    } else {
        x % 10 + digit_sum(x / 10)
    }
}

/// The check digit that makes the digit sum of `x * 10 + digit` a multiple of ten.
pub open spec fn spec_check_digit(x: nat) -> nat {
    ((10 - digit_sum(x) % 10) % 10) as nat
}

/// A number's digit sum never exceeds the number itself.
proof fn lemma_digit_sum_bounded(x: nat)
    ensures
        digit_sum(x) <= x,
    decreases x,
{
    if x != 0 {
        lemma_digit_sum_bounded(x / 10);
    }
}

/// Generate the check digit of `x`: the digit that, appended to `x`,
/// brings the sum of all digits to a multiple of ten.
pub fn check_digit(x: u64) -> (digit: u64)
    ensures
        digit == spec_check_digit(x as nat),
        digit < 10,
{
    let mut rest: u64 = x;
    let mut sum: u64 = 0;
    proof {
        lemma_digit_sum_bounded(x as nat);
    }
    while rest != 0
        invariant
            sum + digit_sum(rest as nat) == digit_sum(x as nat),
            digit_sum(x as nat) <= x,
        decreases rest,
    {
        sum = sum + rest % 10;
        rest = rest / 10;
    }
    (10 - (sum % 10)) % 10
}

/// The largest value an SFDI may take (a 40-bit unsigned integer).
pub const SFDI_MAX: u64 = 1_099_511_627_775;

/// The big-endian unsigned value of a byte sequence.
pub open spec fn be_value(bytes: Seq<u8>) -> nat
    decreases bytes.len(),
{
    if bytes.len() == 0 {
        0
    } else {
        be_value(bytes.drop_last()) * 256 + bytes.last() as nat
    }
}

/// The first 36 bits of an LFDI: its first five bytes, read big-endian, without their last four bits.
pub open spec fn sfdi_base(lfdi: Seq<u8>) -> nat {
    be_value(lfdi.take(5)) / 16
}

/// The SFDI of an LFDI: its first 36 bits as a decimal number, followed by their check digit.
pub open spec fn spec_sfdi(lfdi: Seq<u8>) -> nat {
    sfdi_base(lfdi) * 10 + spec_check_digit(sfdi_base(lfdi))
}

/// 256 to the power `n`: one more than the largest value of `n` bytes.
pub open spec fn byte_limit(n: nat) -> nat
    decreases n,
{
    if n == 0 {
        1
    } else {
        256 * byte_limit((n - 1) as nat)
    }
}

/// Generate the SFDI of a device from its LFDI: the first 36 bits of the LFDI,
/// in decimal, followed by a check digit.
pub fn sfdi_gen(lfdi: &[u8; 20]) -> (sfdi: u64)
    ensures
        sfdi == spec_sfdi(lfdi@),
        sfdi <= SFDI_MAX,
{
    let mut value: u64 = 0;
    let mut i: usize = 0;
    while i < 5
        invariant
            i <= 5,
            lfdi@.len() == 20,
            value == be_value(lfdi@.take(i as int)),
            value < byte_limit(i as nat),
        decreases 5 - i,
    {
        proof {
            assert(lfdi@.take(i + 1).drop_last() =~= lfdi@.take(i as int));
            reveal_with_fuel(byte_limit, 6);
            assert(byte_limit(i as nat) <= 0x1_0000_0000);
            let p = byte_limit(i as nat);
            assert(value * 256 + lfdi@[i as int] < p * 256) by (nonlinear_arith)
                requires
                    value < p,
                    lfdi@[i as int] < 256,
            ;
        }
        value = value * 256 + lfdi[i] as u64;
        i = i + 1;
    }
    let base = value / 16;
    proof {
        reveal_with_fuel(byte_limit, 6);
        assert(byte_limit(5) == 0x100_0000_0000);
    }
    base * 10 + check_digit(base)
}

/// Appending `x`'s check digit to `x` gives a number whose digit sum is a multiple of ten.
pub proof fn lemma_check_digit_completes(x: nat)
    ensures
        digit_sum(x * 10 + spec_check_digit(x)) % 10 == 0,
{
    let c = spec_check_digit(x);
    let y = x * 10 + c;
    assert(y % 10 == c && y / 10 == x) by (nonlinear_arith)
        requires
            y == x * 10 + c,
            c < 10,
    ;
    assert(y != 0 ==> digit_sum(y) == c + digit_sum(x));
}

/// Every SFDI produced from an LFDI passes the check-digit test: the sum of its
/// decimal digits is a multiple of ten.
pub proof fn lemma_sfdi_digit_sum(lfdi: Seq<u8>)
    ensures
        digit_sum(spec_sfdi(lfdi)) % 10 == 0,
{
    lemma_check_digit_completes(sfdi_base(lfdi));
}

/// The first block of a PEM document, base64-decoded, as `x509_parser` reads it.
pub uninterp spec fn pem_first_block(data: Seq<u8>) -> Option<Seq<u8>>;

/// Whether `x509_parser` accepts the bytes as a DER-encoded X.509 certificate.
pub uninterp spec fn parses_as_der_certificate(data: Seq<u8>) -> bool;

/// The SHA-256 digest of the bytes.
pub uninterp spec fn sha256_digest(data: Seq<u8>) -> Seq<u8>;

/// Calls `x509_parser::pem::parse_x509_pem` and hands back the decoded contents
/// of the first PEM block, or `None` where the call reports an error.
#[verifier::external_body]
pub(crate) fn pem_contents(data: &[u8]) -> (res: Option<Vec<u8>>)
    ensures
        match res {
            Some(v) => pem_first_block(data@) == Some(v@),
            None => pem_first_block(data@) is None,
        },
{
    match x509_parser::pem::parse_x509_pem(data) {
        Ok((_, pem)) => Some(pem.contents),
        Err(_) => None,
    }
}

/// Calls `x509_parser::parse_x509_certificate` and reports whether it succeeded.
#[verifier::external_body]
fn is_der_certificate(data: &[u8]) -> (res: bool)
    ensures
        res == parses_as_der_certificate(data@),
{
    x509_parser::parse_x509_certificate(data).is_ok()
}

/// Calls `sha2::Sha256::digest`; a SHA-256 digest is 32 bytes long.
#[verifier::external_body]
fn sha256(data: &[u8]) -> (res: Vec<u8>)
    ensures
        res@ == sha256_digest(data@),
        res@.len() == 32,
{
    Sha256::digest(data).to_vec()
}

/// Why an LFDI could not be derived from a certificate.
#[derive(Clone, Copy, Debug, PartialEq, Eq, Structural)]
pub enum LfdiError {
    /// The bytes are neither a PEM document nor a DER-encoded certificate.
    UnknownCertificateFormat,
}

/// The DER bytes that an LFDI is computed from: the first PEM block if the file is PEM,
/// the file itself if it is a DER certificate, and nothing otherwise.
pub open spec fn certificate_der(cert: Seq<u8>) -> Option<Seq<u8>> {
    match pem_first_block(cert) {
        Some(der) => Some(der),
        None => if parses_as_der_certificate(cert) {
            Some(cert)
        } else {
            None
        },
    }
}

/// The LFDI of a certificate file: the first 160 bits of the SHA-256 digest of its DER form.
pub open spec fn spec_lfdi(cert: Seq<u8>) -> Option<Seq<u8>> {
    match certificate_der(cert) {
        Some(der) => Some(sha256_digest(der).take(20)),
        None => None,
    }
}

/// The LFDI does not depend on how the certificate file is encoded: a PEM file and the DER
/// bytes of its first block give the same LFDI, where those DER bytes are a certificate that
/// does not itself read as PEM.
pub proof fn lemma_lfdi_encoding_independent(pem: Seq<u8>, der: Seq<u8>)
    requires
        pem_first_block(pem) == Some(der),
        pem_first_block(der) is None,
        parses_as_der_certificate(der),
    ensures
        spec_lfdi(pem) is Some,
        spec_lfdi(pem) == spec_lfdi(der),
{
}

/// Generate an LFDI from the contents of a PEM or DER certificate file.
pub fn lfdi_gen(cert: &[u8]) -> (res: Result<[u8; 20], LfdiError>)
    ensures
        match res {
            Ok(lfdi) => spec_lfdi(cert@) == Some(lfdi@),
            Err(e) => spec_lfdi(cert@) is None && e == LfdiError::UnknownCertificateFormat,
        },
{
    let der: Vec<u8> = match pem_contents(cert) {
        Some(contents) => contents,
        None => {
            if is_der_certificate(cert) {
                vstd::slice::slice_to_vec(cert)
            } else {
                return Err(LfdiError::UnknownCertificateFormat);
            }
        },
    };
    let digest = sha256(der.as_slice());
    let lfdi: [u8; 20] = [
        digest[0], digest[1], digest[2], digest[3], digest[4], digest[5], digest[6], digest[7],
        digest[8], digest[9], digest[10], digest[11], digest[12], digest[13], digest[14],
        digest[15], digest[16], digest[17], digest[18], digest[19],
    ];
    assert(lfdi@ =~= digest@.take(20));
    Ok(lfdi)
}

/// Given the contents of a PEM or DER client certificate, generate its LFDI and the
/// corresponding SFDI.
pub fn security_init(cert: &[u8]) -> (res: Result<([u8; 20], u64), LfdiError>)
    ensures
        match res {
            Ok((lfdi, sfdi)) => spec_lfdi(cert@) == Some(lfdi@) && sfdi == spec_sfdi(lfdi@),
            Err(e) => spec_lfdi(cert@) is None && e == LfdiError::UnknownCertificateFormat,
        },
{
    let lfdi = lfdi_gen(cert)?;
    let sfdi = sfdi_gen(&lfdi);
    Ok((lfdi, sfdi))
}

} // verus!
