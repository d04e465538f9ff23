//! The certificate profile of IEEE 2030.5 (section 6.11): which X.509 extensions a device
//! certificate may carry, and how.
use vstd::prelude::*;
use x509_parser::extensions::ParsedExtension;

use crate::security::{pem_contents, pem_first_block};

verus! {

/// The X.509 extensions that the certificate profile speaks of.
#[derive(Clone, Copy, Debug, PartialEq, Eq, Structural)]
pub enum ExtensionKind {
    PolicyMappings,
    NameConstraints,
    KeyUsage,
    BasicConstraints,
    CertificatePolicies,
    SubjectAlternativeName,
    AuthorityKeyIdentifier,
    SubjectKeyIdentifier,
    /// Any other extension.
    Other,
}

/// Why a certificate does not meet the profile.
#[derive(Clone, Copy, Debug, PartialEq, Eq, Structural)]
pub enum CertError {
    /// The file holds no PEM block.
    NotPem,
    /// The PEM block is not an X.509 certificate.
    NotCertificate,
    /// The certificate contains policy mappings.
    PolicyMappings,
    /// The certificate contains name constraints.
    NameConstraints,
    /// A key usage, basic constraints, certificate policies or subject alternative name
    /// extension is not marked critical.
    MustBeCritical,
    /// An authority or subject key identifier extension is marked critical.
    MustNotBeCritical,
}

/// The extensions of a DER certificate, each with its kind and whether it is marked critical,
/// as `x509_parser` reads them; `None` if the bytes are not a certificate.
pub uninterp spec fn certificate_extension_kinds(der: Seq<u8>) -> Option<Seq<(ExtensionKind, bool)>>;

/// Calls `x509_parser::parse_x509_certificate` and lists the certificate's extensions, each
/// with its kind and criticality, or `None` where the call reports an error.
#[verifier::external_body]
fn certificate_extensions(der: &[u8]) -> (r: Option<Vec<(ExtensionKind, bool)>>)
    ensures
        certificate_extension_kinds(der@) == (match r { Some(v) => Some(v@), None => None }),
{
    let (_, cert) = match x509_parser::parse_x509_certificate(der) { Ok(c) => c, Err(_) => return None };
    Some(cert.extensions().iter().map(|e| (match e.parsed_extension() {
        ParsedExtension::PolicyMappings(_) => ExtensionKind::PolicyMappings,
        ParsedExtension::NameConstraints(_) => ExtensionKind::NameConstraints,
        ParsedExtension::KeyUsage(_) => ExtensionKind::KeyUsage,
        ParsedExtension::BasicConstraints(_) => ExtensionKind::BasicConstraints,
        ParsedExtension::CertificatePolicies(_) => ExtensionKind::CertificatePolicies,
        ParsedExtension::SubjectAlternativeName(_) => ExtensionKind::SubjectAlternativeName,
        ParsedExtension::AuthorityKeyIdentifier(_) => ExtensionKind::AuthorityKeyIdentifier,
        ParsedExtension::SubjectKeyIdentifier(_) => ExtensionKind::SubjectKeyIdentifier,
        _ => ExtensionKind::Other,
    }, e.critical)).collect())
}

/// The extensions that the profile requires to be marked critical.
pub open spec fn must_be_critical(kind: ExtensionKind) -> bool {
    kind == ExtensionKind::KeyUsage || kind == ExtensionKind::BasicConstraints
        || kind == ExtensionKind::CertificatePolicies || kind == ExtensionKind::SubjectAlternativeName
}

/// Whether one extension meets the profile: policy mappings and name constraints are refused,
/// key usage, basic constraints, certificate policies and subject alternative names must be
/// critical, and key identifiers must not be.
pub open spec fn spec_extension_ok(kind: ExtensionKind, critical: bool) -> Result<(), CertError> {
    match kind {
        ExtensionKind::PolicyMappings => Err(CertError::PolicyMappings),
        ExtensionKind::NameConstraints => Err(CertError::NameConstraints),
        ExtensionKind::KeyUsage | ExtensionKind::BasicConstraints | ExtensionKind::CertificatePolicies
        | ExtensionKind::SubjectAlternativeName => if critical {
            Ok(())
        } else {
            Err(CertError::MustBeCritical)
        },
        ExtensionKind::AuthorityKeyIdentifier | ExtensionKind::SubjectKeyIdentifier => if critical {
            Err(CertError::MustNotBeCritical)
        } else {
            Ok(())
        },
        ExtensionKind::Other => Ok(()),
    }
}

/// The verdict on a list of extensions: the failure of the first one that does not meet the
/// profile, if any.
pub open spec fn spec_check_extensions(exts: Seq<(ExtensionKind, bool)>) -> Result<(), CertError>
    decreases exts.len(),
{
    if exts.len() == 0 {
        Ok(())
    } else {
        match spec_extension_ok(exts[0].0, exts[0].1) {
            Err(e) => Err(e),
            Ok(()) => spec_check_extensions(exts.drop_first()),
        }
    }
}

/// The certificate profile, extension by extension: policy mappings and name constraints are
/// always refused; key usage, basic constraints, certificate policies and subject alternative
/// names are accepted exactly when critical, and refused as not critical otherwise; key
/// identifiers are accepted exactly when not critical; any other extension is accepted.
pub proof fn lemma_extension_profile(kind: ExtensionKind, critical: bool)
    ensures
        kind == ExtensionKind::PolicyMappings ==> spec_extension_ok(kind, critical) == Err::<(), CertError>(CertError::PolicyMappings),
        kind == ExtensionKind::NameConstraints ==> spec_extension_ok(kind, critical) == Err::<(), CertError>(CertError::NameConstraints),
        must_be_critical(kind) && critical ==> spec_extension_ok(kind, critical) is Ok,
        must_be_critical(kind) && !critical ==> spec_extension_ok(kind, critical) == Err::<(), CertError>(CertError::MustBeCritical),
        (kind == ExtensionKind::AuthorityKeyIdentifier || kind == ExtensionKind::SubjectKeyIdentifier) ==> (
            spec_extension_ok(kind, critical) is Ok <==> !critical),
        kind == ExtensionKind::Other ==> spec_extension_ok(kind, critical) is Ok,
{
}

/// A list of extensions passes exactly when every extension in it passes; when one fails, the
/// verdict is the failure of the first that fails.
pub proof fn lemma_check_extensions_all(exts: Seq<(ExtensionKind, bool)>)
    ensures
        spec_check_extensions(exts) is Ok <==> forall|i: int|
            0 <= i < exts.len() ==> #[trigger] spec_extension_ok(exts[i].0, exts[i].1) is Ok,
        forall|i: int|
            0 <= i < exts.len() && #[trigger] spec_extension_ok(exts[i].0, exts[i].1) is Err
                && (forall|j: int| 0 <= j < i ==> spec_extension_ok(exts[j].0, exts[j].1) is Ok)
                ==> spec_check_extensions(exts) == spec_extension_ok(exts[i].0, exts[i].1),
    decreases exts.len(),
{
    if exts.len() > 0 {
        let rest = exts.drop_first();
        lemma_check_extensions_all(rest);
        assert forall|i: int| 1 <= i < exts.len() implies exts[i] == rest[i - 1] by {}
        if spec_extension_ok(exts[0].0, exts[0].1) is Ok {
            assert((forall|i: int| 0 <= i < exts.len() ==> #[trigger] spec_extension_ok(exts[i].0, exts[i].1) is Ok)
                <==> (forall|i: int| 0 <= i < rest.len() ==> #[trigger] spec_extension_ok(rest[i].0, rest[i].1) is Ok)) by {
                if forall|i: int| 0 <= i < rest.len() ==> #[trigger] spec_extension_ok(rest[i].0, rest[i].1) is Ok {
                    assert forall|i: int| 0 <= i < exts.len() implies #[trigger] spec_extension_ok(exts[i].0, exts[i].1) is Ok by {
                        if i > 0 {
                            assert(spec_extension_ok(rest[i - 1].0, rest[i - 1].1) is Ok);
                        }
                    }
                }
                if forall|i: int| 0 <= i < exts.len() ==> #[trigger] spec_extension_ok(exts[i].0, exts[i].1) is Ok {
                    assert forall|i: int| 0 <= i < rest.len() implies #[trigger] spec_extension_ok(rest[i].0, rest[i].1) is Ok by {
                        assert(spec_extension_ok(exts[i + 1].0, exts[i + 1].1) is Ok);
                    }
                }
            }
            assert forall|i: int|
                0 <= i < exts.len() && #[trigger] spec_extension_ok(exts[i].0, exts[i].1) is Err
                    && (forall|j: int| 0 <= j < i ==> spec_extension_ok(exts[j].0, exts[j].1) is Ok)
                    implies spec_check_extensions(exts) == spec_extension_ok(exts[i].0, exts[i].1) by {
                assert(i > 0);
                assert(spec_extension_ok(rest[i - 1].0, rest[i - 1].1) is Err);
                assert forall|j: int| 0 <= j < i - 1 implies spec_extension_ok(rest[j].0, rest[j].1) is Ok by {
                    assert(spec_extension_ok(exts[j + 1].0, exts[j + 1].1) is Ok);
                }
            }
        } else {
            assert(!(forall|i: int| 0 <= i < exts.len() ==> #[trigger] spec_extension_ok(exts[i].0, exts[i].1) is Ok));
            assert forall|i: int|
                0 <= i < exts.len() && #[trigger] spec_extension_ok(exts[i].0, exts[i].1) is Err
                    && (forall|j: int| 0 <= j < i ==> spec_extension_ok(exts[j].0, exts[j].1) is Ok)
                    implies spec_check_extensions(exts) == spec_extension_ok(exts[i].0, exts[i].1) by {
                if i > 0 {
                    assert(spec_extension_ok(exts[0].0, exts[0].1) is Ok);
                }
            }
        }
    }
}

/// A certificate whose key usage, basic constraints, certificate policies or subject
/// alternative name extension is not marked critical is refused.
pub proof fn lemma_non_critical_required_extension_refused(exts: Seq<(ExtensionKind, bool)>, i: int)
    requires
        0 <= i < exts.len(),
        must_be_critical(exts[i].0),
        !exts[i].1,
    ensures
        spec_check_extensions(exts) is Err,
{
    lemma_extension_profile(exts[i].0, exts[i].1);
    lemma_check_extensions_all(exts);
}

/// The verdict on a PEM certificate file.
pub open spec fn spec_check_cert(contents: Seq<u8>) -> Result<(), CertError> {
    match pem_first_block(contents) {
        None => Err(CertError::NotPem),
        Some(der) => match certificate_extension_kinds(der) {
            None => Err(CertError::NotCertificate),
            Some(exts) => spec_check_extensions(exts),
        },
    }
}

/// Decide whether one extension meets the profile.
pub fn extension_ok(kind: ExtensionKind, critical: bool) -> (r: Result<(), CertError>)
    ensures
        r == spec_extension_ok(kind, critical),
        must_be_critical(kind) ==> (r is Ok <==> critical),
        must_be_critical(kind) && !critical ==> r == Err::<(), CertError>(CertError::MustBeCritical),
{
    proof {
        lemma_extension_profile(kind, critical);
    }
    match kind {
        ExtensionKind::PolicyMappings => Err(CertError::PolicyMappings),
        ExtensionKind::NameConstraints => Err(CertError::NameConstraints),
        ExtensionKind::KeyUsage | ExtensionKind::BasicConstraints | ExtensionKind::CertificatePolicies
        | ExtensionKind::SubjectAlternativeName => {
            if critical {
                Ok(())
            } else {
                Err(CertError::MustBeCritical)
            }
        },
        ExtensionKind::AuthorityKeyIdentifier | ExtensionKind::SubjectKeyIdentifier => {
            if critical {
                Err(CertError::MustNotBeCritical)
            } else {
                Ok(())
            }
        },
        ExtensionKind::Other => Ok(()),
    }
}

/// Check a list of extensions against the profile, in order.
pub fn check_extensions(exts: &Vec<(ExtensionKind, bool)>) -> (r: Result<(), CertError>)
    ensures
        r == spec_check_extensions(exts@),
{
    let mut i: usize = 0;
    assert(exts@.skip(0) =~= exts@);
    while i < exts.len()
        invariant
            i <= exts@.len(),
            spec_check_extensions(exts@) == spec_check_extensions(exts@.skip(i as int)),
        decreases exts@.len() - i,
    {
        let (kind, critical) = exts[i];
        let verdict = extension_ok(kind, critical);
        proof {
            let rest = exts@.skip(i as int);
            assert(rest[0] == exts@[i as int]);
            assert(rest.drop_first() =~= exts@.skip(i + 1));
        }
        if verdict.is_err() {
            return verdict;
        }
        i = i + 1;
    }
    proof {
        assert(exts@.skip(i as int).len() == 0);
    }
    Ok(())
}

/// Check the contents of a PEM certificate file against the certificate profile of IEEE 2030.5.
pub fn check_cert(contents: &[u8]) -> (r: Result<(), CertError>)
    ensures
        r == spec_check_cert(contents@),
{
    let der = match pem_contents(contents) {
        Some(der) => der,
        None => return Err(CertError::NotPem),
    };
    let exts = match certificate_extensions(der.as_slice()) {
        Some(exts) => exts,
        None => return Err(CertError::NotCertificate),
    };
    check_extensions(&exts)
}

} // verus!
