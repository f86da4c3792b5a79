//! The cryptographic façade. The core never computes cryptography in
//! line: hashing, signature verification, certificate-chain checks and
//! randomness come from a provider the host registers by handing it to the
//! engine. Nothing is promised of the providers' answers — the flows
//! bound-check every value before acting on it — so a misbehaving provider
//! can make an operation fail, never break the engine's contracts.

use vstd::prelude::*;

use crate::error::SpdmStatus;
use crate::protocol::{SpdmBaseAsymAlgo, SpdmBaseHashAlgo, SpdmDigestStruct, SpdmSignatureStruct};

verus! {

/// The cryptographic operations the engine consumes, implemented by the
/// host.
pub trait SpdmCryptoProvider {
    /// Fills a buffer of `size` bytes with fresh randomness.
    fn get_random(&mut self, size: usize) -> (r: Result<Vec<u8>, SpdmStatus>);

    /// The digest of `data` under `base_hash_algo`, or `None` when the
    /// algorithm is unsupported.
    fn hash_all(&self, base_hash_algo: SpdmBaseHashAlgo, data: &[u8]) -> (r: Option<
        SpdmDigestStruct,
    >);

    /// Whether `signature` over `message` verifies against the leaf key of
    /// the DER certificate chain.
    fn asym_verify(
        &self,
        base_hash_algo: SpdmBaseHashAlgo,
        base_asym_algo: SpdmBaseAsymAlgo,
        cert_chain_der: &[u8],
        message: &[u8],
        signature: &SpdmSignatureStruct,
    ) -> (r: Result<(), SpdmStatus>);

    /// The byte range `[begin, end)` of one certificate inside a DER
    /// chain.
    fn get_cert_from_cert_chain(&self, cert_chain_der: &[u8], index: usize) -> (r: Result<
        (usize, usize),
        SpdmStatus,
    >);

    /// Whether a DER certificate chain verifies end to end.
    fn verify_cert_chain(&self, cert_chain_der: &[u8]) -> (r: Result<(), SpdmStatus>);
}

} // verus!
