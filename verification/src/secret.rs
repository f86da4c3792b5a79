//! Capability interfaces for platform secrets. The Responder engine
//! collects measurements, derives PSK secrets and signs through these; the
//! platform implements them, so their contracts promise only the shapes
//! the protocol needs.

use vstd::prelude::*;

use crate::protocol::{
    SpdmBaseAsymAlgo, SpdmBaseHashAlgo, SpdmDigestStruct, SpdmHKDFKeyStruct,
    SpdmMeasurementHashAlgo, SpdmMeasurementRecordStructure, SpdmMeasurementSpecification,
    SpdmMeasurementSummaryHashType, SpdmSignatureStruct, SpdmVersion,
};

verus! {

/// Collects measurement evidence from the platform.
pub trait SpdmSecretMeasurement {
    /// The record for one measurement index, or `None` when the platform
    /// cannot produce it.
    fn measurement_collection_cb(
        &self,
        spdm_version: SpdmVersion,
        measurement_specification: SpdmMeasurementSpecification,
        measurement_hash_algo: SpdmMeasurementHashAlgo,
        measurement_index: usize,
    ) -> (r: Option<SpdmMeasurementRecordStructure>)
        ensures
            r matches Some(rec) ==> rec.wf(),
    ;

    /// The summary hash over the selected measurements, or `None` when the
    /// platform cannot produce it.
    fn generate_measurement_summary_hash_cb(
        &self,
        spdm_version: SpdmVersion,
        base_hash_algo: SpdmBaseHashAlgo,
        measurement_specification: SpdmMeasurementSpecification,
        measurement_hash_algo: SpdmMeasurementHashAlgo,
        measurement_summary_hash_type: SpdmMeasurementSummaryHashType,
    ) -> (r: Option<SpdmDigestStruct>)
        ensures
            r matches Some(d) ==> d.wf(),
    ;
}

/// Expands pre-shared-key material without revealing it.
pub trait SpdmSecretPsk {
    /// HKDF expansion of the PSK handshake secret.
    fn handshake_secret_hkdf_expand_cb(
        &self,
        spdm_version: SpdmVersion,
        base_hash_algo: SpdmBaseHashAlgo,
        psk_hint: &[u8],
        info: &[u8],
    ) -> (r: Option<SpdmHKDFKeyStruct>)
        ensures
            r matches Some(k) ==> k.wf(),
    ;

    /// HKDF expansion of the PSK master secret.
    fn master_secret_hkdf_expand_cb(
        &self,
        spdm_version: SpdmVersion,
        base_hash_algo: SpdmBaseHashAlgo,
        psk_hint: &[u8],
        info: &[u8],
    ) -> (r: Option<SpdmHKDFKeyStruct>)
        ensures
            r matches Some(k) ==> k.wf(),
    ;
}

/// Signs with the device's private key, which never leaves the platform.
pub trait SpdmSecretAsymSign {
    /// The signature over `data`, or `None` when the platform refuses.
    fn sign_cb(
        &self,
        base_hash_algo: SpdmBaseHashAlgo,
        base_asym_algo: SpdmBaseAsymAlgo,
        data: &[u8],
    ) -> (r: Option<SpdmSignatureStruct>)
        ensures
            r matches Some(s) ==> s.wf(),
    ;
}

} // verus!
