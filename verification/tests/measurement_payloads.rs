use spdmlib::codec::{u24, Reader, Writer};
use spdmlib::common::{SpdmConfigInfo, SpdmContext, SpdmMeasurementContentChanged,
    SpdmOpaqueStruct, SpdmProvisionInfo};
use spdmlib::config::{MAX_SPDM_MEASUREMENT_VALUE_LEN, MAX_SPDM_OPAQUE_SIZE,
    SPDM_MAX_ASYM_KEY_SIZE, SPDM_MAX_HASH_SIZE, SPDM_NONCE_SIZE};
use spdmlib::measurement::{SpdmGetMeasurementsRequestPayload, SpdmMeasurementAttributes,
    SpdmMeasurementOperation, SpdmMeasurementsResponsePayload};
use spdmlib::protocol::{SpdmBaseAsymAlgo, SpdmBaseHashAlgo, SpdmDmtfMeasurementRepresentation,
    SpdmDmtfMeasurementStructure, SpdmDmtfMeasurementType, SpdmMeasurementBlockStructure,
    SpdmMeasurementRecordStructure, SpdmMeasurementSpecification, SpdmNonceStruct,
    SpdmSignatureStruct, SpdmVersion};

fn create_spdm_context() -> SpdmContext {
    SpdmContext::new(
        SpdmConfigInfo { runtime_content_change_support: false },
        SpdmProvisionInfo { peer_cert_chain_data: None },
    )
}

#[test]
fn test_case0_spdm_spdm_measuremente_attributes() {
    let mut writer = Writer::init(vec![0u8; 4]);
    let value = SpdmMeasurementAttributes::signature_requested();
    assert!(value.encode(&mut writer).is_ok());

    let mut reader = Reader::init(writer.into_buffer());
    assert_eq!(4, reader.left());
    assert_eq!(
        SpdmMeasurementAttributes::read(&mut reader).unwrap(),
        SpdmMeasurementAttributes::signature_requested()
    );
    assert_eq!(3, reader.left());
}

#[test]
fn test_case0_spdm_get_measurements_request_payload() {
    let mut writer = Writer::init(vec![0u8; 2 + SPDM_NONCE_SIZE + 1]);
    let value = SpdmGetMeasurementsRequestPayload {
        measurement_attributes: SpdmMeasurementAttributes::signature_requested(),
        measurement_operation: SpdmMeasurementOperation::SpdmMeasurementQueryTotalNumber,
        nonce: SpdmNonceStruct { data: vec![100u8; SPDM_NONCE_SIZE] },
        slot_id: 0xaau8,
    };

    let mut context = create_spdm_context();

    assert!(value.spdm_encode(&mut context, &mut writer).is_ok());
    let mut reader = Reader::init(writer.into_buffer());
    assert_eq!(2 + SPDM_NONCE_SIZE + 1, reader.left());
    let get_measurements =
        SpdmGetMeasurementsRequestPayload::spdm_read(&mut context, &mut reader).unwrap();
    assert_eq!(
        get_measurements.measurement_attributes,
        SpdmMeasurementAttributes::signature_requested()
    );
    assert_eq!(
        get_measurements.measurement_operation,
        SpdmMeasurementOperation::SpdmMeasurementQueryTotalNumber,
    );
    assert_eq!(get_measurements.slot_id, 0xaau8);
    for i in 0..SPDM_NONCE_SIZE {
        assert_eq!(get_measurements.nonce.data[i], 100u8);
    }
    assert_eq!(0, reader.left());
}

#[test]
fn test_case1_spdm_get_measurements_request_payload() {
    let mut writer = Writer::init(vec![0u8; 2]);
    let value = SpdmGetMeasurementsRequestPayload {
        measurement_attributes: SpdmMeasurementAttributes::empty(),
        measurement_operation: SpdmMeasurementOperation::SpdmMeasurementQueryTotalNumber,
        nonce: SpdmNonceStruct { data: vec![100u8; SPDM_NONCE_SIZE] },
        slot_id: 0xaau8,
    };

    let mut context = create_spdm_context();

    assert!(value.spdm_encode(&mut context, &mut writer).is_ok());
    let mut reader = Reader::init(writer.into_buffer());
    assert_eq!(2, reader.left());
    let get_measurements =
        SpdmGetMeasurementsRequestPayload::spdm_read(&mut context, &mut reader).unwrap();
    assert_eq!(
        get_measurements.measurement_attributes,
        SpdmMeasurementAttributes::empty()
    );
    assert_eq!(
        get_measurements.measurement_operation,
        SpdmMeasurementOperation::SpdmMeasurementQueryTotalNumber,
    );
    assert_eq!(get_measurements.slot_id, 0);
    for i in 0..SPDM_NONCE_SIZE {
        assert_eq!(get_measurements.nonce.data[i], 0);
    }
    assert_eq!(0, reader.left());
}

#[test]
fn test_case0_spdm_measurements_response_payload() {
    let mut context = create_spdm_context();

    let total = 6
        + 5 * (7 + SPDM_MAX_HASH_SIZE)
        + SPDM_NONCE_SIZE
        + 2
        + MAX_SPDM_OPAQUE_SIZE
        + SPDM_MAX_ASYM_KEY_SIZE;
    let mut writer = Writer::init(vec![0u8; total]);
    let spdm_measurement_block_structure = SpdmMeasurementBlockStructure {
        index: 100u8,
        measurement_specification: SpdmMeasurementSpecification::dmtf(),
        measurement_size: 3 + SPDM_MAX_HASH_SIZE as u16,
        measurement: SpdmDmtfMeasurementStructure {
            measurement_type: SpdmDmtfMeasurementType::SpdmDmtfMeasurementRom,
            representation: SpdmDmtfMeasurementRepresentation::SpdmDmtfMeasurementDigest,
            value_size: SPDM_MAX_HASH_SIZE as u16,
            value: vec![100u8; MAX_SPDM_MEASUREMENT_VALUE_LEN],
        },
    };
    let mut measurement_record_data_writer =
        Writer::init(vec![0u8; MAX_SPDM_MEASUREMENT_VALUE_LEN]);
    for _i in 0..5 {
        assert!(spdm_measurement_block_structure
            .spdm_encode(&mut measurement_record_data_writer)
            .is_ok());
    }
    let record_used = measurement_record_data_writer.used();
    let measurement_record_data = measurement_record_data_writer.into_buffer();
    let value = SpdmMeasurementsResponsePayload {
        number_of_measurement: 100u8,
        slot_id: 7u8,
        content_changed: SpdmMeasurementContentChanged::not_supported(),
        measurement_record: SpdmMeasurementRecordStructure {
            number_of_blocks: 5,
            measurement_record_length: u24::new(record_used as u32),
            measurement_record_data,
        },
        nonce: SpdmNonceStruct { data: vec![100u8; SPDM_NONCE_SIZE] },
        opaque: SpdmOpaqueStruct {
            data_size: MAX_SPDM_OPAQUE_SIZE as u16,
            data: vec![100u8; MAX_SPDM_OPAQUE_SIZE],
        },
        signature: SpdmSignatureStruct {
            data_size: SPDM_MAX_ASYM_KEY_SIZE as u16,
            data: vec![100u8; SPDM_MAX_ASYM_KEY_SIZE],
        },
    };

    context.negotiate_info.base_asym_sel = SpdmBaseAsymAlgo::tpm_alg_rsassa_4096();
    context.negotiate_info.base_hash_sel = SpdmBaseHashAlgo::tpm_alg_sha_512();
    context.runtime_info.need_measurement_signature = true;
    assert!(value.spdm_encode(&mut context, &mut writer).is_ok());
    let mut reader = Reader::init(writer.into_buffer());

    assert_eq!(total, reader.left());
    let mut measurements_response =
        SpdmMeasurementsResponsePayload::spdm_read(&mut context, &mut reader).unwrap();
    assert_eq!(measurements_response.number_of_measurement, 100);
    assert_eq!(measurements_response.slot_id, 7);
    assert_eq!(
        measurements_response.content_changed,
        SpdmMeasurementContentChanged::not_supported()
    );

    assert_eq!(measurements_response.measurement_record.number_of_blocks, 5);
    for i in 0..SPDM_NONCE_SIZE {
        assert_eq!(measurements_response.nonce.data[i], 100);
    }

    assert_eq!(
        measurements_response.opaque.data_size,
        MAX_SPDM_OPAQUE_SIZE as u16
    );
    for i in 0..MAX_SPDM_OPAQUE_SIZE {
        assert_eq!(measurements_response.opaque.data[i], 100);
    }

    // RSASSA-4096 signatures are 512 bytes.
    assert_eq!(measurements_response.signature.data_size, 512u16);
    for i in 0..512 {
        assert_eq!(measurements_response.signature.data[i], 100);
    }
    assert_eq!(0, reader.left());

    let total_unsigned =
        6 + 5 * (7 + SPDM_MAX_HASH_SIZE) + SPDM_NONCE_SIZE + 2 + MAX_SPDM_OPAQUE_SIZE;
    let mut writer = Writer::init(vec![0u8; total_unsigned]);

    context.runtime_info.need_measurement_signature = false;
    assert!(value.spdm_encode(&mut context, &mut writer).is_ok());
    let mut reader = Reader::init(writer.into_buffer());
    assert_eq!(total_unsigned, reader.left());
    measurements_response =
        SpdmMeasurementsResponsePayload::spdm_read(&mut context, &mut reader).unwrap();

    assert_eq!(measurements_response.signature.data_size, 0);

    for i in 0..SPDM_NONCE_SIZE {
        assert_eq!(measurements_response.nonce.data[i], 100);
    }
    for i in 0..512 {
        assert_eq!(measurements_response.signature.data[i], 0);
    }
    assert_eq!(0, reader.left());
}

/// Encoding a request that asks for a signature emits 35 bytes: the two
/// parameter bytes first, the slot id last.
#[test]
fn signed_request_has_exact_wire_image() {
    let mut context = create_spdm_context();
    let mut writer = Writer::init(vec![0u8; 64]);
    let value = SpdmGetMeasurementsRequestPayload {
        measurement_attributes: SpdmMeasurementAttributes::signature_requested(),
        measurement_operation: SpdmMeasurementOperation::SpdmMeasurementQueryTotalNumber,
        nonce: SpdmNonceStruct { data: vec![0x64u8; SPDM_NONCE_SIZE] },
        slot_id: 0xaa,
    };
    let written = value.spdm_encode(&mut context, &mut writer).unwrap();
    assert_eq!(written, 35);
    let used = writer.used();
    let bytes = writer.into_buffer();
    assert_eq!(used, 35);
    assert_eq!(bytes[0], 0x01);
    assert_eq!(bytes[1], 0x00);
    for i in 0..SPDM_NONCE_SIZE {
        assert_eq!(bytes[2 + i], 0x64);
    }
    assert_eq!(bytes[34], 0xaa);

    // Decoding reproduces the payload exactly.
    let mut reader = Reader::init(bytes);
    let decoded =
        SpdmGetMeasurementsRequestPayload::spdm_read(&mut context, &mut reader).unwrap();
    assert_eq!(decoded, value);
    assert_eq!(reader.used(), 35);
}

/// Encoding a request with no attributes emits exactly the two parameter
/// bytes, both zero.
#[test]
fn unsigned_request_is_two_zero_bytes() {
    let mut context = create_spdm_context();
    let mut writer = Writer::init(vec![0u8; 64]);
    let value = SpdmGetMeasurementsRequestPayload {
        measurement_attributes: SpdmMeasurementAttributes::empty(),
        measurement_operation: SpdmMeasurementOperation::SpdmMeasurementQueryTotalNumber,
        nonce: SpdmNonceStruct { data: vec![0x64u8; SPDM_NONCE_SIZE] },
        slot_id: 0xaa,
    };
    let written = value.spdm_encode(&mut context, &mut writer).unwrap();
    assert_eq!(written, 2);
    let bytes = writer.into_buffer();
    assert_eq!(bytes[0], 0x00);
    assert_eq!(bytes[1], 0x00);
}

/// Under SPDM 1.2 with runtime content change support, Param2 packs the
/// content-changed bits over the slot id: slot 7 with a detected change
/// encodes as 0x17.
#[test]
fn param2_packs_content_changed_under_spdm12() {
    let mut context = create_spdm_context();
    context.config_info.runtime_content_change_support = true;
    context.negotiate_info.spdm_version_sel = SpdmVersion::SpdmVersion12;
    context.negotiate_info.base_asym_sel = SpdmBaseAsymAlgo::tpm_alg_rsassa_4096();
    context.negotiate_info.base_hash_sel = SpdmBaseHashAlgo::tpm_alg_sha_512();
    context.runtime_info.need_measurement_signature = true;

    let value = SpdmMeasurementsResponsePayload {
        number_of_measurement: 100u8,
        slot_id: 7u8,
        content_changed: SpdmMeasurementContentChanged::detected_change(),
        measurement_record: SpdmMeasurementRecordStructure::default(),
        nonce: SpdmNonceStruct { data: vec![100u8; SPDM_NONCE_SIZE] },
        opaque: SpdmOpaqueStruct::default(),
        signature: SpdmSignatureStruct {
            data_size: SPDM_MAX_ASYM_KEY_SIZE as u16,
            data: vec![100u8; SPDM_MAX_ASYM_KEY_SIZE],
        },
    };
    let mut writer = Writer::init(vec![0u8; 4096]);
    assert!(value.spdm_encode(&mut context, &mut writer).is_ok());
    let bytes = writer.into_buffer();
    assert_eq!(bytes[1], 0x17);

    let mut reader = Reader::init(bytes);
    let decoded =
        SpdmMeasurementsResponsePayload::spdm_read(&mut context, &mut reader).unwrap();
    assert_eq!(decoded.slot_id, 7);
    assert_eq!(
        decoded.content_changed,
        SpdmMeasurementContentChanged::detected_change()
    );
}

/// Without runtime content change support, Param2 is the slot id alone
/// even under SPDM 1.2.
#[test]
fn param2_is_slot_alone_without_content_change_support() {
    let mut context = create_spdm_context();
    context.negotiate_info.spdm_version_sel = SpdmVersion::SpdmVersion12;
    let value = SpdmMeasurementsResponsePayload {
        number_of_measurement: 2u8,
        slot_id: 5u8,
        content_changed: SpdmMeasurementContentChanged::not_supported(),
        measurement_record: SpdmMeasurementRecordStructure::default(),
        nonce: SpdmNonceStruct::default(),
        opaque: SpdmOpaqueStruct::default(),
        signature: SpdmSignatureStruct::default(),
    };
    let mut writer = Writer::init(vec![0u8; 4096]);
    assert!(value.spdm_encode(&mut context, &mut writer).is_ok());
    let bytes = writer.into_buffer();
    assert_eq!(bytes[1], 0x05);
}

/// A total of one measurement index encodes as zero, the specification's
/// total-number rule.
#[test]
fn total_number_one_encodes_as_zero() {
    let mut context = create_spdm_context();
    let value = SpdmMeasurementsResponsePayload {
        number_of_measurement: 1u8,
        slot_id: 0u8,
        content_changed: SpdmMeasurementContentChanged::not_supported(),
        measurement_record: SpdmMeasurementRecordStructure::default(),
        nonce: SpdmNonceStruct::default(),
        opaque: SpdmOpaqueStruct::default(),
        signature: SpdmSignatureStruct::default(),
    };
    let mut writer = Writer::init(vec![0u8; 4096]);
    assert!(value.spdm_encode(&mut context, &mut writer).is_ok());
    assert_eq!(writer.into_buffer()[0], 0x00);
}

/// An attribute byte with undefined bits set is rejected on decode.
#[test]
fn unknown_attribute_bits_are_rejected() {
    let mut reader = Reader::init(vec![0x04u8, 0x00]);
    assert!(SpdmMeasurementAttributes::read(&mut reader).is_none());
}

/// An unknown measurement operation survives a round trip verbatim.
#[test]
fn unknown_operation_survives_round_trip() {
    let mut context = create_spdm_context();
    let value = SpdmGetMeasurementsRequestPayload {
        measurement_attributes: SpdmMeasurementAttributes::empty(),
        measurement_operation: SpdmMeasurementOperation::Unknown(5),
        nonce: SpdmNonceStruct::default(),
        slot_id: 0,
    };
    let mut writer = Writer::init(vec![0u8; 2]);
    assert!(value.spdm_encode(&mut context, &mut writer).is_ok());
    let mut reader = Reader::init(writer.into_buffer());
    let decoded =
        SpdmGetMeasurementsRequestPayload::spdm_read(&mut context, &mut reader).unwrap();
    assert_eq!(
        decoded.measurement_operation,
        SpdmMeasurementOperation::Unknown(5)
    );
}

/// A truncated signed request fails to decode.
#[test]
fn truncated_signed_request_is_rejected() {
    let mut context = create_spdm_context();
    let mut reader = Reader::init(vec![0x01u8, 0x00, 0x64]);
    assert!(SpdmGetMeasurementsRequestPayload::spdm_read(&mut context, &mut reader).is_none());
}

/// Encoding into a writer with too little room fails with BufferFull.
#[test]
fn encode_into_full_writer_reports_buffer_full() {
    let mut context = create_spdm_context();
    let value = SpdmGetMeasurementsRequestPayload {
        measurement_attributes: SpdmMeasurementAttributes::signature_requested(),
        measurement_operation: SpdmMeasurementOperation::SpdmMeasurementQueryTotalNumber,
        nonce: SpdmNonceStruct::default(),
        slot_id: 0,
    };
    let mut writer = Writer::init(vec![0u8; 10]);
    assert_eq!(
        value.spdm_encode(&mut context, &mut writer),
        Err(spdmlib::error::SpdmStatus::BufferFull)
    );
}
