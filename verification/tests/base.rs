use rowid::base::{
    decode, encode, generate, get_randomness, rowid, verify, GenerateResult, RowIDError,
    VerifyResult,
};
use rowid::time::{system_time_to_timestamp, timestamp_to_system_time, PointInTime};

// get_randomness

#[test]
fn test_get_randomness_0() {
    let rds: String = get_randomness(0);
    assert!(rds.len() == 0);
}

#[test]
fn test_get_randomness_6() {
    let rds: String = get_randomness(6);
    assert!(rds.len() == 6);
}

#[test]
fn test_get_randomness_10() {
    let rds: String = get_randomness(10);
    assert!(rds.len() == 10);
}

#[test]
fn test_get_randomness_20() {
    let rds: String = get_randomness(20);
    assert!(rds.len() == 20);
}

// encode

#[test]
fn test_encode_now() {
    let encoded: String = encode(PointInTime::now()).unwrap();
    assert!(encoded.len() == 10);
}

#[test]
fn test_encode_0() {
    let encoded: String = encode(timestamp_to_system_time(0)).unwrap();
    assert!(encoded == "0000000000");
}

// rowid

#[test]
fn test_rowid() {
    let id: String = rowid();
    assert!(id.len() == 32);
}

// decode

#[test]
fn test_decode() {
    let current: PointInTime = PointInTime::now();
    let decoded: PointInTime = decode(&encode(current).unwrap()).unwrap();
    assert!(system_time_to_timestamp(decoded) == system_time_to_timestamp(current));
}

#[test]
fn test_decode_length_error() {
    let result: RowIDError = match decode("ABC123") {
        | Ok(_) => return assert!(false),
        | Err(e) => e,
    };

    assert!(result == RowIDError::EncodedLength);
    assert!(result.to_string() == RowIDError::EncodedLength.as_str());
}

#[test]
fn test_decode_invalid_input_error() {
    let result: RowIDError = match decode("ab^!@#$agastgyaSER") {
        | Ok(_) => return assert!(false),
        | Err(e) => e,
    };

    assert!(result == RowIDError::InvalidEncoded);
    assert!(result.to_string() == RowIDError::InvalidEncoded.as_str());
}

// generate

#[test]
fn test_generate() {
    let current: PointInTime = PointInTime::now();
    let generated: GenerateResult = generate(current, Some(6));
    let id: String = generated.result.unwrap();
    assert!(generated.success == true);
    assert!(
        system_time_to_timestamp(decode(&id).unwrap()) == system_time_to_timestamp(current)
    );
    assert!(id.len() == 16);
}

// verify

#[test]
fn test_verify() {
    let current: PointInTime = PointInTime::now();
    let id: String = generate(current, Some(6)).result.unwrap();
    let verified: VerifyResult = verify(&id);
    assert!(verified.success == true);
    assert!(match verified.result {
        | Some(r) => system_time_to_timestamp(r) == system_time_to_timestamp(current),
        | None => false,
    });
    assert!(verified.natural == Some(true));
}

#[test]
fn test_verify_length_error() {
    let verified: VerifyResult = verify("ABC123");

    assert!(verified.success == false);

    let error: RowIDError = match verified.error {
        | None => return assert!(false),
        | Some(e) => e,
    };

    assert!(error == RowIDError::EncodedLength);
    assert!(error.to_string() == RowIDError::EncodedLength.as_str());
}

#[test]
fn test_verify_invalid_input_error() {
    let verified: VerifyResult = verify("ab^!@#$agastgyaSER");

    assert!(verified.success == false);

    let error: RowIDError = match verified.error {
        | None => return assert!(false),
        | Some(e) => e,
    };

    assert!(error == RowIDError::InvalidEncoded);
    assert!(error.to_string() == RowIDError::InvalidEncoded.as_str());
}

// the default configuration, further

#[test]
fn test_get_randomness_is_drawn_from_the_default_alphabet() {
    let rds: String = get_randomness(500);
    assert!(rds.chars().all(|symbol| "0123456789ABCDEFGHJKMNPQRSTVWXYZ".contains(symbol)));
}

#[test]
fn test_encode_exact_value() {
    let encoded: String = encode(timestamp_to_system_time(1_700_000_000_000)).unwrap();
    assert!(encoded == "01HF7YAT00");
}

#[test]
fn test_encode_before_the_epoch() {
    let result = encode(PointInTime { unix_nanos: -1 });
    assert!(result == Err(RowIDError::EpochUnderflow));
}

#[test]
fn test_encode_overflow() {
    let result = encode(timestamp_to_system_time(1_125_899_906_842_624));
    assert!(result == Err(RowIDError::TimestampOverflow));
}

#[test]
fn test_decode_exact_value() {
    let decoded: PointInTime = decode("01HF7YAT00ABCDEFGHJKMNPQRSTVWXYZ").unwrap();
    assert!(system_time_to_timestamp(decoded) == Ok(1_700_000_000_000));
    assert!(decoded == timestamp_to_system_time(1_700_000_000_000));
}

#[test]
fn test_generate_default_length() {
    let generated: GenerateResult = generate(timestamp_to_system_time(1), None);
    assert!(generated.success == true);
    assert!(generated.error == None);
    let id: String = generated.result.unwrap();
    assert!(id.len() == 32);
    assert!(id.starts_with("0000000001"));
}

#[test]
fn test_generate_without_randomness() {
    let generated: GenerateResult = generate(timestamp_to_system_time(32), Some(0));
    assert!(generated.result == Some("0000000010".to_string()));
}

#[test]
fn test_generate_failure() {
    let generated: GenerateResult = generate(PointInTime { unix_nanos: -1 }, Some(6));
    assert!(generated.success == false);
    assert!(generated.result == None);
    assert!(generated.error == Some(RowIDError::EpochUnderflow));
}

#[test]
fn test_rowid_is_drawn_from_the_default_alphabet() {
    let id: String = rowid();
    assert!(id.chars().all(|symbol| "0123456789ABCDEFGHJKMNPQRSTVWXYZ".contains(symbol)));
}

#[test]
fn test_rowid_verifies() {
    let verified: VerifyResult = verify(&rowid());
    assert!(verified.success == true);
    assert!(verified.natural == Some(true));
    assert!(verified.error == None);
    assert!(verified.result.is_some());
}

#[test]
fn test_verify_from_the_future() {
    let verified: VerifyResult = verify("ZZZZZZZZZZ0000000000000000000000");
    assert!(verified.success == true);
    assert!(verified.result == Some(timestamp_to_system_time(1_125_899_906_842_623)));
    assert!(verified.natural == Some(false));
    assert!(verified.error == None);
}

#[test]
fn test_verify_failure_has_no_judgement() {
    let short: VerifyResult = verify("ABC123");
    assert!(short.result == None);
    assert!(short.natural == None);
    let invalid: VerifyResult = verify("ab^!@#$agastgyaSER");
    assert!(invalid.result == None);
    assert!(invalid.natural == None);
}
