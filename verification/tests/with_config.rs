use rowid::{GenerateResult, PointInTime, RowIDError, RowIDWithConfig, RowIDWithConfigResult};

fn at_millis(millis: u64) -> PointInTime {
    PointInTime { unix_nanos: millis as i128 * 1_000_000 }
}

fn bound(char_list: &str, randomness_length: usize) -> RowIDWithConfigResult {
    RowIDWithConfig::new()
        .char_list(char_list)
        .randomness_length(randomness_length)
        .done()
        .ok()
        .unwrap()
}

#[test]
fn test_builder_starts_from_the_defaults() {
    let builder = RowIDWithConfig::new();
    assert_eq!(builder.state.char_list, "0123456789ABCDEFGHJKMNPQRSTVWXYZ");
    assert_eq!(builder.state.randomness_length, 22);
    let rwc = builder.done().ok().unwrap();
    assert_eq!(rwc.char_list(), "0123456789ABCDEFGHJKMNPQRSTVWXYZ");
    assert_eq!(rwc.randomness_length(), 22);
    assert_eq!(rwc.rowid().len(), 32);
}

#[test]
fn test_builder_quick_start() {
    let rwc = RowIDWithConfig::new()
        .char_list("0123456789ABCDEFGHJKMNPQRSTVWXYZ")
        .randomness_length(22)
        .done()
        .ok()
        .unwrap();
    let id: String = rwc.rowid();
    assert_eq!(id.len(), 32);
}

#[test]
fn test_builder_char_list_length_error() {
    assert_eq!(
        RowIDWithConfig::new().char_list("").done().err(),
        Some(RowIDError::CharListLength)
    );
    assert_eq!(
        RowIDWithConfig::new().char_list("A").done().err(),
        Some(RowIDError::CharListLength)
    );
}

#[test]
fn test_builder_char_list_duplicate_error() {
    assert_eq!(
        RowIDWithConfig::new().char_list("AA").done().err(),
        Some(RowIDError::CharListDuplicate)
    );
    assert_eq!(
        RowIDWithConfig::new().char_list("ABCA").done().err(),
        Some(RowIDError::CharListDuplicate)
    );
    assert_eq!(
        RowIDWithConfig::new().char_list("0123456789ABCDEFGHJKMNPQRSTVWXYZ0").done().err(),
        Some(RowIDError::CharListDuplicate)
    );
}

#[test]
fn test_builder_last_write_wins() {
    let rwc = RowIDWithConfig::new()
        .char_list("AA")
        .randomness_length(3)
        .char_list("xy")
        .randomness_length(5)
        .done()
        .ok()
        .unwrap();
    assert_eq!(rwc.char_list(), "xy");
    assert_eq!(rwc.randomness_length(), 5);
    assert_eq!(
        RowIDWithConfig::new().char_list("xy").char_list("x").done().err(),
        Some(RowIDError::CharListLength)
    );
}

#[test]
fn test_builder_accepts_every_randomness_length() {
    assert_eq!(bound("01", 0).rowid().len(), 10);
    assert_eq!(bound("01", 1).rowid().len(), 11);
    assert_eq!(bound("01", 300).rowid().len(), 310);
}

#[test]
fn test_bound_encode_in_base_two() {
    let rwc = bound("01", 4);
    assert_eq!(rwc.encode(at_millis(0)).unwrap(), "0000000000");
    assert_eq!(rwc.encode(at_millis(5)).unwrap(), "0000000101");
    assert_eq!(rwc.encode(at_millis(1_023)).unwrap(), "1111111111");
    assert_eq!(rwc.encode(at_millis(1_024)), Err(RowIDError::TimestampOverflow));
    assert_eq!(rwc.encode(PointInTime { unix_nanos: -1 }), Err(RowIDError::EpochUnderflow));
}

#[test]
fn test_bound_encode_in_base_sixteen() {
    let rwc = bound("0123456789abcdef", 4);
    assert_eq!(rwc.encode(at_millis(255)).unwrap(), "00000000ff");
    assert_eq!(rwc.decode("00000000ff"), Ok(at_millis(255)));
    assert_eq!(rwc.decode("00000000FF"), Err(RowIDError::InvalidEncoded));
    assert_eq!(rwc.decode("00000000f"), Err(RowIDError::EncodedLength));
}

#[test]
fn test_bound_encode_epoch_repeats_the_first_symbol() {
    assert_eq!(bound("xyz", 0).encode(PointInTime::epoch()).unwrap(), "xxxxxxxxxx");
    assert_eq!(bound("ZYX", 0).encode(PointInTime::epoch()).unwrap(), "ZZZZZZZZZZ");
}

#[test]
fn test_bound_decode_beyond_64_bits() {
    let symbols: String = ('!'..='~').collect();
    assert_eq!(symbols.chars().count(), 94);
    let rwc = bound(&symbols, 0);
    assert_eq!(rwc.decode("~~~~~~~~~~"), Err(RowIDError::TimestampOverflow));
    let last = PointInTime { unix_nanos: u64::MAX as i128 * 1_000_000 };
    let prefix = rwc.encode(last).unwrap();
    assert_eq!(prefix.chars().count(), 10);
    assert_eq!(rwc.decode(&prefix), Ok(last));
    let next = PointInTime { unix_nanos: (u64::MAX as i128 + 1) * 1_000_000 };
    assert_eq!(rwc.encode(next), Err(RowIDError::TimestampOverflow));
}

#[test]
fn test_bound_round_trip() {
    let rwc = bound("abcdefghij", 3);
    let point = PointInTime { unix_nanos: 1_234_567_890_123_456 };
    let prefix = rwc.encode(point).unwrap();
    assert_eq!(prefix, "bcdefghija");
    assert_eq!(rwc.decode(&prefix), Ok(PointInTime { unix_nanos: 1_234_567_890_000_000 }));
}

#[test]
fn test_bound_generate() {
    let rwc = bound("0123456789", 3);
    let made: GenerateResult = rwc.generate(at_millis(42), None);
    assert!(made.success);
    let id = made.result.unwrap();
    assert_eq!(id.len(), 13);
    assert!(id.starts_with("0000000042"));
    assert!(id.chars().all(|symbol| symbol.is_ascii_digit()));
    let longer = rwc.generate(at_millis(42), Some(7)).result.unwrap();
    assert_eq!(longer.len(), 17);
    let failed = rwc.generate(at_millis(10_000_000_000), Some(7));
    assert_eq!(
        failed,
        GenerateResult { success: false, result: None, error: Some(RowIDError::TimestampOverflow) }
    );
}

#[test]
fn test_bound_verify() {
    let rwc = bound("0123456789abcdefghijklmnopqrstuvwxyz", 5);
    let id = rwc.rowid();
    assert_eq!(id.len(), 15);
    let verified = rwc.verify(&id);
    assert_eq!(verified.success, true);
    assert_eq!(verified.natural, Some(true));
    assert_eq!(verified.error, None);
    let short = rwc.verify("abc");
    assert_eq!(short.success, false);
    assert_eq!(short.result, None);
    assert_eq!(short.natural, None);
    assert_eq!(short.error, Some(RowIDError::EncodedLength));
    let invalid = rwc.verify("ABCDEFGHIJKLMNO");
    assert_eq!(invalid.success, false);
    assert_eq!(invalid.result, None);
    assert_eq!(invalid.natural, None);
    assert_eq!(invalid.error, Some(RowIDError::InvalidEncoded));
}

#[test]
fn test_bound_verify_of_a_far_future_identifier() {
    let rwc = bound("0123456789", 0);
    let verified = rwc.verify("9999999999");
    assert_eq!(verified.success, true);
    assert_eq!(verified.result, Some(at_millis(9_999_999_999)));
    assert_eq!(verified.natural, Some(true));
    let default = RowIDWithConfig::new().done().ok().unwrap();
    let future = default.verify("ZZZZZZZZZZ");
    assert_eq!(future.success, true);
    assert_eq!(future.natural, Some(false));
}

#[test]
fn test_bound_get_randomness() {
    let rwc = bound("xyz", 5);
    assert_eq!(rwc.get_randomness(0), "");
    let randomness = rwc.get_randomness(64);
    assert_eq!(randomness.len(), 64);
    assert!(randomness.chars().all(|symbol| "xyz".contains(symbol)));
}

#[test]
fn test_bound_rowid_saturates_in_a_small_base() {
    let rwc = bound("01", 2);
    let id = rwc.rowid();
    assert_eq!(id.len(), 12);
    assert!(id.starts_with("1111111111"));
}
