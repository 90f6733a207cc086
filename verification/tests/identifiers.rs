use fatcat::errors::FatcatError;
use fatcat::fcid::FatcatId;

#[test]
fn fcid_of_zero_is_all_zero_symbols() {
    let id = FatcatId::from_uuid(0);
    assert_eq!(id.to_string(), "00000000000000000000000000");
}

#[test]
fn fcid_round_trip_on_a_uuid() {
    let uuid: u128 = 0x0123_4567_89ab_cdef_0123_4567_89ab_cdef;
    let text = FatcatId::from_uuid(uuid).to_string();
    assert_eq!(text.len(), 26);
    assert_eq!(FatcatId::from_str(&text), Ok(FatcatId(uuid)));
}

#[test]
fn fcid_of_all_ones() {
    let text = FatcatId::from_uuid(u128::MAX).to_string();
    assert_eq!(text, "ZZZZZZZZZZZZZZZZZZZZZZZZZW");
    assert_eq!(FatcatId::from_str(&text), Ok(FatcatId(u128::MAX)));
}

#[test]
fn fcid_refuses_wrong_length() {
    assert_eq!(FatcatId::from_str("000"), Err(FatcatError::MalformedFatcatId));
    assert_eq!(
        FatcatId::from_str("000000000000000000000000000"),
        Err(FatcatError::MalformedFatcatId)
    );
}

#[test]
fn fcid_refuses_symbols_outside_the_alphabet() {
    assert_eq!(
        FatcatId::from_str("0000000000000000000000000U"),
        Err(FatcatError::MalformedFatcatId)
    );
    assert_eq!(
        FatcatId::from_str("0000000000000000000000000a"),
        Err(FatcatError::MalformedFatcatId)
    );
}

#[test]
fn fcid_refuses_padding_bits_that_are_set() {
    assert_eq!(
        FatcatId::from_str("00000000000000000000000001"),
        Err(FatcatError::MalformedFatcatId)
    );
    assert_eq!(FatcatId::from_str("00000000000000000000000004"), Ok(FatcatId(1)));
}
