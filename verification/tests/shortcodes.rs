use shortland::shortener::{HashIds, ShortnerError};

#[test]
fn encode_then_decode_round_trip() {
    // 1196683881290399743 is the largest id whose code stays within
    // twelve characters (eleven base-44 digits plus the lottery char).
    let ids = HashIds::new(None).unwrap();
    for id in [0u64, 1, 42, 1226198605112, 1196683881290399743] {
        let code = ids.encode(id).unwrap();
        assert!(code.len() >= 2);
        assert!(code.len() <= 12);
        assert_ne!(code, id.to_string());
        assert_eq!(ids.decode(&code).unwrap(), id);
    }
}

#[test]
fn decode_refuses_codes_longer_than_twelve_bytes() {
    // Ids from 44^11 on encode to thirteen characters; such codes (and
    // crafted long texts, which could overflow the decoder's value
    // accumulator) are refused rather than decoded.
    let ids = HashIds::new(None).unwrap();
    let code = ids.encode(u64::MAX).unwrap();
    assert_eq!(code.len(), 13);
    assert!(matches!(ids.decode(&code), Err(ShortnerError::Decode(_))));
    assert!(matches!(
        ids.decode("zzzzzzzzzzzzz"),
        Err(ShortnerError::Decode(_))
    ));
}

#[test]
fn encoding_is_deterministic() {
    let a = HashIds::new(None).unwrap();
    let b = HashIds::new(None).unwrap();
    assert_eq!(a.encode(7).unwrap(), b.encode(7).unwrap());
}

#[test]
fn salt_argument_is_ignored() {
    // The converter always builds the default configuration; a salt
    // argument changes nothing.
    let plain = HashIds::new(None).unwrap();
    let salted = HashIds::new(Some("this is my salt".to_owned())).unwrap();
    assert_eq!(plain.encode(42).unwrap(), salted.encode(42).unwrap());
}

#[test]
fn decode_rejects_invalid_codes() {
    let ids = HashIds::new(None).unwrap();
    assert!(matches!(ids.decode(""), Err(ShortnerError::Decode(_))));
    assert!(matches!(ids.decode("###"), Err(ShortnerError::Decode(_))));
    assert!(matches!(ids.decode("a"), Err(ShortnerError::Decode(_))));
}

#[test]
fn shortner_error_messages() {
    let ids = HashIds::new(None).unwrap();
    let err = ids.decode("").unwrap_err();
    assert_eq!(err.message(), "Shorten Decode error");
}
