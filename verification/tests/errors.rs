use tindercrypt::errors::Error;

#[test]
fn test_errors_are_told_apart() {
    let all = [
        Error::BufferTooSmall,
        Error::PassphraseTooSmall,
        Error::KeySizeMismatch,
        Error::CryptoParamsWeak,
        Error::MetadataMissing,
        Error::MetadataInvalid,
        Error::DecryptionError,
    ];
    for (i, a) in all.iter().enumerate() {
        for (j, b) in all.iter().enumerate() {
            assert_eq!(a == b, i == j);
        }
        let copy = *a;
        assert_eq!(copy, *a);
    }
    assert_eq!(format!("{:?}", Error::DecryptionError), "DecryptionError");
    assert_eq!(format!("{:?}", Error::MetadataMissing), "MetadataMissing");
}
