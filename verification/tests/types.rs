use stratisd::crypt::CryptMetadataHandle;
use stratisd::interface::{StratisParamType, StratisParams};
use stratisd::pool::{
    ClevisInfo, EncryptionInfo, PoolIdentifier, StratisIdentifiers, UnlockMethod,
};

#[test]
fn crypt_metadata_handle_getters() {
    let ids = StratisIdentifiers { pool_uuid: 11, device_uuid: 22 };
    let enc = EncryptionInfo {
        key_description: None,
        clevis_info: Some(ClevisInfo { pin: "tang".to_string(), config: "{}".to_string() }),
    };
    let h = CryptMetadataHandle::new(
        "/dev/sda".to_string(),
        ids,
        enc.clone(),
        "stratis-1-private".to_string(),
        Some("mypool".to_string()),
        64768,
    );
    assert_eq!(h.luks2_device_path(), "/dev/sda");
    assert_eq!(*h.device_identifiers(), ids);
    assert_eq!(*h.encryption_info(), enc);
    assert_eq!(h.activation_name(), "stratis-1-private");
    assert_eq!(h.pool_name(), &Some("mypool".to_string()));
    assert_eq!(h.device(), 64768);
}

#[test]
fn stratis_params_carry_identifier() {
    let p = StratisParams {
        type_: StratisParamType::PoolStart(
            PoolIdentifier::Name("p".to_string()),
            Some(UnlockMethod::Clevis),
        ),
        fd_opt: None,
    };
    match p.type_ {
        StratisParamType::PoolStart(PoolIdentifier::Name(n), Some(UnlockMethod::Clevis)) => {
            assert_eq!(n, "p");
        }
        _ => panic!("wrong variant"),
    }
    assert_eq!(p.fd_opt, None);
}
