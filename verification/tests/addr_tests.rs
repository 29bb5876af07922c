use solidkyc::{derive_address, RecordKey};

fn id(n: u8) -> [u8; 32] {
    let mut a = [0u8; 32];
    a[0] = n;
    a
}

fn xor_of(bytes: &[u8]) -> u8 {
    let mut acc = 0u8;
    for b in bytes {
        acc ^= *b;
    }
    acc
}

#[test]
fn config_address_is_its_tag() {
    let (addr, bump) = derive_address(&RecordKey::Config);
    assert_eq!(addr, b"config".to_vec());
    assert_eq!(bump, xor_of(&addr));
}

#[test]
fn registry_address_is_its_tag() {
    let (addr, bump) = derive_address(&RecordKey::IssuerRegistry);
    assert_eq!(addr, b"issuer_registry".to_vec());
    assert_eq!(bump, xor_of(&addr));
}

#[test]
fn issuer_address_is_tag_then_authority() {
    let authority = id(5);
    let (addr, bump) = derive_address(&RecordKey::Issuer { authority });
    let mut expected = b"issuer".to_vec();
    expected.extend_from_slice(&authority);
    assert_eq!(addr, expected);
    assert_eq!(bump, xor_of(&addr));
}

#[test]
fn credential_address_is_tag_then_holder_then_issuer() {
    let holder = id(6);
    let issuer = id(5);
    let (addr, bump) = derive_address(&RecordKey::Credential { holder, issuer });
    let mut expected = b"credential".to_vec();
    expected.extend_from_slice(&holder);
    expected.extend_from_slice(&issuer);
    assert_eq!(addr, expected);
    assert_eq!(bump, xor_of(&addr));
}

#[test]
fn derivation_is_deterministic() {
    let k = RecordKey::Credential {
        holder: id(6),
        issuer: id(5),
    };
    assert_eq!(derive_address(&k), derive_address(&k));
}

#[test]
fn distinct_keys_derive_distinct_addresses() {
    let addrs = [
        derive_address(&RecordKey::Config).0,
        derive_address(&RecordKey::IssuerRegistry).0,
        derive_address(&RecordKey::Issuer { authority: id(5) }).0,
        derive_address(&RecordKey::Issuer { authority: id(6) }).0,
        derive_address(&RecordKey::Credential {
            holder: id(6),
            issuer: id(5),
        })
        .0,
        derive_address(&RecordKey::Credential {
            holder: id(5),
            issuer: id(6),
        })
        .0,
    ];
    for i in 0..addrs.len() {
        for j in 0..addrs.len() {
            if i != j {
                assert_ne!(addrs[i], addrs[j]);
            }
        }
    }
}
