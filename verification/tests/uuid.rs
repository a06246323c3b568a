use jlpkg::{format_uuid_v4, uuid_v4};

#[test]
fn generates_valid_v4() {
    let u = uuid_v4().expect("random bytes");
    assert_eq!(u.len(), 36);
    assert_eq!(u.as_bytes()[14], b'4');
    assert!(matches!(u.as_bytes()[19], b'8' | b'9' | b'a' | b'b'));
}

#[test]
fn formats_bytes_with_version_and_variant() {
    let bytes: [u8; 16] = [
        0x00, 0x11, 0x22, 0x33, 0x44, 0x55, 0x66, 0x77, 0x88, 0x99, 0xaa, 0xbb, 0xcc, 0xdd, 0xee,
        0xff,
    ];
    assert_eq!(format_uuid_v4(bytes), "00112233-4455-4677-8899-aabbccddeeff");
}

#[test]
fn formats_zero_and_full_bytes() {
    assert_eq!(format_uuid_v4([0u8; 16]), "00000000-0000-4000-8000-000000000000");
    assert_eq!(format_uuid_v4([0xffu8; 16]), "ffffffff-ffff-4fff-bfff-ffffffffffff");
}

#[test]
fn uuid_shape_holds_for_random_values() {
    for _ in 0..20 {
        let u = uuid_v4().expect("random bytes");
        let b = u.as_bytes();
        assert_eq!(b.len(), 36);
        for (i, c) in b.iter().enumerate() {
            if i == 8 || i == 13 || i == 18 || i == 23 {
                assert_eq!(*c, b'-');
            } else {
                assert!(c.is_ascii_hexdigit() && !c.is_ascii_uppercase());
            }
        }
    }
}

#[test]
fn two_uuids_differ() {
    assert_ne!(uuid_v4().unwrap(), uuid_v4().unwrap());
}
