use chrysocolle::checksum::{get_id, HASHED_PREFIX_LEN};

#[test]
fn id_is_crc32_of_content() {
    assert_eq!(get_id(b"123456789"), 0xCBF4_3926);
    assert_eq!(get_id(b""), 0);
    assert_eq!(get_id(b"foo bar baz"), crc32fast::hash(b"foo bar baz"));
}

#[test]
fn id_reads_only_the_first_8_mib() {
    let mut a = vec![7u8; HASHED_PREFIX_LEN + 10];
    let mut b = vec![7u8; HASHED_PREFIX_LEN + 3];
    a[HASHED_PREFIX_LEN + 1] = 1;
    b[HASHED_PREFIX_LEN] = 2;
    assert_eq!(get_id(&a), get_id(&b));
    assert_eq!(get_id(&a), crc32fast::hash(&a[..HASHED_PREFIX_LEN]));
    assert_ne!(get_id(&a), crc32fast::hash(&a));
}

#[test]
fn id_depends_on_the_prefix() {
    let a = vec![0u8; 1000];
    let mut b = a.clone();
    b[10] = 1;
    assert_ne!(get_id(&a), get_id(&b));
}
