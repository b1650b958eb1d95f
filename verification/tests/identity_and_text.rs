use ipx_protocol::identity::Identity;
use ipx_protocol::text::render_decimal;

#[test]
fn anonymous_identity_is_the_anonymous_principal() {
    let id = Identity::anonymous();
    assert_eq!(id.bytes, vec![4u8]);
    assert_eq!(candid::Principal::from_slice(&id.bytes), candid::Principal::anonymous());
}

#[test]
fn identities_compare_by_bytes() {
    let a = Identity::from_bytes(vec![1, 2, 3]);
    let b = Identity::from_bytes(vec![1, 2, 3]);
    let c = Identity::from_bytes(vec![1, 2, 4]);
    let d = Identity::from_bytes(vec![1, 2]);
    assert!(a.same(&b));
    assert!(!a.same(&c));
    assert!(!a.same(&d));
    assert!(!d.same(&a));
    assert!(Identity::from_bytes(vec![]).same(&Identity::from_bytes(vec![])));
    assert_eq!(a.duplicate(), a);
}

#[test]
fn amounts_are_written_in_decimal() {
    assert_eq!(render_decimal(0), "0");
    assert_eq!(render_decimal(7), "7");
    assert_eq!(render_decimal(10), "10");
    assert_eq!(render_decimal(1234567890), "1234567890");
    assert_eq!(render_decimal(u64::MAX), "18446744073709551615");
}
