use game_state::identity::IdentitySource;

#[test]
fn identities_count_up_from_zero() {
    let mut source = IdentitySource::new();
    assert_eq!(source.create_next_identity(), Some(0));
    assert_eq!(source.create_next_identity(), Some(1));
    assert_eq!(source.create_next_identity(), Some(2));
}

#[test]
fn no_identity_is_handed_out_twice() {
    let mut source = IdentitySource::new();
    let mut last = source.create_next_identity().unwrap();
    for _ in 0..1000 {
        let next = source.create_next_identity().unwrap();
        assert!(next > last);
        last = next;
    }
    assert_eq!(last, 1000);
}

#[test]
fn two_sources_are_independent() {
    let mut a = IdentitySource::new();
    let mut b = IdentitySource::new();
    assert_eq!(a.create_next_identity(), Some(0));
    assert_eq!(a.create_next_identity(), Some(1));
    assert_eq!(b.create_next_identity(), Some(0));
}
