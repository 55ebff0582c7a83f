use toolbox::shook::utils::constant_time_eq;

#[test]
fn equal_inputs_return_true() {
    let cases: Vec<(&[u8], &[u8])> = vec![
        (b"", b""),
        (b"hello", b"hello"),
        (b"sha256=abc123", b"sha256=abc123"),
        (&[0u8; 32], &[0u8; 32]),
        (&[0xFF; 32], &[0xFF; 32]),
    ];
    for (a, b) in cases {
        assert!(constant_time_eq(a, b));
    }
}

#[test]
fn unequal_same_length_returns_false() {
    let cases: Vec<(&[u8], &[u8])> = vec![
        (b"hello", b"world"),
        (b"aaaaa", b"aaaab"),
        (b"aaaaa", b"baaaa"),
        (&[0x00u8; 32], &[0x01u8; 32]),
        (&[0xFFu8; 32], &[0x00u8; 32]),
    ];
    for (a, b) in cases {
        assert!(!constant_time_eq(a, b));
    }
}

#[test]
fn length_mismatch_returns_false() {
    let cases: Vec<(&[u8], &[u8])> = vec![
        (b"short", b"longer"),
        (b"", b"nonempty"),
        (b"nonempty", b""),
        (&[0u8; 31], &[0u8; 32]),
    ];
    for (a, b) in cases {
        assert!(!constant_time_eq(a, b));
    }
}

#[test]
fn detects_difference_at_every_position() {
    const LEN: usize = 64;
    let base = vec![0xABu8; LEN];

    for pos in 0..LEN {
        let mut other = base.clone();
        other[pos] ^= 0xFF;
        assert!(
            !constant_time_eq(&base, &other),
            "expected false when byte at position {pos} differs"
        );
    }
}

#[test]
fn symmetric() {
    let cases: Vec<(&[u8], &[u8])> = vec![(b"abc", b"xyz"), (b"same", b"same")];
    for (a, b) in cases {
        assert_eq!(constant_time_eq(a, b), constant_time_eq(b, a));
    }
}

#[test]
fn no_overflow_on_long_equal_slices() {
    let a = vec![0xFFu8; 4096];
    assert!(constant_time_eq(&a, &a));
}
