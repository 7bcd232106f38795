use tcpcore::seqnum::is_between_wrapped;

#[test]
fn between_simple_order() {
    assert!(is_between_wrapped(&0, &3, &7));
    assert!(!is_between_wrapped(&0, &7, &3));
    assert!(is_between_wrapped(&100, &101, &102));
    assert!(!is_between_wrapped(&100, &102, &101));
}

#[test]
fn between_endpoints_are_excluded() {
    assert!(!is_between_wrapped(&5, &5, &9));
    assert!(!is_between_wrapped(&5, &9, &9));
    assert!(!is_between_wrapped(&5, &7, &5));
    assert!(!is_between_wrapped(&5, &5, &5));
}

#[test]
fn between_wraps_around_zero() {
    // walking forward from 0xFFFF_FFFE: 0xFFFF_FFFF, 0, 1, ...
    assert!(is_between_wrapped(&0xFFFF_FFFE, &0xFFFF_FFFF, &1));
    assert!(is_between_wrapped(&0xFFFF_FFFE, &0, &1));
    assert!(!is_between_wrapped(&0xFFFF_FFFE, &1, &0));
    assert!(is_between_wrapped(&0xFFFF_FFFC, &6, &0x7FFF_FFFC));
}

#[test]
fn between_trichotomy_samples() {
    // for distinct a, b, c exactly one of: b in (a,c); a == b; c in (a,b)
    let samples: [(u32, u32, u32); 4] = [
        (0, 3, 7),
        (7, 3, 0),
        (0xFFFF_FFF0, 4, 10),
        (10, 0xFFFF_FFF0, 4),
    ];
    for (a, b, c) in samples {
        let first = is_between_wrapped(&a, &b, &c);
        let second = a == b;
        let third = is_between_wrapped(&a, &c, &b);
        let count = (first as u32) + (second as u32) + (third as u32);
        assert_eq!(count, 1, "a={a} b={b} c={c}");
    }
}
