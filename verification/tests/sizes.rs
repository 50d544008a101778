use worktree_prune::size::{bytes, human};

/// The size as floating-point arithmetic shows it.
fn float_human(bytes: u64) -> String {
    let mut n = bytes as f64;
    let mut i = 0;
    let units = ["B", "KiB", "MiB", "GiB", "TiB"];
    while n >= 1024. && i < units.len() - 1 {
        n /= 1024.;
        i += 1;
    }
    format!("{n:.1} {}", units[i])
}

#[test]
fn sizes_are_shown_with_one_decimal() {
    assert_eq!(human(0), "0.0 B");
    assert_eq!(human(1), "1.0 B");
    assert_eq!(human(1023), "1023.0 B");
    assert_eq!(human(1024), "1.0 KiB");
    assert_eq!(human(1536), "1.5 KiB");
    assert_eq!(human(1024 * 1024 - 1), "1024.0 KiB");
    assert_eq!(human(1024 * 1024), "1.0 MiB");
    assert_eq!(human(10 * 1024 * 1024 * 1024), "10.0 GiB");
    assert_eq!(human(1 << 40), "1.0 TiB");
    assert_eq!(human(u64::MAX), "16777216.0 TiB");
}

#[test]
fn halves_round_to_the_even_digit() {
    assert_eq!(human(1024 + 256), "1.2 KiB");
    assert_eq!(human(1024 + 768), "1.8 KiB");
    assert_eq!(human(2048 + 256), "2.2 KiB");
    assert_eq!(human(2048 + 768), "2.8 KiB");
}

#[test]
fn sizes_agree_with_floating_point() {
    for n in 0..20_000u64 {
        assert_eq!(human(n), float_human(n));
    }
    for shift in 0..64u32 {
        for delta in 0..70u64 {
            let n = (1u64 << shift).wrapping_add(delta.wrapping_mul(delta));
            assert_eq!(human(n), float_human(n));
            let m = (1u64 << shift).wrapping_sub(delta);
            assert_eq!(human(m), float_human(m));
        }
    }
    let mut x: u64 = 0x9e37_79b9_7f4a_7c15;
    for _ in 0..200_000 {
        x ^= x << 13;
        x ^= x >> 7;
        x ^= x << 17;
        assert_eq!(human(x), float_human(x));
        assert_eq!(human(x >> 20), float_human(x >> 20));
        let tie = (x >> 12) & !0xff;
        assert_eq!(human(tie), float_human(tie));
    }
    // Just below and above the middle between two tenths of a TiB, where 53 bits no longer suffice.
    for k in 1..400u64 {
        let middle = (k << 54) + (1 << 38);
        for d in 0..40u64 {
            assert_eq!(human(middle - 64 * d), float_human(middle - 64 * d));
            assert_eq!(human(middle + 64 * d), float_human(middle + 64 * d));
        }
    }
}

#[test]
fn du_output_is_read() {
    assert_eq!(bytes(true, Some(b"1234\t/some/where\n".to_vec())), 1234);
    assert_eq!(bytes(true, Some(b"  +7 x".to_vec())), 7);
    assert_eq!(bytes(false, Some(b"1234\t/some/where\n".to_vec())), 0);
    assert_eq!(bytes(true, None), 0);
    assert_eq!(bytes(true, Some(b"".to_vec())), 0);
    assert_eq!(bytes(true, Some(b"-5 x".to_vec())), 0);
    assert_eq!(bytes(true, Some(b"+ x".to_vec())), 0);
    assert_eq!(bytes(true, Some(b"12x".to_vec())), 0);
    assert_eq!(bytes(true, Some(b"18446744073709551615 x".to_vec())), u64::MAX);
    assert_eq!(bytes(true, Some(b"18446744073709551616 x".to_vec())), 0);
    assert_eq!(bytes(true, Some(b"99999999999999999999999999 x".to_vec())), 0);
    assert_eq!(bytes(true, Some(b"12\t/not-utf8-\xff\n".to_vec())), 0);
}
