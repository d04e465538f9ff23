use sep2_client::security::{check_digit, sfdi_gen, SFDI_MAX};

/// Generating SFDI as per the specification
#[test]
fn security_example_sfdi_gen() {
    let lfdi: [u8; 20] = [
        0x3E, 0x4F, 0x45, 0xAB, 0x31, 0xED, 0xFE, 0x5B, 0x67, 0xE3, 0x43, 0xE5, 0xE4, 0x56, 0x2E,
        0x31, 0x98, 0x4E, 0x23, 0xE5,
    ];
    let sfdi = sfdi_gen(&lfdi);
    assert_eq!(sfdi, 167261211391)
}

fn digit_sum(mut x: u64) -> u64 {
    let mut s = 0;
    while x != 0 {
        s += x % 10;
        x /= 10;
    }
    s
}

#[test]
fn check_digit_values() {
    assert_eq!(check_digit(0), 0);
    assert_eq!(check_digit(16726121139), 1);
    assert_eq!(check_digit(5), 5);
    assert_eq!(check_digit(19), 0);
    assert_eq!(check_digit(u64::MAX), (10 - digit_sum(u64::MAX) % 10) % 10);
}

#[test]
fn sfdi_digit_sum_is_multiple_of_ten() {
    let mut lfdi = [0u8; 20];
    for seed in 0u8..50 {
        for (i, b) in lfdi.iter_mut().enumerate() {
            *b = seed.wrapping_mul(37).wrapping_add(i as u8 * 11);
        }
        let sfdi = sfdi_gen(&lfdi);
        assert_eq!(digit_sum(sfdi) % 10, 0);
        assert!(sfdi <= SFDI_MAX);
    }
}

#[test]
fn sfdi_of_largest_lfdi() {
    let lfdi = [0xFFu8; 20];
    let sfdi = sfdi_gen(&lfdi);
    // 0xFF_FFFF_FFFF >> 4 == 68719476735, whose digit sum is 63, so the check digit is 7.
    assert_eq!(sfdi, 687194767357);
    assert!(sfdi <= SFDI_MAX);
}
