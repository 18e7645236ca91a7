use starfish::align::{align_down, align_up};
use starfish::segment::{align_buf_up, clear_buffer_slack, ALIGNMENT};

#[test]
fn test_align_up() {
    assert_eq!(align_buf_up(&vec![0u8; 0][0..], ALIGNMENT), 0);
    for i in 1..ALIGNMENT {
        assert_eq!(align_buf_up(&vec![0u8; i][0..], ALIGNMENT), ALIGNMENT);
    }
}

fn assert_buffer_slack(before_len: usize, after_len: usize) {
    let mut bytes = vec![1u8; before_len];
    let slack = clear_buffer_slack(&mut bytes);
    assert_eq!(bytes.len(), after_len);
    assert_eq!(slack, after_len - before_len);
    assert!(bytes[before_len..].iter().all(|b| *b == 0));
    assert!(bytes[..before_len].iter().all(|b| *b == 1));
}

#[test]
fn test_clear_buffer_slack() {
    assert_buffer_slack(0, 0);
    for i in 1..ALIGNMENT {
        assert_buffer_slack(i, ALIGNMENT);
    }
}

#[test]
fn clear_buffer_slack_keeps_aligned_buffers() {
    assert_buffer_slack(ALIGNMENT, ALIGNMENT);
    assert_buffer_slack(ALIGNMENT + 1, 2 * ALIGNMENT);
}

#[test]
fn align_down_rounds_to_power_of_two() {
    assert_eq!(align_down(0, 4096), 0);
    assert_eq!(align_down(4095, 4096), 0);
    assert_eq!(align_down(4096, 4096), 4096);
    assert_eq!(align_down(10_000_000, 2 << 20), 8_388_608);
    assert_eq!(align_down(7, 1), 7);
}

#[test]
fn align_down_with_any_alignment_clears_low_bits() {
    // 6 - 1 = 0b101: bits 0 and 2 are cleared.
    assert_eq!(align_down(15, 6), 10);
}

#[test]
fn align_up_rounds_to_power_of_two() {
    assert_eq!(align_up(0, 4096), 0);
    assert_eq!(align_up(1, 4096), 4096);
    assert_eq!(align_up(4096, 4096), 4096);
    assert_eq!(align_up(4097, 4096), 8192);
    assert_eq!(align_up(128 * 1024, 4096), 131072);
}
