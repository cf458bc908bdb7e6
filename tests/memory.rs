use ignis::memory::{memcmp, memcpy, memmove, memset};

fn pattern(n: usize) -> Vec<u8> {
    (0..n).map(|i| (i * 7 + 3) as u8).collect()
}

#[test]
fn copy_disjoint_ranges() {
    for n in 0..16usize {
        let source = pattern(n);
        let mut memory = vec![0xaau8; 40];
        memory[0..n].copy_from_slice(&source);
        let r = memcpy(&mut memory, 20, 0, n);
        assert_eq!(r, 20);
        assert_eq!(&memory[20..20 + n], &source[..]);
        assert_eq!(&memory[0..n], &source[..]);
        assert!(memory[20 + n..].iter().all(|b| *b == 0xaa));
    }
}

#[test]
fn copy_zero_bytes_changes_nothing() {
    let mut memory = vec![1u8, 2, 3, 4];
    assert_eq!(memcpy(&mut memory, 2, 0, 0), 2);
    assert_eq!(memory, vec![1, 2, 3, 4]);
}

#[test]
fn fill_writes_low_byte() {
    for (value, byte) in [(0x41i32, 0x41u8), (0x1234, 0x34), (-1, 0xff), (256, 0), (-255, 1)] {
        for n in 0..10usize {
            let mut memory = vec![7u8; 12];
            let r = memset(&mut memory, 1, value, n);
            assert_eq!(r, 1);
            assert_eq!(memory[0], 7);
            assert!(memory[1..1 + n].iter().all(|b| *b == byte));
            assert!(memory[1 + n..].iter().all(|b| *b == 7));
        }
    }
}

#[test]
fn move_forward_overlap_shifts() {
    let n: usize = 12;
    for k in 0..n {
        let mut memory = pattern(n);
        let original = memory.clone();
        let r = memmove(&mut memory, k, 0, n - k);
        assert_eq!(r, k);
        assert_eq!(&memory[..k], &original[..k]);
        assert_eq!(&memory[k..], &original[..n - k]);
    }
}

#[test]
fn move_backward_overlap_shifts() {
    let n: usize = 12;
    for k in 0..n {
        let mut memory = pattern(n);
        let original = memory.clone();
        let r = memmove(&mut memory, 0, k, n - k);
        assert_eq!(r, 0);
        assert_eq!(&memory[..n - k], &original[k..]);
        assert_eq!(&memory[n - k..], &original[n - k..]);
    }
}

#[test]
fn move_exact_values() {
    let mut memory = vec![1u8, 2, 3, 4, 5];
    memmove(&mut memory, 1, 0, 4);
    assert_eq!(memory, vec![1, 1, 2, 3, 4]);
    let mut memory = vec![1u8, 2, 3, 4, 5];
    memmove(&mut memory, 0, 1, 4);
    assert_eq!(memory, vec![2, 3, 4, 5, 5]);
    let mut memory = vec![1u8, 2, 3];
    memmove(&mut memory, 1, 1, 2);
    assert_eq!(memory, vec![1, 2, 3]);
}

#[test]
fn compare_with_itself_is_zero() {
    let memory = pattern(20);
    for n in 0..20usize {
        assert_eq!(memcmp(&memory, 0, 0, n), 0);
        assert_eq!(memcmp(&memory, 20 - n, 20 - n, n), 0);
    }
}

#[test]
fn compare_first_difference_decides() {
    // block one at 0, block two at 8; equal before index 3, then one more
    let mut memory = vec![0u8; 16];
    let one = [5u8, 6, 7, 9, 0, 0, 0, 0];
    let two = [5u8, 6, 7, 8, 200, 200, 200, 200];
    memory[..8].copy_from_slice(&one);
    memory[8..].copy_from_slice(&two);
    assert!(memcmp(&memory, 0, 8, 8) > 0);
    assert!(memcmp(&memory, 8, 0, 8) < 0);
    assert_eq!(memcmp(&memory, 0, 8, 8), 1);
    assert_eq!(memcmp(&memory, 8, 0, 8), -1);
    assert_eq!(memcmp(&memory, 0, 8, 3), 0);
}

#[test]
fn compare_is_unsigned() {
    let memory = vec![0x80u8, 0x7f];
    assert_eq!(memcmp(&memory, 0, 1, 1), 1);
    assert_eq!(memcmp(&memory, 1, 0, 1), -1);
}
