use rssb::memory::Memory;

#[test]
fn fresh_memory_is_zero_filled() {
    let mem = Memory::new();
    for addr in 0..=255u8 {
        assert_eq!(mem.read(addr), 0);
    }
}

#[test]
fn write_then_read_round_trips_everywhere_but_the_zero_cell() {
    let mut mem = Memory::new();
    for addr in 0..=255u8 {
        if addr == 2 {
            continue;
        }
        let v = addr.wrapping_mul(31).wrapping_add(7);
        mem.write(addr, v);
        assert_eq!(mem.read(addr), v);
    }
}

#[test]
fn zero_cell_reads_zero_whatever_was_written() {
    let mut mem = Memory::new();
    for v in [1u8, 42, 255, 0, 7] {
        mem.write(2, v);
        assert_eq!(mem.read(2), 0);
    }
    // and the neighbours are untouched by those writes
    assert_eq!(mem.read(1), 0);
    assert_eq!(mem.read(3), 0);
}

#[test]
fn short_image_fails_and_leaves_memory_unmodified() {
    let mut mem = Memory::new();
    mem.write(10, 99);
    let image = vec![0xabu8; 255];
    assert!(mem.load_from(&image).is_err());
    // the pre-load state survives untouched
    assert_eq!(mem.read(10), 99);
    for addr in 0..=255u8 {
        if addr != 10 {
            assert_eq!(mem.read(addr), 0);
        }
    }
}

#[test]
fn empty_image_fails() {
    let mut mem = Memory::new();
    let image: Vec<u8> = Vec::new();
    assert!(mem.load_from(&image).is_err());
}

#[test]
fn exact_image_loads_verbatim_except_the_zero_cell() {
    let mut mem = Memory::new();
    let mut image = vec![0u8; 256];
    for i in 0..256 {
        image[i] = i as u8;
    }
    assert!(mem.load_from(&image).is_ok());
    for addr in 0..=255u8 {
        if addr == 2 {
            assert_eq!(mem.read(2), 0);
        } else {
            assert_eq!(mem.read(addr), addr);
        }
    }
}

#[test]
fn oversized_image_ignores_trailing_bytes() {
    let mut mem = Memory::new();
    let mut image = vec![7u8; 300];
    for i in 256..300 {
        image[i] = 0xee;
    }
    assert!(mem.load_from(&image).is_ok());
    for addr in 0..=255u8 {
        if addr == 2 {
            assert_eq!(mem.read(2), 0);
        } else {
            assert_eq!(mem.read(addr), 7);
        }
    }
}
