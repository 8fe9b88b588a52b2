use rssb::engine::Rssb;
use rssb::memory::Memory;

const HEADER: &str = "    x0 x1 x2 x3 x4 x5 x6 x7 x8 x9 xa xb xc xd xe xf\n";

#[test]
fn zero_memory_collapses_to_one_row_and_one_marker() {
    let mem = Memory::new();
    let want = format!(
        "{}00  00 00 00 00 00 00 00 00 00 00 00 00 00 00 00 00  |................|\n*\n",
        HEADER
    );
    assert_eq!(mem.hexdump(), want);
}

#[test]
fn three_identical_rows_render_as_one_row_and_exactly_one_marker() {
    let mut mem = Memory::new();
    // rows 4, 5 and 6 identical, row 7 different again
    for row in 4..7u8 {
        for k in 0..16u8 {
            mem.write(row * 16 + k, 0x41);
        }
    }
    mem.write(7 * 16, 0x09);
    let mut want = String::from(HEADER);
    want.push_str("00  00 00 00 00 00 00 00 00 00 00 00 00 00 00 00 00  |................|\n");
    want.push_str("*\n");
    want.push_str("40  41 41 41 41 41 41 41 41 41 41 41 41 41 41 41 41  |AAAAAAAAAAAAAAAA|\n");
    want.push_str("*\n");
    want.push_str("70  09 00 00 00 00 00 00 00 00 00 00 00 00 00 00 00  | ...............|\n");
    want.push_str("80  00 00 00 00 00 00 00 00 00 00 00 00 00 00 00 00  |................|\n");
    want.push_str("*\n");
    assert_eq!(mem.hexdump(), want);
    // exactly one marker after the run of identical rows, not one each
    let marker_lines = mem.hexdump().lines().filter(|l| *l == "*").count();
    assert_eq!(marker_lines, 3);
}

#[test]
fn dump_shows_graphic_whitespace_and_other_bytes() {
    let mut mem = Memory::new();
    mem.write(3, b'H'); // graphic: itself
    mem.write(4, b' '); // whitespace: a space
    mem.write(5, 0x0a); // whitespace: a space
    mem.write(6, 0x7f); // neither: a dot
    mem.write(7, 0xff); // neither: a dot
    let dump = mem.hexdump();
    let first_row = dump.lines().nth(1).unwrap();
    assert_eq!(
        first_row,
        "00  00 00 00 48 20 0a 7f ff 00 00 00 00 00 00 00 00  |...H  ..........|"
    );
}

#[test]
fn fresh_machine_register_report() {
    let cpu = Rssb::new();
    assert_eq!(
        cpu.registers_report(),
        "PC:\t00\nA:\t00\nZERO:\t00\nMAR:\t00\nMDR:\t00\nBORROW\tfalse\n"
    );
}

#[test]
fn register_report_after_a_borrowing_cycle() {
    let mut image = vec![0u8; 256];
    image[0] = 16;
    image[1] = 5;
    image[16] = 40;
    image[40] = 3;
    let mut cpu = Rssb::new();
    cpu.load(&image).unwrap();
    cpu.step();
    assert_eq!(
        cpu.registers_report(),
        "PC:\t12\nA:\tfe\nZERO:\t00\nMAR:\t28\nMDR:\t03\nBORROW\ttrue\n"
    );
}

#[test]
fn full_report_frames_registers_and_memory() {
    let cpu = Rssb::new();
    let frame = "***********************************************************************\n";
    let mut want = String::from(frame);
    want.push_str("--REGISTERS--\n");
    want.push_str(&cpu.registers_report());
    want.push_str("\n--MEMORY--\n");
    want.push_str(&cpu.mem.hexdump());
    want.push_str(frame);
    assert_eq!(cpu.report(), want);
}
