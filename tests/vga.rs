use rust_os::interrupts::{InterruptIndex, PIC_1_OFFSET, PIC_2_OFFSET};
use rust_os::vga_buffer::{Color, ColorCode, ScreenChar, Writer, BUFFER_HEIGHT, BUFFER_WIDTH};
use rust_os::QemuExitCode;

#[test]
fn color_code_packs_background_high() {
    assert_eq!(ColorCode::new(Color::White, Color::Black), ColorCode(0x0f));
    assert_eq!(ColorCode::new(Color::Yellow, Color::Black), ColorCode(0x0e));
    assert_eq!(ColorCode::new(Color::Black, Color::LightGray), ColorCode(0x70));
    assert_eq!(ColorCode::new(Color::Pink, Color::Blue), ColorCode(0x1d));
    assert_eq!(Color::LightCyan.as_u8(), 0xb);
}

#[test]
fn hello_world_on_last_written_row() {
    let mut w = Writer::new(ColorCode::new(Color::White, Color::Black));
    w.write_string("Hello World!\n");
    let text = b"Hello World!";
    for (i, b) in text.iter().enumerate() {
        assert_eq!(w.cell(BUFFER_HEIGHT - 2, i), ScreenChar { ascii_character: *b, color_code: ColorCode(0x0f) });
    }
    for col in text.len()..BUFFER_WIDTH {
        assert_eq!(w.cell(BUFFER_HEIGHT - 2, col), ScreenChar { ascii_character: 0, color_code: ColorCode(0) });
    }
    // the new last row is blank in the writer's color
    for col in 0..BUFFER_WIDTH {
        assert_eq!(w.cell(BUFFER_HEIGHT - 1, col), ScreenChar { ascii_character: b' ', color_code: ColorCode(0x0f) });
    }
    assert_eq!(w.column(), 0);
}

#[test]
fn long_line_wraps_to_next_row() {
    let mut w = Writer::new(ColorCode::new(Color::Yellow, Color::Black));
    let line: String = std::iter::repeat('x').take(BUFFER_WIDTH).collect();
    w.write_string(&line);
    assert_eq!(w.column(), BUFFER_WIDTH);
    w.write_byte(b'y');
    assert_eq!(w.column(), 1);
    assert_eq!(w.cell(BUFFER_HEIGHT - 2, BUFFER_WIDTH - 1).ascii_character, b'x');
    assert_eq!(w.cell(BUFFER_HEIGHT - 1, 0).ascii_character, b'y');
    assert_eq!(w.cell(BUFFER_HEIGHT - 1, 1).ascii_character, b' ');
}

#[test]
fn unprintable_bytes_show_as_square() {
    let mut w = Writer::new(ColorCode::new(Color::White, Color::Black));
    w.write_string("a\u{e9}\tb");
    assert_eq!(w.cell(BUFFER_HEIGHT - 1, 0).ascii_character, b'a');
    // 'é' is two bytes in UTF-8
    assert_eq!(w.cell(BUFFER_HEIGHT - 1, 1).ascii_character, 0xfe);
    assert_eq!(w.cell(BUFFER_HEIGHT - 1, 2).ascii_character, 0xfe);
    assert_eq!(w.cell(BUFFER_HEIGHT - 1, 3).ascii_character, 0xfe);
    assert_eq!(w.cell(BUFFER_HEIGHT - 1, 4).ascii_character, b'b');
}

#[test]
fn many_lines_scroll_off_the_top() {
    let mut w = Writer::new(ColorCode::new(Color::White, Color::Black));
    for i in 0..200u32 {
        let line = format!("line {}\n", i);
        w.write_string(&line);
    }
    let expect = b"line 199";
    for (i, b) in expect.iter().enumerate() {
        assert_eq!(w.cell(BUFFER_HEIGHT - 2, i).ascii_character, *b);
    }
    let expect_top = b"line 176";
    for (i, b) in expect_top.iter().enumerate() {
        assert_eq!(w.cell(0, i).ascii_character, *b);
    }
}

#[test]
fn interrupt_vectors_follow_pic_offset() {
    assert_eq!(PIC_1_OFFSET, 32);
    assert_eq!(PIC_2_OFFSET, 40);
    assert_eq!(InterruptIndex::Timer.as_u8(), 32);
    assert_eq!(InterruptIndex::Keyboard.as_u8(), 33);
    assert_eq!(InterruptIndex::Keyboard.as_usize(), 33);
}

#[test]
fn qemu_exit_codes() {
    assert_eq!(QemuExitCode::Success.as_u32(), 0x10);
    assert_eq!(QemuExitCode::Failed.as_u32(), 0x11);
}
