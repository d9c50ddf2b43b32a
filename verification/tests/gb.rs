use rust_gb::drawing::{DmgColor, DrawingMode, DrawingStream, DrawingStyle};
use rust_gb::io::{GbStream, Joypad, JoypadKey};
use rust_gb::irq::{InterruptBuilder, InterruptKind};
use rust_gb::time::{sleep, sleep_ms, sleep_until, Instant, TimerClock};
use rust_gb::{add, lsh};

#[test]
fn adds_and_shifts() {
    assert_eq!(add(2, 3), 5);
    assert_eq!(add(u64::MAX, 0), u64::MAX);
    assert_eq!(lsh(1, 4), 16);
    assert_eq!(lsh(3, 63), 1 << 63);
    assert_eq!(lsh(5, 0), 5);
}

#[test]
fn the_default_style_is_black_on_white() {
    let style = DrawingStyle::default();
    assert_eq!(style.foreground, DmgColor::Black);
    assert_eq!(style.background, DmgColor::White);
    assert_eq!(style.drawing_mode, DrawingMode::Solid);
    let reversed = DrawingStyle::reversed();
    assert_eq!(reversed.foreground, DmgColor::White);
    assert_eq!(reversed.background, DmgColor::Black);
    assert_eq!(reversed.drawing_mode, DrawingMode::Solid);
}

#[test]
fn a_style_is_built_setting_by_setting() {
    let mut style = DrawingStyle::default();
    style.foreground(DmgColor::DarkGrey).background(DmgColor::LightGrey).drawing_mode(DrawingMode::Xor);
    assert_eq!(
        style,
        DrawingStyle {
            foreground: DmgColor::DarkGrey,
            background: DmgColor::LightGrey,
            drawing_mode: DrawingMode::Xor,
        }
    );
    assert_eq!(style.codes(), (2, 1, 2));
    let mut stream = DrawingStream::new();
    assert_eq!(stream.style, DrawingStyle::default());
    style.apply(&mut stream);
    assert_eq!(stream.style, style);
    stream.set_style(DrawingStyle::reversed());
    assert_eq!(stream.style, DrawingStyle::reversed());
}

#[test]
fn colours_and_modes_have_their_numbers() {
    for (value, color) in [(0, DmgColor::White), (1, DmgColor::LightGrey), (2, DmgColor::DarkGrey), (3, DmgColor::Black)] {
        assert_eq!(color.to_u8(), value);
        assert_eq!(DmgColor::from_u8(value), color);
    }
    for (value, mode) in [(0, DrawingMode::Solid), (1, DrawingMode::Or), (2, DrawingMode::Xor), (3, DrawingMode::And)] {
        assert_eq!(mode.to_u8(), value);
        assert_eq!(DrawingMode::from_u8(value), mode);
    }
}

#[test]
fn the_cursor_stays_on_the_screen() {
    assert!(DrawingStream::cursor_fits(0, 0));
    assert!(DrawingStream::cursor_fits(19, 19));
    assert!(!DrawingStream::cursor_fits(20, 0));
    assert!(!DrawingStream::cursor_fits(0, 20));
    assert!(DrawingStream::on_screen(159, 159));
    assert!(!DrawingStream::on_screen(160, 0));
    assert!(!DrawingStream::on_screen(0, 160));
}

#[test]
fn a_reading_holds_the_keys_that_read_low() {
    let none = Joypad::read(0xff, 0xff);
    assert_eq!(none.bits(), 0);
    assert!(!none.any());
    let a = Joypad::read(0xfe, 0xff);
    assert_eq!(a.bits(), 0x10);
    assert!(a.a() && !a.b() && !a.select() && !a.start());
    assert!(!a.right() && !a.left() && !a.up() && !a.down());
    assert!(a.any());
    let left_and_start = Joypad::read(0xf7, 0xfd);
    assert_eq!(left_and_start.bits(), 0x82);
    assert!(left_and_start.start() && left_and_start.left());
    assert!(!left_and_start.a() && !left_and_start.right());
    let all = Joypad::read(0x00, 0x00);
    assert_eq!(all.bits(), 0xff);
    assert_eq!(Joypad::read(0xf0, 0x0f).bits(), 0xf0);
}

#[test]
fn every_key_has_its_bit() {
    let keys = [
        (JoypadKey::Right, 0x01),
        (JoypadKey::Left, 0x02),
        (JoypadKey::Up, 0x04),
        (JoypadKey::Down, 0x08),
        (JoypadKey::A, 0x10),
        (JoypadKey::B, 0x20),
        (JoypadKey::Select, 0x40),
        (JoypadKey::Start, 0x80),
    ];
    for (key, bit) in keys {
        assert_eq!(key.bit(), bit);
        assert!(Joypad(bit).pressed(key));
        assert!(!Joypad(!bit).pressed(key));
    }
    let pad = Joypad(0x2c);
    assert!(pad.b() && pad.up() && pad.down());
    assert!(!pad.a() && !pad.select() && !pad.start() && !pad.left() && !pad.right());
    assert_eq!(GbStream::stream(), GbStream {});
}

#[test]
fn interrupts_are_collected_as_flags() {
    let mut builder = InterruptBuilder::new();
    assert_eq!(builder.flags(), 0);
    builder.add(InterruptKind::Timer);
    builder.add(InterruptKind::VBlank);
    builder.add(InterruptKind::Timer);
    assert_eq!(builder.flags(), 0x05);
    assert_eq!(InterruptKind::LCD.bit(), 0x02);
    assert_eq!(InterruptKind::Serial.bit(), 0x08);
    assert_eq!(InterruptKind::Joypad.bit(), 0x10);
}

#[test]
fn spans_of_time_count_whole_seconds() {
    let start = Instant(100);
    assert_eq!(Instant::FREQUENCY, 16);
    assert_eq!(Instant(132).checked_duration_since(start), Some(2000));
    assert_eq!(Instant(131).checked_duration_since(start), Some(1000));
    assert_eq!(Instant(100).checked_duration_since(start), Some(0));
    assert_eq!(Instant(99).checked_duration_since(start), None);
    assert_eq!(Instant(u32::MAX).checked_duration_since(Instant(0)), Some(268_435_455_000));
    assert_eq!(Instant(148).duration_since(start), 3000);
    assert_eq!(Instant(99).saturating_duration_since(start), 0);
    assert_eq!(Instant(116).saturating_duration_since(start), 1000);
    assert_eq!(start.elapsed(Instant(180)), 5000);
}

#[test]
fn instants_move_by_whole_seconds() {
    let start = Instant(100);
    assert_eq!(Instant::ticks(2500), 32);
    assert_eq!(Instant::ticks(999), 0);
    assert_eq!(Instant::ticks(0x1_0000_0000 + 1000), 16);
    assert_eq!(start.checked_add(2500), Some(Instant(132)));
    assert_eq!(start.checked_add(0), Some(start));
    assert_eq!(Instant(u32::MAX - 15).checked_add(1000), None);
    assert_eq!(Instant(u32::MAX - 16).checked_add(1000), Some(Instant(u32::MAX)));
    assert_eq!(start.checked_sub(6000), Some(Instant(4)));
    assert_eq!(start.checked_sub(7000), None);
    assert_eq!(sleep(start, 3000), Some(Instant(148)));
    assert_eq!(sleep_ms(start, 1999), Some(Instant(116)));
    assert_eq!(sleep(Instant(u32::MAX), 1000), None);
}

#[test]
fn a_sleep_goes_on_once_a_second_lies_behind_the_deadline() {
    assert!(!sleep_until(Instant(100), Instant(90)));
    assert!(!sleep_until(Instant(100), Instant(100)));
    assert!(!sleep_until(Instant(100), Instant(115)));
    assert!(sleep_until(Instant(100), Instant(116)));
}

#[test]
fn the_timer_is_started_on_its_clock() {
    assert_eq!(TimerClock::MCycle256.control(), 0x04);
    assert_eq!(TimerClock::MCycle4.control(), 0x05);
    assert_eq!(TimerClock::MCycle16.control(), 0x14);
    assert_eq!(TimerClock::MCycle64.control(), 0x15);
}
