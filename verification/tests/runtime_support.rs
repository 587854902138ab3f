use hydrozoa::allocation::{calloc_layout, realloc_layout, AllocRegistry, FreeAction, MemLayout, ReallocAction};
use hydrozoa::bits::{__popcountdi2, __popcountsi2};
use hydrozoa::cstring::{strcmp, vsnprintf_copy};
use hydrozoa::platform::{error_box_corners, error_lines, error_text_origin};
use hydrozoa::sys_support::{sbrk_step, write_goes_to_serial, WamrLogLevel};
use hydrozoa::Data;

#[test]
fn popcount_32() {
    assert_eq!(__popcountsi2(0), 0);
    assert_eq!(__popcountsi2(1), 1);
    assert_eq!(__popcountsi2(0b1011), 3);
    assert_eq!(__popcountsi2(-1), 32);
    assert_eq!(__popcountsi2(i32::MIN), 1);
    assert_eq!(__popcountsi2(0x5555_5555), 16);
}

#[test]
fn popcount_64() {
    assert_eq!(__popcountdi2(0), 0);
    assert_eq!(__popcountdi2(-1), 64);
    assert_eq!(__popcountdi2(i64::MIN), 1);
    assert_eq!(__popcountdi2(0x0F0F_0000_0000_00FF), 16);
    for x in [3i64, 12345, -987654321, 0x7FFF_FFFF_FFFF_FFFF] {
        assert_eq!(__popcountdi2(x), x.count_ones() as i64);
    }
}

#[test]
fn strcmp_orders_c_strings() {
    assert_eq!(strcmp(b"abc\0", b"abc\0"), 0);
    assert_eq!(strcmp(b"ab\0", b"abc\0"), -1);
    assert_eq!(strcmp(b"abc\0", b"ab\0"), 1);
    assert_eq!(strcmp(b"abd\0", b"abc\0"), 1);
    assert_eq!(strcmp(b"abc\0", b"abz\0"), (b'c' as i32) - (b'z' as i32));
    assert_eq!(strcmp(b"\0", b"\0"), 0);
    // only the bytes up to the first difference or terminator are read
    assert_eq!(strcmp(b"x", b"y"), -1);
}

#[test]
fn strcmp_is_antisymmetric() {
    let pairs: [(&[u8], &[u8]); 3] = [(b"hello\0", b"help\0"), (b"a\0", b"\0"), (b"same\0", b"same\0")];
    for (a, b) in pairs {
        assert_eq!(strcmp(a, b), -strcmp(b, a));
    }
}

#[test]
fn vsnprintf_truncates_to_buffer() {
    assert_eq!(vsnprintf_copy("hello", 5, 10), (b"hello".to_vec(), 5));
    assert_eq!(vsnprintf_copy("hello", 5, 3), (b"he".to_vec(), 2));
    assert_eq!(vsnprintf_copy("hello", 5, 1), (Vec::new(), 0));
    assert_eq!(vsnprintf_copy("hello", 5, 6), (b"hello".to_vec(), 5));
}

fn lines_of(msg: &str) -> Vec<String> {
    error_lines(msg).into_iter().map(|l| l.into_iter().collect()).collect()
}

#[test]
fn error_lines_break_at_newlines() {
    assert_eq!(lines_of("panicked at main.rs\nboom"), vec!["panicked at main.rs", "boom"]);
    assert_eq!(lines_of(""), Vec::<String>::new());
    assert_eq!(lines_of("a\n"), vec!["a"]);
}

#[test]
fn error_lines_expand_tabs_and_drop_controls() {
    assert_eq!(lines_of("a\tb"), vec!["a    b"]);
    assert_eq!(lines_of("a\rb\x07c"), vec!["abc"]);
    // a control character after a broken line emits an empty line
    assert_eq!(lines_of("a\n\x01"), vec!["a", ""]);
}

#[test]
fn error_lines_wrap_at_56_bytes() {
    let msg = "x".repeat(60);
    assert_eq!(lines_of(&msg), vec!["x".repeat(56), "x".repeat(4)]);
    let msg = "y".repeat(112);
    assert_eq!(lines_of(&msg), vec!["y".repeat(56), "y".repeat(56)]);
    // multi-byte characters count by their UTF-8 length
    let msg = "é".repeat(30);
    assert_eq!(lines_of(&msg), vec!["é".repeat(28), "é".repeat(2)]);
}

#[test]
fn error_lines_keep_text() {
    let msg = "first line\n\tsecond\x1b line that is quite a bit longer than fifty-six bytes in total";
    let joined: String = lines_of(msg).concat();
    let cleaned: String = msg
        .chars()
        .flat_map(|c| {
            if c == '\t' {
                "    ".chars().collect::<Vec<_>>()
            } else if c.is_ascii_control() {
                Vec::new()
            } else {
                vec![c]
            }
        })
        .collect();
    assert_eq!(joined, cleaned);
}

#[test]
fn error_geometry() {
    assert_eq!(error_text_origin(0), (16, 16));
    assert_eq!(error_text_origin(3), (16, 64));
    assert_eq!(error_box_corners(480, 240), ((8, 8), (472, 232)));
}

#[test]
fn calloc_layouts() {
    assert_eq!(calloc_layout(4, 8), Some(MemLayout { size: 32, align: 16 }));
    assert_eq!(calloc_layout(0, 8), None);
    assert_eq!(calloc_layout(3, 0), None);
    assert_eq!(realloc_layout(MemLayout { size: 32, align: 16 }, 100), MemLayout { size: 100, align: 16 });
}

#[test]
fn registry_free_and_double_free() {
    let mut reg = AllocRegistry::new();
    assert_eq!(reg.len(), 0);
    let layout = MemLayout { size: 24, align: 16 };
    reg.record(0x1000, layout);
    reg.record(0, layout);
    assert_eq!(reg.len(), 1);
    assert_eq!(reg.free(0), FreeAction::Ignore);
    assert_eq!(reg.free(0x1000), FreeAction::Release(layout));
    assert_eq!(reg.free(0x1000), FreeAction::DoubleFree);
    assert_eq!(reg.len(), 0);
}

#[test]
fn registry_realloc() {
    let mut reg = AllocRegistry::new();
    let layout = MemLayout { size: 24, align: 16 };
    reg.record(0x2000, layout);
    assert_eq!(
        reg.realloc(0x2000, 64),
        ReallocAction::Resize(layout, MemLayout { size: 64, align: 16 })
    );
    assert_eq!(reg.len(), 0);
    assert_eq!(reg.realloc(0x2000, 64), ReallocAction::Unknown);
    assert_eq!(reg.realloc(0, 64), ReallocAction::Allocate(Some(MemLayout { size: 64, align: 16 })));
    assert_eq!(reg.realloc(0, 0), ReallocAction::Allocate(None));
}

#[test]
fn sbrk_moves_break() {
    assert_eq!(sbrk_step(0x1000, 0x2000, 0x100), (0x1100, Some(0x1000)));
    assert_eq!(sbrk_step(0x1000, 0x2000, 0x1000), (0x2000, None));
    assert_eq!(sbrk_step(0x1000, 0x2000, -0x10), (0xFF0, Some(0x1000)));
    assert_eq!(sbrk_step(0, 0x2000, -1), (usize::MAX, None));
}

#[test]
fn write_targets() {
    assert!(write_goes_to_serial(1));
    assert!(write_goes_to_serial(2));
    assert!(!write_goes_to_serial(0));
    assert!(!write_goes_to_serial(3));
}

#[test]
fn wamr_levels() {
    assert_eq!(WamrLogLevel::FATAL.raw(), 0);
    assert_eq!(WamrLogLevel::ERROR.raw(), 1);
    assert_eq!(WamrLogLevel::WARNING.raw(), 2);
    assert_eq!(WamrLogLevel::DEBUG.raw(), 3);
    assert_eq!(WamrLogLevel::VERBOSE.raw(), 4);
}

#[test]
fn data_default() {
    let _d: Data = Data::default();
}
