use lc3::defs::{KBDR, KBSR};
use lc3::state::State;
use lc3::{load_image, ImageError};

#[test]
fn write_then_read_plain_address() {
    let mut st = State::new();
    st.mem.write(0x1234, 0xABCD);
    assert_eq!(st.mem.read(0x1234), 0xABCD);
    assert_eq!(st.mem.read(0x1235), 0);
}

#[test]
fn write_reaches_mapped_addresses_as_plain_storage() {
    let mut st = State::new();
    st.mem.write(KBSR, 0x8000);
    st.mem.write(KBDR, 0x41);
    assert_eq!(st.mem.data[KBSR as usize], 0x8000);
    assert_eq!(st.mem.data[KBDR as usize], 0x41);
}

#[test]
fn keyboard_poll_without_input_reports_unavailable() {
    let mut st = State::new();
    st.mem.write(KBDR, 0x55);
    st.mem.apply_keyboard_poll(None);
    assert_eq!(st.mem.data[KBSR as usize], 0);
    assert_eq!(st.mem.data[KBDR as usize], 0x55); // data word untouched
    // repeated empty polls change nothing further
    st.mem.apply_keyboard_poll(None);
    st.mem.apply_keyboard_poll(None);
    assert_eq!(st.mem.data[KBSR as usize], 0);
    assert_eq!(st.mem.data[KBDR as usize], 0x55);
}

#[test]
fn keyboard_poll_delivers_one_key_once() {
    let mut st = State::new();
    st.mem.apply_keyboard_poll(Some(b'a'));
    assert_eq!(st.mem.data[KBSR as usize], 0x8000); // available
    assert_eq!(st.mem.data[KBDR as usize], b'a' as u16);
    // the next empty poll withdraws availability but keeps the code
    st.mem.apply_keyboard_poll(None);
    assert_eq!(st.mem.data[KBSR as usize], 0);
    assert_eq!(st.mem.data[KBDR as usize], b'a' as u16);
}

#[test]
fn image_load_places_words_at_origin() {
    let mut st = State::new();
    let bytes: Vec<u8> = vec![0x30, 0x00, 0x12, 0x34, 0x56, 0x78];
    assert_eq!(load_image(&mut st.mem, &bytes), Ok(()));
    assert_eq!(st.mem.data[0x3000], 0x1234);
    assert_eq!(st.mem.data[0x3001], 0x5678);
    for (a, &w) in st.mem.data.iter().enumerate() {
        if a != 0x3000 && a != 0x3001 {
            assert_eq!(w, 0, "address {:#x} should be untouched", a);
        }
    }
}

#[test]
fn image_load_ignores_truncated_trailing_byte() {
    let mut st = State::new();
    let bytes: Vec<u8> = vec![0x40, 0x00, 0xAA, 0xBB, 0xCC];
    assert_eq!(load_image(&mut st.mem, &bytes), Ok(()));
    assert_eq!(st.mem.data[0x4000], 0xAABB);
    assert_eq!(st.mem.data[0x4001], 0);
}

#[test]
fn image_load_with_origin_only_writes_nothing() {
    let mut st = State::new();
    let bytes: Vec<u8> = vec![0x30, 0x00];
    assert_eq!(load_image(&mut st.mem, &bytes), Ok(()));
    assert!(st.mem.data.iter().all(|&w| w == 0));
}

#[test]
fn image_load_without_origin_is_rejected() {
    let mut st = State::new();
    assert_eq!(load_image(&mut st.mem, &vec![]), Err(ImageError::MissingOrigin));
    assert_eq!(load_image(&mut st.mem, &vec![0x30]), Err(ImageError::MissingOrigin));
    assert!(st.mem.data.iter().all(|&w| w == 0));
}

#[test]
fn image_load_wraps_at_top_of_memory() {
    let mut st = State::new();
    let bytes: Vec<u8> = vec![0xFF, 0xFF, 0x11, 0x22, 0x33, 0x44];
    assert_eq!(load_image(&mut st.mem, &bytes), Ok(()));
    assert_eq!(st.mem.data[0xFFFF], 0x1122);
    assert_eq!(st.mem.data[0x0000], 0x3344);
}

#[test]
fn later_images_overwrite_overlaps() {
    let mut st = State::new();
    let first: Vec<u8> = vec![0x30, 0x00, 0x12, 0x34, 0x56, 0x78];
    let second: Vec<u8> = vec![0x30, 0x01, 0xDE, 0xAD];
    assert_eq!(load_image(&mut st.mem, &first), Ok(()));
    assert_eq!(load_image(&mut st.mem, &second), Ok(()));
    assert_eq!(st.mem.data[0x3000], 0x1234);
    assert_eq!(st.mem.data[0x3001], 0xDEAD);
}
