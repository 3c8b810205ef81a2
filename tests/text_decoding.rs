use window_switcher::text::{executable_stem, window_title, TEXT_CAPACITY};

fn buffer_with(text: &str) -> (Vec<u16>, usize) {
    let units: Vec<u16> = text.encode_utf16().collect();
    let mut buffer = vec![0u16; TEXT_CAPACITY];
    buffer[..units.len()].copy_from_slice(&units);
    (buffer, units.len())
}

#[test]
fn title_is_decoded_from_filled_units() {
    let (buffer, n) = buffer_with("Untitled - Notepad");
    assert_eq!(window_title(&buffer, n as i32), "Untitled - Notepad");
}

#[test]
fn title_with_non_ascii_text() {
    let (buffer, n) = buffer_with("Übersicht – 日本語");
    assert_eq!(window_title(&buffer, n as i32), "Übersicht – 日本語");
}

#[test]
fn zero_or_negative_length_gives_empty_title() {
    let (buffer, _) = buffer_with("Hidden");
    assert_eq!(window_title(&buffer, 0), "");
    assert_eq!(window_title(&buffer, -1), "");
}

#[test]
fn title_length_beyond_buffer_is_clamped() {
    let buffer: Vec<u16> = "abc".encode_utf16().collect();
    assert_eq!(window_title(&buffer, 10), "abc");
}

#[test]
fn title_is_truncated_at_reported_length() {
    let (buffer, _) = buffer_with("Calculator");
    assert_eq!(window_title(&buffer, 4), "Calc");
}

#[test]
fn unpaired_surrogate_becomes_replacement_character() {
    let buffer: Vec<u16> = vec![0x0041, 0xD800, 0x0042];
    assert_eq!(window_title(&buffer, 3), "A\u{FFFD}B");
}

#[test]
fn notepad_path_yields_notepad() {
    let (buffer, n) = buffer_with("C:\\Windows\\System32\\notepad.exe");
    assert_eq!(executable_stem(&buffer, n as u32), "notepad");
}

#[test]
fn only_last_extension_is_stripped() {
    let (buffer, n) = buffer_with("C:\\tools\\archive.tar.gz");
    assert_eq!(executable_stem(&buffer, n as u32), "archive.tar");
}

#[test]
fn forward_slashes_separate_too() {
    let (buffer, n) = buffer_with("C:/Program Files/App/app.exe");
    assert_eq!(executable_stem(&buffer, n as u32), "app");
}

#[test]
fn name_without_extension_is_kept() {
    let (buffer, n) = buffer_with("D:\\bin\\runner");
    assert_eq!(executable_stem(&buffer, n as u32), "runner");
}

#[test]
fn leading_dot_name_is_kept_whole() {
    let (buffer, n) = buffer_with("C:\\Users\\me\\.hidden");
    assert_eq!(executable_stem(&buffer, n as u32), ".hidden");
}

#[test]
fn dot_names_and_empty_paths_have_no_stem() {
    let (buffer, n) = buffer_with("C:\\dir\\..");
    assert_eq!(executable_stem(&buffer, n as u32), "");
    let (buffer, n) = buffer_with("C:\\dir\\");
    assert_eq!(executable_stem(&buffer, n as u32), "");
    let (buffer, _) = buffer_with("C:\\a\\b.exe");
    assert_eq!(executable_stem(&buffer, 0), "");
}

#[test]
fn bare_file_name_without_directory() {
    let (buffer, n) = buffer_with("explorer.exe");
    assert_eq!(executable_stem(&buffer, n as u32), "explorer");
}
