use window_switcher::enumeration::{collect_windows, window_record, WindowProbe, WindowRecord};
use window_switcher::filter::WS_CAPTION;
use window_switcher::text::TEXT_CAPACITY;

fn units(text: &str) -> (Vec<u16>, usize) {
    let u: Vec<u16> = text.encode_utf16().collect();
    let mut buffer = vec![0u16; TEXT_CAPACITY];
    buffer[..u.len()].copy_from_slice(&u);
    (buffer, u.len())
}

fn probe(handle: usize, visible: bool, owned: bool, style: u32, title: &str, path: Option<&str>) -> WindowProbe {
    let mut p = WindowProbe::new(handle, visible, owned, style);
    let (tb, tn) = units(title);
    p.title_buffer = tb;
    p.title_length = tn as i32;
    if let Some(path) = path {
        let (pb, pn) = units(path);
        p.executable_path = Some(pb);
        p.executable_path_length = pn as u32;
    }
    p
}

fn summary(records: &[WindowRecord]) -> Vec<(usize, String, String)> {
    records
        .iter()
        .map(|r| (r.handle, r.title.clone(), r.application_name.clone()))
        .collect()
}

#[test]
fn eligible_window_yields_record() {
    let p = probe(10, true, false, WS_CAPTION, "Untitled - Notepad", Some("C:\\Windows\\notepad.exe"));
    let r = window_record(&p).expect("listed");
    assert_eq!(r.handle, 10);
    assert_eq!(r.title, "Untitled - Notepad");
    assert_eq!(r.application_name, "notepad");
}

#[test]
fn uncaptioned_windows_are_never_listed() {
    let probes = vec![
        probe(1, true, false, 0, "Tool", Some("C:\\t.exe")),
        probe(2, false, false, 0, "Hidden tool", Some("C:\\t.exe")),
        probe(3, true, true, 0, "Owned tool", Some("C:\\t.exe")),
    ];
    assert!(collect_windows(&probes).is_empty());
}

#[test]
fn owned_windows_are_never_listed() {
    let probes = vec![probe(4, true, true, WS_CAPTION, "Save As", Some("C:\\app.exe"))];
    assert!(window_record(&probes[0]).is_none());
    assert!(collect_windows(&probes).is_empty());
}

#[test]
fn hidden_windows_are_never_listed() {
    let probes = vec![probe(5, false, false, WS_CAPTION, "Background", None)];
    assert!(collect_windows(&probes).is_empty());
}

#[test]
fn untitled_windows_are_excluded() {
    let probes = vec![probe(6, true, false, WS_CAPTION, "", Some("C:\\app.exe"))];
    assert!(collect_windows(&probes).is_empty());
}

#[test]
fn denied_process_still_listed_with_empty_name() {
    let probes = vec![probe(7, true, false, WS_CAPTION, "Task Manager", None)];
    let records = collect_windows(&probes);
    assert_eq!(summary(&records), vec![(7, "Task Manager".to_string(), String::new())]);
}

#[test]
fn unreadable_path_gives_empty_name() {
    let mut p = probe(8, true, false, WS_CAPTION, "Service", Some("C:\\svc.exe"));
    p.executable_path_length = 0;
    let records = collect_windows(&vec![p]);
    assert_eq!(summary(&records), vec![(8, "Service".to_string(), String::new())]);
}

#[test]
fn handles_are_not_repeated() {
    let probes = vec![
        probe(1, true, false, WS_CAPTION, "First", Some("C:\\a.exe")),
        probe(2, true, false, WS_CAPTION, "Second", Some("C:\\b.exe")),
        probe(1, true, false, WS_CAPTION, "First again", Some("C:\\c.exe")),
    ];
    let records = collect_windows(&probes);
    assert_eq!(
        summary(&records),
        vec![
            (1, "First again".to_string(), "c".to_string()),
            (2, "Second".to_string(), "b".to_string()),
        ]
    );
}

#[test]
fn enumeration_keeps_environment_order_and_filters() {
    let probes = vec![
        probe(30, true, false, WS_CAPTION, "Mail", Some("C:\\Apps\\mail.exe")),
        probe(31, true, true, WS_CAPTION, "Reply", Some("C:\\Apps\\mail.exe")),
        probe(32, true, false, 0, "Overlay", Some("C:\\Apps\\overlay.exe")),
        probe(33, true, false, WS_CAPTION, "", None),
        probe(34, true, false, WS_CAPTION, "Editor", Some("C:\\Apps\\code.exe")),
    ];
    let records = collect_windows(&probes);
    assert_eq!(
        summary(&records),
        vec![
            (30, "Mail".to_string(), "mail".to_string()),
            (34, "Editor".to_string(), "code".to_string()),
        ]
    );
}

#[test]
fn empty_enumeration_is_empty() {
    assert!(collect_windows(&Vec::new()).is_empty());
}
