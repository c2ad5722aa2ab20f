use sysfetch_rs::gpu::parse_gpu_linux;
use sysfetch_rs::gpu::parse_gpu_macos;
use sysfetch_rs::gpu::parse_gpu_windows;

fn s(v: &Option<Vec<u8>>) -> Option<String> {
    v.as_ref().map(|b| String::from_utf8_lossy(b).into_owned())
}

#[test]
fn windows_name_line() {
    let out = "\r\nName=NVIDIA GeForce RTX 3070\r\n\r\n".as_bytes();
    assert_eq!(s(&parse_gpu_windows(out)), Some("NVIDIA GeForce RTX 3070".to_string()));
}

#[test]
fn windows_skips_empty_name_lines() {
    let out = "Name=\r\nName=Intel UHD Graphics\r\n".as_bytes();
    assert_eq!(s(&parse_gpu_windows(out)), Some("Intel UHD Graphics".to_string()));
}

#[test]
fn windows_no_marker_yields_nothing() {
    assert_eq!(parse_gpu_windows("Caption=Something\r\n".as_bytes()), None);
    assert_eq!(parse_gpu_windows("Name=\r\n".as_bytes()), None);
    assert_eq!(parse_gpu_windows("".as_bytes()), None);
}

#[test]
fn windows_trims_whitespace() {
    let out = "Name=  AMD Radeon  \r\n".as_bytes();
    assert_eq!(s(&parse_gpu_windows(out)), Some("AMD Radeon".to_string()));
}

#[test]
fn linux_vga_line() {
    let mut text = String::new();
    text.push_str("00:00.0 \"Host bridge\" \"Intel Corporation\" \"Device 9b61\" -r0c \"Dell\" \"Device\"\n");
    text.push_str("01:00.0 \"VGA compatible controller\" \"NVIDIA Corporation\" \"GA104\" -ra1 \"ASUS\" \"Card\"\n");
    let out = text.as_bytes();
    assert_eq!(s(&parse_gpu_linux(out)), Some("NVIDIA Corporation GA104".to_string()));
}

#[test]
fn linux_3d_controller_line() {
    let out = "02:00.0 \"3D controller\" \"NVIDIA Corporation\" \"GP108M\" -ra1 \"Lenovo\" \"Device\"\n"
        .as_bytes();
    assert_eq!(s(&parse_gpu_linux(out)), Some("NVIDIA Corporation GP108M".to_string()));
}

#[test]
fn linux_no_controller_yields_nothing() {
    let out = "00:00.0 \"Host bridge\" \"Intel Corporation\" \"Device 9b61\"\n".as_bytes();
    assert_eq!(parse_gpu_linux(out), None);
    // a controller line without enough quoted fields is passed over
    let short = "01:00.0 \"VGA compatible controller\" \"NVIDIA\"\n".as_bytes();
    assert_eq!(parse_gpu_linux(short), None);
}

#[test]
fn macos_name_key() {
    let out = "{\n  \"SPDisplaysDataType\" : [\n    {\n      \"_name\" : \"Apple M1\",\n"
        .as_bytes();
    assert_eq!(s(&parse_gpu_macos(out)), Some("Apple M1".to_string()));
}

#[test]
fn macos_missing_key_yields_nothing() {
    assert_eq!(parse_gpu_macos("{ \"other\" : \"x\" }".as_bytes()), None);
    // an unterminated value yields nothing
    assert_eq!(parse_gpu_macos("\"_name\" : \"Apple M1".as_bytes()), None);
}
