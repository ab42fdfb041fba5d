use rustscanner::banner::{extract_banner, probe_payload, select_banner_line};

#[test]
fn server_line_preferred_over_first_line() {
    let bytes =
        b"HTTP/1.0 200 OK\r\nDate: Mon, 01 Jan 2024 00:00:00 GMT\r\nServer: nginx/1.18.0\r\nContent-Type: text/html\r\n\r\n";
    assert_eq!(extract_banner(bytes), Some(String::from("Server: nginx/1.18.0")));
}

#[test]
fn server_prefix_match_keeps_original_casing() {
    let bytes = b"HTTP/1.0 200 OK\r\nsErVeR: Apache/2.4\r\n\r\n";
    assert_eq!(extract_banner(bytes), Some(String::from("sErVeR: Apache/2.4")));
}

#[test]
fn first_line_when_no_server_line() {
    let bytes = b"SSH-2.0-OpenSSH_8.9\r\nsome continuation\r\n";
    assert_eq!(extract_banner(bytes), Some(String::from("SSH-2.0-OpenSSH_8.9")));
}

#[test]
fn single_line_without_newline() {
    let bytes = b"220 ftp.example.com FTP server ready";
    assert_eq!(
        extract_banner(bytes),
        Some(String::from("220 ftp.example.com FTP server ready"))
    );
}

#[test]
fn banner_is_trimmed() {
    let bytes = b"   220 ready  \r\nrest\r\n";
    assert_eq!(extract_banner(bytes), Some(String::from("220 ready")));
}

#[test]
fn no_banner_from_empty_input() {
    assert_eq!(extract_banner(b""), None);
}

#[test]
fn no_banner_from_blank_input() {
    assert_eq!(extract_banner(b" \t \r\nmore\r\n"), None);
}

#[test]
fn invalid_bytes_become_replacement_characters() {
    let bytes: Vec<u8> = vec![b'S', b'S', b'H', 0xff, b'!'];
    assert_eq!(extract_banner(&bytes), Some(String::from("SSH\u{fffd}!")));
}

#[test]
fn select_line_on_decoded_text() {
    let text = "first line\nServer: CUPS/2.4\nlast line\n";
    assert_eq!(select_banner_line(text), Some(String::from("Server: CUPS/2.4")));
    assert_eq!(select_banner_line(""), None);
}

#[test]
fn http_ports_get_head_probe() {
    assert_eq!(probe_payload(80), "HEAD / HTTP/1.0\r\n\r\n");
    assert_eq!(probe_payload(8080), "HEAD / HTTP/1.0\r\n\r\n");
    assert_eq!(probe_payload(443), "HEAD / HTTP/1.0\r\n\r\n");
}

#[test]
fn ipp_port_gets_get_probe() {
    assert_eq!(probe_payload(631), "GET / HTTP/1.0\r\nHost: localhost\r\n\r\n");
}

#[test]
fn other_ports_get_passive_read() {
    assert_eq!(probe_payload(22), "");
    assert_eq!(probe_payload(6379), "");
}
