use rustscanner::fingerprint::fingerprint;

#[test]
fn classify_ssh_banner() {
    let banner = Some(String::from("SSH-2.0-OpenSSH_8.9"));
    assert_eq!(fingerprint(22, &banner), "SSH");
}

#[test]
fn classify_is_deterministic() {
    let banner = Some(String::from("220 smtp.example.com ESMTP Postfix"));
    let first = fingerprint(25, &banner);
    let second = fingerprint(25, &banner);
    assert_eq!(first, second);
    assert_eq!(first, "SMTP");
}

#[test]
fn classify_rerun_gives_same_label() {
    let banner = Some(String::from("HTTP/1.1 200 OK Server: nginx"));
    let labels: Vec<String> = (0..2).map(|_| fingerprint(8080, &banner)).collect();
    assert_eq!(labels[0], labels[1]);
    assert_eq!(labels[0], "HTTP (nginx)");
}

#[test]
fn apache_precedes_generic_http() {
    let banner = Some(String::from("HTTP/1.1 200 OK Apache/2.4.52"));
    let label = fingerprint(80, &banner);
    assert_eq!(label, "HTTP (Apache)");
    assert_ne!(label, "HTTP");
}

#[test]
fn vendor_entries_precede_generic_http() {
    assert_eq!(
        fingerprint(80, &Some(String::from("HTTP/1.0 openresty server"))),
        "HTTP (OpenResty/nginx)"
    );
    assert_eq!(
        fingerprint(80, &Some(String::from("Microsoft-IIS/10.0 HTTP/1.1"))),
        "HTTP (IIS)"
    );
}

#[test]
fn generic_http_without_vendor() {
    let banner = Some(String::from("HTTP/1.1 404 Not Found"));
    assert_eq!(fingerprint(12345, &banner), "HTTP");
}

#[test]
fn match_is_case_insensitive() {
    let banner = Some(String::from("APACHE HOUSEKEEPING"));
    assert_eq!(fingerprint(1, &banner), "HTTP (Apache)");
    let banner = Some(String::from("Redis server v7"));
    assert_eq!(fingerprint(1, &banner), "Redis");
}

#[test]
fn banner_evidence_beats_port_hint() {
    let banner = Some(String::from("SSH-2.0-dropbear"));
    assert_eq!(fingerprint(80, &banner), "SSH");
}

#[test]
fn redis_port_guess_without_banner() {
    assert_eq!(fingerprint(6379, &None), "Redis (port-based guess)");
}

#[test]
fn unknown_without_banner_or_hint() {
    assert_eq!(fingerprint(50000, &None), "Unknown");
}

#[test]
fn port_hints_without_banner() {
    assert_eq!(fingerprint(21, &None), "FTP (port-based guess)");
    assert_eq!(fingerprint(443, &None), "HTTPS (port-based guess)");
    assert_eq!(fingerprint(631, &None), "CUPS (Print Server) (port-based guess)");
    assert_eq!(fingerprint(8080, &None), "HTTP (alt) (port-based guess)");
}

#[test]
fn unmatched_banner_falls_to_hint() {
    let banner = Some(String::from("nothing recognizable here"));
    assert_eq!(fingerprint(3306, &banner), "MySQL (port-based guess)");
}

#[test]
fn unmatched_banner_unknown_port() {
    let banner = Some(String::from("nothing recognizable here"));
    assert_eq!(fingerprint(4444, &banner), "Unknown");
}
