//! Service fingerprinting: an ordered signature table matched against
//! the lower-cased banner, a port-number hint table as fallback, and
//! "Unknown" when neither applies. The signature table's order is
//! significant: specific vendor patterns stand before the generic
//! `http/1.` entry, so vendor identity is not masked by the protocol
//! match.

use vstd::prelude::*;

use crate::text::{has_substring, lower_of, str_has_substring, to_lowercase_str};

verus! {

/// The label the port-hint table assigns to `port`, if any.
pub open spec fn hint_of_port(port: u16) -> Option<Seq<char>> {
    if port == 21 {
        Some("FTP"@)
    } else if port == 22 {
        Some("SSH"@)
    } else if port == 23 {
        Some("Telnet"@)
    } else if port == 25 {
        Some("SMTP"@)
    } else if port == 53 {
        Some("DNS"@)
    } else if port == 80 {
        Some("HTTP"@)
    } else if port == 110 {
        Some("POP3"@)
    } else if port == 143 {
        Some("IMAP"@)
    } else if port == 443 {
        Some("HTTPS"@)
    } else if port == 445 {
        Some("SMB"@)
    } else if port == 3306 {
        Some("MySQL"@)
    } else if port == 5432 {
        Some("PostgreSQL"@)
    } else if port == 6379 {
        Some("Redis"@)
    } else if port == 5900 {
        Some("VNC"@)
    } else if port == 631 {
        Some("CUPS (Print Server)"@)
    } else if port == 8080 {
        Some("HTTP (alt)"@)
    } else {
        None
    }
}

/// The label chosen when no banner evidence is available: the port
/// hint marked as a guess, or "Unknown".
pub open spec fn port_guess_spec(port: u16) -> Seq<char> {
    match hint_of_port(port) {
        Some(l) => l + " (port-based guess)"@,
        None => "Unknown"@,
    }
}

/// The label the ordered signature table assigns to the lower-cased
/// banner `lb`, falling back to the port table when no pattern occurs
/// in `lb`. The patterns are stored lower-cased, so that the test is
/// case-insensitive on the banner.
pub open spec fn classify_lowered_spec(port: u16, lb: Seq<char>) -> Seq<char> {
    if has_substring(lb, "ssh"@) {
        "SSH"@
    } else if has_substring(lb, "ftp"@) {
        "FTP"@
    } else if has_substring(lb, "smtp"@) {
        "SMTP"@
    } else if has_substring(lb, "pop3"@) {
        "POP3"@
    } else if has_substring(lb, "imap"@) {
        "IMAP"@
    } else if has_substring(lb, "cups"@) {
        "CUPS (Print Server)"@
    } else if has_substring(lb, "apache"@) {
        "HTTP (Apache)"@
    } else if has_substring(lb, "openresty"@) {
        "HTTP (OpenResty/nginx)"@
    } else if has_substring(lb, "nginx"@) {
        "HTTP (nginx)"@
    } else if has_substring(lb, "microsoft-iis"@) {
        "HTTP (IIS)"@
    } else if has_substring(lb, "http/1."@) {
        "HTTP"@
    } else if has_substring(lb, "rfb"@) {
        "VNC"@
    } else if has_substring(lb, "mysql"@) {
        "MySQL"@
    } else if has_substring(lb, "postgresql"@) {
        "PostgreSQL"@
    } else if has_substring(lb, "redis"@) {
        "Redis"@
    } else if has_substring(lb, "telnet"@) {
        "Telnet"@
    } else {
        port_guess_spec(port)
    }
}

/// The service label for an open port: by banner signature when a
/// banner is present and some pattern occurs in its lower-cased form,
/// else by port hint, else "Unknown".
pub open spec fn classify_spec(port: u16, banner: Option<Seq<char>>) -> Seq<char> {
    match banner {
        Some(b) => classify_lowered_spec(port, lower_of(b)),
        None => port_guess_spec(port),
    }
}

/// The port-hint fallback label for `port`.
pub fn port_guess(port: u16) -> (r: String)
    ensures
        r@ == port_guess_spec(port),
{
    if port == 21 {
        String::from_str("FTP").concat(" (port-based guess)")
    } else if port == 22 {
        String::from_str("SSH").concat(" (port-based guess)")
    } else if port == 23 {
        String::from_str("Telnet").concat(" (port-based guess)")
    } else if port == 25 {
        String::from_str("SMTP").concat(" (port-based guess)")
    } else if port == 53 {
        String::from_str("DNS").concat(" (port-based guess)")
    } else if port == 80 {
        String::from_str("HTTP").concat(" (port-based guess)")
    } else if port == 110 {
        String::from_str("POP3").concat(" (port-based guess)")
    } else if port == 143 {
        String::from_str("IMAP").concat(" (port-based guess)")
    } else if port == 443 {
        String::from_str("HTTPS").concat(" (port-based guess)")
    } else if port == 445 {
        String::from_str("SMB").concat(" (port-based guess)")
    } else if port == 3306 {
        String::from_str("MySQL").concat(" (port-based guess)")
    } else if port == 5432 {
        String::from_str("PostgreSQL").concat(" (port-based guess)")
    } else if port == 6379 {
        String::from_str("Redis").concat(" (port-based guess)")
    } else if port == 5900 {
        String::from_str("VNC").concat(" (port-based guess)")
    } else if port == 631 {
        String::from_str("CUPS (Print Server)").concat(" (port-based guess)")
    } else if port == 8080 {
        String::from_str("HTTP (alt)").concat(" (port-based guess)")
    } else {
        String::from_str("Unknown")
    }
}

/// The label for a banner that has already been lower-cased.
pub fn classify_lowered(port: u16, lb: &str) -> (r: String)
    ensures
        r@ == classify_lowered_spec(port, lb@),
{
    if str_has_substring(lb, "ssh") {
        String::from_str("SSH")
    } else if str_has_substring(lb, "ftp") {
        String::from_str("FTP")
    } else if str_has_substring(lb, "smtp") {
        String::from_str("SMTP")
    } else if str_has_substring(lb, "pop3") {
        String::from_str("POP3")
    } else if str_has_substring(lb, "imap") {
        String::from_str("IMAP")
    } else if str_has_substring(lb, "cups") {
        String::from_str("CUPS (Print Server)")
    } else if str_has_substring(lb, "apache") {
        String::from_str("HTTP (Apache)")
    } else if str_has_substring(lb, "openresty") {
        String::from_str("HTTP (OpenResty/nginx)")
    } else if str_has_substring(lb, "nginx") {
        String::from_str("HTTP (nginx)")
    } else if str_has_substring(lb, "microsoft-iis") {
        String::from_str("HTTP (IIS)")
    } else if str_has_substring(lb, "http/1.") {
        String::from_str("HTTP")
    } else if str_has_substring(lb, "rfb") {
        String::from_str("VNC")
    } else if str_has_substring(lb, "mysql") {
        String::from_str("MySQL")
    } else if str_has_substring(lb, "postgresql") {
        String::from_str("PostgreSQL")
    } else if str_has_substring(lb, "redis") {
        String::from_str("Redis")
    } else if str_has_substring(lb, "telnet") {
        String::from_str("Telnet")
    } else {
        port_guess(port)
    }
}

/// The service label for an open `port` with the given banner. The
/// result is a function of the two arguments alone, so two calls on
/// the same inputs yield the same label.
pub fn fingerprint(port: u16, banner: &Option<String>) -> (r: String)
    ensures
        r@ == classify_spec(port, banner.deep_view()),
{
    match banner {
        Some(b) => {
            let lb = to_lowercase_str(b.as_str());
            classify_lowered(port, lb.as_str())
        },
        None => port_guess(port),
    }
}

/// Law: vendor signatures take precedence over the generic protocol
/// entry. A lower-cased banner in which "apache" occurs is never given
/// the generic "HTTP" label, and is given "HTTP (Apache)" whenever no
/// pattern earlier in the table occurs in it.
pub proof fn lemma_apache_precedes_generic_http(port: u16, lb: Seq<char>)
    requires
        has_substring(lb, "apache"@),
    ensures
        classify_lowered_spec(port, lb) != "HTTP"@,
        !has_substring(lb, "ssh"@) && !has_substring(lb, "ftp"@) && !has_substring(lb, "smtp"@)
            && !has_substring(lb, "pop3"@) && !has_substring(lb, "imap"@) && !has_substring(
            lb,
            "cups"@,
        ) ==> classify_lowered_spec(port, lb) == "HTTP (Apache)"@,
{
    reveal_strlit("SSH");
    reveal_strlit("FTP");
    reveal_strlit("SMTP");
    reveal_strlit("POP3");
    reveal_strlit("IMAP");
    reveal_strlit("CUPS (Print Server)");
    reveal_strlit("HTTP (Apache)");
    reveal_strlit("HTTP");
    assert("SSH"@.len() != "HTTP"@.len());
    assert("FTP"@.len() != "HTTP"@.len());
    assert("SMTP"@[0] != "HTTP"@[0]);
    assert("POP3"@[0] != "HTTP"@[0]);
    assert("IMAP"@[0] != "HTTP"@[0]);
    assert("CUPS (Print Server)"@.len() != "HTTP"@.len());
    assert("HTTP (Apache)"@.len() != "HTTP"@.len());
}

} // verus!
