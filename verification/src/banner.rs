//! Banner acquisition logic: the per-port probe payload, and the
//! extraction of one representative line from the bytes a service sent
//! back. Among the decoded lines the first one whose lower-cased form
//! starts with "server:" is preferred, else the first line; the chosen
//! line is trimmed, and an empty result means no banner.

use vstd::prelude::*;

use crate::text::{has_prefix, lower_of, str_has_prefix, str_trim, to_lowercase_str, trim_of};

verus! {

/// The bytes sent after connecting to elicit a response: an HTTP HEAD
/// request on the common web ports, an HTTP GET on the IPP port, and
/// nothing elsewhere (servers there are expected to greet first).
pub open spec fn probe_payload_spec(port: u16) -> Seq<char> {
    if port == 80 || port == 8080 || port == 443 {
        "HEAD / HTTP/1.0\r\n\r\n"@
    } else if port == 631 {
        "GET / HTTP/1.0\r\nHost: localhost\r\n\r\n"@
    } else {
        Seq::empty()
    }
}

/// The probe payload for `port`; empty when the port gets a passive read.
pub fn probe_payload(port: u16) -> (r: String)
    ensures
        r@ == probe_payload_spec(port),
{
    if port == 80 || port == 8080 || port == 443 {
        String::from_str("HEAD / HTTP/1.0\r\n\r\n")
    } else if port == 631 {
        String::from_str("GET / HTTP/1.0\r\nHost: localhost\r\n\r\n")
    } else {
        String::new()
    }
}

/// The decoded text of `data`, as `String::from_utf8_lossy` reads it:
/// a function of the bytes alone.
pub uninterp spec fn lossy_of(data: Seq<u8>) -> Seq<char>;

/// Relies on `String::from_utf8_lossy`: the decoding depends on the
/// bytes alone, never fails, and decodes no bytes to the empty string.
#[verifier::external_body]
pub(crate) fn decode_lossy(data: &[u8]) -> (r: String)
    ensures
        r@ == lossy_of(data@),
        data@.len() == 0 ==> r@.len() == 0,
{
    String::from_utf8_lossy(data).into_owned()
}

/// The number of characters before the first newline of `t`, or the
/// length of `t` when it has none.
pub open spec fn line_break_at(t: Seq<char>) -> int
    decreases t.len(),
{
    if t.len() == 0 {
        0
    } else if t[0] == '\n' {
        0
    } else {
        1 + line_break_at(t.drop_first())
    }
}

pub proof fn lemma_line_break_at(t: Seq<char>)
    ensures
        0 <= line_break_at(t) <= t.len(),
        forall|j: int| 0 <= j < line_break_at(t) ==> t[j] != '\n',
        line_break_at(t) < t.len() ==> t[line_break_at(t)] == '\n',
    decreases t.len(),
{
    if t.len() != 0 && t[0] != '\n' {
        lemma_line_break_at(t.drop_first());
        assert(forall|j: int| 1 <= j < line_break_at(t) ==> t[j] == t.drop_first()[j - 1]);
    }
}

/// A line with its trailing carriage return removed, as `str::lines`
/// leaves a line that ended in "\r\n".
pub open spec fn strip_cr(l: Seq<char>) -> Seq<char> {
    if l.len() > 0 && l.last() == '\r' {
        l.drop_last()
    } else {
        l
    }
}

/// The lines of `t`, split at newlines, each with a carriage return
/// before its newline removed, and with no empty line after a final
/// newline — the lines `str::lines` yields.
pub open spec fn split_lines(t: Seq<char>) -> Seq<Seq<char>>
    decreases t.len(),
    via split_lines_decreases
{
    if t.len() == 0 {
        Seq::empty()
    } else {
        let k = line_break_at(t);
        if k == t.len() {
            seq![t]
        } else {
            seq![strip_cr(t.subrange(0, k))] + split_lines(t.subrange(k + 1, t.len() as int))
        }
    }
}

#[via_fn]
proof fn split_lines_decreases(t: Seq<char>) {
    lemma_line_break_at(t);
}

/// Whether the lower-cased form of a line starts with "server:".
pub open spec fn is_server_line(l: Seq<char>) -> bool {
    has_prefix(lower_of(l), "server:"@)
}

/// The first server-tagged line among `ls`, if any.
pub open spec fn first_server_line(ls: Seq<Seq<char>>) -> Option<Seq<char>>
    decreases ls.len(),
{
    if ls.len() == 0 {
        None
    } else if is_server_line(ls[0]) {
        Some(ls[0])
    } else {
        first_server_line(ls.drop_first())
    }
}

/// The line selected from the decoded text: the first server-tagged
/// line, else the first line, else nothing at all.
pub open spec fn chosen_line(t: Seq<char>) -> Seq<char> {
    match first_server_line(split_lines(t)) {
        Some(l) => l,
        None => if split_lines(t).len() > 0 {
            split_lines(t)[0]
        } else {
            Seq::empty()
        },
    }
}

/// The banner extracted from the decoded text: the chosen line after
/// trimming, or nothing when that leaves the empty string.
pub open spec fn banner_of_text(t: Seq<char>) -> Option<Seq<char>> {
    let sel = trim_of(chosen_line(t));
    if sel.len() == 0 {
        None
    } else {
        Some(sel)
    }
}

/// The banner extracted from raw response bytes.
pub open spec fn banner_of_bytes(data: Seq<u8>) -> Option<Seq<char>> {
    banner_of_text(lossy_of(data))
}

/// The position of the first newline of `s`, or its length.
fn find_newline(s: &str) -> (k: usize)
    ensures
        k as int == line_break_at(s@),
{
    let n = s.unicode_len();
    let mut i: usize = 0;
    while i < n
        invariant
            n == s@.len(),
            i <= n,
            forall|j: int| 0 <= j < i ==> s@[j] != '\n',
        decreases n - i,
    {
        if s.get_char(i) == '\n' {
            proof {
                lemma_line_break_at(s@);
                let k = line_break_at(s@);
                if k < i as int {
                    assert(s@[k] != '\n');
                }
            }
            return i;
        }
        i += 1;
    }
    proof {
        lemma_line_break_at(s@);
        let k = line_break_at(s@);
        if k < n as int {
            assert(s@[k] != '\n');
        }
    }
    n
}

/// Whether the lower-cased form of `l` starts with "server:".
fn is_server_line_exec(l: &str) -> (r: bool)
    ensures
        r == is_server_line(l@),
{
    let ll = to_lowercase_str(l);
    str_has_prefix(ll.as_str(), "server:")
}

/// The first line of `s`, with a carriage return before its newline
/// removed; the empty slice when `s` is empty.
fn first_line<'a>(s: &'a str) -> (r: &'a str)
    ensures
        split_lines(s@).len() > 0 ==> r@ == split_lines(s@)[0],
        split_lines(s@).len() == 0 ==> r@ == Seq::<char>::empty(),
{
    let n = s.unicode_len();
    if n == 0 {
        proof {
            assert(s@ =~= Seq::<char>::empty());
        }
        return s;
    }
    let k = find_newline(s);
    if k == n {
        return s;
    }
    proof {
        lemma_line_break_at(s@);
    }
    if k > 0 && s.get_char(k - 1) == '\r' {
        let r = s.substring_char(0, k - 1);
        proof {
            let line = s@.subrange(0, k as int);
            assert(line.last() == s@[k - 1]);
            assert(strip_cr(line) =~= s@.subrange(0, k - 1));
        }
        r
    } else {
        let r = s.substring_char(0, k);
        proof {
            let line = s@.subrange(0, k as int);
            if k > 0 {
                assert(line.last() == s@[k - 1]);
            }
            assert(strip_cr(line) == line);
        }
        r
    }
}

/// The first server-tagged line of `s`, if any.
fn find_server_line<'a>(s: &'a str) -> (r: Option<&'a str>)
    ensures
        match r {
            Some(l) => first_server_line(split_lines(s@)) == Some(l@),
            None => first_server_line(split_lines(s@)) is None,
        },
    decreases s@.len(),
{
    let n = s.unicode_len();
    if n == 0 {
        return None;
    }
    let k = find_newline(s);
    proof {
        lemma_line_break_at(s@);
    }
    let line: &'a str = if k < n && k > 0 && s.get_char(k - 1) == '\r' {
        let l = s.substring_char(0, k - 1);
        proof {
            let whole = s@.subrange(0, k as int);
            assert(whole.last() == s@[k - 1]);
            assert(strip_cr(whole) =~= s@.subrange(0, k - 1));
        }
        l
    } else if k < n {
        let l = s.substring_char(0, k);
        proof {
            let whole = s@.subrange(0, k as int);
            if k > 0 {
                assert(whole.last() == s@[k - 1]);
            }
            assert(strip_cr(whole) == whole);
        }
        l
    } else {
        s
    };
    proof {
        if (k as int) < s@.len() {
            assert(split_lines(s@)[0] == line@);
        } else {
            assert(split_lines(s@) =~= seq![s@]);
        }
    }
    if is_server_line_exec(line) {
        proof {
            assert(split_lines(s@).len() > 0);
            assert(first_server_line(split_lines(s@)) == Some(line@));
        }
        return Some(line);
    }
    if k == n {
        proof {
            assert(split_lines(s@) =~= seq![s@]);
            assert(split_lines(s@).drop_first() =~= Seq::<Seq<char>>::empty());
            assert(first_server_line(Seq::<Seq<char>>::empty()) is None);
        }
        return None;
    }
    let rest = s.substring_char(k + 1, n);
    proof {
        assert(split_lines(s@).drop_first() =~= split_lines(rest@));
    }
    find_server_line(rest)
}

/// The banner line selected from decoded response text: the first line
/// whose lower-cased form starts with "server:", else the first line,
/// trimmed of surrounding white space; nothing when that is empty.
pub fn select_banner_line(text: &str) -> (r: Option<String>)
    ensures
        r.deep_view() == banner_of_text(text@),
{
    let chosen: &str = match find_server_line(text) {
        Some(l) => l,
        None => first_line(text),
    };
    proof {
        assert(chosen@ == chosen_line(text@));
    }
    let trimmed = str_trim(chosen);
    if trimmed.unicode_len() == 0 {
        None
    } else {
        Some(String::from_str(trimmed))
    }
}

/// The banner extracted from the raw bytes a service sent back:
/// decode them (replacement characters stand for invalid sequences),
/// then select and trim one representative line.
pub fn extract_banner(data: &[u8]) -> (r: Option<String>)
    ensures
        r.deep_view() == banner_of_bytes(data@),
        data@.len() == 0 ==> r is None,
{
    let text = decode_lossy(data);
    let r = select_banner_line(text.as_str());
    proof {
        if data@.len() == 0 {
            assert(split_lines(text@) =~= Seq::<Seq<char>>::empty());
            assert(trim_of(chosen_line(text@)).len() == 0);
        }
    }
    r
}

} // verus!
