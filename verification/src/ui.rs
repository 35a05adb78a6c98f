//! What the client's terminal display decides: texts of durations and paths, colours, and the
//! duration choices it offers.
use vstd::prelude::*;
use vstd::string::StringSliceAdditionalSpecFns;
use vstd::utf8::{decode_utf8, encode_utf8, is_char_boundary};
use crate::client::remaining_after_spec;
use crate::config::opt_text;
use crate::text::{lines_of, text_lines, texts_of, byte_len, decimal, decimal2, decimal2_text, decimal_text, join2, same_text, trim_text, trim};

verus! {

/// A single logged request.
#[derive(Clone, Debug)]
pub struct RequestEntry {
    pub timestamp: String,
    pub method: String,
    pub path: String,
    pub status: u16,
    pub latency_ms: u64,
}

/// The colours of the display.
#[derive(Clone, Copy, Debug, PartialEq, Eq)]
pub enum UiColor {
    Cyan,
    Green,
    Yellow,
    Red,
    Dim,
    White,
    Magenta,
}

/// The colour a request method is shown in.
pub open spec fn method_color_of(method: Seq<char>) -> UiColor {
    if method == "GET"@ {
        UiColor::Green
    } else if method == "POST"@ {
        UiColor::Yellow
    } else if method == "PUT"@ || method == "PATCH"@ {
        UiColor::Magenta
    } else if method == "DELETE"@ {
        UiColor::Red
    } else {
        UiColor::White
    }
}

/// The colour of a request method in the request log.
pub fn method_color(method: &str) -> (color: UiColor)
    ensures
        color == method_color_of(method@),
{
    if same_text(method, "GET") {
        UiColor::Green
    } else if same_text(method, "POST") {
        UiColor::Yellow
    } else if same_text(method, "PUT") || same_text(method, "PATCH") {
        UiColor::Magenta
    } else if same_text(method, "DELETE") {
        UiColor::Red
    } else {
        UiColor::White
    }
}

/// The colour of a response status in the request log: green below 300, yellow below 400, red
/// from 400.
pub fn status_color(status: u16) -> (color: UiColor)
    ensures
        color == (if status < 300 {
            UiColor::Green
        } else if status < 400 {
            UiColor::Yellow
        } else {
            UiColor::Red
        }),
{
    if status < 300 {
        UiColor::Green
    } else if status < 400 {
        UiColor::Yellow
    } else {
        UiColor::Red
    }
}

/// The tunnel durations offered, in seconds: 5, 20 and 30 minutes, and one hour.
pub open spec fn duration_options() -> Seq<u64> {
    seq![300u64, 1200u64, 1800u64, 3600u64]
}

/// The duration of the offered choice `selection`.
pub fn duration_choice(selection: usize) -> (secs: u64)
    requires
        selection < 4,
    ensures
        secs == duration_options()[selection as int],
{
    let durations: [u64; 4] = [300, 1200, 1800, 3600];
    durations[selection]
}

/// `Mm SSs`, or `Hh MMm SSs` from an hour on.
pub open spec fn duration_text(secs: u64) -> Seq<char> {
    let m = secs / 60;
    let s = secs % 60;
    if m >= 60 {
        decimal((m / 60) as nat) + "h "@ + decimal2((m % 60) as nat) + "m "@ + decimal2(s as nat) + "s"@
    } else {
        decimal(m as nat) + "m "@ + decimal2(s as nat) + "s"@
    }
}

/// A duration written as the countdown shows it, e.g. `30m 00s` or `1h 05m 00s`.
pub fn format_duration(secs: u64) -> (text: String)
    ensures
        text@ == duration_text(secs),
{
    let m = secs / 60;
    let s = secs % 60;
    if m >= 60 {
        let h = decimal_text(m / 60);
        let a = join2(h.as_str(), "h ");
        let rm = decimal2_text(m % 60);
        let b = join2(a.as_str(), rm.as_str());
        let c = join2(b.as_str(), "m ");
        let ss = decimal2_text(s);
        let d = join2(c.as_str(), ss.as_str());
        let text = join2(d.as_str(), "s");
        assert(text@ =~= decimal((m / 60) as nat) + "h "@ + decimal2((m % 60) as nat) + "m "@ + decimal2(
            s as nat,
        ) + "s"@);
        text
    } else {
        let mm = decimal_text(m);
        let a = join2(mm.as_str(), "m ");
        let ss = decimal2_text(s);
        let b = join2(a.as_str(), ss.as_str());
        let text = join2(b.as_str(), "s");
        assert(text@ =~= decimal(m as nat) + "m "@ + decimal2(s as nat) + "s"@);
        text
    }
}

/// A path shortened to fit the log's column: kept when at most `max` bytes, otherwise its
/// first `max - 1` bytes followed by `…`.
pub fn truncate_path(path: &str, max: usize) -> (text: String)
    requires
        max >= 1,
        byte_len(path@) > max ==> is_char_boundary(path.spec_bytes(), max - 1),
    ensures
        byte_len(path@) <= max ==> text@ == path@,
        byte_len(path@) > max ==> text@ == decode_utf8(path.spec_bytes().take(max - 1)) + "…"@,
{
    if path.len() <= max {
        String::from_str(path)
    } else {
        proof {
            vstd::utf8::encode_utf8_valid_utf8(path@);
            assert(max - 1 <= path.spec_bytes().len()) by {
                if max - 1 > path.spec_bytes().len() {
                    assert(!is_char_boundary(path.spec_bytes(), max - 1));
                }
            }
        }
        let (head, _) = path.split_at(max - 1);
        proof {
            vstd::utf8::encode_utf8_decode_utf8(head@);
            assert(head.spec_bytes() =~= path.spec_bytes().take(max - 1));
        }
        join2(head, "…")
    }
}

/// Seconds left of a tunnel of `total` seconds after `ms` milliseconds: `total` less the whole
/// seconds elapsed, and zero once they reach it.
pub open spec fn remaining_after_ms_spec(total: u64, ms: u64) -> u64 {
    remaining_after_spec(total, ms / 1000)
}

/// Seconds left of a tunnel of `total` seconds after `ms` milliseconds.
pub fn remaining_after_millis(total: u64, ms: u64) -> (left: u64)
    ensures
        left == remaining_after_ms_spec(total, ms),
{
    total.saturating_sub(ms / 1000)
}

/// Compute remaining seconds from a start time and total duration.
pub fn remaining_secs(start: std::time::Instant, total_duration_secs: u64) -> (left: u64)
    ensures
        exists|ms: u64| left == #[trigger] remaining_after_ms_spec(total_duration_secs, ms),
        left <= total_duration_secs,
{
    let ms = crate::clock::millis_since(&start);
    remaining_after_millis(total_duration_secs, ms)
}

/// What an answer to the subdomain prompt asks for: its trimmed text, or `None` (a generated
/// subdomain) when nothing but whitespace was entered.
pub fn entered_subdomain(input: &str) -> (sub: Option<String>)
    ensures
        trim_text(input@).len() == 0 ==> sub is None,
        trim_text(input@).len() > 0 ==> sub is Some && sub->0@ == trim_text(input@),
{
    let trimmed = trim(input);
    if trimmed.as_str().is_empty() {
        None
    } else {
        Some(trimmed)
    }
}

/// The QR code of a text as `qrcode::QrCode::new` encodes it, rendered with `char` modules, no
/// quiet zone and modules two characters wide and one high; `None` where the text does not fit
/// in a QR code.
pub uninterp spec fn spec_qr_text(text: Seq<char>) -> Option<Seq<char>>;

/// `qrcode::QrCode::new(text)`, rendered by `render::<char>()` with `quiet_zone(false)` and
/// `module_dimensions(2, 1)`, then `build()`; `None` on `Err`.
#[verifier::external_body]
fn qr_text(text: &str) -> (rendered: Option<String>)
    ensures
        opt_text(rendered) == spec_qr_text(text@),
{
    match qrcode::QrCode::new(text) {
        Ok(code) => Some(code.render::<char>().quiet_zone(false).module_dimensions(2, 1).build()),
        Err(_) => None,
    }
}

/// The rows of the QR code that the display shows for `url`, top to bottom; `None` where the
/// URL cannot be encoded.
pub fn qr_code_rows(url: &str) -> (rows: Option<Vec<String>>)
    ensures
        match spec_qr_text(url@) {
            Some(t) => rows is Some && texts_of(rows->0@) == lines_of(t),
            None => rows is None,
        },
{
    match qr_text(url) {
        Some(t) => Some(text_lines(t.as_str())),
        None => None,
    }
}

/// `text` padded with spaces on the right to `width` characters, as `format!("{:<w$}")` writes
/// it; unchanged when it is already that wide.
pub open spec fn padded(text: Seq<char>, width: nat) -> Seq<char> {
    if text.len() >= width {
        text
    } else {
        text + Seq::new((width - text.len()) as nat, |i: int| ' ')
    }
}

/// A column of the request log: `text` padded with spaces to `width` characters.
pub fn pad_right(text: &str, width: usize) -> (res: String)
    ensures
        res@ == padded(text@, width as nat),
{
    let n = text.unicode_len();
    let mut out = String::from_str(text);
    if n >= width {
        return out;
    }
    let mut k: usize = n;
    assert(out@ =~= text@ + Seq::new((k - n) as nat, |i: int| ' '));
    while k < width
        invariant
            n == text@.len(),
            n <= k <= width,
            out@ == text@ + Seq::new((k - n) as nat, |i: int| ' '),
        decreases width - k,
    {
        proof {
            reveal_strlit(" ");
        }
        out.append(" ");
        k = k + 1;
        assert(out@ =~= text@ + Seq::new((k - n) as nat, |i: int| ' '));
    }
    out
}

/// The request log shows `GET` in green, `POST` in yellow, `PUT` and `PATCH` in magenta,
/// `DELETE` in red and every other method in white; the tunnel durations offered are 5, 20
/// and 30 minutes and one hour.
pub proof fn law_log_colours_and_durations(method: Seq<char>)
    ensures
        method == "GET"@ ==> method_color_of(method) == UiColor::Green,
        method == "POST"@ ==> method_color_of(method) == UiColor::Yellow,
        method == "PUT"@ || method == "PATCH"@ ==> method_color_of(method) == UiColor::Magenta,
        method == "DELETE"@ ==> method_color_of(method) == UiColor::Red,
        method != "GET"@ && method != "POST"@ && method != "PUT"@ && method != "PATCH"@ && method != "DELETE"@
            ==> method_color_of(method) == UiColor::White,
        duration_options().len() == 4,
        duration_options()[0] == 5 * 60,
        duration_options()[1] == 20 * 60,
        duration_options()[2] == 30 * 60,
        duration_options()[3] == 60 * 60,
{
    reveal_strlit("GET");
    reveal_strlit("POST");
    reveal_strlit("PUT");
    reveal_strlit("PATCH");
    reveal_strlit("DELETE");
    assert("POST"@[0] != "GET"@[0]);
    assert("PUT"@[0] != "GET"@[0] && "PUT"@[1] != "POST"@[1]);
    assert("PATCH"@[0] != "GET"@[0] && "PATCH"@[1] != "POST"@[1]);
}

} // verus!
