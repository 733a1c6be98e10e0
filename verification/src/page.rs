//! The pages that the launcher itself shows, as addresses that carry the page in them.
use base64::prelude::{Engine, BASE64_STANDARD};
use vstd::prelude::*;
use vstd::utf8::encode_utf8;

use crate::backend::{webui_address, webui_url, BackendStatus};
use crate::menu_model::ControlLabels;
use crate::text;

verus! {

/// Why `base64` could not read a text.
#[verifier::external_type_specification]
#[verifier::external_body]
pub struct ExDecodeError(base64::DecodeError);

/// A digit of a base64 text.
pub open spec fn base64_digit(n: int) -> char {
    if n < 26 {
        ('A' as int + n) as char
    } else if n < 52 {
        ('a' as int + n - 26) as char
    } else if n < 62 {
        ('0' as int + n - 52) as char
    } else if n == 62 {
        '+'
    } else {
        '/'
    }
}

/// Bytes as a base64 text: every three bytes are four digits of six bits, and a last group of fewer
/// bytes is filled up.
pub open spec fn base64_text(bytes: Seq<u8>) -> Seq<char>
    decreases bytes.len(),
{
    let (a, b, c) = (bytes[0] as int, bytes[1] as int, bytes[2] as int);
    let first = base64_digit(a / 4);
    if bytes.len() == 0 {
        Seq::empty()
    } else if bytes.len() == 1 {
        seq![first, base64_digit(a % 4 * 16), '=', '=']
    } else if bytes.len() == 2 {
        seq![first, base64_digit(a % 4 * 16 + b / 16), base64_digit(b % 16 * 4), '=']
    } else {
        seq![
            first,
            base64_digit(a % 4 * 16 + b / 16),
            base64_digit(b % 16 * 4 + c / 64),
            base64_digit(c % 64),
        ] + base64_text(bytes.skip(3))
    }
}

/// The bytes that the standard engine of `base64` reads from a text, if it can.
pub uninterp spec fn base64_bytes(t: Seq<char>) -> Option<Seq<u8>>;

/// There is room for the text that so many bytes are written as: four characters for every three
/// bytes, the last group filled up.
pub open spec fn base64_fits(n: nat) -> bool {
    (n + 2) / 3 * 4 <= isize::MAX
}

/// Writes bytes with the standard engine of `base64`: with the digits `A` to `Z`, `a` to `z`, `0` to
/// `9`, `+` and `/`, and filled up with `=`. Reading the text with the same engine gives the bytes
/// back.
#[verifier::external_body]
fn encode_base64(bytes: &[u8]) -> (r: String)
    requires
        base64_fits(bytes@.len()),
    ensures
        r@ == base64_text(bytes@),
        base64_bytes(r@) == Some(bytes@),
{
    BASE64_STANDARD.encode(bytes)
}

/// Reads a text with the standard engine of `base64`; what comes out depends on the text alone.
#[verifier::external_body]
fn decode_base64(t: &str) -> (r: Result<Vec<u8>, base64::DecodeError>)
    ensures
        match r {
            Ok(b) => base64_bytes(t@) == Some(b@),
            Err(_) => base64_bytes(t@) is None,
        },
{
    BASE64_STANDARD.decode(t)
}

/// The address that carries a page.
pub open spec fn page_address(html: Seq<char>) -> Seq<char> {
    "data:text/html;charset=utf-8;base64,"@ + base64_text(encode_utf8(html))
}

/// There is room for the address that carries a page.
pub open spec fn page_fits(html: Seq<char>) -> bool {
    base64_fits(encode_utf8(html).len())
}

/// Whether there is room for the address that carries a page.
fn has_room(html: &str) -> (r: bool)
    ensures
        r == page_fits(html@),
{
    html.as_bytes().len() <= isize::MAX as usize / 4 * 3
}

/// A base64 text is as long as its room is reckoned to be.
pub proof fn base64_text_length(bytes: Seq<u8>)
    ensures
        base64_text(bytes).len() == (bytes.len() + 2) / 3 * 4,
    decreases bytes.len(),
{
    if bytes.len() >= 3 {
        base64_text_length(bytes.skip(3));
    }
}

/// The address that carries a page. What stands behind its comma reads back as the page.
pub fn data_url(html: &str) -> (r: String)
    requires
        page_fits(html@),
    ensures
        r@ == page_address(html@),
        base64_bytes(base64_text(encode_utf8(html@))) == Some(encode_utf8(html@)),
{
    let b64 = encode_base64(html.as_bytes());
    String::from_str("data:text/html;charset=utf-8;base64,").concat(b64.as_str())
}

/// The content of a file that a page hands over to be saved, if it can be read.
pub fn save_as(data: &str) -> (r: Option<Vec<u8>>)
    ensures
        match r {
            Some(b) => base64_bytes(data@) == Some(b@),
            None => base64_bytes(data@) is None,
        },
{
    match decode_base64(data) {
        Ok(b) => Some(b),
        Err(_) => None,
    }
}

/// What stands for a character in a page.
pub open spec fn escaped_char(c: char) -> Seq<char> {
    if c == '&' {
        "&amp;"@
    } else if c == '<' {
        "&lt;"@
    } else if c == '>' {
        "&gt;"@
    } else if c == '\r' {
        Seq::empty()
    } else {
        seq![c]
    }
}

/// A text as it stands in a page.
pub open spec fn escaped(s: Seq<char>) -> Seq<char>
    decreases s.len(),
{
    if s.len() == 0 {
        s
    } else {
        escaped(s.drop_last()) + escaped_char(s.last())
    }
}

/// A text as it stands in a page.
pub fn escape(s: &str) -> (r: String)
    ensures
        r@ == escaped(s@),
{
    let v = text::chars_of(s);
    let mut out = String::new();
    let mut i: usize = 0;
    assert(v@.take(0) =~= Seq::<char>::empty());
    assert(out@ =~= Seq::<char>::empty());
    while i < v.len()
        invariant
            i <= v@.len(),
            v@ == s@,
            out@ == escaped(v@.take(i as int)),
        decreases v@.len() - i,
    {
        let c = v[i];
        assert(v@.take(i + 1).drop_last() =~= v@.take(i as int));
        let ghost before = out@;
        if c == '&' {
            out.append("&amp;");
        } else if c == '<' {
            out.append("&lt;");
        } else if c == '>' {
            out.append("&gt;");
        } else if c == '\r' {
            assert(before + Seq::<char>::empty() =~= before);
        } else {
            out.push(c);
            assert(before.push(c) =~= before + seq![c]);
        }
        i = i + 1;
    }
    assert(v@.take(v@.len() as int) =~= v@);
    out
}

/// A text that stands in a page cannot be taken for markup, and has no carriage returns in it.
pub proof fn escaped_text_has_no_markup(s: Seq<char>)
    ensures
        forall|i: int|
            0 <= i < escaped(s).len() ==> (#[trigger] escaped(s)[i]) != '<' && escaped(s)[i] != '>'
                && escaped(s)[i] != '\r',
    decreases s.len(),
{
    if s.len() > 0 {
        escaped_text_has_no_markup(s.drop_last());
        reveal_strlit("&amp;");
        reveal_strlit("&lt;");
        reveal_strlit("&gt;");
        let front = escaped(s.drop_last());
        let last = escaped_char(s.last());
        assert forall|i: int| 0 <= i < escaped(s).len() implies (#[trigger] escaped(s)[i]) != '<'
            && escaped(s)[i] != '>' && escaped(s)[i] != '\r' by {
            if i < front.len() {
                assert(escaped(s)[i] == front[i]);
            } else {
                assert(escaped(s)[i] == last[i - front.len()]);
            }
        }
    }
}

/// A text without special characters stands in a page as it is.
pub proof fn plain_text_is_kept(s: Seq<char>)
    requires
        forall|i: int|
            0 <= i < s.len() ==> (#[trigger] s[i]) != '<' && s[i] != '>' && s[i] != '&' && s[i]
                != '\r',
    ensures
        escaped(s) == s,
    decreases s.len(),
{
    if s.len() > 0 {
        let front = s.drop_last();
        assert forall|i: int| 0 <= i < front.len() implies (#[trigger] front[i]) != '<' && front[i]
            != '>' && front[i] != '&' && front[i] != '\r' by {
            assert(front[i] == s[i]);
        }
        plain_text_is_kept(front);
        assert(s.last() == s[s.len() - 1]);
        assert(front + seq![s.last()] =~= s);
    }
}

/// The splash page up to its text.
pub const SPLASH_HEAD: &'static str = "<!doctype html>
<html>
<head>
<meta charset=\"utf-8\">
<style>
  /* fill viewport and hide any scrollbars */
  html,body{height:100%;margin:0;padding:0;overflow:hidden;background:#fff;color:#111;font-family:system-ui,-apple-system,Segoe UI,Roboto,\"Helvetica Neue\",Arial;}
  /* make PRE fill the whole page, add inner padding, clip overflow (no scrollbars) */
  pre{position:fixed;inset:0;margin:0;padding:20px;box-sizing:border-box;background:#f6f8fa;overflow:hidden;white-space:pre-wrap;word-break:break-word;font-family:Menlo,monospace;font-size:13px;line-height:1.45;}
  /* remove default focus outlines or user agent scrollbars if present */
  ::-webkit-scrollbar{display:none;}
</style>
</head>
<body><pre>";

/// The splash page behind its text.
pub const SPLASH_TAIL: &'static str = "</pre></body>
</html>";

/// The splash page for a text.
pub open spec fn splash_page(s: Seq<char>) -> Seq<char> {
    SPLASH_HEAD@ + escaped(s) + SPLASH_TAIL@
}

/// Makes the splash page for a text.
fn splash_html(s: &str) -> (r: String)
    ensures
        r@ == splash_page(s@),
{
    let body = escape(s);
    let mut html = String::from_str(SPLASH_HEAD);
    html.append(body.as_str());
    html.append(SPLASH_TAIL);
    html
}

/// Whether there is room for the address of the splash page for a text.
pub fn splash_has_room(s: &str) -> (r: bool)
    ensures
        r == page_fits(splash_page(s@)),
{
    let html = splash_html(s);
    has_room(html.as_str())
}

/// The address of the splash page for a text.
pub fn text_to_splash(s: &str) -> (r: String)
    requires
        page_fits(splash_page(s@)),
    ensures
        r@ == page_address(splash_page(s@)),
{
    let html = splash_html(s);
    data_url(html.as_str())
}

/// The text of the splash page while the launcher is at work on `step`.
pub fn loading_text(step: &str) -> (r: String)
    ensures
        r@ == "Loading ALAS, please wait..\n\n"@ + step@,
{
    String::from_str("Loading ALAS, please wait..\n\n").concat(step)
}

/// The text of the splash page when the setup has failed.
pub fn failure_text(reason: &str) -> (r: String)
    ensures
        r@ == "Failed loading ALAS, reason: "@ + reason@
            + "\n\nPlease run alas-launcher from terminal for detailed logs"@,
{
    String::from_str("Failed loading ALAS, reason: ").concat(reason).concat(
        "\n\nPlease run alas-launcher from terminal for detailed logs",
    )
}

/// The page that is shown while the backend does not run, up to its text.
pub const STOPPED_HEAD: &'static str = "<!doctype html><html><head><meta charset=\"utf-8\"><style>html,body{height:100%;margin:0;display:flex;align-items:center;justify-content:center;background:#fff;color:#111;font-family:system-ui,-apple-system,Segoe UI,Roboto,sans-serif;}p{font-size:15px;}</style></head><body><p>";

/// The page that is shown while the backend does not run, behind its text.
pub const STOPPED_TAIL: &'static str = "</p></body></html>";

/// The sentence that is shown while the backend does not run: in Chinese where the language uses
/// the full-width colon, else in English.
pub open spec fn stopped_sentence(labels: ControlLabels) -> Seq<char> {
    let state = labels.scheduler@ + labels.sep@ + labels.stopped@;
    if labels.sep@ == "："@ {
        state + "。点击菜单栏「"@ + labels.start@ + "」。"@
    } else {
        state + ". Click \""@ + labels.start@ + "\" in the menu bar."@
    }
}

/// The page that is shown while the backend does not run.
pub open spec fn stopped_page(labels: ControlLabels) -> Seq<char> {
    STOPPED_HEAD@ + stopped_sentence(labels) + STOPPED_TAIL@
}

/// Makes the page that is shown while the backend does not run.
fn stopped_html(labels: &ControlLabels) -> (r: String)
    ensures
        r@ == stopped_page(*labels),
{
    let mut sentence = labels.scheduler.clone();
    sentence.append(labels.sep.as_str());
    sentence.append(labels.stopped.as_str());
    if text::same(labels.sep.as_str(), "：") {
        sentence.append("。点击菜单栏「");
        sentence.append(labels.start.as_str());
        sentence.append("」。");
    } else {
        sentence.append(". Click \"");
        sentence.append(labels.start.as_str());
        sentence.append("\" in the menu bar.");
    }
    let mut html = String::from_str(STOPPED_HEAD);
    html.append(sentence.as_str());
    html.append(STOPPED_TAIL);
    html
}

/// Whether there is room for the address of the page that is shown while the backend does not run.
pub fn stopped_page_has_room(labels: &ControlLabels) -> (r: bool)
    ensures
        r == page_fits(stopped_page(*labels)),
{
    let html = stopped_html(labels);
    has_room(html.as_str())
}

/// The address of the page that is shown while the backend does not run.
pub fn stopped_page_url(labels: &ControlLabels) -> (r: String)
    requires
        page_fits(stopped_page(*labels)),
    ensures
        r@ == page_address(stopped_page(*labels)),
{
    let html = stopped_html(labels);
    data_url(html.as_str())
}

/// The address that the main window shows: the web interface while the backend runs.
pub open spec fn main_page(status: BackendStatus, port: u16, labels: ControlLabels) -> Seq<char> {
    if status == BackendStatus::Running {
        webui_address(port)
    } else {
        page_address(stopped_page(labels))
    }
}

/// The address that the main window shows.
pub fn main_page_url(status: BackendStatus, port: u16, labels: &ControlLabels) -> (r: String)
    requires
        status != BackendStatus::Running ==> page_fits(stopped_page(*labels)),
    ensures
        r@ == main_page(status, port, *labels),
{
    match status {
        BackendStatus::Running => webui_url(port),
        BackendStatus::Stopped => stopped_page_url(labels),
        BackendStatus::Initializing => stopped_page_url(labels),
    }
}

/// Text is escaped character by character: each part of it stands in a page as it does alone, and of
/// single characters only the three of markup and the carriage return are changed.
pub proof fn how_a_text_is_escaped(a: Seq<char>, b: Seq<char>, c: char)
    ensures
        escaped(a + b) == escaped(a) + escaped(b),
        escaped(seq!['&']) == "&amp;"@,
        escaped(seq!['<']) == "&lt;"@,
        escaped(seq!['>']) == "&gt;"@,
        escaped(seq!['\r']) == Seq::<char>::empty(),
        c != '&' && c != '<' && c != '>' && c != '\r' ==> escaped(seq![c]) == seq![c],
{
    parts_are_escaped(a, b);
    assert forall|d: char| #[trigger] escaped(seq![d]) == escaped_char(d) by {
        assert(seq![d].drop_last() =~= Seq::<char>::empty());
        assert(escaped(Seq::<char>::empty()) =~= Seq::<char>::empty());
        assert(escaped(seq![d]) =~= escaped_char(d));
    }
}

proof fn parts_are_escaped(a: Seq<char>, b: Seq<char>)
    ensures
        escaped(a + b) == escaped(a) + escaped(b),
    decreases b.len(),
{
    if b.len() == 0 {
        assert(a + b =~= a);
        assert(escaped(a) + escaped(b) =~= escaped(a));
    } else {
        parts_are_escaped(a, b.drop_last());
        assert((a + b).drop_last() =~= a + b.drop_last());
        assert((a + b).last() == b.last());
        assert(escaped(a) + escaped(b.drop_last()) + escaped_char(b.last()) =~= escaped(a) + (
        escaped(b.drop_last()) + escaped_char(b.last())));
    }
}

/// The main window shows the web interface exactly while the backend runs, and else the page that says
/// that the scheduler is stopped and names the item that starts it.
pub proof fn what_the_main_window_shows(status: BackendStatus, port: u16, labels: ControlLabels)
    ensures
        status == BackendStatus::Running ==> main_page(status, port, labels) == "http://127.0.0.1:"@
            + text::decimal_of(port as nat) + "/"@,
        status != BackendStatus::Running ==> main_page(status, port, labels) == page_address(
            stopped_page(labels),
        ),
        labels.sep@ == "："@ ==> stopped_sentence(labels) == labels.scheduler@ + "："@
            + labels.stopped@ + "。点击菜单栏「"@ + labels.start@ + "」。"@,
        labels.sep@ != "："@ ==> stopped_sentence(labels) == labels.scheduler@ + labels.sep@
            + labels.stopped@ + ". Click \""@ + labels.start@ + "\" in the menu bar."@,
{
}

/// The splash page differs from text to text by the escaped text alone, which stands at the same place
/// in every one of them.
pub proof fn what_the_splash_page_holds(s: Seq<char>)
    ensures
        ({
            let page = splash_page(s);
            let n = SPLASH_HEAD@.len() as int;
            &&& page.len() == n + escaped(s).len() + SPLASH_TAIL@.len()
            &&& page.take(n) == SPLASH_HEAD@
            &&& page.subrange(n, n + escaped(s).len()) == escaped(s)
            &&& page.skip(n + escaped(s).len()) == SPLASH_TAIL@
            &&& forall|i: int|
                n <= i < n + escaped(s).len() ==> #[trigger] page[i] != '<' && page[i] != '>'
        }),
{
    let page = splash_page(s);
    let n = SPLASH_HEAD@.len() as int;
    escaped_text_has_no_markup(s);
    assert(page.take(n) =~= SPLASH_HEAD@);
    assert(page.subrange(n, n + escaped(s).len()) =~= escaped(s));
    assert(page.skip(n + escaped(s).len()) =~= SPLASH_TAIL@);
    assert forall|i: int| n <= i < n + escaped(s).len() implies #[trigger] page[i] != '<' && page[i]
        != '>' by {
        assert(page[i] == escaped(s)[i - n]);
    }
}

/// The page for a stopped backend differs from language to language by its sentence alone.
pub proof fn what_the_stopped_page_holds(labels: ControlLabels)
    ensures
        ({
            let page = stopped_page(labels);
            let sentence = stopped_sentence(labels);
            let n = STOPPED_HEAD@.len() as int;
            &&& page.len() == n + sentence.len() + STOPPED_TAIL@.len()
            &&& page.take(n) == STOPPED_HEAD@
            &&& page.subrange(n, n + sentence.len()) == sentence
            &&& page.skip(n + sentence.len()) == STOPPED_TAIL@
        }),
{
    let page = stopped_page(labels);
    let sentence = stopped_sentence(labels);
    let n = STOPPED_HEAD@.len() as int;
    assert(page.take(n) =~= STOPPED_HEAD@);
    assert(page.subrange(n, n + sentence.len()) =~= sentence);
    assert(page.skip(n + sentence.len()) =~= STOPPED_TAIL@);
}

} // verus!
