//! Following an update of the repository: its output is cut into lines, and the lines that report
//! progress are shown.
use vstd::prelude::*;

use crate::text;

verus! {

/// A byte that belongs to a line; every other one ends it.
pub open spec fn is_printable(b: u8) -> bool {
    32 <= b <= 127
}

/// How many characters of a text that was read so far make up a line of their own when a colon
/// follows: a progress report is written over the one before without a line end, so that the text
/// before its first colon stands again at its end.
pub open spec fn repeated_report(buffer: Seq<char>) -> int {
    match text::position(buffer, ":"@) {
        Some(p) => {
            let label = buffer.take(p);
            let rest = buffer.skip(p + 1);
            if text::ends(rest, label) {
                rest.len() as int + 1
            } else {
                0
            }
        },
        None => 0,
    }
}

/// The text that was read so far after one more byte, and the line that the byte has ended.
pub open spec fn fed(buffer: Seq<char>, b: u8) -> (Seq<char>, Option<Seq<char>>) {
    if !is_printable(b) {
        if buffer.len() > 0 {
            (Seq::empty(), Some(buffer))
        } else {
            (buffer, None)
        }
    } else if b == 58 && repeated_report(buffer) > 0 {
        let cut = repeated_report(buffer);
        (buffer.skip(cut).push(':'), Some(buffer.take(cut)))
    } else {
        (buffer.push(b as char), None)
    }
}

/// The text that was read so far after a number of bytes, and the lines that they have ended.
pub open spec fn fed_all(buffer: Seq<char>, bytes: Seq<u8>) -> (Seq<char>, Seq<Seq<char>>)
    decreases bytes.len(),
{
    if bytes.len() == 0 {
        (buffer, Seq::empty())
    } else {
        let (before, lines) = fed_all(buffer, bytes.drop_last());
        let (after, line) = fed(before, bytes.last());
        (
            after,
            match line {
                Some(l) => lines.push(l),
                None => lines,
            },
        )
    }
}

/// Cuts a stream of bytes into lines.
#[derive(Debug)]
pub struct LineSplitter {
    pub buffer: String,
}

impl LineSplitter {
    /// Nothing was read yet.
    pub fn new() -> (r: LineSplitter)
        ensures
            r.buffer@ == Seq::<char>::empty(),
    {
        let buffer = String::new();
        assert(buffer@ =~= Seq::<char>::empty());
        LineSplitter { buffer }
    }

    /// Takes one byte. Returns the line that it has ended.
    fn feed(&mut self, b: u8) -> (r: Option<String>)
        ensures
            final(self).buffer@ == fed(old(self).buffer@, b).0,
            match r {
                Some(l) => fed(old(self).buffer@, b).1 == Some(l@),
                None => fed(old(self).buffer@, b).1 is None,
            },
    {
        if b < 32 || b > 127 {
            if self.buffer.as_str().unicode_len() == 0 {
                return None;
            }
            let line = self.buffer.clone();
            self.buffer = String::new();
            assert(self.buffer@ =~= Seq::<char>::empty());
            return Some(line);
        }
        if b == 58 {
            let cut: usize = self.repeated();
            if cut > 0 {
                let n: usize = self.buffer.as_str().unicode_len();
                let line = text::slice(self.buffer.as_str(), 0, cut);
                let mut rest = text::slice(self.buffer.as_str(), cut, n);
                assert(rest@ =~= self.buffer@.skip(cut as int));
                assert(line@ =~= self.buffer@.take(cut as int));
                rest.push(':');
                self.buffer = rest;
                return Some(line);
            }
        }
        self.buffer.push(b as char);
        None
    }

    /// How many characters make up a line of their own when a colon follows.
    fn repeated(&self) -> (r: usize)
        ensures
            r == repeated_report(self.buffer@),
            r <= self.buffer@.len(),
    {
        proof {
            reveal_strlit(":");
            text::position_from_is_least(self.buffer@, ":"@, 0);
        }
        match text::find(self.buffer.as_str(), ":") {
            Some(p) => {
                let n: usize = self.buffer.as_str().unicode_len();
                let label = text::slice(self.buffer.as_str(), 0, p);
                let rest = text::slice(self.buffer.as_str(), p + 1, n);
                assert(label@ =~= self.buffer@.take(p as int));
                assert(rest@ =~= self.buffer@.skip(p + 1));
                if text::ends_with(rest.as_str(), label.as_str()) {
                    n - p
                } else {
                    0
                }
            },
            None => 0,
        }
    }

    /// Takes a part of the stream. Returns the lines that it has ended.
    pub fn pipe_lines(&mut self, bytes: &[u8]) -> (r: Vec<String>)
        ensures
            (final(self).buffer@, text::texts(r@)) == fed_all(old(self).buffer@, bytes@),
    {
        let ghost start = self.buffer@;
        let mut lines: Vec<String> = Vec::new();
        let mut i: usize = 0;
        assert(bytes@.take(0) =~= Seq::<u8>::empty());
        assert(text::texts(lines@) =~= Seq::<Seq<char>>::empty());
        while i < bytes.len()
            invariant
                i <= bytes@.len(),
                (self.buffer@, text::texts(lines@)) == fed_all(start, bytes@.take(i as int)),
            decreases bytes@.len() - i,
        {
            assert(bytes@.take(i + 1).drop_last() =~= bytes@.take(i as int));
            if let Some(l) = self.feed(bytes[i]) {
                let ghost done = lines@;
                lines.push(l);
                assert(text::texts(lines@) =~= text::texts(done).push(l@));
            }
            i = i + 1;
        }
        assert(bytes@.take(bytes@.len() as int) =~= bytes@);
        lines
    }

    /// The last line, when the stream is at its end.
    pub fn finish(self) -> (r: Option<String>)
        ensures
            match r {
                Some(l) => l@ == self.buffer@ && l@.len() > 0,
                None => self.buffer@.len() == 0,
            },
    {
        if self.buffer.as_str().unicode_len() == 0 {
            None
        } else {
            Some(self.buffer)
        }
    }
}

/// Where a stream is cut when it is read plays no part: reading it in two parts gives the same lines
/// as reading it at once.
pub proof fn reading_in_parts_gives_the_same_lines(buffer: Seq<char>, a: Seq<u8>, b: Seq<u8>)
    ensures
        ({
            let (between, first) = fed_all(buffer, a);
            let (after, second) = fed_all(between, b);
            fed_all(buffer, a + b) == (after, first + second)
        }),
    decreases b.len(),
{
    let (between, first) = fed_all(buffer, a);
    if b.len() == 0 {
        assert(a + b =~= a);
        assert(first + Seq::<Seq<char>>::empty() =~= first);
    } else {
        reading_in_parts_gives_the_same_lines(buffer, a, b.drop_last());
        assert((a + b).drop_last() =~= a + b.drop_last());
        assert((a + b).last() == b.last());
        let (mid, lines) = fed_all(between, b.drop_last());
        match fed(mid, b.last()).1 {
            Some(l) => {
                assert((first + lines).push(l) =~= first + lines.push(l));
            },
            None => {},
        }
    }
}

/// The printable bytes of a stream, as characters.
pub open spec fn printable(bytes: Seq<u8>) -> Seq<char>
    decreases bytes.len(),
{
    if bytes.len() == 0 {
        Seq::empty()
    } else if is_printable(bytes.last()) {
        printable(bytes.drop_last()).push(bytes.last() as char)
    } else {
        printable(bytes.drop_last())
    }
}

/// Lines put together, with nothing between them.
pub open spec fn run_together(lines: Seq<Seq<char>>) -> Seq<char>
    decreases lines.len(),
{
    if lines.len() == 0 {
        Seq::empty()
    } else {
        run_together(lines.drop_last()) + lines.last()
    }
}

/// Nothing that is printable is lost or changed: the lines and what is left, put together, are the
/// printable bytes of the stream. No line is empty.
pub proof fn no_output_is_lost(bytes: Seq<u8>)
    ensures
        ({
            let (rest, lines) = fed_all(Seq::empty(), bytes);
            &&& run_together(lines) + rest == printable(bytes)
            &&& forall|i: int| 0 <= i < lines.len() ==> (#[trigger] lines[i]).len() > 0
        }),
    decreases bytes.len(),
{
    if bytes.len() == 0 {
        assert(run_together(Seq::<Seq<char>>::empty()) + Seq::<char>::empty() =~= Seq::<
            char,
        >::empty());
    } else {
        no_output_is_lost(bytes.drop_last());
        let (before, lines) = fed_all(Seq::empty(), bytes.drop_last());
        let b = bytes.last();
        let (after, line) = fed(before, b);
        let whole = run_together(lines);
        match line {
            Some(l) => {
                assert(lines.push(l).drop_last() =~= lines);
                if is_printable(b) {
                    let cut = repeated_report(before);
                    reveal_strlit(":");
                    text::position_from_is_least(before, ":"@, 0);
                    assert(whole + l + after =~= (whole + before).push(':'));
                    assert(b as char == ':');
                } else {
                    assert(whole + l + after =~= whole + before);
                }
            },
            None => {
                if is_printable(b) {
                    assert(whole + after =~= (whole + before).push(b as char));
                }
            },
        }
    }
}

/// A character of a decimal number.
pub open spec fn is_number_char(c: char) -> bool {
    text::is_digit(c) || c == '.'
}

/// Where the number begins that ends at `end`.
pub open spec fn number_start(s: Seq<char>, end: int) -> int
    decreases end,
{
    if 0 < end <= s.len() && is_number_char(s[end - 1]) {
        number_start(s, end - 1)
    } else {
        end
    }
}

/// The number before the first percent sign of a text, or at the end of a text without one.
pub open spec fn percent_token(s: Seq<char>) -> Seq<char> {
    let end = match text::position(s, "%"@) {
        Some(p) => p,
        None => s.len() as int,
    };
    s.subrange(number_start(s, end), end)
}

/// The digits before the decimal point of a number, and those behind it.
pub open spec fn number_parts(t: Seq<char>) -> (Seq<char>, Seq<char>) {
    match text::position(t, "."@) {
        Some(p) => (t.take(p), t.skip(p + 1)),
        None => (t, Seq::empty()),
    }
}

/// Every character is a digit.
pub open spec fn all_digits(s: Seq<char>) -> bool {
    forall|i: int| 0 <= i < s.len() ==> text::is_digit(#[trigger] s[i])
}

/// A text is a decimal number: digits with at most one point among them.
pub open spec fn is_decimal(t: Seq<char>) -> bool {
    let (whole, fraction) = number_parts(t);
    all_digits(whole) && all_digits(fraction) && whole.len() + fraction.len() > 0
}

/// The first `k` digits of a fraction, as a number; digits that are not there count as zeros.
pub open spec fn leading_digits(fraction: Seq<char>, k: nat) -> nat
    decreases k,
{
    if k == 0 {
        0
    } else {
        leading_digits(fraction, (k - 1) as nat) * 10 + (if k <= fraction.len() {
            text::digit_value(fraction[k - 1])
        } else {
            0
        })
    }
}

/// How many digits of a fraction decide how it is rounded.
pub const FRACTION_DIGITS: u32 = 26;

/// Half of one, in units of the last of these digits.
pub const HALF: u128 = 50_000_000_000_000_000_000_000_000;

/// The twenty-sixth power of five: one divided by the twenty-sixth power of two, in these units.
pub const STEP: u128 = 1_490_116_119_384_765_625;

/// By how much a number between `n` and `n + 1` may fall short of the middle and still be rounded
/// up: half the distance of two neighbouring numbers of single precision just below the middle, in
/// units of the last digit that counts. The distance doubles with every power of two.
pub open spec fn shortfall(n: nat) -> nat {
    (STEP as nat) * (if n == 0 {
        1nat
    } else if n == 1 {
        4
    } else if n < 4 {
        8
    } else if n < 8 {
        16
    } else if n < 16 {
        32
    } else if n < 32 {
        64
    } else if n < 64 {
        128
    } else if n < 128 {
        256
    } else {
        512
    })
}

/// A decimal number taken in single precision and rounded to the nearest integer, halves up, and at
/// most 255.
pub open spec fn rounded(whole: Seq<char>, fraction: Seq<char>) -> nat {
    let n = text::numeral_value(whole);
    if n >= 255 {
        255
    } else if leading_digits(fraction, FRACTION_DIGITS as nat) + shortfall(n) >= HALF {
        n + 1
    } else {
        n
    }
}

/// The percentage that a text speaks of.
pub open spec fn percentage_in(s: Seq<char>) -> Option<nat> {
    let t = percent_token(s);
    if is_decimal(t) {
        let (whole, fraction) = number_parts(t);
        Some(rounded(whole, fraction))
    } else {
        None
    }
}

/// Ten to the power `k`.
pub open spec fn pow10(k: nat) -> nat
    decreases k,
{
    if k == 0 {
        1
    } else {
        10 * pow10((k - 1) as nat)
    }
}

proof fn pow10_grows(a: nat, b: nat)
    requires
        a <= b,
    ensures
        pow10(a) <= pow10(b),
        pow10(a) > 0,
    decreases b,
{
    if b > 0 {
        if a < b {
            pow10_grows(a, (b - 1) as nat);
        } else {
            pow10_grows((a - 1) as nat, (b - 1) as nat);
        }
    }
}

proof fn leading_digits_bound(fraction: Seq<char>, k: nat)
    requires
        all_digits(fraction),
    ensures
        leading_digits(fraction, k) < pow10(k),
    decreases k,
{
    if k > 0 {
        leading_digits_bound(fraction, (k - 1) as nat);
    }
}

/// Whether every character of `v[from..to]` is a digit.
fn only_digits(v: &Vec<char>, from: usize, to: usize) -> (r: bool)
    requires
        from <= to <= v@.len(),
    ensures
        r == all_digits(v@.subrange(from as int, to as int)),
{
    let ghost part = v@.subrange(from as int, to as int);
    let mut i: usize = from;
    while i < to
        invariant
            from <= i <= to <= v@.len(),
            part == v@.subrange(from as int, to as int),
            forall|j: int| 0 <= j < i - from ==> text::is_digit(#[trigger] part[j]),
        decreases to - i,
    {
        assert(part[i - from] == v@[i as int]);
        if v[i] < '0' || v[i] > '9' {
            return false;
        }
        i = i + 1;
    }
    true
}

/// The value of the digits `v[from..to]`, or 255 if it is larger.
fn value_up_to_255(v: &Vec<char>, from: usize, to: usize) -> (r: u32)
    requires
        from <= to <= v@.len(),
        all_digits(v@.subrange(from as int, to as int)),
    ensures
        ({
            let n = text::numeral_value(v@.subrange(from as int, to as int));
            r == (if n < 255 {
                n
            } else {
                255
            })
        }),
{
    let ghost part = v@.subrange(from as int, to as int);
    let mut n: u32 = 0;
    let mut i: usize = from;
    assert(part.take(0) =~= Seq::<char>::empty());
    while i < to
        invariant
            from <= i <= to <= v@.len(),
            part == v@.subrange(from as int, to as int),
            all_digits(part),
            ({
                let m = text::numeral_value(part.take(i - from));
                n == (if m < 255 {
                    m
                } else {
                    255
                })
            }),
        decreases to - i,
    {
        proof {
            let k = i - from;
            assert(part[k] == v@[i as int]);
            assert(text::is_digit(part[k]));
            assert(part.take(k + 1).drop_last() =~= part.take(k));
            assert(part.take(k + 1).last() == part[k]);
        }
        n = n * 10 + (v[i] as u32 - '0' as u32);
        if n > 255 {
            n = 255;
        }
        i = i + 1;
    }
    assert(part.take(part.len() as int) =~= part);
    n
}

/// The first digits of the fraction `v[from..to]`, as a number.
fn fraction_digits(v: &Vec<char>, from: usize, to: usize) -> (r: u128)
    requires
        from <= to <= v@.len(),
        all_digits(v@.subrange(from as int, to as int)),
    ensures
        r == leading_digits(v@.subrange(from as int, to as int), FRACTION_DIGITS as nat),
        r < 100_000_000_000_000_000_000_000_000,
{
    let ghost part = v@.subrange(from as int, to as int);
    let mut n: u128 = 0;
    let mut k: u32 = 0;
    assert(pow10(26) == 100_000_000_000_000_000_000_000_000) by {
        reveal_with_fuel(pow10, 27);
    }
    while k < FRACTION_DIGITS
        invariant
            k <= FRACTION_DIGITS,
            from <= to <= v@.len(),
            part == v@.subrange(from as int, to as int),
            all_digits(part),
            n == leading_digits(part, k as nat),
            n < pow10(k as nat),
            pow10(26) == 100_000_000_000_000_000_000_000_000,
        decreases FRACTION_DIGITS - k,
    {
        proof {
            pow10_grows(k as nat, 26);
            leading_digits_bound(part, (k + 1) as nat);
        }
        let digit: u128 = if (k as usize) < to - from {
            assert(part[k as int] == v@[from + k]);
            assert(text::is_digit(part[k as int]));
            (v[from + k as usize] as u32 - '0' as u32) as u128
        } else {
            0
        };
        n = n * 10 + digit;
        k = k + 1;
    }
    n
}

/// Finds the percentage that a text speaks of: the number before its first percent sign.
pub fn find_percentage(s: &str) -> (r: Option<u8>)
    ensures
        match r {
            Some(p) => percentage_in(s@) == Some(p as nat),
            None => percentage_in(s@) is None,
        },
{
    let v = text::chars_of(s);
    let end: usize = match text::find(s, "%") {
        Some(p) => p,
        None => v.len(),
    };
    let mut start: usize = end;
    while start > 0 && ((v[start - 1] >= '0' && v[start - 1] <= '9') || v[start - 1] == '.')
        invariant
            start <= end <= v@.len(),
            v@ == s@,
            number_start(s@, end as int) == number_start(s@, start as int),
        decreases start,
    {
        start = start - 1;
    }
    let ghost t = percent_token(s@);
    assert(t == v@.subrange(start as int, end as int));
    let token = text::string_of(&v, start, end);
    let ghost (whole, fraction) = number_parts(t);
    let mut whole_end: usize = end;
    let mut fraction_start: usize = end;
    proof {
        reveal_strlit(".");
        text::position_from_is_least(t, "."@, 0);
    }
    match text::find(token.as_str(), ".") {
        Some(p) => {
            whole_end = start + p;
            fraction_start = start + p + 1;
        },
        None => {},
    }
    assert(whole =~= v@.subrange(start as int, whole_end as int));
    assert(fraction =~= v@.subrange(fraction_start as int, end as int));
    if !only_digits(&v, start, whole_end) || !only_digits(&v, fraction_start, end) {
        return None;
    }
    if whole_end == start && fraction_start == end {
        return None;
    }
    let n: u32 = value_up_to_255(&v, start, whole_end);
    if n == 255 {
        return Some(255);
    }
    let f: u128 = fraction_digits(&v, fraction_start, end);
    let factor: u128 = if n == 0 {
        1
    } else if n == 1 {
        4
    } else if n < 4 {
        8
    } else if n < 8 {
        16
    } else if n < 16 {
        32
    } else if n < 32 {
        64
    } else if n < 64 {
        128
    } else if n < 128 {
        256
    } else {
        512
    };
    assert(STEP * factor == shortfall(n as nat));
    if f + STEP * factor >= HALF {
        Some((n + 1) as u8)
    } else {
        Some(n as u8)
    }
}

/// The same character a number of times.
pub open spec fn repeated(c: char, n: nat) -> Seq<char> {
    Seq::new(n, |i: int| c)
}

/// The same character a number of times.
fn repeat(c: char, n: usize) -> (r: String)
    ensures
        r@ == repeated(c, n as nat),
{
    let mut r = String::new();
    let mut i: usize = 0;
    assert(r@ =~= repeated(c, 0));
    while i < n
        invariant
            i <= n,
            r@ == repeated(c, i as nat),
        decreases n - i,
    {
        r.push(c);
        i = i + 1;
        assert(r@ =~= repeated(c, i as nat));
    }
    r
}

/// The length of the progress bar.
pub const BAR: usize = 50;

/// The progress bar for a percentage.
pub open spec fn bar_of(percentage: nat) -> Seq<char> {
    let n = percentage / 2;
    repeated('=', n) + repeated(' ', (BAR - n) as nat)
}

/// A line announces a step of the update.
pub open spec fn is_heading(line: Seq<char>) -> bool {
    text::has_text(line, "====="@)
}

/// A line reports the progress of a step.
pub open spec fn is_progress(line: Seq<char>) -> bool {
    text::has_text(line, "objects:"@) || text::has_text(line, "deltas:"@) || text::has_text(
        line,
        "files:"@,
    )
}

/// The percentage of a line that reports progress; one that gives none has none yet.
pub open spec fn progress_of(line: Seq<char>) -> nat {
    match percentage_in(text::trimmed(line)) {
        Some(p) => p,
        None => 0,
    }
}

/// The message that a line of the output makes.
pub open spec fn line_message(line: Seq<char>) -> Option<Seq<char>> {
    if is_heading(line) {
        Some("Updating ALAS: "@ + text::trimmed(text::replaced(line, "="@, " "@)))
    } else if is_progress(line) {
        Some(
            "Updating ALAS: "@ + text::trimmed(line) + "\n["@ + bar_of(progress_of(line)) + "]"@,
        )
    } else {
        None
    }
}

/// The bar has room for the progress that a line reports.
pub open spec fn fits_the_bar(line: Seq<char>) -> bool {
    !is_heading(line) && is_progress(line) ==> progress_of(line) / 2 <= BAR
}

/// Whether the bar has room for the progress that a line reports.
pub fn bar_has_room(line: &str) -> (r: bool)
    ensures
        r == fits_the_bar(line@),
{
    if text::contains(line, "=====") || !(text::contains(line, "objects:") || text::contains(
        line,
        "deltas:",
    ) || text::contains(line, "files:")) {
        return true;
    }
    let t = text::trim(line);
    match find_percentage(t.as_str()) {
        Some(p) => p as usize / 2 <= BAR,
        None => true,
    }
}

/// An update under way: the last line that it has written to its error output.
#[derive(Debug)]
pub struct UpdateRun {
    pub last_err: String,
}

/// What is to be done about an update that has been silent until its time was up.
#[derive(Clone, Copy, Debug, PartialEq, Eq, Structural)]
pub enum Silence {
    /// It has exited: look at how.
    Collect,
    /// It is still running: kill its group. The update has failed.
    Kill,
}

impl UpdateRun {
    /// Nothing was written yet.
    pub fn new() -> (r: UpdateRun)
        ensures
            r.last_err@ == Seq::<char>::empty(),
    {
        let last_err = String::new();
        assert(last_err@ =~= Seq::<char>::empty());
        UpdateRun { last_err }
    }

    /// Takes a line of the output. Returns the message that it makes.
    pub fn on_line(&mut self, is_err: bool, line: String) -> (r: Option<String>)
        requires
            fits_the_bar(line@),
        ensures
            final(self).last_err@ == (if is_err {
                line@
            } else {
                old(self).last_err@
            }),
            match r {
                Some(m) => line_message(line@) == Some(m@),
                None => line_message(line@) is None,
            },
    {
        let message = git_update_message(line.as_str());
        if is_err {
            self.last_err = line;
        }
        message
    }

    /// Decides what is done when the time is up.
    pub fn on_deadline(&self, exited: bool) -> (r: Silence)
        ensures
            r == (if exited {
                Silence::Collect
            } else {
                Silence::Kill
            }),
    {
        if exited {
            Silence::Collect
        } else {
            Silence::Kill
        }
    }

    /// The outcome of an update that has exited: where it failed, the last line of its error output
    /// says why.
    pub fn on_exit(self, success: bool) -> (r: Result<(), String>)
        ensures
            match r {
                Ok(_) => success,
                Err(m) => !success && m@ == (if self.last_err@.len() == 0 {
                    "Failed to update repository"@
                } else {
                    self.last_err@
                }),
            },
    {
        if success {
            return Ok(());
        }
        if self.last_err.as_str().unicode_len() == 0 {
            return Err(String::from_str("Failed to update repository"));
        }
        Err(self.last_err)
    }
}

/// The message that a line of the output makes.
pub fn git_update_message(line: &str) -> (r: Option<String>)
    requires
        fits_the_bar(line@),
    ensures
        match r {
            Some(m) => line_message(line@) == Some(m@),
            None => line_message(line@) is None,
        },
{
    if text::contains(line, "=====") {
        proof {
            reveal_strlit("=");
        }
        let blank = text::replace(line, "=", " ");
        let t = text::trim(blank.as_str());
        let mut m = String::from_str("Updating ALAS: ");
        m.append(t.as_str());
        return Some(m);
    }
    if text::contains(line, "objects:") || text::contains(line, "deltas:") || text::contains(
        line,
        "files:",
    ) {
        let t = text::trim(line);
        let n: usize = match find_percentage(t.as_str()) {
            Some(p) => p as usize / 2,
            None => 0,
        };
        let done = repeat('=', n);
        let open = repeat(' ', BAR - n);
        let mut m = String::from_str("Updating ALAS: ");
        m.append(t.as_str());
        m.append("\n[");
        m.append(done.as_str());
        m.append(open.as_str());
        m.append("]");
        assert(m@ =~= "Updating ALAS: "@ + text::trimmed(line@) + "\n["@ + bar_of(
            progress_of(line@),
        ) + "]"@);
        return Some(m);
    }
    None
}

/// The message for an update whose time was up.
pub const UPDATE_TIMED_OUT: &'static str = "Repository update timed out after 600s";

/// A percentage up to 101 has room in the bar, which is then always filled to its length.
pub proof fn bar_is_full_length(line: Seq<char>)
    requires
        progress_of(line) <= 101,
    ensures
        fits_the_bar(line),
        bar_of(progress_of(line)).len() == BAR,
{
}

/// What one more byte does: a control character, or one beyond the range of a byte of ASCII, ends the
/// line that was read so far, if there is one; every other byte but a colon is read on.
pub proof fn what_a_byte_does(buffer: Seq<char>, b: u8)
    ensures
        b < 32 || b > 127 ==> fed(buffer, b) == (Seq::<char>::empty(), if buffer.len() > 0 {
            Some(buffer)
        } else {
            None
        }),
        32 <= b <= 127 && b != 58 ==> fed(buffer, b) == (buffer.push(b as char), None::<Seq<char>>),
{
    if buffer.len() == 0 {
        assert(buffer =~= Seq::<char>::empty());
    }
}

/// What a colon does: where the text before the first colon stands again at the end of what was read,
/// without reaching back into that colon, a report has been written over: everything before that
/// repetition is a line, and the repetition begins the next one. In every other case the colon is
/// read on.
pub proof fn what_a_colon_does(buffer: Seq<char>, label: Seq<char>, rest: Seq<char>)
    requires
        !label.contains(':'),
    ensures
        buffer == label + ":"@ + rest + label ==> fed(buffer, 58) == (
            label + ":"@,
            Some(label + ":"@ + rest),
        ),
        buffer == label + ":"@ + rest && !text::ends(rest, label) ==> fed(buffer, 58) == (
            buffer + ":"@,
            None::<Seq<char>>,
        ),
        buffer == label ==> fed(buffer, 58) == (buffer + ":"@, None::<Seq<char>>),
{
    reveal_strlit(":");
    text::position_from_is_least(buffer, ":"@, 0);
    assert(forall|s: Seq<char>| #[trigger] s.push(':') =~= s + ":"@);
    if buffer == label + ":"@ + rest + label {
        colon_is_first(buffer, label, rest + label);
        assert(buffer.take(label.len() as int) =~= label);
        assert(buffer.skip(label.len() as int + 1) =~= rest + label);
        assert((rest + label).skip(rest.len() as int) =~= label);
        assert((rest + label).subrange(rest.len() as int, (rest + label).len() as int) =~= label);
        assert(text::ends(rest + label, label));
        let cut = (rest + label).len() as int + 1;
        assert(buffer.skip(cut) =~= label);
        assert(buffer.take(cut) =~= label + ":"@ + rest);
        assert(fed(buffer, 58).0 =~= label + ":"@);
    }
    if buffer == label + ":"@ + rest && !text::ends(rest, label) {
        colon_is_first(buffer, label, rest);
        assert(buffer.take(label.len() as int) =~= label);
        assert(buffer.skip(label.len() as int + 1) =~= rest);
        assert(58u8 as char == ':');
    }
    if buffer == label {
        match text::position(buffer, ":"@) {
            Some(p) => {
                assert(buffer.subrange(p, p + 1)[0] == buffer[p]);
                assert(label.contains(':'));
            },
            None => {},
        }
        assert(58u8 as char == ':');
    }
}

proof fn colon_is_first(buffer: Seq<char>, label: Seq<char>, rest: Seq<char>)
    requires
        buffer =~= label + ":"@ + rest,
        !label.contains(':'),
    ensures
        text::position(buffer, ":"@) == Some(label.len() as int),
{
    reveal_strlit(":");
    text::position_from_is_least(buffer, ":"@, 0);
    let p = label.len() as int;
    assert(buffer.subrange(p, p + 1) =~= ":"@);
    assert(text::occurs_at(buffer, ":"@, p));
    match text::position(buffer, ":"@) {
        Some(q) => {
            if q < p {
                assert(buffer.subrange(q, q + 1)[0] == buffer[q]);
                assert(buffer[q] == label[q]);
            }
        },
        None => {},
    }
}

/// A line without a colon is read to its end and no further, whatever was read before it.
pub proof fn a_line_is_read_to_its_end(line: Seq<u8>, end: u8)
    requires
        forall|i: int| 0 <= i < line.len() ==> 32 <= #[trigger] line[i] <= 127 && line[i] != 58,
        end < 32 || end > 127,
        line.len() > 0,
    ensures
        ({
            let read = line.map_values(|b: u8| b as char);
            &&& fed_all(Seq::empty(), line) == (read, Seq::<Seq<char>>::empty())
            &&& fed_all(Seq::empty(), line.push(end)) == (Seq::<char>::empty(), seq![read])
        }),
{
    line_is_read(line);
    let read = line.map_values(|b: u8| b as char);
    assert(line.push(end).drop_last() =~= line);
    assert(Seq::<Seq<char>>::empty().push(read) =~= seq![read]);
}

proof fn line_is_read(line: Seq<u8>)
    requires
        forall|i: int| 0 <= i < line.len() ==> 32 <= #[trigger] line[i] <= 127 && line[i] != 58,
    ensures
        fed_all(Seq::empty(), line) == (
            line.map_values(|b: u8| b as char),
            Seq::<Seq<char>>::empty(),
        ),
    decreases line.len(),
{
    let read = line.map_values(|b: u8| b as char);
    if line.len() == 0 {
        assert(read =~= Seq::<char>::empty());
    } else {
        let front = line.drop_last();
        assert forall|i: int| 0 <= i < front.len() implies 32 <= #[trigger] front[i] <= 127
            && front[i] != 58 by {
            assert(front[i] == line[i]);
        }
        line_is_read(front);
        assert(line[line.len() - 1] != 58);
        assert(read =~= front.map_values(|b: u8| b as char).push(line.last() as char));
    }
}

/// The percentage of a text is the number right before its first percent sign, or at its end where
/// there is no percent sign.
pub proof fn where_the_percentage_stands(a: Seq<char>, number: Seq<char>, b: Seq<char>)
    requires
        forall|i: int|
            0 <= i < number.len() ==> #[trigger] number[i] == '.' || '0' <= number[i] <= '9',
        a.len() > 0 ==> a.last() != '.' && !('0' <= a.last() <= '9'),
        !a.contains('%'),
    ensures
        percent_token(a + number + "%"@ + b) == number,
        percent_token(a + number) == number,
{
    reveal_strlit("%");
    let front = a + number;
    let s = front + "%"@ + b;
    let p = front.len() as int;
    assert(!front.contains('%')) by {
        if front.contains('%') {
            let k = choose|k: int| 0 <= k < front.len() && front[k] == '%';
            if k < a.len() {
                assert(a[k] == '%');
            } else {
                assert(number[k - a.len()] == '%');
            }
        }
    }
    text::position_from_is_least(s, "%"@, 0);
    text::position_from_is_least(front, "%"@, 0);
    assert(s.subrange(p, p + 1) =~= "%"@);
    assert(text::occurs_at(s, "%"@, p));
    match text::position(s, "%"@) {
        Some(q) => {
            if q < p {
                assert(s.subrange(q, q + 1)[0] == s[q]);
                assert(s[q] == front[q]);
            }
        },
        None => {},
    }
    match text::position(front, "%"@) {
        Some(q) => {
            assert(front.subrange(q, q + 1)[0] == front[q]);
        },
        None => {},
    }
    number_starts_behind(s, a, number, number.len() as int);
    assert(s.subrange(a.len() as int, p) =~= number);
    number_starts_behind(front, a, number, number.len() as int);
    assert(front.subrange(a.len() as int, p) =~= number);
}

proof fn number_starts_behind(s: Seq<char>, a: Seq<char>, number: Seq<char>, k: int)
    requires
        0 <= k <= number.len(),
        (a + number).is_prefix_of(s),
        forall|i: int|
            0 <= i < number.len() ==> #[trigger] number[i] == '.' || '0' <= number[i] <= '9',
        a.len() > 0 ==> a.last() != '.' && !('0' <= a.last() <= '9'),
    ensures
        number_start(s, a.len() + k) == a.len(),
    decreases k,
{
    let front = a + number;
    assert(forall|i: int| 0 <= i < front.len() ==> front[i] == #[trigger] s[i]);
    if k > 0 {
        assert(s[a.len() + k - 1] == number[k - 1]);
        number_starts_behind(s, a, number, k - 1);
    } else if a.len() > 0 {
        assert(s[a.len() - 1] == a.last());
    }
}

/// A number is cut at its point; where it has none, all of it stands before the point.
pub proof fn a_number_is_cut_at_its_point(whole: Seq<char>, fraction: Seq<char>)
    requires
        !whole.contains('.'),
    ensures
        number_parts(whole + "."@ + fraction) == (whole, fraction),
        number_parts(whole) == (whole, Seq::<char>::empty()),
{
    reveal_strlit(".");
    let t = whole + "."@ + fraction;
    let p = whole.len() as int;
    text::position_from_is_least(t, "."@, 0);
    text::position_from_is_least(whole, "."@, 0);
    assert(t.subrange(p, p + 1) =~= "."@);
    assert(text::occurs_at(t, "."@, p));
    match text::position(t, "."@) {
        Some(q) => {
            if q < p {
                assert(t.subrange(q, q + 1)[0] == t[q]);
                assert(t[q] == whole[q]);
            }
        },
        None => {},
    }
    match text::position(whole, "."@) {
        Some(q) => {
            assert(whole.subrange(q, q + 1)[0] == whole[q]);
        },
        None => {},
    }
    assert(t.take(p) =~= whole);
    assert(t.skip(p + 1) =~= fraction);
}

/// A number is rounded to the nearest integer: up where its fraction is one half or more, down where
/// it is less than 49 hundredths; it is never more than 255.
pub proof fn how_a_percentage_is_rounded(whole: Seq<char>, fraction: Seq<char>)
    requires
        forall|i: int| 0 <= i < whole.len() ==> '0' <= #[trigger] whole[i] <= '9',
        forall|i: int| 0 <= i < fraction.len() ==> '0' <= #[trigger] fraction[i] <= '9',
    ensures
        ({
            let n = text::numeral_value(whole);
            let first: int = if fraction.len() > 0 {
                fraction[0] as int - '0' as int
            } else {
                0
            };
            let second: int = if fraction.len() > 1 {
                fraction[1] as int - '0' as int
            } else {
                0
            };
            &&& n >= 255 ==> rounded(whole, fraction) == 255
            &&& n < 255 && first >= 5 ==> rounded(whole, fraction) == n + 1
            &&& n < 255 && first * 10 + second < 49 ==> rounded(whole, fraction) == n
            &&& n < 255 ==> rounded(whole, fraction) == n || rounded(whole, fraction) == n + 1
        }),
{
    assert(all_digits(fraction));
    reveal_with_fuel(leading_digits, 3);
    leading_digits_within(fraction, 2, 24);
    assert(pow10(24) == 1_000_000_000_000_000_000_000_000) by {
        reveal_with_fuel(pow10, 25);
    }
    let two = leading_digits(fraction, 2);
    let all = leading_digits(fraction, 26);
    assert(two * 1_000_000_000_000_000_000_000_000 <= all < (two + 1)
        * 1_000_000_000_000_000_000_000_000);
}

proof fn leading_digits_within(fraction: Seq<char>, j: nat, m: nat)
    requires
        all_digits(fraction),
    ensures
        leading_digits(fraction, j) * pow10(m) <= leading_digits(fraction, j + m),
        leading_digits(fraction, j + m) < (leading_digits(fraction, j) + 1) * pow10(m),
    decreases m,
{
    let low = leading_digits(fraction, j);
    if m == 0 {
        assert(low * 1 == low && (low + 1) * 1 == low + 1);
    } else {
        leading_digits_within(fraction, j, (m - 1) as nat);
        let p = pow10((m - 1) as nat);
        let before = leading_digits(fraction, (j + m - 1) as nat);
        assert(((j + m) as nat - 1) as nat == (j + m - 1) as nat);
        assert(low * (10 * p) == 10 * (low * p)) by (nonlinear_arith);
        assert((low + 1) * (10 * p) == 10 * ((low + 1) * p)) by (nonlinear_arith);
        assert(leading_digits(fraction, j + m) <= before * 10 + 9);
    }
}

/// What a line of the output shows: a heading shows its text without the marks around it; a report of
/// progress shows its text and a bar below it that is fifty characters long, one of them filled for
/// every two percent; every other line shows nothing.
pub proof fn what_a_line_shows(line: Seq<char>)
    ensures
        ({
            let heading = text::has_text(line, "====="@);
            let progress = text::has_text(line, "objects:"@) || text::has_text(line, "deltas:"@)
                || text::has_text(line, "files:"@);
            let m = line_message(line);
            let head = "Updating ALAS: "@ + text::trimmed(line) + "\n["@;
            let percent: int = match percentage_in(text::trimmed(line)) {
                Some(p) => p as int,
                None => 0,
            };
            &&& heading ==> m == Some(
                "Updating ALAS: "@ + text::trimmed(text::replaced(line, "="@, " "@)),
            )
            &&& !heading && !progress ==> m is None
            &&& !heading && progress && percent <= 101 ==> {
                &&& m is Some
                &&& m->0.len() == head.len() + 51
                &&& m->0.take(head.len() as int) == head
                &&& forall|i: int|
                    0 <= i < 50 ==> #[trigger] m->0[head.len() + i] == (if 2 * i + 2 <= percent {
                        '='
                    } else {
                        ' '
                    })
                &&& m->0.last() == ']'
            }
        }),
{
    reveal_strlit("]");
    let head = "Updating ALAS: "@ + text::trimmed(line) + "\n["@;
    if !is_heading(line) && is_progress(line) && progress_of(line) <= 101 {
        let bar = bar_of(progress_of(line));
        let m = line_message(line)->0;
        assert(m == head + bar + "]"@);
        assert(m.take(head.len() as int) =~= head);
        assert forall|i: int| 0 <= i < 50 implies #[trigger] m[head.len() + i] == (if 2 * i + 2
            <= progress_of(line) {
            '='
        } else {
            ' '
        }) by {
            assert(m[head.len() + i] == bar[i]);
        }
    }
}

/// What a number may fall short of the middle and still be rounded up is half the distance of two
/// neighbouring numbers of single precision there, which doubles with every power of two: from
/// one to two it is the part of one that the twenty-fourth power of two gives, below one half it is a
/// quarter of that.
pub proof fn the_shortfall_doubles(m: nat)
    requires
        1 <= m < 128,
    ensures
        shortfall(0) * 67_108_864 == 100_000_000_000_000_000_000_000_000,
        shortfall(1) * 16_777_216 == 100_000_000_000_000_000_000_000_000,
        shortfall(2 * m) == 2 * shortfall(m),
        shortfall(2 * m + 1) == 2 * shortfall(m),
{
    assert((STEP as nat) * 4 * 16_777_216 == 100_000_000_000_000_000_000_000_000);
    assert((STEP as nat) * 67_108_864 == 100_000_000_000_000_000_000_000_000);
}

/// A number is rounded up exactly if what it is short of the middle is no more than the shortfall that
/// single precision allows there.
pub proof fn when_a_percentage_is_rounded_up(whole: Seq<char>, fraction: Seq<char>)
    requires
        text::numeral_value(whole) < 255,
    ensures
        rounded(whole, fraction) == text::numeral_value(whole) + 1
            <==> 50_000_000_000_000_000_000_000_000 - leading_digits(fraction, 26) <= shortfall(
            text::numeral_value(whole),
        ),
{
}

/// A text has a percentage exactly if the number before its percent sign has a digit and at most one
/// point; and it is that number, rounded.
pub proof fn which_numbers_are_percentages(
    s: Seq<char>,
    whole: Seq<char>,
    fraction: Seq<char>,
    rest: Seq<char>,
)
    requires
        forall|i: int| 0 <= i < whole.len() ==> '0' <= #[trigger] whole[i] <= '9',
        forall|i: int| 0 <= i < fraction.len() ==> '0' <= #[trigger] fraction[i] <= '9',
    ensures
        percent_token(s) == whole && whole.len() > 0 ==> percentage_in(s) == Some(
            rounded(whole, Seq::empty()),
        ),
        percent_token(s) == whole + "."@ + fraction && whole.len() + fraction.len() > 0
            ==> percentage_in(s) == Some(rounded(whole, fraction)),
        percent_token(s) == Seq::<char>::empty() ==> percentage_in(s) is None,
        percent_token(s) == "."@ ==> percentage_in(s) is None,
        percent_token(s) == whole + "."@ + fraction + "."@ + rest ==> percentage_in(s) is None,
{
    reveal_strlit(".");
    let none = Seq::<char>::empty();
    assert(all_digits(whole));
    assert(all_digits(fraction));
    assert(!whole.contains('.')) by {
        if whole.contains('.') {
            let k = choose|k: int| 0 <= k < whole.len() && whole[k] == '.';
            assert(text::is_digit(whole[k]));
        }
    }
    a_number_is_cut_at_its_point(whole, fraction);
    a_number_is_cut_at_its_point(none, none);
    assert(none + "."@ + none =~= "."@);
    let more = fraction + "."@ + rest;
    a_number_is_cut_at_its_point(whole, more);
    assert(whole + "."@ + more =~= whole + "."@ + fraction + "."@ + rest);
    assert(more[fraction.len() as int] == '.');
    assert(!all_digits(more)) by {
        if all_digits(more) {
            assert(text::is_digit(more[fraction.len() as int]));
        }
    }
    let t = percent_token(s);
    if t == whole + "."@ + fraction {
        assert(number_parts(t) == (whole, fraction));
    }
    if t == whole + "."@ + fraction + "."@ + rest {
        assert(number_parts(t) == (whole, more));
    }
}

} // verus!
