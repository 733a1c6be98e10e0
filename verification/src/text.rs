//! Text as sequences of characters: searching, trimming, splitting, and decimal numerals.
use vstd::prelude::*;

verus! {

/// `String::push` puts the character behind the text that was there.
pub assume_specification[ String::push ](s: &mut String, c: char)
    ensures
        final(s)@ == old(s)@.push(c),
;

/// `pat` stands in `s` at position `i`.
pub open spec fn occurs_at(s: Seq<char>, pat: Seq<char>, i: int) -> bool {
    &&& 0 <= i
    &&& i + pat.len() <= s.len()
    &&& s.subrange(i, i + pat.len()) == pat
}

/// `pat` stands somewhere in `s`.
pub open spec fn has_text(s: Seq<char>, pat: Seq<char>) -> bool {
    exists|i: int| occurs_at(s, pat, i)
}

/// `s` begins with `pat`.
pub open spec fn begins(s: Seq<char>, pat: Seq<char>) -> bool {
    occurs_at(s, pat, 0)
}

/// `s` ends in `pat`.
pub open spec fn ends(s: Seq<char>, pat: Seq<char>) -> bool {
    occurs_at(s, pat, s.len() - pat.len())
}

/// The first position at or after `from` where `pat` stands in `s`.
pub open spec fn position_from(s: Seq<char>, pat: Seq<char>, from: int) -> Option<int>
    decreases s.len() + 1 - from,
{
    if from + pat.len() > s.len() {
        None
    } else if occurs_at(s, pat, from) {
        Some(from)
    } else {
        position_from(s, pat, from + 1)
    }
}

/// The first position where `pat` stands in `s`.
pub open spec fn position(s: Seq<char>, pat: Seq<char>) -> Option<int> {
    position_from(s, pat, 0)
}

/// A search from `from` finds the least position at which `pat` stands, if there is one.
pub proof fn position_from_is_least(s: Seq<char>, pat: Seq<char>, from: int)
    requires
        0 <= from,
    ensures
        match position_from(s, pat, from) {
            Some(p) => from <= p && occurs_at(s, pat, p) && forall|j: int|
                from <= j < p ==> !occurs_at(s, pat, j),
            None => forall|j: int| from <= j ==> !occurs_at(s, pat, j),
        },
    decreases s.len() + 1 - from,
{
    if from + pat.len() > s.len() {
    } else if occurs_at(s, pat, from) {
    } else {
        position_from_is_least(s, pat, from + 1);
    }
}

/// The characters of `s`, one by one.
pub fn chars_of(s: &str) -> (v: Vec<char>)
    ensures
        v@ == s@,
{
    let mut v: Vec<char> = Vec::new();
    for c in it: s.chars()
        invariant
            v@ == it.seq().take(it.index() as int),
            it.seq() == s@,
    {
        v.push(c);
    }
    v
}

/// The text made of the characters `from..to` of `v`.
pub fn string_of(v: &[char], from: usize, to: usize) -> (s: String)
    requires
        from <= to <= v@.len(),
    ensures
        s@ == v@.subrange(from as int, to as int),
{
    let mut s = String::new();
    let mut i: usize = from;
    while i < to
        invariant
            from <= i <= to <= v@.len(),
            s@ == v@.subrange(from as int, i as int),
        decreases to - i,
    {
        s.push(v[i]);
        i = i + 1;
    }
    s
}

/// Whether two texts are the same.
pub fn same(a: &str, b: &str) -> (r: bool)
    ensures
        r == (a@ == b@),
{
    let x = chars_of(a);
    let y = chars_of(b);
    if x.len() != y.len() {
        return false;
    }
    stands_at(&x, &y, 0)
}

/// Whether `pat` stands in `s` at position `i`.
pub fn stands_at(s: &[char], pat: &[char], i: usize) -> (r: bool)
    requires
        i + pat@.len() <= s@.len(),
    ensures
        r == occurs_at(s@, pat@, i as int),
        i == 0 && pat@.len() == s@.len() ==> r == (s@ == pat@),
{
    let n: usize = s.len();
    let mut k: usize = 0;
    while k < pat.len()
        invariant
            k <= pat@.len(),
            n == s@.len(),
            i + pat@.len() <= n,
            forall|j: int| 0 <= j < k ==> s@[i + j] == pat@[j],
        decreases pat@.len() - k,
    {
        if s[i + k] != pat[k] {
            proof {
                let window = s@.subrange(i as int, i + pat@.len());
                assert(window[k as int] == s@[i + k]);
                assert(window != pat@);
            }
            return false;
        }
        k = k + 1;
    }
    proof {
        assert(s@.subrange(i as int, i + pat@.len()) =~= pat@);
        if i == 0 && pat@.len() == s@.len() {
            assert(s@.subrange(0, s@.len() as int) =~= s@);
        }
    }
    true
}

/// The first position where `pat` stands in `s`, counted in characters.
pub fn find_in(s: &[char], pat: &[char]) -> (r: Option<usize>)
    ensures
        match r {
            Some(p) => position(s@, pat@) == Some(p as int) && p + pat@.len() <= s@.len(),
            None => position(s@, pat@) is None,
        },
{
    let mut i: usize = 0;
    while i <= s.len() && pat.len() <= s.len() - i
        invariant
            i <= s@.len() + 1,
            position(s@, pat@) == position_from(s@, pat@, i as int),
        decreases s@.len() + 1 - i,
    {
        if stands_at(s, pat, i) {
            return Some(i);
        }
        if i == s.len() {
            assert(position_from(s@, pat@, i + 1) is None);
            return None;
        }
        i = i + 1;
    }
    None
}

/// The first position where `pat` stands in `s`, counted in characters.
pub fn find(s: &str, pat: &str) -> (r: Option<usize>)
    ensures
        match r {
            Some(p) => position(s@, pat@) == Some(p as int) && p + pat@.len() <= s@.len(),
            None => position(s@, pat@) is None,
        },
{
    let v = chars_of(s);
    let p = chars_of(pat);
    find_in(&v, &p)
}

/// Whether `pat` stands somewhere in `s`.
pub fn contains(s: &str, pat: &str) -> (r: bool)
    ensures
        r == has_text(s@, pat@),
{
    proof {
        position_from_is_least(s@, pat@, 0);
    }
    match find(s, pat) {
        Some(_) => true,
        None => false,
    }
}

/// Whether `s` begins with `pat`.
pub fn starts_with(s: &str, pat: &str) -> (r: bool)
    ensures
        r == begins(s@, pat@),
{
    let v = chars_of(s);
    let p = chars_of(pat);
    p.len() <= v.len() && stands_at(&v, &p, 0)
}

/// Whether `s` ends in `pat`.
pub fn ends_with(s: &str, pat: &str) -> (r: bool)
    ensures
        r == ends(s@, pat@),
{
    let v = chars_of(s);
    let p = chars_of(pat);
    p.len() <= v.len() && stands_at(&v, &p, v.len() - p.len())
}

/// The characters `from..to` of `s`.
pub fn slice(s: &str, from: usize, to: usize) -> (r: String)
    requires
        from <= to <= s@.len(),
    ensures
        r@ == s@.subrange(from as int, to as int),
{
    let v = chars_of(s);
    string_of(&v, from, to)
}

/// `s` with the first occurrence of `pat` replaced by `with`.
pub open spec fn replaced_first(s: Seq<char>, pat: Seq<char>, with: Seq<char>) -> Seq<char> {
    match position(s, pat) {
        Some(p) => s.take(p) + with + s.skip(p + pat.len()),
        None => s,
    }
}

/// `s` with the first occurrence of `pat` replaced by `with`.
pub fn replace_first(s: &str, pat: &str, with: &str) -> (r: String)
    ensures
        r@ == replaced_first(s@, pat@, with@),
{
    let v = chars_of(s);
    let p = chars_of(pat);
    match find_in(&v, &p) {
        Some(at) => {
            let n: usize = v.len();
            let mut r = string_of(&v, 0, at);
            r.append(with);
            let rest = string_of(&v, at + p.len(), n);
            r.append(rest.as_str());
            r
        },
        None => string_of(&v, 0, v.len()),
    }
}

/// The characters with the Unicode property `White_Space`.
pub open spec fn is_white(c: char) -> bool {
    let n = c as u32;
    ||| 0x9 <= n <= 0xd
    ||| n == 0x20
    ||| n == 0x85
    ||| n == 0xa0
    ||| n == 0x1680
    ||| 0x2000 <= n <= 0x200a
    ||| n == 0x2028
    ||| n == 0x2029
    ||| n == 0x202f
    ||| n == 0x205f
    ||| n == 0x3000
}

/// Whether `c` is white space.
pub fn white(c: char) -> (r: bool)
    ensures
        r == is_white(c),
{
    let n: u32 = c as u32;
    (0x9 <= n && n <= 0xd) || n == 0x20 || n == 0x85 || n == 0xa0 || n == 0x1680 || (0x2000 <= n && n
        <= 0x200a) || n == 0x2028 || n == 0x2029 || n == 0x202f || n == 0x205f || n == 0x3000
}

/// `s` without the white space that it begins with.
pub open spec fn trimmed_start(s: Seq<char>) -> Seq<char>
    decreases s.len(),
{
    if s.len() > 0 && is_white(s[0]) {
        trimmed_start(s.subrange(1, s.len() as int))
    } else {
        s
    }
}

/// `s` without the white space that it ends in.
pub open spec fn trimmed_end(s: Seq<char>) -> Seq<char>
    decreases s.len(),
{
    if s.len() > 0 && is_white(s.last()) {
        trimmed_end(s.drop_last())
    } else {
        s
    }
}

/// `s` without the white space around it.
pub open spec fn trimmed(s: Seq<char>) -> Seq<char> {
    trimmed_end(trimmed_start(s))
}

/// `s` without the white space around it.
pub fn trim(s: &str) -> (r: String)
    ensures
        r@ == trimmed(s@),
{
    let v = chars_of(s);
    let mut a: usize = 0;
    assert(v@.subrange(0, v@.len() as int) =~= v@);
    while a < v.len() && white(v[a])
        invariant
            a <= v@.len(),
            v@ == s@,
            trimmed_start(s@) == trimmed_start(v@.subrange(a as int, v@.len() as int)),
        decreases v@.len() - a,
    {
        assert(v@.subrange(a as int, v@.len() as int).subrange(1, v@.len() - a)
            =~= v@.subrange(a + 1, v@.len() as int));
        a = a + 1;
    }
    assert(trimmed_start(s@) == v@.subrange(a as int, v@.len() as int));
    let mut b: usize = v.len();
    while b > a && white(v[b - 1])
        invariant
            a <= b <= v@.len(),
            v@ == s@,
            trimmed(s@) == trimmed_end(v@.subrange(a as int, b as int)),
        decreases b,
    {
        assert(v@.subrange(a as int, b as int).drop_last() =~= v@.subrange(a as int, b - 1));
        b = b - 1;
    }
    string_of(&v, a, b)
}

/// The texts of a list of strings.
pub open spec fn texts(v: Seq<String>) -> Seq<Seq<char>> {
    v.map_values(|s: String| s@)
}

/// `s` cut at every `sep`; the separators are left out, empty pieces are kept.
pub open spec fn pieces(s: Seq<char>, sep: char) -> Seq<Seq<char>>
    decreases s.len(),
{
    if s.len() == 0 {
        seq![s]
    } else {
        let before = pieces(s.drop_last(), sep);
        if s.last() == sep {
            before.push(Seq::empty())
        } else {
            before.drop_last().push(before.last().push(s.last()))
        }
    }
}

/// There is always at least one piece.
pub proof fn pieces_nonempty(s: Seq<char>, sep: char)
    ensures
        pieces(s, sep).len() > 0,
    decreases s.len(),
{
    if s.len() > 0 {
        pieces_nonempty(s.drop_last(), sep);
    }
}

/// `s` cut at every `sep`.
pub fn split(s: &str, sep: char) -> (r: Vec<String>)
    ensures
        texts(r@) == pieces(s@, sep),
        r@.len() > 0,
{
    let v = chars_of(s);
    let mut out: Vec<String> = Vec::new();
    let mut cur = String::new();
    let mut i: usize = 0;
    assert(v@.take(0) =~= Seq::<char>::empty());
    assert(texts(out@).push(cur@) =~= pieces(v@.take(0), sep));
    while i < v.len()
        invariant
            i <= v@.len(),
            texts(out@).push(cur@) == pieces(v@.take(i as int), sep),
        decreases v@.len() - i,
    {
        let c = v[i];
        let ghost before = pieces(v@.take(i as int), sep);
        let ghost prev_out = out@;
        assert(v@.take(i + 1).drop_last() =~= v@.take(i as int));
        assert(before.drop_last() =~= texts(out@));
        if c == sep {
            out.push(cur);
            cur = String::new();
            assert(texts(out@) =~= before);
        } else {
            cur.push(c);
        }
        i = i + 1;
    }
    assert(v@.take(v@.len() as int) =~= v@);
    let ghost done = texts(out@).push(cur@);
    out.push(cur);
    assert(texts(out@) =~= done);
    out
}

/// A line without the carriage return that it ends in, if it ends in one.
pub open spec fn without_return(s: Seq<char>) -> Seq<char> {
    if s.len() > 0 && s.last() == '\r' {
        s.drop_last()
    } else {
        s
    }
}

/// The lines of `s`: every line ends in a line feed, or a carriage return and a line feed, that is
/// not part of it; the last one may go without.
pub open spec fn lines_of(s: Seq<char>) -> Seq<Seq<char>> {
    let p = pieces(s, '\n');
    let whole = p.drop_last().map_values(|l: Seq<char>| without_return(l));
    if p.last().len() == 0 {
        whole
    } else {
        whole.push(p.last())
    }
}

/// The lines of `s`.
pub fn lines(s: &str) -> (r: Vec<String>)
    ensures
        texts(r@) == lines_of(s@),
{
    let p = split(s, '\n');
    let ghost parts = pieces(s@, '\n');
    let ghost whole = parts.drop_last().map_values(|l: Seq<char>| without_return(l));
    let n: usize = p.len();
    assert(n == parts.len());
    let mut out: Vec<String> = Vec::new();
    let mut i: usize = 0;
    while i + 1 < n
        invariant
            n == p@.len(),
            n > 0,
            i < n,
            texts(p@) == parts,
            whole == parts.drop_last().map_values(|l: Seq<char>| without_return(l)),
            texts(out@) == whole.take(i as int),
        decreases n - i,
    {
        let line = chars_of(p[i].as_str());
        let k: usize = if line.len() > 0 && line[line.len() - 1] == '\r' {
            line.len() - 1
        } else {
            line.len()
        };
        let t = string_of(&line, 0, k);
        proof {
            assert(texts(p@)[i as int] == p@[i as int]@);
            assert(t@ =~= without_return(line@));
            assert(whole[i as int] == t@);
        }
        let ghost done = out@;
        out.push(t);
        assert(texts(out@) =~= texts(done).push(t@));
        assert(whole.take(i + 1) =~= whole.take(i as int).push(whole[i as int]));
        i = i + 1;
    }
    assert(whole.take(n - 1) =~= whole);
    assert(texts(p@)[n - 1] == p@[n - 1]@);
    if p[n - 1].as_str().unicode_len() > 0 {
        let ghost done = out@;
        let last = p[n - 1].clone();
        out.push(last);
        assert(texts(out@) =~= texts(done).push(last@));
    }
    out
}

/// What has been read of a text when it is cut into words: the words that are complete, and the
/// one that is being read.
pub open spec fn word_scan(s: Seq<char>) -> (Seq<Seq<char>>, Seq<char>)
    decreases s.len(),
{
    if s.len() == 0 {
        (Seq::empty(), s)
    } else {
        let (done, cur) = word_scan(s.drop_last());
        if !is_white(s.last()) {
            (done, cur.push(s.last()))
        } else if cur.len() > 0 {
            (done.push(cur), Seq::empty())
        } else {
            (done, cur)
        }
    }
}

/// The words of `s`: its longest parts without white space.
pub open spec fn words_of(s: Seq<char>) -> Seq<Seq<char>> {
    let (done, cur) = word_scan(s);
    if cur.len() > 0 {
        done.push(cur)
    } else {
        done
    }
}

/// The words of `s`.
pub fn words(s: &str) -> (r: Vec<String>)
    ensures
        texts(r@) == words_of(s@),
{
    let v = chars_of(s);
    let mut out: Vec<String> = Vec::new();
    let mut cur = String::new();
    let mut i: usize = 0;
    assert(v@.take(0) =~= Seq::<char>::empty());
    assert(texts(out@) =~= Seq::<Seq<char>>::empty());
    assert(cur@ =~= Seq::<char>::empty());
    while i < v.len()
        invariant
            i <= v@.len(),
            (texts(out@), cur@) == word_scan(v@.take(i as int)),
        decreases v@.len() - i,
    {
        let c = v[i];
        let ghost done = out@;
        assert(v@.take(i + 1).drop_last() =~= v@.take(i as int));
        if !white(c) {
            cur.push(c);
        } else if cur.as_str().unicode_len() > 0 {
            let ghost word = cur@;
            out.push(cur);
            cur = String::new();
            assert(texts(out@) =~= texts(done).push(word));
            assert(cur@ =~= Seq::<char>::empty());
        }
        i = i + 1;
    }
    assert(v@.take(v@.len() as int) =~= v@);
    if cur.as_str().unicode_len() > 0 {
        let ghost done = out@;
        let ghost word = cur@;
        out.push(cur);
        assert(texts(out@) =~= texts(done).push(word));
    }
    out
}

/// `c` is one of the ten decimal digits.
pub open spec fn is_digit(c: char) -> bool {
    '0' <= c <= '9'
}

/// The value of a decimal digit.
pub open spec fn digit_value(c: char) -> nat {
    (c as int - '0' as int) as nat
}

/// `s` is made of decimal digits, at least one.
pub open spec fn is_numeral(s: Seq<char>) -> bool {
    s.len() > 0 && forall|i: int| 0 <= i < s.len() ==> is_digit(#[trigger] s[i])
}

/// The number that decimal digits stand for.
pub open spec fn numeral_value(s: Seq<char>) -> nat
    decreases s.len(),
{
    if s.len() == 0 {
        0
    } else {
        numeral_value(s.drop_last()) * 10 + digit_value(s.last())
    }
}

/// The value of a numeral is at least that of each of its beginnings.
pub proof fn numeral_value_grows(s: Seq<char>, k: int)
    requires
        0 <= k <= s.len(),
    ensures
        numeral_value(s.take(k)) <= numeral_value(s),
    decreases s.len(),
{
    if k == s.len() {
        assert(s.take(k) =~= s);
    } else {
        assert(s.drop_last().take(k) =~= s.take(k));
        numeral_value_grows(s.drop_last(), k);
    }
}

/// A numeral without the plus sign that may stand before it.
pub open spec fn unsigned_part(s: Seq<char>) -> Seq<char> {
    if s.len() > 0 && s[0] == '+' {
        s.skip(1)
    } else {
        s
    }
}

/// The number up to `max` that a numeral stands for.
pub open spec fn parsed_up_to(s: Seq<char>, max: nat) -> Option<nat> {
    let digits = unsigned_part(s);
    if is_numeral(digits) && numeral_value(digits) <= max {
        Some(numeral_value(digits))
    } else {
        None
    }
}

/// Reads a number between 0 and `max`: decimal digits, with a plus sign before them or none.
pub fn parse_up_to(s: &str, max: u32) -> (r: Option<u32>)
    ensures
        match r {
            Some(n) => parsed_up_to(s@, max as nat) == Some(n as nat),
            None => parsed_up_to(s@, max as nat) is None,
        },
{
    let v = chars_of(s);
    let from: usize = if v.len() > 0 && v[0] == '+' {
        1
    } else {
        0
    };
    let ghost digits = unsigned_part(s@);
    assert(digits =~= v@.skip(from as int));
    if from == v.len() {
        return None;
    }
    let mut n: u64 = 0;
    let mut i: usize = from;
    assert(digits.take(0) =~= Seq::<char>::empty());
    while i < v.len()
        invariant
            from <= i <= v@.len(),
            digits == v@.skip(from as int),
            n <= max,
            n == numeral_value(digits.take(i - from)),
            forall|j: int| 0 <= j < i - from ==> is_digit(#[trigger] digits[j]),
            digits == unsigned_part(s@),
        decreases v@.len() - i,
    {
        let c = v[i];
        assert(digits[i - from] == c);
        if c < '0' || c > '9' {
            return None;
        }
        let ghost k = i - from;
        assert(digits.take(k + 1).drop_last() =~= digits.take(k));
        n = n * 10 + (c as u32 - '0' as u32) as u64;
        assert(n == numeral_value(digits.take(k + 1)));
        if n > max as u64 {
            proof {
                numeral_value_grows(digits, k + 1);
            }
            return None;
        }
        i = i + 1;
    }
    assert(digits.take(digits.len() as int) =~= digits);
    Some(n as u32)
}

/// The decimal digit of a value below ten.
pub open spec fn digit_char(d: nat) -> char {
    ('0' as int + d) as char
}

/// A number in decimal digits, without leading zeros.
pub open spec fn decimal_of(n: nat) -> Seq<char>
    decreases n,
{
    if n < 10 {
        seq![digit_char(n)]
    } else {
        decimal_of(n / 10).push(digit_char(n % 10))
    }
}

/// A number in decimal digits, without leading zeros.
pub fn decimal(n: u64) -> (s: String)
    ensures
        s@ == decimal_of(n as nat),
    decreases n,
{
    let d: char = (48u8 + (n % 10) as u8) as char;
    if n < 10 {
        let mut s = String::new();
        s.push(d);
        assert(s@ =~= decimal_of(n as nat));
        s
    } else {
        let mut s = decimal(n / 10);
        s.push(d);
        s
    }
}

/// Reading back a number that was written in decimal digits gives that number.
pub proof fn decimal_reads_back(n: nat, max: nat)
    ensures
        is_numeral(decimal_of(n)),
        numeral_value(decimal_of(n)) == n,
        parsed_up_to(decimal_of(n), max) == (if n <= max {
            Some(n)
        } else {
            None
        }),
    decreases n,
{
    if n < 10 {
        assert(seq![digit_char(n)].drop_last() =~= Seq::<char>::empty());
        assert(numeral_value(Seq::<char>::empty()) == 0);
    } else {
        decimal_reads_back(n / 10, max);
        assert(decimal_of(n).drop_last() =~= decimal_of(n / 10));
        assert(is_digit(digit_char(n % 10)));
    }
    assert(is_digit(decimal_of(n)[0]));
    assert(unsigned_part(decimal_of(n)) == decimal_of(n));
}

/// The order of texts: by the first character in which they differ, a beginning before the whole.
pub open spec fn precedes(a: Seq<char>, b: Seq<char>) -> bool
    decreases a.len(),
{
    if a.len() == 0 {
        true
    } else if b.len() == 0 {
        false
    } else if a[0] != b[0] {
        a[0] < b[0]
    } else {
        precedes(a.skip(1), b.skip(1))
    }
}

/// Whether `a` is the same as `b` or comes before it in the order of texts.
pub fn not_after(a: &str, b: &str) -> (r: bool)
    ensures
        r == precedes(a@, b@),
{
    let x = chars_of(a);
    let y = chars_of(b);
    let mut i: usize = 0;
    assert(x@.skip(0) =~= x@);
    assert(y@.skip(0) =~= y@);
    while i < x.len() && i < y.len()
        invariant
            i <= x@.len(),
            i <= y@.len(),
            precedes(a@, b@) == precedes(x@.skip(i as int), y@.skip(i as int)),
        decreases x@.len() - i,
    {
        if x[i] != y[i] {
            return x[i] < y[i];
        }
        assert(x@.skip(i as int).skip(1) =~= x@.skip(i + 1));
        assert(y@.skip(i as int).skip(1) =~= y@.skip(i + 1));
        i = i + 1;
    }
    i == x.len()
}

/// The order of texts is total.
pub proof fn precedes_total(a: Seq<char>, b: Seq<char>)
    ensures
        precedes(a, b) || precedes(b, a),
    decreases a.len(),
{
    if a.len() > 0 && b.len() > 0 && a[0] == b[0] {
        precedes_total(a.skip(1), b.skip(1));
    }
}

/// The order of texts is transitive.
pub proof fn precedes_transitive(a: Seq<char>, b: Seq<char>, c: Seq<char>)
    requires
        precedes(a, b),
        precedes(b, c),
    ensures
        precedes(a, c),
    decreases a.len(),
{
    if a.len() > 0 && b.len() > 0 && c.len() > 0 && a[0] == b[0] && b[0] == c[0] {
        precedes_transitive(a.skip(1), b.skip(1), c.skip(1));
    }
}

/// Texts put together in a row, with `sep` between each two.
pub open spec fn joined(parts: Seq<Seq<char>>, sep: Seq<char>) -> Seq<char>
    decreases parts.len(),
{
    if parts.len() == 0 {
        Seq::empty()
    } else if parts.len() == 1 {
        parts[0]
    } else {
        joined(parts.drop_last(), sep) + sep + parts.last()
    }
}

/// Texts put together in a row, with `sep` between each two.
pub fn join(parts: &Vec<String>, sep: &str) -> (r: String)
    ensures
        r@ == joined(texts(parts@), sep@),
{
    let mut r = String::new();
    let mut i: usize = 0;
    assert(texts(parts@).take(0) =~= Seq::<Seq<char>>::empty());
    while i < parts.len()
        invariant
            i <= parts@.len(),
            r@ == joined(texts(parts@).take(i as int), sep@),
        decreases parts@.len() - i,
    {
        proof {
            let all = texts(parts@);
            assert(all.take(i + 1).drop_last() =~= all.take(i as int));
            assert(all[i as int] == parts@[i as int]@);
            assert(all.take(i + 1).last() == all[i as int]);
        }
        if i > 0 {
            r.append(sep);
        }
        r.append(parts[i].as_str());
        proof {
            if i == 0 {
                assert(r@ =~= texts(parts@)[0]);
                assert(texts(parts@).take(1)[0] == texts(parts@)[0]);
            }
        }
        i = i + 1;
    }
    assert(texts(parts@).take(parts@.len() as int) =~= texts(parts@));
    r
}

/// Whether `t` is one of the texts of `v`.
pub fn is_among(v: &Vec<String>, t: &str) -> (r: bool)
    ensures
        r == texts(v@).contains(t@),
{
    let mut i: usize = 0;
    while i < v.len()
        invariant
            i <= v@.len(),
            forall|j: int| 0 <= j < i ==> texts(v@)[j] != t@,
        decreases v@.len() - i,
    {
        assert(texts(v@)[i as int] == v@[i as int]@);
        if same(v[i].as_str(), t) {
            return true;
        }
        i = i + 1;
    }
    false
}

/// One of the texts of `v` contains `pat`.
pub open spec fn some_has(v: Seq<Seq<char>>, pat: Seq<char>) -> bool {
    exists|i: int| 0 <= i < v.len() && has_text(#[trigger] v[i], pat)
}

/// Whether one of the texts of `v` contains `pat`.
pub fn any_contains(v: &Vec<String>, pat: &str) -> (r: bool)
    ensures
        r == some_has(texts(v@), pat@),
{
    let mut i: usize = 0;
    while i < v.len()
        invariant
            i <= v@.len(),
            forall|j: int| 0 <= j < i ==> !has_text(#[trigger] texts(v@)[j], pat@),
        decreases v@.len() - i,
    {
        assert(texts(v@)[i as int] == v@[i as int]@);
        if contains(v[i].as_str(), pat) {
            return true;
        }
        i = i + 1;
    }
    false
}

/// One of the texts of `v` begins with `pat`.
pub open spec fn some_begins(v: Seq<Seq<char>>, pat: Seq<char>) -> bool {
    exists|i: int| 0 <= i < v.len() && begins(#[trigger] v[i], pat)
}

/// Whether one of the texts of `v` begins with `pat`.
pub fn any_starts_with(v: &Vec<String>, pat: &str) -> (r: bool)
    ensures
        r == some_begins(texts(v@), pat@),
{
    let mut i: usize = 0;
    while i < v.len()
        invariant
            i <= v@.len(),
            forall|j: int| 0 <= j < i ==> !begins(#[trigger] texts(v@)[j], pat@),
        decreases v@.len() - i,
    {
        assert(texts(v@)[i as int] == v@[i as int]@);
        if starts_with(v[i].as_str(), pat) {
            return true;
        }
        i = i + 1;
    }
    false
}

/// The texts `a` and `b` stand in `v`, `b` directly behind `a`.
pub open spec fn has_pair(v: Seq<Seq<char>>, a: Seq<char>, b: Seq<char>) -> bool {
    exists|i: int| 0 <= i < v.len() - 1 && #[trigger] v[i] == a && v[i + 1] == b
}

/// Whether the texts `a` and `b` stand in `v`, `b` directly behind `a`.
pub fn pair_among(v: &Vec<String>, a: &str, b: &str) -> (r: bool)
    ensures
        r == has_pair(texts(v@), a@, b@),
{
    if v.len() == 0 {
        return false;
    }
    let mut i: usize = 0;
    while i < v.len() - 1
        invariant
            i < v@.len(),
            forall|j: int| 0 <= j < i ==> !(#[trigger] texts(v@)[j] == a@ && texts(v@)[j + 1] == b@),
        decreases v@.len() - i,
    {
        assert(texts(v@)[i as int] == v@[i as int]@);
        assert(texts(v@)[i + 1] == v@[i + 1]@);
        if same(v[i].as_str(), a) && same(v[i + 1].as_str(), b) {
            return true;
        }
        i = i + 1;
    }
    false
}

/// A copy of a list of strings.
pub fn copy_texts(v: &Vec<String>) -> (r: Vec<String>)
    ensures
        texts(r@) == texts(v@),
{
    let mut r: Vec<String> = Vec::new();
    let mut i: usize = 0;
    while i < v.len()
        invariant
            i <= v@.len(),
            r@.len() == i,
            forall|j: int| 0 <= j < i ==> (#[trigger] r@[j])@ == v@[j]@,
        decreases v@.len() - i,
    {
        r.push(v[i].clone());
        i = i + 1;
    }
    assert(texts(r@) =~= texts(v@));
    r
}

/// The characters of `s` from position `i` on, with every occurrence of `pat` replaced by `with`,
/// one after the other from the left.
pub open spec fn replaced_from(s: Seq<char>, pat: Seq<char>, with: Seq<char>, i: int) -> Seq<char>
    decreases s.len() - i,
{
    if pat.len() == 0 || i < 0 || i + pat.len() > s.len() {
        s.skip(i)
    } else if occurs_at(s, pat, i) {
        with + replaced_from(s, pat, with, i + pat.len())
    } else {
        seq![s[i]] + replaced_from(s, pat, with, i + 1)
    }
}

/// `s` with every occurrence of `pat` replaced by `with`.
pub open spec fn replaced(s: Seq<char>, pat: Seq<char>, with: Seq<char>) -> Seq<char> {
    replaced_from(s, pat, with, 0)
}

/// `s` with every occurrence of `pat` replaced by `with`.
pub fn replace(s: &str, pat: &str, with: &str) -> (r: String)
    requires
        pat@.len() > 0,
    ensures
        r@ == replaced(s@, pat@, with@),
{
    let v = chars_of(s);
    let p = chars_of(pat);
    let n: usize = v.len();
    let m: usize = p.len();
    let mut r = String::new();
    let mut i: usize = 0;
    assert(r@ + replaced_from(v@, p@, with@, 0) =~= replaced_from(v@, p@, with@, 0));
    while i <= n && m <= n - i
        invariant
            i <= n,
            n == v@.len(),
            m == p@.len(),
            m > 0,
            r@ + replaced_from(v@, p@, with@, i as int) == replaced(v@, p@, with@),
        decreases n - i,
    {
        if stands_at(&v, &p, i) {
            let ghost before = r@;
            r.append(with);
            i = i + m;
            assert(before + (with@ + replaced_from(v@, p@, with@, i as int)) =~= r@ + replaced_from(
                v@,
                p@,
                with@,
                i as int,
            ));
        } else {
            let ghost before = r@;
            r.push(v[i]);
            i = i + 1;
            assert(before + (seq![v@[i - 1]] + replaced_from(v@, p@, with@, i as int)) =~= r@
                + replaced_from(v@, p@, with@, i as int));
        }
    }
    let rest = string_of(&v, i, n);
    assert(rest@ =~= v@.skip(i as int));
    r.append(rest.as_str());
    r
}

/// The last position, at or before `upto`, where `pat` stands in `s`.
pub open spec fn last_position_from(s: Seq<char>, pat: Seq<char>, upto: int) -> Option<int>
    decreases upto + 1,
{
    if upto < 0 {
        None
    } else if occurs_at(s, pat, upto) {
        Some(upto)
    } else {
        last_position_from(s, pat, upto - 1)
    }
}

/// The last position where `pat` stands in `s`.
pub open spec fn last_position(s: Seq<char>, pat: Seq<char>) -> Option<int> {
    last_position_from(s, pat, s.len() - pat.len())
}

/// A search back from `upto` finds the greatest position at which `pat` stands, if there is one.
pub proof fn last_position_is_greatest(s: Seq<char>, pat: Seq<char>, upto: int)
    requires
        -1 <= upto,
    ensures
        match last_position_from(s, pat, upto) {
            Some(p) => 0 <= p <= upto && occurs_at(s, pat, p) && forall|j: int|
                p < j <= upto ==> !occurs_at(s, pat, j),
            None => forall|j: int| j <= upto ==> !occurs_at(s, pat, j),
        },
    decreases upto + 1,
{
    if upto >= 0 && !occurs_at(s, pat, upto) {
        last_position_is_greatest(s, pat, upto - 1);
    }
}

/// `s` with the last occurrence of `pat` replaced by `with`.
pub open spec fn replaced_last(s: Seq<char>, pat: Seq<char>, with: Seq<char>) -> Seq<char> {
    match last_position(s, pat) {
        Some(p) => s.take(p) + with + s.skip(p + pat.len()),
        None => s,
    }
}

/// `s` with the last occurrence of `pat` replaced by `with`.
pub fn replace_last(s: &str, pat: &str, with: &str) -> (r: String)
    ensures
        r@ == replaced_last(s@, pat@, with@),
{
    let v = chars_of(s);
    let p = chars_of(pat);
    let n: usize = v.len();
    if p.len() > n {
        return string_of(&v, 0, n);
    }
    let mut at: usize = n - p.len();
    while !stands_at(&v, &p, at)
        invariant
            n == v@.len(),
            at + p@.len() <= n,
            v@ == s@,
            p@ == pat@,
            last_position(s@, pat@) == last_position_from(s@, pat@, at as int),
        decreases at,
    {
        if at == 0 {
            assert(last_position_from(s@, pat@, -1) is None);
            let whole = string_of(&v, 0, n);
            assert(whole@ =~= s@);
            return whole;
        }
        at = at - 1;
    }
    let mut r = string_of(&v, 0, at);
    r.append(with);
    let rest = string_of(&v, at + p.len(), n);
    r.append(rest.as_str());
    r
}

/// `s` without the white space that it ends in.
pub fn trim_end(s: &str) -> (r: String)
    ensures
        r@ == trimmed_end(s@),
{
    let v = chars_of(s);
    let mut b: usize = v.len();
    assert(v@.subrange(0, v@.len() as int) =~= v@);
    while b > 0 && white(v[b - 1])
        invariant
            b <= v@.len(),
            trimmed_end(s@) == trimmed_end(v@.subrange(0, b as int)),
        decreases b,
    {
        assert(v@.subrange(0, b as int).drop_last() =~= v@.subrange(0, b - 1));
        b = b - 1;
    }
    string_of(&v, 0, b)
}

/// `s` without `suffix`, if it ends in that.
pub open spec fn stripped_suffix(s: Seq<char>, suffix: Seq<char>) -> Option<Seq<char>> {
    if ends(s, suffix) {
        Some(s.take(s.len() - suffix.len()))
    } else {
        None
    }
}

/// `s` without `suffix`, if it ends in that.
pub fn strip_suffix(s: &str, suffix: &str) -> (r: Option<String>)
    ensures
        match r {
            Some(t) => stripped_suffix(s@, suffix@) == Some(t@),
            None => stripped_suffix(s@, suffix@) is None,
        },
{
    if !ends_with(s, suffix) {
        return None;
    }
    let n: usize = s.unicode_len() - suffix.unicode_len();
    let t = slice(s, 0, n);
    assert(t@ =~= s@.take(n as int));
    Some(t)
}

/// One text contains another exactly if it is made of something, that text and something more; it
/// begins with it, or ends in it, exactly if the other is a beginning, or an end, of it.
pub proof fn what_a_text_contains(s: Seq<char>, pat: Seq<char>)
    ensures
        has_text(s, pat) <==> exists|a: Seq<char>, b: Seq<char>| s == #[trigger] (a + pat + b),
        begins(s, pat) <==> exists|b: Seq<char>| s == #[trigger] (pat + b),
        ends(s, pat) <==> exists|a: Seq<char>| s == #[trigger] (a + pat),
{
    let n = pat.len() as int;
    if has_text(s, pat) {
        let i = choose|i: int| occurs_at(s, pat, i);
        assert(s =~= s.take(i) + pat + s.skip(i + n)) by {
            assert(s.subrange(i, i + n) =~= pat);
            assert forall|k: int| i <= k < i + n implies s[k] == pat[k - i] by {
                assert(s.subrange(i, i + n)[k - i] == s[k]);
            }
        }
    }
    assert forall|a: Seq<char>, b: Seq<char>| s == #[trigger] (a + pat + b) implies has_text(
        s,
        pat,
    ) by {
        assert(s.subrange(a.len() as int, a.len() + n) =~= pat);
        assert(occurs_at(s, pat, a.len() as int));
    }
    if begins(s, pat) {
        assert(s.subrange(0, n) =~= pat);
        assert forall|k: int| 0 <= k < n implies s[k] == pat[k] by {
            assert(s.subrange(0, n)[k] == s[k]);
        }
        assert(s =~= pat + s.skip(n));
    }
    assert forall|b: Seq<char>| s == #[trigger] (pat + b) implies begins(s, pat) by {
        assert(s.subrange(0, n) =~= pat);
    }
    if ends(s, pat) {
        let m = s.len() - n;
        assert(s.subrange(m, m + n) =~= pat);
        assert forall|k: int| m <= k < m + n implies s[k] == pat[k - m] by {
            assert(s.subrange(m, m + n)[k - m] == s[k]);
        }
        assert(s =~= s.take(m) + pat);
    }
    assert forall|a: Seq<char>| s == #[trigger] (a + pat) implies ends(s, pat) by {
        assert(s.subrange(s.len() - n, s.len() - n + n) =~= pat);
    }
}

/// Among the characters of ASCII, white space is what moves on in a line or to another line: tabs,
/// line ends, form feeds and spaces.
pub proof fn white_space_of_ascii(c: char)
    requires
        (c as u32) < 128,
    ensures
        is_white(c) <==> c == ' ' || c == '\t' || c == '\n' || c == '\r' || c == '\u{b}' || c
            == '\u{c}',
{
}

/// Every character is white space.
pub open spec fn is_blank(s: Seq<char>) -> bool {
    forall|i: int| 0 <= i < s.len() ==> is_white(#[trigger] s[i])
}

/// Trimming takes away white space only, and all of it at both ends.
pub proof fn trimming_takes_white_space_only(s: Seq<char>)
    ensures
        ({
            let t = trimmed(s);
            &&& exists|a: Seq<char>, b: Seq<char>|
                s == #[trigger] (a + t + b) && is_blank(a) && is_blank(b)
            &&& t.len() > 0 ==> !is_white(t[0]) && !is_white(t.last())
        }),
        exists|b: Seq<char>| s == #[trigger] (trimmed_end(s) + b) && is_blank(b),
        trimmed_end(s).len() > 0 ==> !is_white(trimmed_end(s).last()),
{
    let m = trimmed_start(s);
    trimmed_start_is_an_end(s);
    trimmed_end_is_a_beginning(m);
    trimmed_end_is_a_beginning(s);
    let a = choose|a: Seq<char>| s == #[trigger] (a + m) && is_blank(a);
    let b = choose|b: Seq<char>| m == #[trigger] (trimmed_end(m) + b) && is_blank(b);
    let t = trimmed(s);
    assert(t == trimmed_end(m));
    assert(a + (t + b) =~= a + t + b);
    assert(s == a + t + b);
    if t.len() > 0 {
        assert(m.len() > 0 && t[0] == m[0]);
    }
}

proof fn trimmed_start_is_an_end(s: Seq<char>)
    ensures
        exists|a: Seq<char>| s == #[trigger] (a + trimmed_start(s)) && is_blank(a),
        trimmed_start(s).len() > 0 ==> !is_white(trimmed_start(s)[0]),
    decreases s.len(),
{
    if s.len() > 0 && is_white(s[0]) {
        let rest = s.subrange(1, s.len() as int);
        trimmed_start_is_an_end(rest);
        let a = choose|a: Seq<char>| rest == #[trigger] (a + trimmed_start(rest)) && is_blank(a);
        let more = seq![s[0]] + a;
        assert(s =~= more + trimmed_start(s)) by {
            assert(s =~= seq![s[0]] + rest);
        }
        assert forall|i: int| 0 <= i < more.len() implies is_white(#[trigger] more[i]) by {
            if i > 0 {
                assert(more[i] == a[i - 1]);
            }
        }
    } else {
        assert(s =~= Seq::<char>::empty() + trimmed_start(s));
        assert(is_blank(Seq::<char>::empty()));
    }
}

proof fn trimmed_end_is_a_beginning(s: Seq<char>)
    ensures
        exists|b: Seq<char>| s == #[trigger] (trimmed_end(s) + b) && is_blank(b),
        trimmed_end(s).len() > 0 ==> !is_white(trimmed_end(s).last()) && trimmed_end(s)[0] == s[0],
    decreases s.len(),
{
    if s.len() > 0 && is_white(s.last()) {
        let rest = s.drop_last();
        trimmed_end_is_a_beginning(rest);
        let b = choose|b: Seq<char>| rest == #[trigger] (trimmed_end(rest) + b) && is_blank(b);
        let more = b.push(s.last());
        assert(s =~= trimmed_end(s) + more) by {
            assert(s =~= rest.push(s.last()));
        }
        assert forall|i: int| 0 <= i < more.len() implies is_white(#[trigger] more[i]) by {
            if i < b.len() {
                assert(more[i] == b[i]);
            }
        }
    } else {
        assert(s =~= trimmed_end(s) + Seq::<char>::empty());
        assert(is_blank(Seq::<char>::empty()));
    }
}

/// A text is cut at the separator: a text without it is one piece, and what stands before a first
/// separator is a piece of its own.
pub proof fn cutting_at_a_separator(a: Seq<char>, sep: char, b: Seq<char>)
    requires
        !a.contains(sep),
    ensures
        pieces(a, sep) == seq![a],
        pieces(a + seq![sep] + b, sep) == seq![a] + pieces(b, sep),
    decreases a.len() + b.len(),
{
    if a.len() > 0 {
        let front = a.drop_last();
        assert forall|c: char| front.contains(c) implies a.contains(c) by {
            let i = choose|i: int| 0 <= i < front.len() && front[i] == c;
            assert(a[i] == c);
        }
        cutting_at_a_separator(front, sep, Seq::empty());
        assert(a.contains(a[a.len() - 1]));
        assert(seq![front].drop_last() =~= Seq::<Seq<char>>::empty());
        assert(front.push(a.last()) =~= a);
        assert(pieces(a, sep) =~= seq![a]);
    }
    let whole = a + seq![sep] + b;
    if b.len() == 0 {
        assert(whole.drop_last() =~= a);
        assert(whole.last() == sep);
        assert(b =~= Seq::<char>::empty());
        assert(pieces(a, sep) == seq![a]);
        assert(pieces(b, sep) == seq![b]);
        assert(pieces(whole, sep) == pieces(whole.drop_last(), sep).push(Seq::empty()));
        assert(pieces(whole, sep) =~= seq![a] + pieces(b, sep));
    } else {
        let rest = b.drop_last();
        cutting_at_a_separator(a, sep, rest);
        pieces_nonempty(rest, sep);
        assert(whole.drop_last() =~= a + seq![sep] + rest);
        assert(whole.last() == b.last());
        let before = seq![a] + pieces(rest, sep);
        assert(before.last() == pieces(rest, sep).last());
        assert(before.drop_last() =~= seq![a] + pieces(rest, sep).drop_last());
        assert(pieces(whole, sep) == if b.last() == sep {
            before.push(Seq::empty())
        } else {
            before.drop_last().push(before.last().push(b.last()))
        });
        assert(pieces(whole, sep) =~= seq![a] + pieces(b, sep));
    }
}

/// A text is read line by line: an empty one has no lines, one without a line end is a line, and
/// what stands before a first line end is a line, without the carriage return before that end.
pub proof fn reading_line_by_line(line: Seq<char>, rest: Seq<char>)
    requires
        !line.contains('\n'),
    ensures
        lines_of(Seq::empty()) == Seq::<Seq<char>>::empty(),
        line.len() > 0 ==> lines_of(line) == seq![line],
        lines_of(line + seq!['\n'] + rest) == seq![
            if line.len() > 0 && line.last() == '\r' {
                line.drop_last()
            } else {
                line
            },
        ] + lines_of(rest),
{
    let none = Seq::<char>::empty();
    cutting_at_a_separator(none, '\n', none);
    assert(seq![none].drop_last() =~= Seq::<Seq<char>>::empty());
    assert(lines_of(none) =~= Seq::<Seq<char>>::empty());
    cutting_at_a_separator(line, '\n', rest);
    assert(seq![line].drop_last() =~= Seq::<Seq<char>>::empty());
    if line.len() > 0 {
        assert(lines_of(line) =~= seq![line]);
    }
    pieces_nonempty(rest, '\n');
    let p = pieces(rest, '\n');
    let all = seq![line] + p;
    assert(all.last() == p.last());
    assert(all.drop_last() =~= seq![line] + p.drop_last());
    let cut = |l: Seq<char>| without_return(l);
    assert(all.drop_last().map_values(cut) =~= seq![without_return(line)] + p.drop_last().map_values(
        cut,
    ));
    assert(lines_of(line + seq!['\n'] + rest) =~= seq![without_return(line)] + lines_of(rest));
}

/// A text without white space is one word, white space alone has no words, and white space parts
/// the words before it from those behind it.
pub proof fn reading_word_by_word(a: Seq<char>, c: char, b: Seq<char>)
    requires
        is_white(c),
    ensures
        words_of(Seq::empty()) == Seq::<Seq<char>>::empty(),
        words_of(a + seq![c] + b) == words_of(a) + words_of(b),
        a.len() > 0 && (forall|i: int| 0 <= i < a.len() ==> !is_white(#[trigger] a[i]))
            ==> words_of(a) == seq![a],
    decreases b.len(),
{
    word_scan_of_a_word(a);
    let whole = a + seq![c];
    assert(whole.drop_last() =~= a);
    assert(whole.last() == c);
    assert(word_scan(whole) == (words_of(a), Seq::<char>::empty())) by {
        let (done, cur) = word_scan(a);
        if cur.len() == 0 {
            assert(cur =~= Seq::<char>::empty());
        }
    }
    word_scan_goes_on(whole, b);
    let (done, cur) = word_scan(b);
    assert(words_of(a) + done.push(cur) =~= (words_of(a) + done).push(cur));
}

proof fn word_scan_of_a_word(a: Seq<char>)
    ensures
        (forall|i: int| 0 <= i < a.len() ==> !is_white(#[trigger] a[i])) ==> word_scan(a) == (
            Seq::<Seq<char>>::empty(),
            a,
        ),
        a.len() > 0 && (forall|i: int| 0 <= i < a.len() ==> !is_white(#[trigger] a[i]))
            ==> words_of(a) == seq![a],
    decreases a.len(),
{
    if a.len() > 0 && (forall|i: int| 0 <= i < a.len() ==> !is_white(#[trigger] a[i])) {
        let front = a.drop_last();
        assert forall|i: int| 0 <= i < front.len() implies !is_white(#[trigger] front[i]) by {
            assert(front[i] == a[i]);
        }
        word_scan_of_a_word(front);
        assert(a[a.len() - 1] == a.last());
        assert(front.push(a.last()) =~= a);
        assert(Seq::<Seq<char>>::empty().push(a) =~= seq![a]);
    }
}

proof fn word_scan_goes_on(whole: Seq<char>, b: Seq<char>)
    requires
        word_scan(whole).1.len() == 0,
    ensures
        word_scan(whole + b).0 == word_scan(whole).0 + word_scan(b).0,
        word_scan(whole + b).1 == word_scan(b).1,
    decreases b.len(),
{
    if b.len() == 0 {
        assert(whole + b =~= whole);
        assert(word_scan(whole).0 + word_scan(b).0 =~= word_scan(whole).0);
        assert(word_scan(whole).1 =~= word_scan(b).1);
    } else {
        word_scan_goes_on(whole, b.drop_last());
        assert((whole + b).drop_last() =~= whole + b.drop_last());
        assert((whole + b).last() == b.last());
        let (done, cur) = word_scan(b.drop_last());
        assert((word_scan(whole).0 + done).push(cur) =~= word_scan(whole).0 + done.push(cur));
    }
}

/// One text comes no later than another exactly if it is a beginning of it, or has the smaller
/// character where they first differ.
pub proof fn the_order_of_texts(a: Seq<char>, b: Seq<char>)
    ensures
        precedes(a, b) <==> {
            ||| a.is_prefix_of(b)
            ||| exists|k: int|
                0 <= k < a.len() && k < b.len() && #[trigger] a[k] < b[k] && a.take(k) == b.take(k)
        },
    decreases a.len(),
{
    if a.len() == 0 {
        assert(a =~= b.subrange(0, 0));
    } else if b.len() == 0 {
    } else if a[0] != b[0] {
        if a[0] < b[0] {
            assert(a.take(0) =~= b.take(0));
        } else {
            if a.is_prefix_of(b) {
                assert(a[0] == b.subrange(0, a.len() as int)[0]);
            }
            assert forall|k: int|
                0 <= k < a.len() && k < b.len() && #[trigger] a[k] < b[k] implies a.take(k)
                != b.take(k) by {
                if k > 0 {
                    assert(a.take(k)[0] == a[0] && b.take(k)[0] == b[0]);
                }
            }
        }
    } else {
        let x = a.skip(1);
        let y = b.skip(1);
        the_order_of_texts(x, y);
        if x.is_prefix_of(y) {
            assert(a =~= b.subrange(0, a.len() as int)) by {
                assert forall|i: int| 0 < i < a.len() implies a[i] == b[i] by {
                    assert(x[i - 1] == y.subrange(0, x.len() as int)[i - 1]);
                }
            }
        }
        if a.is_prefix_of(b) {
            assert forall|i: int| 0 <= i < a.len() implies a[i] == b[i] by {
                assert(a[i] == b.subrange(0, a.len() as int)[i]);
            }
            assert(x =~= y.subrange(0, x.len() as int));
        }
        assert forall|k: int|
            0 <= k < x.len() && k < y.len() && #[trigger] x[k] < y[k] && x.take(k) == y.take(
                k,
            ) implies a[k + 1] < b[k + 1] && a.take(k + 1) == b.take(k + 1) by {
            assert forall|i: int| 0 <= i < k + 1 implies a[i] == b[i] by {
                if i > 0 {
                    assert(x.take(k)[i - 1] == y.take(k)[i - 1]);
                }
            }
            assert(a.take(k + 1) =~= b.take(k + 1));
        }
        assert forall|k: int|
            0 <= k < a.len() && k < b.len() && #[trigger] a[k] < b[k] && a.take(k) == b.take(
                k,
            ) implies k > 0 && x[k - 1] < y[k - 1] && x.take(k - 1) == y.take(k - 1) by {
            assert forall|i: int| 0 <= i < k - 1 implies x[i] == y[i] by {
                assert(a.take(k)[i + 1] == b.take(k)[i + 1]);
            }
            assert(x.take(k - 1) =~= y.take(k - 1));
        }
    }
}

/// Parts are put together with the separator between any two of them, and nowhere else.
pub proof fn joining_parts(a: Seq<Seq<char>>, b: Seq<Seq<char>>, sep: Seq<char>)
    requires
        a.len() > 0,
        b.len() > 0,
    ensures
        joined(Seq::empty(), sep) == Seq::<char>::empty(),
        joined(seq![a[0]], sep) == a[0],
        joined(a + b, sep) == joined(a, sep) + sep + joined(b, sep),
    decreases b.len(),
{
    assert((a + b).drop_last() =~= a + b.drop_last());
    assert((a + b).last() == b.last());
    if b.len() == 1 {
        assert(a + b.drop_last() =~= a);
    } else {
        joining_parts(a, b.drop_last(), sep);
        assert(joined(a + b, sep) =~= joined(a, sep) + sep + joined(b, sep));
    }
}

/// The value of a numeral grows tenfold with every digit behind it, which is added.
pub proof fn a_digit_more(s: Seq<char>, c: char)
    requires
        '0' <= c <= '9',
    ensures
        numeral_value(Seq::empty()) == 0,
        numeral_value(s.push(c)) == 10 * numeral_value(s) + (c as int - '0' as int),
{
    assert(s.push(c).drop_last() =~= s);
}

/// A text stands for a number exactly if it is digits, with at most a plus sign before them, and the
/// number is not too large.
pub proof fn reading_a_number(s: Seq<char>, max: nat)
    requires
        s.len() > 0,
        forall|i: int| 0 <= i < s.len() ==> '0' <= #[trigger] s[i] <= '9',
    ensures
        parsed_up_to(s, max) == (if numeral_value(s) <= max {
            Some(numeral_value(s))
        } else {
            None
        }),
        parsed_up_to(seq!['+'] + s, max) == parsed_up_to(s, max),
{
    let signed = seq!['+'] + s;
    assert(signed.skip(1) =~= s);
    assert('0' <= s[0] <= '9');
}

/// A text with a character that is no digit, other than a plus sign at its beginning, stands for no
/// number; nor does a text without digits.
pub proof fn no_number(s: Seq<char>, k: int, max: nat)
    requires
        s.len() == 0 || s == seq!['+'] || (0 <= k < s.len() && !('0' <= s[k] <= '9') && (k > 0
            || s[k] != '+')),
    ensures
        parsed_up_to(s, max) is None,
{
    let digits = unsigned_part(s);
    if s.len() > 0 && s != seq!['+'] {
        if s[0] == '+' {
            assert(digits[k - 1] == s[k]);
        } else {
            assert(digits[k] == s[k]);
        }
        assert(exists|i: int| 0 <= i < digits.len() && !is_digit(#[trigger] digits[i]));
    }
}

/// Replacing goes through a text from its beginning: where the pattern does not occur nothing is
/// changed; else what stands before its first occurrence is kept, the occurrence is replaced, and
/// the rest is gone through in the same way.
pub proof fn replacing_from_the_beginning(s: Seq<char>, pat: Seq<char>, with: Seq<char>)
    requires
        pat.len() > 0,
    ensures
        !has_text(s, pat) ==> replaced(s, pat, with) == s,
        has_text(s, pat) ==> exists|a: Seq<char>, b: Seq<char>|
            {
                &&& s == #[trigger] (a + pat + b)
                &&& !has_text((a + pat).drop_last(), pat)
                &&& replaced(s, pat, with) == a + with + replaced(b, pat, with)
            },
{
    position_from_is_least(s, pat, 0);
    match position(s, pat) {
        Some(p) => {
            replaced_up_to(s, pat, with, 0, p);
            let a = s.take(p);
            let b = s.skip(p + pat.len());
            assert(s.subrange(p, p + pat.len()) =~= pat);
            assert(s =~= a + pat + b) by {
                assert forall|k: int| p <= k < p + pat.len() implies s[k] == pat[k - p] by {
                    assert(s.subrange(p, p + pat.len())[k - p] == s[k]);
                }
            }
            replaced_in_the_rest(s, pat, with, p + pat.len(), p + pat.len());
            assert(s.subrange(0, p) =~= a);
            assert(replaced(s, pat, with) =~= a + with + replaced(b, pat, with));
            let front = (a + pat).drop_last();
            assert forall|i: int| !occurs_at(front, pat, i) by {
                if occurs_at(front, pat, i) {
                    assert(front.subrange(i, i + pat.len()) =~= s.subrange(i, i + pat.len()));
                    assert(occurs_at(s, pat, i));
                }
            }
        },
        None => {
            if exists|i: int| occurs_at(s, pat, i) {
                let i = choose|i: int| occurs_at(s, pat, i);
                assert(occurs_at(s, pat, i));
            }
            if s.len() >= pat.len() {
                replaced_up_to(s, pat, with, 0, s.len() - pat.len() + 1);
                let m = s.len() - pat.len() + 1;
                assert(s.subrange(0, m) + s.skip(m) =~= s);
            }
            assert(s.skip(0) =~= s);
        },
    }
}

proof fn replaced_up_to(s: Seq<char>, pat: Seq<char>, with: Seq<char>, i: int, p: int)
    requires
        pat.len() > 0,
        0 <= i <= p,
        p + pat.len() <= s.len() + 1,
        forall|j: int| i <= j < p ==> !occurs_at(s, pat, j),
    ensures
        replaced_from(s, pat, with, i) == s.subrange(i, p) + replaced_from(s, pat, with, p),
    decreases p - i,
{
    if i < p {
        replaced_up_to(s, pat, with, i + 1, p);
        assert(!occurs_at(s, pat, i));
        assert(seq![s[i]] + (s.subrange(i + 1, p) + replaced_from(s, pat, with, p))
            =~= s.subrange(i, p) + replaced_from(s, pat, with, p));
    } else {
        assert(s.subrange(i, p) + replaced_from(s, pat, with, p) =~= replaced_from(s, pat, with, p));
    }
}

proof fn replaced_in_the_rest(s: Seq<char>, pat: Seq<char>, with: Seq<char>, cut: int, i: int)
    requires
        pat.len() > 0,
        0 <= cut <= i <= s.len(),
    ensures
        replaced_from(s, pat, with, i) == replaced_from(s.skip(cut), pat, with, i - cut),
    decreases s.len() - i,
{
    let b = s.skip(cut);
    let j = i - cut;
    assert(s.skip(i) =~= b.skip(j));
    if i + pat.len() <= s.len() {
        assert(s.subrange(i, i + pat.len()) =~= b.subrange(j, j + pat.len()));
        if occurs_at(s, pat, i) {
            replaced_in_the_rest(s, pat, with, cut, i + pat.len());
        } else {
            replaced_in_the_rest(s, pat, with, cut, i + 1);
            assert(s[i] == b[j]);
        }
    }
}

/// A search finds the first place at which a text stands in another, a search from the end the last
/// one: wherever the text stands, it is found no later, and no earlier.
pub proof fn first_and_last_occurrence(s: Seq<char>, pat: Seq<char>)
    ensures
        forall|a: Seq<char>, b: Seq<char>|
            s == #[trigger] (a + pat + b) ==> {
                &&& position(s, pat) is Some && position(s, pat)->0 <= a.len()
                &&& last_position(s, pat) is Some && last_position(s, pat)->0 >= a.len()
            },
        position(s, pat) is Some ==> {
            let p = position(s, pat)->0;
            0 <= p && p + pat.len() <= s.len() && s == s.take(p) + pat + s.skip(p + pat.len())
        },
        last_position(s, pat) is Some ==> {
            let p = last_position(s, pat)->0;
            0 <= p && p + pat.len() <= s.len() && s == s.take(p) + pat + s.skip(p + pat.len())
        },
{
    let n = pat.len() as int;
    position_from_is_least(s, pat, 0);
    if s.len() >= n {
        last_position_is_greatest(s, pat, s.len() - n);
    }
    assert forall|a: Seq<char>, b: Seq<char>| s == #[trigger] (a + pat + b) implies {
        &&& position(s, pat) is Some && position(s, pat)->0 <= a.len()
        &&& last_position(s, pat) is Some && last_position(s, pat)->0 >= a.len()
    } by {
        assert(s.subrange(a.len() as int, a.len() + n) =~= pat);
        assert(occurs_at(s, pat, a.len() as int));
    }
    assert forall|p: int| occurs_at(s, pat, p) implies s == s.take(p) + pat + s.skip(p + n) by {
        assert forall|k: int| p <= k < p + n implies s[k] == pat[k - p] by {
            assert(s.subrange(p, p + n)[k - p] == s[k]);
        }
        assert(s =~= s.take(p) + pat + s.skip(p + n));
    }
    if position(s, pat) is Some {
        assert(occurs_at(s, pat, position(s, pat)->0));
    }
    if last_position(s, pat) is Some {
        assert(occurs_at(s, pat, last_position(s, pat)->0));
    }
}

/// What a list of texts contains is seen in its items: one with a text in it, one that begins with a
/// text, and two texts that follow each other.
pub proof fn what_a_list_contains(v: Seq<Seq<char>>, a: Seq<char>, b: Seq<char>, k: int)
    requires
        0 <= k < v.len(),
    ensures
        has_text(v[k], a) ==> some_has(v, a),
        begins(v[k], a) ==> some_begins(v, a),
        k + 1 < v.len() && v[k] == a && v[k + 1] == b ==> has_pair(v, a, b),
        (forall|i: int| 0 <= i < v.len() ==> !has_text(#[trigger] v[i], a)) ==> !some_has(v, a),
        (forall|i: int| 0 <= i < v.len() ==> !begins(#[trigger] v[i], a)) ==> !some_begins(v, a),
        (forall|i: int| 0 <= i < v.len() - 1 ==> #[trigger] v[i] != a || v[i + 1] != b)
            ==> !has_pair(v, a, b),
{
}

/// Two texts of which neither comes later than the other are the same.
pub proof fn precedes_antisymmetric(a: Seq<char>, b: Seq<char>)
    requires
        precedes(a, b),
        precedes(b, a),
    ensures
        a == b,
    decreases a.len(),
{
    if a.len() > 0 && b.len() > 0 {
        precedes_antisymmetric(a.skip(1), b.skip(1));
        assert forall|i: int| 0 <= i < a.len() implies a[i] == b[i] by {
            if i > 0 {
                assert(a.skip(1)[i - 1] == b.skip(1)[i - 1]);
            }
        }
    }
    assert(a =~= b);
}

/// A mark that stands once in a text, and whose first character stands nowhere before it, is replaced
/// where it stands; what is before it stays.
pub proof fn a_mark_is_filled_in(
    a: Seq<char>,
    mark: Seq<char>,
    b: Seq<char>,
    with: Seq<char>,
)
    requires
        mark.len() > 0,
        !a.contains(mark[0]),
    ensures
        replaced(a + mark + b, mark, with) == a + with + replaced(b, mark, with),
        replaced(a, mark, with) == a,
{
    let s = a + mark + b;
    let p = a.len() as int;
    assert forall|j: int| 0 <= j < p implies !occurs_at(s, mark, j) by {
        if occurs_at(s, mark, j) {
            assert(s.subrange(j, j + mark.len())[0] == s[j]);
            assert(s[j] == a[j]);
        }
    }
    replaced_up_to(s, mark, with, 0, p);
    assert(s.subrange(p, p + mark.len()) =~= mark);
    assert(occurs_at(s, mark, p));
    replaced_in_the_rest(s, mark, with, p + mark.len(), p + mark.len());
    assert(s.skip(p + mark.len()) =~= b);
    assert(s.subrange(0, p) =~= a);
    assert(replaced(s, mark, with) =~= a + with + replaced(b, mark, with));
    assert(!has_text(a, mark)) by {
        if has_text(a, mark) {
            let j = choose|j: int| occurs_at(a, mark, j);
            assert(a.subrange(j, j + mark.len())[0] == a[j]);
        }
    }
    replacing_from_the_beginning(a, mark, with);
}

/// Replacing the first or the last occurrence of a text leaves everything before and behind it as it
/// was; where it does not occur everything stays.
pub proof fn replacing_one_occurrence(s: Seq<char>, pat: Seq<char>, with: Seq<char>)
    requires
        pat.len() > 0,
    ensures
        !has_text(s, pat) ==> replaced_first(s, pat, with) == s && replaced_last(s, pat, with) == s,
        has_text(s, pat) ==> exists|a: Seq<char>, b: Seq<char>|
            {
                &&& s == #[trigger] (a + pat + b)
                &&& !has_text((a + pat).drop_last(), pat)
                &&& replaced_first(s, pat, with) == a + with + b
            },
        has_text(s, pat) ==> exists|a: Seq<char>, b: Seq<char>|
            {
                &&& s == #[trigger] (a + pat + b)
                &&& !has_text((pat + b).skip(1), pat)
                &&& replaced_last(s, pat, with) == a + with + b
            },
{
    if has_text(s, pat) {
        let i = choose|i: int| occurs_at(s, pat, i);
        assert(occurs_at(s, pat, i));
    }
    position_from_is_least(s, pat, 0);
    if s.len() + 1 >= pat.len() {
        last_position_is_greatest(s, pat, s.len() - pat.len());
    }
    match position(s, pat) {
        Some(p) => {
            let a = s.take(p);
            let b = s.skip(p + pat.len());
            assert(s.subrange(p, p + pat.len()) =~= pat);
            assert(s =~= a + pat + b) by {
                assert forall|k: int| p <= k < p + pat.len() implies s[k] == pat[k - p] by {
                    assert(s.subrange(p, p + pat.len())[k - p] == s[k]);
                }
            }
            let front = (a + pat).drop_last();
            assert forall|i: int| !occurs_at(front, pat, i) by {
                if occurs_at(front, pat, i) {
                    assert(front.subrange(i, i + pat.len()) =~= s.subrange(i, i + pat.len()));
                    assert(occurs_at(s, pat, i));
                }
            }
        },
        None => {},
    }
    match last_position(s, pat) {
        Some(p) => {
            let a = s.take(p);
            let b = s.skip(p + pat.len());
            assert(s.subrange(p, p + pat.len()) =~= pat);
            assert(s =~= a + pat + b) by {
                assert forall|k: int| p <= k < p + pat.len() implies s[k] == pat[k - p] by {
                    assert(s.subrange(p, p + pat.len())[k - p] == s[k]);
                }
            }
            let back = (pat + b).skip(1);
            assert forall|i: int| !occurs_at(back, pat, i) by {
                if occurs_at(back, pat, i) {
                    assert(back.subrange(i, i + pat.len()) =~= s.subrange(
                        p + 1 + i,
                        p + 1 + i + pat.len(),
                    ));
                    assert(occurs_at(s, pat, p + 1 + i));
                }
            }
        },
        None => {},
    }
}

/// What stands before an ending is what is left once it is taken off.
pub proof fn taking_off_an_ending(s: Seq<char>, rest: Seq<char>, suffix: Seq<char>)
    ensures
        stripped_suffix(s, suffix) == Some(rest) <==> s == rest + suffix,
{
    if s == rest + suffix {
        assert(s.skip(s.len() - suffix.len()) =~= suffix);
        assert(s.subrange(s.len() - suffix.len(), s.len() as int) =~= suffix);
        assert(s.take(s.len() - suffix.len()) =~= rest);
    }
    if stripped_suffix(s, suffix) == Some(rest) {
        assert(s =~= rest + suffix) by {
            assert(s.skip(s.len() - suffix.len()) =~= suffix);
        }
    }
}

/// A number is written in digits alone, and without a zero before them.
pub proof fn a_number_has_no_leading_zero(n: nat)
    ensures
        decimal_of(n).len() > 0,
        forall|i: int| 0 <= i < decimal_of(n).len() ==> '0' <= #[trigger] decimal_of(n)[i] <= '9',
        decimal_of(n)[0] == '0' ==> n == 0 && decimal_of(n).len() == 1,
    decreases n,
{
    if n >= 10 {
        a_number_has_no_leading_zero(n / 10);
        let front = decimal_of(n / 10);
        assert forall|i: int| 0 <= i < decimal_of(n).len() implies '0' <= #[trigger] decimal_of(
            n,
        )[i] <= '9' by {
            if i < front.len() {
                assert(decimal_of(n)[i] == front[i]);
            }
        }
        assert(decimal_of(n)[0] == front[0]);
    }
}

/// A last piece without the separator in it is one piece more.
pub proof fn adding_a_last_piece(s: Seq<char>, sep: char, last: Seq<char>)
    requires
        !last.contains(sep),
    ensures
        pieces(s + seq![sep] + last, sep) == pieces(s, sep).push(last),
    decreases last.len(),
{
    let whole = s + seq![sep] + last;
    if last.len() == 0 {
        assert(whole =~= s.push(sep));
        assert(whole.drop_last() =~= s);
        assert(last =~= Seq::<char>::empty());
    } else {
        let front = last.drop_last();
        assert(!front.contains(sep)) by {
            if front.contains(sep) {
                let k = choose|k: int| 0 <= k < front.len() && front[k] == sep;
                assert(last[k] == sep);
            }
        }
        adding_a_last_piece(s, sep, front);
        assert(whole.drop_last() =~= s + seq![sep] + front);
        assert(whole.last() == last.last());
        assert(last[last.len() - 1] != sep);
        let before = pieces(s, sep).push(front);
        assert(before.drop_last() =~= pieces(s, sep));
        assert(front.push(last.last()) =~= last);
    }
}

/// The characters that count as white space, all of them.
pub proof fn what_white_space_is(c: char)
    ensures
        is_white(c) <==> c == '\t' || c == '\n' || c == '\u{b}' || c == '\u{c}' || c == '\r' || c == ' '
            || c == '\u{85}' || c == '\u{a0}' || c == '\u{1680}' || c == '\u{2000}' || c
            == '\u{2001}' || c == '\u{2002}' || c == '\u{2003}' || c == '\u{2004}' || c
            == '\u{2005}' || c == '\u{2006}' || c == '\u{2007}' || c == '\u{2008}' || c
            == '\u{2009}' || c == '\u{200a}' || c == '\u{2028}' || c == '\u{2029}' || c
            == '\u{202f}' || c == '\u{205f}' || c == '\u{3000}',
{
}

} // verus!
