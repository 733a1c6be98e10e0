//! Which process owns a port, and whether that process is one of ours.
use vstd::prelude::*;

use crate::json::str_view;
use crate::platform::Platform;
use crate::text;

verus! {

/// The largest number that a process can have.
pub const PID_MAX: u32 = 0xffff_ffff;

/// How many ancestors of a process are looked at.
pub const ANCESTORS_MAX: u32 = 64;

/// The number of a process, as a text stands for it.
pub open spec fn pid_of(t: Seq<char>) -> Option<nat> {
    text::parsed_up_to(t, PID_MAX as nat)
}

/// A number as it is returned.
pub open spec fn as_number(r: Option<u32>) -> Option<nat> {
    match r {
        Some(n) => Some(n as nat),
        None => None,
    }
}

/// The number of a process, as a text stands for it.
fn read_pid(t: &str) -> (r: Option<u32>)
    ensures
        as_number(r) == pid_of(t@),
{
    text::parse_up_to(t, PID_MAX)
}

/// The owner of a port in the output of `lsof`: its first line.
pub open spec fn lsof_owner(out: Seq<char>) -> Option<nat> {
    let lines = text::lines_of(out);
    if lines.len() == 0 {
        None
    } else {
        pid_of(text::trimmed(lines[0]))
    }
}

/// Reads the owner of a port from the output of `lsof`.
pub fn parse_lsof_owner(out: &str) -> (r: Option<u32>)
    ensures
        as_number(r) == lsof_owner(out@),
{
    let lines = text::lines(out);
    assert(text::texts(lines@).len() == lines@.len());
    if lines.len() == 0 {
        return None;
    }
    assert(text::texts(lines@)[0] == lines@[0]@);
    let t = text::trim(lines[0].as_str());
    read_pid(t.as_str())
}

/// The port as it stands in an address, with the space behind it.
pub open spec fn port_mark(port: u16) -> Seq<char> {
    ":"@ + text::decimal_of(port as nat) + " "@
}

/// The port as it stands in an address, with the space behind it.
fn mark_of(port: u16) -> (r: String)
    ensures
        r@ == port_mark(port),
{
    let p = text::decimal(port as u64);
    let mut r = String::from_str(":");
    r.append(p.as_str());
    r.append(" ");
    r
}

/// The first line that contains both texts.
pub open spec fn line_with(lines: Seq<Seq<char>>, a: Seq<char>, b: Seq<char>) -> Option<Seq<char>>
    decreases lines.len(),
{
    if lines.len() == 0 {
        None
    } else if text::has_text(lines[0], a) && text::has_text(lines[0], b) {
        Some(lines[0])
    } else {
        line_with(lines.skip(1), a, b)
    }
}

/// The first line of `out` that contains both texts.
fn find_line(out: &str, a: &str, b: &str) -> (r: Option<String>)
    ensures
        match r {
            Some(l) => line_with(text::lines_of(out@), a@, b@) == Some(l@),
            None => line_with(text::lines_of(out@), a@, b@) is None,
        },
{
    let lines = text::lines(out);
    let ghost all = text::texts(lines@);
    let mut i: usize = 0;
    assert(all.skip(0) =~= all);
    while i < lines.len()
        invariant
            i <= lines@.len(),
            all == text::texts(lines@),
            all == text::lines_of(out@),
            line_with(all, a@, b@) == line_with(all.skip(i as int), a@, b@),
        decreases lines@.len() - i,
    {
        proof {
            assert(all[i as int] == lines@[i as int]@);
            assert(all.skip(i as int)[0] == all[i as int]);
            assert(all.skip(i as int).skip(1) =~= all.skip(i + 1));
        }
        if text::contains(lines[i].as_str(), a) && text::contains(lines[i].as_str(), b) {
            return Some(lines[i].clone());
        }
        i = i + 1;
    }
    None
}

/// Where the digits end that begin at `i` or before.
pub open spec fn digits_end(s: Seq<char>, i: int) -> int
    decreases s.len() - i,
{
    if 0 <= i < s.len() && text::is_digit(s[i]) {
        digits_end(s, i + 1)
    } else {
        i
    }
}

/// The number behind the first `pid=` of a line.
pub open spec fn pid_field(line: Seq<char>) -> Option<nat> {
    match text::position(line, "pid="@) {
        Some(p) => {
            let from = p + "pid="@.len();
            pid_of(line.subrange(from, digits_end(line, from)))
        },
        None => None,
    }
}

/// The number behind the first `pid=` of a line.
fn read_pid_field(line: &str) -> (r: Option<u32>)
    ensures
        as_number(r) == pid_field(line@),
{
    let name = "pid=";
    let p: usize = match text::find(line, name) {
        Some(p) => p,
        None => {
            return None;
        },
    };
    let v = text::chars_of(line);
    let n: usize = v.len();
    let from: usize = p + name.unicode_len();
    let mut i: usize = from;
    while i < n && v[i] >= '0' && v[i] <= '9'
        invariant
            from <= i <= n,
            n == v@.len(),
            v@ == line@,
            digits_end(line@, from as int) == digits_end(line@, i as int),
        decreases n - i,
    {
        i = i + 1;
    }
    let digits = text::string_of(&v, from, i);
    read_pid(digits.as_str())
}

/// The owner of `port` in the output of `ss`: the number behind `pid=` in the first line with that
/// port.
pub open spec fn ss_owner(out: Seq<char>, port: u16) -> Option<nat> {
    match line_with(text::lines_of(out), port_mark(port), Seq::empty()) {
        Some(l) => pid_field(l),
        None => None,
    }
}

/// Reads the owner of `port` from the output of `ss`.
pub fn parse_ss_owner(out: &str, port: u16) -> (r: Option<u32>)
    ensures
        as_number(r) == ss_owner(out@, port),
{
    let mark = mark_of(port);
    proof {
        reveal_strlit("");
        assert(""@ =~= Seq::<char>::empty());
    }
    match find_line(out, mark.as_str(), "") {
        Some(l) => read_pid_field(l.as_str()),
        None => None,
    }
}

/// The owner of `port` in the output of `netstat`: the last word of the first line with that port
/// that is listening.
pub open spec fn netstat_owner(out: Seq<char>, port: u16) -> Option<nat> {
    match line_with(text::lines_of(out), port_mark(port), "LISTENING"@) {
        Some(l) => if text::words_of(l).len() > 0 {
            pid_of(text::words_of(l).last())
        } else {
            None
        },
        None => None,
    }
}

/// Reads the owner of `port` from the output of `netstat`.
pub fn parse_netstat_owner(out: &str, port: u16) -> (r: Option<u32>)
    ensures
        as_number(r) == netstat_owner(out@, port),
{
    let mark = mark_of(port);
    let line = match find_line(out, mark.as_str(), "LISTENING") {
        Some(l) => l,
        None => {
            return None;
        },
    };
    let words = text::words(line.as_str());
    assert(text::texts(words@).len() == words@.len());
    if words.len() == 0 {
        return None;
    }
    assert(text::texts(words@).last() == words@[words@.len() - 1]@);
    read_pid(words[words.len() - 1].as_str())
}

/// The program that knows who owns a port, and its arguments.
pub open spec fn probe_line(port: u16, platform: Platform) -> Seq<Seq<char>> {
    let p = text::decimal_of(port as nat);
    match platform {
        Platform::Mac => seq!["lsof"@, "-tiTCP:"@ + p, "-sTCP:LISTEN"@],
        Platform::Linux => seq!["ss"@, "-ltnp"@, "sport = :"@ + p],
        Platform::Windows => seq!["netstat"@, "-ano"@],
    }
}

/// The program that knows who owns `port`, and its arguments.
pub fn probe_command(port: u16, platform: Platform) -> (r: Vec<String>)
    ensures
        text::texts(r@) == probe_line(port, platform),
{
    let p = text::decimal(port as u64);
    let mut r: Vec<String> = Vec::new();
    match platform {
        Platform::Mac => {
            let mut spec = String::from_str("-tiTCP:");
            spec.append(p.as_str());
            r.push(String::from_str("lsof"));
            r.push(spec);
            r.push(String::from_str("-sTCP:LISTEN"));
        },
        Platform::Linux => {
            let mut filter = String::from_str("sport = :");
            filter.append(p.as_str());
            r.push(String::from_str("ss"));
            r.push(String::from_str("-ltnp"));
            r.push(filter);
        },
        Platform::Windows => {
            r.push(String::from_str("netstat"));
            r.push(String::from_str("-ano"));
        },
    }
    assert(text::texts(r@) =~= probe_line(port, platform));
    r
}

/// The owner of `port`, from the output of the program that knows it. No output, and one that does
/// not name the owner, mean that the owner is not known.
pub open spec fn port_owner(port: u16, platform: Platform, out: Option<Seq<char>>) -> Option<nat> {
    match out {
        Some(o) => match platform {
            Platform::Mac => lsof_owner(o),
            Platform::Linux => ss_owner(o, port),
            Platform::Windows => netstat_owner(o, port),
        },
        None => None,
    }
}

/// The owner of `port`, from the output of the program that knows it, if that succeeded.
pub fn port_owner_pid(port: u16, platform: Platform, output: Option<&str>) -> (r: Option<u32>)
    ensures
        as_number(r) == port_owner(port, platform, str_view(output)),
{
    match output {
        Some(out) => match platform {
            Platform::Mac => parse_lsof_owner(out),
            Platform::Linux => parse_ss_owner(out, port),
            Platform::Windows => parse_netstat_owner(out, port),
        },
        None => None,
    }
}

/// What is known of how two processes are related.
#[derive(Debug)]
pub enum Kinship {
    /// The process groups of the two, as far as they are known.
    Groups { own: Option<u32>, leader: Option<u32> },
    /// The parents of the processes: pairs of a process and its parent.
    Parents(Vec<(u32, u32)>),
}

/// The parent of `pid`: that of the first pair.
pub open spec fn parent_of(parents: Seq<(u32, u32)>, pid: u32) -> Option<u32>
    decreases parents.len(),
{
    if parents.len() == 0 {
        None
    } else if parents[0].0 == pid {
        Some(parents[0].1)
    } else {
        parent_of(parents.skip(1), pid)
    }
}

/// `leader` is one of the first `steps` ancestors of `pid`.
pub open spec fn descends(parents: Seq<(u32, u32)>, pid: u32, leader: u32, steps: nat) -> bool
    decreases steps,
{
    if steps == 0 {
        false
    } else {
        match parent_of(parents, pid) {
            Some(p) => p == leader || descends(parents, p, leader, (steps - 1) as nat),
            None => false,
        }
    }
}

/// The parent of `pid`.
fn find_parent(parents: &Vec<(u32, u32)>, pid: u32) -> (r: Option<u32>)
    ensures
        r == parent_of(parents@, pid),
{
    let mut i: usize = 0;
    assert(parents@.skip(0) =~= parents@);
    while i < parents.len()
        invariant
            i <= parents@.len(),
            parent_of(parents@, pid) == parent_of(parents@.skip(i as int), pid),
        decreases parents@.len() - i,
    {
        assert(parents@.skip(i as int)[0] == parents@[i as int]);
        assert(parents@.skip(i as int).skip(1) =~= parents@.skip(i + 1));
        if parents[i].0 == pid {
            return Some(parents[i].1);
        }
        i = i + 1;
    }
    None
}

/// The process `pid` belongs to the group that `leader` leads.
pub open spec fn same_group(pid: u32, leader: u32, kin: Kinship) -> bool {
    pid == leader || match kin {
        Kinship::Groups { own, leader: led } => own is Some && led is Some && own == led,
        Kinship::Parents(parents) => descends(parents@, pid, leader, ANCESTORS_MAX as nat),
    }
}

/// Whether the process `pid` belongs to the group that `leader` leads. Where there are no process
/// groups it does if it descends from the leader.
pub fn is_same_process_group(pid: u32, leader: u32, kin: &Kinship) -> (r: bool)
    ensures
        r == same_group(pid, leader, *kin),
{
    if pid == leader {
        return true;
    }
    match kin {
        Kinship::Groups { own, leader: led } => match (own, led) {
            (Some(a), Some(b)) => *a == *b,
            _ => false,
        },
        Kinship::Parents(parents) => {
            let mut current: u32 = pid;
            let mut left: u32 = ANCESTORS_MAX;
            while left > 0
                invariant
                    left <= ANCESTORS_MAX,
                    descends(parents@, pid, leader, ANCESTORS_MAX as nat) == descends(
                        parents@,
                        current,
                        leader,
                        left as nat,
                    ),
                    *kin == Kinship::Parents(*parents),
                    pid != leader,
                decreases left,
            {
                match find_parent(parents, current) {
                    Some(p) => {
                        if p == leader {
                            return true;
                        }
                        current = p;
                    },
                    None => {
                        return false;
                    },
                }
                left = left - 1;
            }
            false
        },
    }
}

/// The first line with both texts is taken, whatever stands behind it; without such a line there is
/// none.
pub proof fn the_first_such_line_is_taken(
    before: Seq<Seq<char>>,
    line: Seq<char>,
    after: Seq<Seq<char>>,
    a: Seq<char>,
    b: Seq<char>,
)
    requires
        forall|i: int|
            0 <= i < before.len() ==> !text::has_text(#[trigger] before[i], a) || !text::has_text(
                before[i],
                b,
            ),
    ensures
        line_with(before, a, b) is None,
        text::has_text(line, a) && text::has_text(line, b) ==> line_with(
            before + seq![line] + after,
            a,
            b,
        ) == Some(line),
    decreases before.len(),
{
    let whole = before + seq![line] + after;
    if before.len() == 0 {
        assert(whole[0] == line);
    } else {
        assert(whole[0] == before[0]);
        assert(whole.skip(1) =~= before.skip(1) + seq![line] + after);
        assert forall|i: int| 0 <= i < before.skip(1).len() implies !text::has_text(
            #[trigger] before.skip(1)[i],
            a,
        ) || !text::has_text(before.skip(1)[i], b) by {
            assert(before.skip(1)[i] == before[i + 1]);
        }
        the_first_such_line_is_taken(before.skip(1), line, after, a, b);
    }
}

/// The number of a process in a line is the run of digits behind the first `pid=` of it; without
/// `pid=` there is none, nor where no digit follows.
pub proof fn the_number_stands_behind_its_name(
    line: Seq<char>,
    a: Seq<char>,
    digits: Seq<char>,
    rest: Seq<char>,
)
    requires
        forall|i: int| 0 <= i < digits.len() ==> '0' <= #[trigger] digits[i] <= '9',
        rest.len() > 0 ==> !('0' <= rest[0] <= '9'),
        !text::has_text((a + "pid="@).drop_last(), "pid="@),
    ensures
        line == a + "pid="@ + digits + rest && digits.len() > 0 ==> pid_field(line)
            == text::parsed_up_to(digits, 0xffff_ffff),
        line == a + "pid="@ + rest ==> pid_field(line) is None,
        !text::has_text(line, "pid="@) ==> pid_field(line) is None,
{
    let name = "pid="@;
    reveal_strlit("pid=");
    text::position_from_is_least(line, name, 0);
    if line == a + name + digits + rest || line == a + name + rest {
        let d = if line == a + name + digits + rest {
            digits
        } else {
            Seq::<char>::empty()
        };
        assert(line =~= a + name + d + rest);
        let p = a.len() as int;
        assert(line.subrange(p, p + name.len()) =~= name);
        assert(text::occurs_at(line, name, p));
        match text::position(line, name) {
            Some(q) => {
                if q < p {
                    let front = (a + name).drop_last();
                    assert(line.subrange(q, q + name.len()) =~= front.subrange(q, q + name.len()));
                    assert(text::occurs_at(front, name, q));
                }
                assert(q == p);
                let from = p + name.len();
                digits_end_behind(line, a + name, d, rest, 0);
                assert(line.subrange(from, from + d.len()) =~= d);
            },
            None => {},
        }
    }
    if !text::has_text(line, name) {
        match text::position(line, name) {
            Some(q) => {
                assert(text::occurs_at(line, name, q));
            },
            None => {},
        }
    }
}

proof fn digits_end_behind(
    line: Seq<char>,
    front: Seq<char>,
    digits: Seq<char>,
    rest: Seq<char>,
    i: int,
)
    requires
        line == front + digits + rest,
        0 <= i <= digits.len(),
        forall|j: int| 0 <= j < digits.len() ==> '0' <= #[trigger] digits[j] <= '9',
        rest.len() > 0 ==> !('0' <= rest[0] <= '9'),
    ensures
        digits_end(line, front.len() + i) == front.len() + digits.len(),
    decreases digits.len() - i,
{
    let at = front.len() + i;
    if i < digits.len() {
        assert(line[at] == digits[i]);
        digits_end_behind(line, front, digits, rest, i + 1);
    } else if rest.len() > 0 {
        assert(line[at] == rest[0]);
    }
}

/// Who owns a port: on Linux the process that the first line with the port names; on Windows the last
/// word of the first line with the port that is listening; on the Mac the first line. Lines on other
/// ports play no part, and where no line speaks of the port nobody is known to own it.
pub proof fn who_owns_a_port(
    port: u16,
    out: Seq<char>,
    before: Seq<Seq<char>>,
    line: Seq<char>,
    after: Seq<Seq<char>>,
)
    requires
        text::lines_of(out) == before + seq![line] + after,
    ensures
        ({
            let mark = ":"@ + text::decimal_of(port as nat) + " "@;
            let others = forall|i: int|
                0 <= i < before.len() ==> !text::has_text(#[trigger] before[i], mark);
            let silent = forall|i: int|
                0 <= i < before.len() ==> !text::has_text(#[trigger] before[i], mark)
                    || !text::has_text(before[i], "LISTENING"@);
            &&& others && text::has_text(line, mark) ==> port_owner(
                port,
                Platform::Linux,
                Some(out),
            ) == pid_field(line)
            &&& others && !text::has_text(line, mark) && after.len() == 0 ==> port_owner(
                port,
                Platform::Linux,
                Some(out),
            ) is None
            &&& silent && text::has_text(line, mark) && text::has_text(line, "LISTENING"@)
                && text::words_of(line).len() > 0 ==> port_owner(
                port,
                Platform::Windows,
                Some(out),
            ) == text::parsed_up_to(text::words_of(line).last(), 0xffff_ffff)
            &&& silent && !(text::has_text(line, mark) && text::has_text(line, "LISTENING"@))
                && after.len() == 0 ==> port_owner(port, Platform::Windows, Some(out)) is None
            &&& before.len() == 0 ==> port_owner(port, Platform::Mac, Some(out))
                == text::parsed_up_to(text::trimmed(line), 0xffff_ffff)
        }),
        port_owner(port, Platform::Linux, None) is None,
        port_owner(port, Platform::Windows, None) is None,
        port_owner(port, Platform::Mac, None) is None,
{
    let mark = ":"@ + text::decimal_of(port as nat) + " "@;
    let none = Seq::<char>::empty();
    let all = before + seq![line] + after;
    assert forall|s: Seq<char>| #[trigger] text::has_text(s, none) by {
        assert(s.subrange(0, 0) =~= none);
        assert(text::occurs_at(s, none, 0));
    }
    if forall|i: int| 0 <= i < before.len() ==> !text::has_text(#[trigger] before[i], mark) {
        the_first_such_line_is_taken(before, line, after, mark, none);
        if !text::has_text(line, mark) && after.len() == 0 {
            assert forall|i: int| 0 <= i < all.len() implies !text::has_text(
                #[trigger] all[i],
                mark,
            ) || !text::has_text(all[i], none) by {
                if i < before.len() {
                    assert(all[i] == before[i]);
                }
            }
            the_first_such_line_is_taken(all, line, after, mark, none);
        }
    }
    if forall|i: int|
        0 <= i < before.len() ==> !text::has_text(#[trigger] before[i], mark) || !text::has_text(
            before[i],
            "LISTENING"@,
        ) {
        the_first_such_line_is_taken(before, line, after, mark, "LISTENING"@);
        if !(text::has_text(line, mark) && text::has_text(line, "LISTENING"@)) && after.len() == 0 {
            assert forall|i: int| 0 <= i < all.len() implies !text::has_text(
                #[trigger] all[i],
                mark,
            ) || !text::has_text(all[i], "LISTENING"@) by {
                if i < before.len() {
                    assert(all[i] == before[i]);
                }
            }
            the_first_such_line_is_taken(all, line, after, mark, "LISTENING"@);
        }
    }
    if before.len() == 0 {
        assert(all[0] == line);
    }
}

/// A process descends from a leader exactly if a chain of at most so many parents leads there.
pub proof fn descent_is_a_chain_of_parents(
    parents: Seq<(u32, u32)>,
    pid: u32,
    leader: u32,
    steps: nat,
)
    ensures
        descends(parents, pid, leader, steps) <==> exists|chain: Seq<u32>|
            2 <= chain.len() <= steps + 1 && #[trigger] is_chain(parents, chain) && chain[0] == pid
                && chain.last() == leader,
    decreases steps,
{
    if steps > 0 {
        match parent_of(parents, pid) {
            Some(p) => {
                descent_is_a_chain_of_parents(parents, p, leader, (steps - 1) as nat);
                if p == leader {
                    let chain = seq![pid, p];
                    assert(is_chain(parents, chain));
                } else if descends(parents, p, leader, (steps - 1) as nat) {
                    let rest = choose|chain: Seq<u32>|
                        2 <= chain.len() <= steps && #[trigger] is_chain(parents, chain) && chain[0]
                            == p && chain.last() == leader;
                    let chain = seq![pid] + rest;
                    assert forall|i: int| 0 <= i < chain.len() - 1 implies parent_of(
                        parents,
                        #[trigger] chain[i],
                    ) == Some(chain[i + 1]) by {
                        if i > 0 {
                            assert(chain[i] == rest[i - 1]);
                            assert(chain[i + 1] == rest[i]);
                        }
                    }
                    assert(is_chain(parents, chain));
                    assert(chain.last() == rest.last());
                }
            },
            None => {},
        }
    }
    if exists|chain: Seq<u32>|
        2 <= chain.len() <= steps + 1 && #[trigger] is_chain(parents, chain) && chain[0] == pid
            && chain.last() == leader {
        let chain = choose|chain: Seq<u32>|
            2 <= chain.len() <= steps + 1 && #[trigger] is_chain(parents, chain) && chain[0] == pid
                && chain.last() == leader;
        assert(parent_of(parents, chain[0]) == Some(chain[1]));
        if chain.len() > 2 {
            let rest = chain.skip(1);
            assert forall|i: int| 0 <= i < rest.len() - 1 implies parent_of(
                parents,
                #[trigger] rest[i],
            ) == Some(rest[i + 1]) by {
                assert(rest[i] == chain[i + 1]);
                assert(rest[i + 1] == chain[i + 2]);
            }
            assert(is_chain(parents, rest));
            assert(rest.last() == chain.last());
        }
    }
}

/// Each process of the chain is followed by its parent.
pub open spec fn is_chain(parents: Seq<(u32, u32)>, chain: Seq<u32>) -> bool {
    forall|i: int|
        0 <= i < chain.len() - 1 ==> parent_of(parents, #[trigger] chain[i]) == Some(chain[i + 1])
}

/// The parent of a process is the one that the first entry of it names.
pub proof fn the_first_entry_names_the_parent(
    before: Seq<(u32, u32)>,
    pid: u32,
    parent: u32,
    after: Seq<(u32, u32)>,
)
    requires
        forall|i: int| 0 <= i < before.len() ==> (#[trigger] before[i]).0 != pid,
    ensures
        parent_of(before, pid) is None,
        parent_of(before + seq![(pid, parent)] + after, pid) == Some(parent),
    decreases before.len(),
{
    let whole = before + seq![(pid, parent)] + after;
    if before.len() == 0 {
        assert(whole[0] == (pid, parent));
    } else {
        assert(whole[0] == before[0]);
        assert(whole.skip(1) =~= before.skip(1) + seq![(pid, parent)] + after);
        assert forall|i: int| 0 <= i < before.skip(1).len() implies (#[trigger] before.skip(
            1,
        )[i]).0 != pid by {
            assert(before.skip(1)[i] == before[i + 1]);
        }
        the_first_entry_names_the_parent(before.skip(1), pid, parent, after);
    }
}

/// A process belongs to the group of a leader if it is the leader, if both are known to be in one
/// group, or, where there are no groups, if it descends from the leader within so many generations.
pub proof fn who_belongs_to_a_group(
    pid: u32,
    leader: u32,
    own: Option<u32>,
    led: Option<u32>,
    parents: Vec<(u32, u32)>,
)
    ensures
        same_group(pid, leader, Kinship::Groups { own, leader: led }) <==> pid == leader || (
        own is Some && own == led),
        same_group(pid, leader, Kinship::Parents(parents)) <==> pid == leader || exists|
            chain: Seq<u32>,
        |
            2 <= chain.len() <= 65 && #[trigger] is_chain(parents@, chain) && chain[0] == pid
                && chain.last() == leader,
{
    descent_is_a_chain_of_parents(parents@, pid, leader, ANCESTORS_MAX as nat);
}

/// The program that is asked who owns a port is asked for that port, except on Windows, where it lists
/// all of them.
pub proof fn who_is_asked_for_an_owner(port: u16)
    ensures
        text::joined(probe_line(port, Platform::Mac), " "@) == "lsof -tiTCP:"@ + text::decimal_of(
            port as nat,
        ) + " -sTCP:LISTEN"@,
        text::joined(probe_line(port, Platform::Linux), " "@) == "ss -ltnp sport = :"@
            + text::decimal_of(port as nat),
        text::joined(probe_line(port, Platform::Windows), " "@) == "netstat -ano"@,
{
    reveal_strlit(" ");
    reveal_strlit("lsof");
    reveal_strlit("-tiTCP:");
    reveal_strlit("-sTCP:LISTEN");
    reveal_strlit("lsof -tiTCP:");
    reveal_strlit(" -sTCP:LISTEN");
    reveal_strlit("ss");
    reveal_strlit("-ltnp");
    reveal_strlit("sport = :");
    reveal_strlit("ss -ltnp sport = :");
    reveal_strlit("netstat");
    reveal_strlit("-ano");
    reveal_strlit("netstat -ano");
    reveal_with_fuel(text::joined, 4);
    let p = text::decimal_of(port as nat);
    let mac = probe_line(port, Platform::Mac);
    let linux = probe_line(port, Platform::Linux);
    let windows = probe_line(port, Platform::Windows);
    assert(mac.drop_last() =~= seq!["lsof"@, "-tiTCP:"@ + p]);
    assert(mac.drop_last().drop_last() =~= seq!["lsof"@]);
    assert(linux.drop_last() =~= seq!["ss"@, "-ltnp"@]);
    assert(linux.drop_last().drop_last() =~= seq!["ss"@]);
    assert(windows.drop_last() =~= seq!["netstat"@]);
    assert(text::joined(mac, " "@) =~= "lsof -tiTCP:"@ + p + " -sTCP:LISTEN"@);
    assert(text::joined(linux, " "@) =~= "ss -ltnp sport = :"@ + p);
    assert(text::joined(windows, " "@) =~= "netstat -ano"@);
}

} // verus!
