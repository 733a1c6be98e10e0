//! Finding and stopping the backend processes that an earlier launcher run left behind.
//!
//! A process is judged by a snapshot of it. Vetoes come first: the launcher itself, its process
//! group and the processes it keeps track of are never stopped. Next comes the anchor: where the
//! repository is known, the executable must lie under its `toolkit` directory. Last comes the
//! evidence. Where the repository is not known the anchor cannot be checked, and only the command
//! line counts.
use vstd::prelude::*;

use crate::child_process::is_registered;
use crate::platform::{path_view, OsPath, OsPathView, Platform};
use crate::text;

verus! {

/// How many rounds a cleanup takes at most.
pub const CLEANUP_ROUNDS: u8 = 10;

/// How long a round waits for the processes that it stopped, in milliseconds.
pub const ROUND_PAUSE_MS: u64 = 200;

/// The number of characters that a command line is cut to.
pub const CMDLINE_MAX: usize = 200;

/// Snapshot of one process.
#[derive(Debug)]
pub struct Candidate {
    pub pid: u32,
    pub pgid: Option<u32>,
    pub exe: Option<OsPath>,
    pub cwd: Option<OsPath>,
    pub environ: Vec<String>,
    pub cmd: Vec<String>,
    /// The list of the arguments in the `Debug` format of the system's own strings, in which bytes
    /// that are no text stay visible.
    pub cmd_debug: String,
}

/// What a snapshot says of a process.
pub struct CandidateView {
    pub pid: u32,
    pub pgid: Option<u32>,
    pub exe: Option<OsPathView>,
    pub cwd: Option<OsPathView>,
    pub environ: Seq<Seq<char>>,
    pub cmd: Seq<Seq<char>>,
    pub cmd_debug: Seq<char>,
}

impl View for Candidate {
    type V = CandidateView;

    open spec fn view(&self) -> CandidateView {
        CandidateView {
            pid: self.pid,
            pgid: self.pgid,
            exe: path_view(self.exe),
            cwd: path_view(self.cwd),
            environ: text::texts(self.environ@),
            cmd: text::texts(self.cmd@),
            cmd_debug: self.cmd_debug@,
        }
    }
}

impl Clone for Candidate {
    fn clone(&self) -> (r: Candidate)
        ensures
            r@ == self@,
    {
        let exe = match &self.exe {
            Some(p) => Some(p.clone()),
            None => None,
        };
        let cwd = match &self.cwd {
            Some(p) => Some(p.clone()),
            None => None,
        };
        Candidate {
            pid: self.pid,
            pgid: self.pgid,
            exe,
            cwd,
            environ: text::copy_texts(&self.environ),
            cmd: text::copy_texts(&self.cmd),
            cmd_debug: self.cmd_debug.clone(),
        }
    }
}

/// What the snapshots of a list say.
pub open spec fn views(v: Seq<Candidate>) -> Seq<CandidateView> {
    v.map_values(|c: Candidate| c@)
}

/// Which piece of evidence shows that a process was left behind.
#[derive(Clone, Copy, Debug, PartialEq, Eq, Structural)]
pub enum EvidenceKind {
    /// The command line names the repository.
    E1,
    /// The command line runs the web interface on our port.
    E2,
    /// The process works in the repository.
    E3,
    /// The environment carries the launcher's mark.
    E4,
}

/// What the judgement of a process depends on besides the process itself.
#[derive(Debug)]
pub struct Surroundings {
    pub port: u16,
    pub repo: Option<OsPath>,
    pub launcher_pid: u32,
    pub launcher_pgid: Option<u32>,
    pub platform: Platform,
}

/// What the judgement of a process depends on besides the process itself.
pub struct SurroundingsView {
    pub port: u16,
    pub repo: Option<OsPathView>,
    pub launcher_pid: u32,
    pub launcher_pgid: Option<u32>,
    pub platform: Platform,
}

impl View for Surroundings {
    type V = SurroundingsView;

    open spec fn view(&self) -> SurroundingsView {
        SurroundingsView {
            port: self.port,
            repo: path_view(self.repo),
            launcher_pid: self.launcher_pid,
            launcher_pgid: self.launcher_pgid,
            platform: self.platform,
        }
    }
}

/// The process shares the launcher's process group.
pub open spec fn same_group(c: CandidateView, at: SurroundingsView) -> bool {
    c.pgid is Some && at.launcher_pgid is Some && c.pgid == at.launcher_pgid
}

/// The process must not be touched: it is the launcher, belongs to its process group, or is one
/// that the launcher keeps track of.
pub open spec fn vetoed(c: CandidateView, at: SurroundingsView, registered: Seq<u32>) -> bool {
    c.pid == at.launcher_pid || same_group(c, at) || registered.contains(c.pid)
}

/// The executable lies under the `toolkit` directory of the repository.
pub open spec fn anchored(c: CandidateView, repo: OsPathView) -> bool {
    c.exe is Some && repo.parts.push("toolkit"@).is_prefix_of(c.exe->0.parts)
}

/// The environment carries the launcher's mark.
pub open spec fn marked(c: CandidateView) -> bool {
    text::some_begins(c.environ, "ALAS_LAUNCHER_PID="@)
}

/// The port as it is written on a command line.
pub open spec fn port_text(port: u16) -> Seq<char> {
    text::decimal_of(port as nat)
}

/// The command line carries the port as an argument of its own, behind `--port`.
pub open spec fn port_option(c: CandidateView, port: u16) -> bool {
    text::has_pair(c.cmd, "--port"@, port_text(port))
}

/// The evidence against a process that lies under the `toolkit` directory of `repo`: the first
/// that holds of the four kinds.
pub open spec fn anchored_evidence(
    c: CandidateView,
    repo: OsPathView,
    port: u16,
    platform: Platform,
) -> Option<EvidenceKind> {
    if text::has_text(text::joined(c.cmd, " "@), repo.text) {
        Some(EvidenceKind::E1)
    } else if c.cmd.contains("gui.py"@) && port_option(c, port) {
        Some(EvidenceKind::E2)
    } else if platform == Platform::Windows || (c.cwd is Some && c.cwd->0.parts == repo.parts) {
        Some(EvidenceKind::E3)
    } else if marked(c) {
        Some(EvidenceKind::E4)
    } else {
        None
    }
}

/// The evidence against a process that is not vetoed.
pub open spec fn evidence(c: CandidateView, at: SurroundingsView) -> Option<EvidenceKind> {
    match at.repo {
        None => if text::some_has(c.cmd, "gui.py"@) && c.cmd.contains(port_text(at.port)) {
            Some(EvidenceKind::E2)
        } else {
            None
        },
        Some(repo) => if anchored(c, repo) {
            anchored_evidence(c, repo, at.port, at.platform)
        } else {
            None
        },
    }
}

/// The judgement of a process: the evidence on which it is to be stopped, or none if it is spared.
pub open spec fn judged(
    c: CandidateView,
    at: SurroundingsView,
    registered: Seq<u32>,
) -> Option<EvidenceKind> {
    if vetoed(c, at, registered) {
        None
    } else {
        evidence(c, at)
    }
}

/// Whether the process must not be touched.
fn is_vetoed(
    c: &Candidate,
    launcher_pid: u32,
    launcher_pgid: Option<u32>,
    registered: &Vec<u32>,
) -> (r: bool)
    ensures
        forall|at: SurroundingsView|
            at.launcher_pid == launcher_pid && at.launcher_pgid == launcher_pgid ==> r
                == #[trigger] vetoed(c@, at, registered@),
{
    if c.pid == launcher_pid {
        return true;
    }
    if let (Some(a), Some(b)) = (c.pgid, launcher_pgid) {
        if a == b {
            return true;
        }
    }
    is_registered(registered, c.pid)
}

/// What a judgement depends on besides the process, put together.
pub open spec fn surroundings(
    repo: Option<&OsPath>,
    port: u16,
    launcher_pid: u32,
    launcher_pgid: Option<u32>,
    platform: Platform,
) -> SurroundingsView {
    SurroundingsView {
        port,
        repo: match repo {
            Some(r) => Some(r@),
            None => None,
        },
        launcher_pid,
        launcher_pgid,
        platform,
    }
}

/// Judges whether `c` was left behind by an earlier run, and on which evidence. `registered` are
/// the processes that the launcher keeps track of.
pub fn is_stale_candidate(
    c: &Candidate,
    repo: Option<&OsPath>,
    port: u16,
    launcher_pid: u32,
    launcher_pgid: Option<u32>,
    registered: &Vec<u32>,
    platform: Platform,
) -> (r: Option<EvidenceKind>)
    ensures
        r == judged(
            c@,
            surroundings(repo, port, launcher_pid, launcher_pgid, platform),
            registered@,
        ),
{
    if is_vetoed(c, launcher_pid, launcher_pgid, registered) {
        return None;
    }
    let port_arg = text::decimal(port as u64);
    let home = match repo {
        None => {
            return if text::any_contains(&c.cmd, "gui.py") && text::is_among(
                &c.cmd,
                port_arg.as_str(),
            ) {
                Some(EvidenceKind::E2)
            } else {
                None
            };
        },
        Some(r) => r,
    };
    let under = match &c.exe {
        Some(exe) => exe.is_under(home, "toolkit"),
        None => false,
    };
    if !under {
        return None;
    }
    let line = text::join(&c.cmd, " ");
    if text::contains(line.as_str(), home.text.as_str()) {
        return Some(EvidenceKind::E1);
    }
    if text::is_among(&c.cmd, "gui.py") && text::pair_among(&c.cmd, "--port", port_arg.as_str()) {
        return Some(EvidenceKind::E2);
    }
    let works_there = match &c.cwd {
        Some(cwd) => cwd.same_place(home),
        None => false,
    };
    if platform == Platform::Windows || works_there {
        return Some(EvidenceKind::E3);
    }
    if text::any_starts_with(&c.environ, "ALAS_LAUNCHER_PID=") {
        return Some(EvidenceKind::E4);
    }
    None
}

/// The process looks enough like a backend on `port` to be judged: it runs the web interface on
/// that port, or carries the launcher's mark.
pub open spec fn suspected(c: CandidateView, port: u16) -> bool {
    (text::some_has(c.cmd, "gui.py"@) && port_option(c, port)) || marked(c)
}

/// The processes of a list that are suspected, in the order of the list.
pub open spec fn suspects(all: Seq<CandidateView>, port: u16) -> Seq<CandidateView>
    decreases all.len(),
{
    if all.len() == 0 {
        Seq::empty()
    } else {
        let before = suspects(all.drop_last(), port);
        if suspected(all.last(), port) {
            before.push(all.last())
        } else {
            before
        }
    }
}

/// A process with the number `pid` is in the list.
pub open spec fn lists(all: Seq<CandidateView>, pid: u32) -> bool {
    exists|i: int| 0 <= i < all.len() && (#[trigger] all[i]).pid == pid
}

/// The position of the first process with the number `pid`.
pub open spec fn first_with(all: Seq<CandidateView>, pid: u32) -> Option<int>
    decreases all.len(),
{
    if all.len() == 0 {
        None
    } else {
        match first_with(all.drop_last(), pid) {
            Some(i) => Some(i),
            None => if all.last().pid == pid {
                Some(all.len() - 1)
            } else {
                None
            },
        }
    }
}

/// The first process with the number `pid` is found where there is one.
pub proof fn first_with_finds(all: Seq<CandidateView>, pid: u32)
    ensures
        match first_with(all, pid) {
            Some(i) => 0 <= i < all.len() && all[i].pid == pid && forall|j: int|
                0 <= j < i ==> (#[trigger] all[j]).pid != pid,
            None => !lists(all, pid),
        },
    decreases all.len(),
{
    if all.len() > 0 {
        first_with_finds(all.drop_last(), pid);
        assert(forall|j: int| 0 <= j < all.len() - 1 ==> all.drop_last()[j] == #[trigger] all[j]);
    }
}

/// The processes that are judged: those suspected, and the owner of the port if it is not one of
/// them and a second listing still shows it.
pub open spec fn raw_candidates(
    port: u16,
    all: Seq<CandidateView>,
    owner: Option<u32>,
    fresh: Seq<CandidateView>,
) -> Seq<CandidateView> {
    let found = suspects(all, port);
    match owner {
        Some(pid) if !lists(found, pid) => match first_with(fresh, pid) {
            Some(i) => found.push(fresh[i]),
            None => found,
        },
        _ => found,
    }
}

/// Whether the process looks enough like a backend on `port` to be judged.
pub fn is_suspected(c: &Candidate, port: u16) -> (r: bool)
    ensures
        r == suspected(c@, port),
{
    let p = text::decimal(port as u64);
    (text::any_contains(&c.cmd, "gui.py") && text::pair_among(&c.cmd, "--port", p.as_str()))
        || text::any_starts_with(&c.environ, "ALAS_LAUNCHER_PID=")
}

/// The position of the first process with the number `pid`.
fn find_pid(all: &Vec<Candidate>, pid: u32) -> (r: Option<usize>)
    ensures
        match r {
            Some(i) => i < all@.len() && first_with(views(all@), pid) == Some(i as int),
            None => first_with(views(all@), pid) is None,
        },
{
    proof {
        first_with_finds(views(all@), pid);
    }
    let mut i: usize = 0;
    while i < all.len()
        invariant
            i <= all@.len(),
            forall|j: int| 0 <= j < i ==> (#[trigger] views(all@)[j]).pid != pid,
        decreases all@.len() - i,
    {
        assert(views(all@)[i as int] == all@[i as int]@);
        if all[i].pid == pid {
            proof {
                first_with_finds(views(all@), pid);
            }
            return Some(i);
        }
        i = i + 1;
    }
    None
}

/// Whether a second listing is needed to learn about the owner of the port.
pub fn needs_second_listing(port: u16, all: &Vec<Candidate>, owner: Option<u32>) -> (r: bool)
    ensures
        r == (owner is Some && !lists(suspects(views(all@), port), owner->0)),
{
    match owner {
        None => false,
        Some(pid) => {
            let none: Vec<Candidate> = Vec::new();
            let found = collect_raw_candidates(port, all, None, &none);
            proof {
                first_with_finds(views(found@), pid);
            }
            find_pid(&found, pid).is_none()
        },
    }
}

/// Picks the processes to be judged from a listing of all of them. `fresh` is a second listing; it
/// is read only where the owner of the port is not among those picked from the first.
pub fn collect_raw_candidates(
    port: u16,
    all: &Vec<Candidate>,
    owner: Option<u32>,
    fresh: &Vec<Candidate>,
) -> (raw: Vec<Candidate>)
    ensures
        views(raw@) == raw_candidates(port, views(all@), owner, views(fresh@)),
{
    let mut raw: Vec<Candidate> = Vec::new();
    let mut i: usize = 0;
    let ghost listed = views(all@);
    assert(views(raw@) =~= Seq::<CandidateView>::empty());
    assert(listed.take(0) =~= Seq::<CandidateView>::empty());
    while i < all.len()
        invariant
            i <= all@.len(),
            listed == views(all@),
            views(raw@) == suspects(listed.take(i as int), port),
        decreases all@.len() - i,
    {
        proof {
            assert(listed.take(i + 1).drop_last() =~= listed.take(i as int));
            assert(listed[i as int] == all@[i as int]@);
            assert(listed.take(i + 1).last() == listed[i as int]);
        }
        if is_suspected(&all[i], port) {
            let ghost before = raw@;
            let c = all[i].clone();
            raw.push(c);
            assert(views(raw@) =~= views(before).push(c@));
        }
        i = i + 1;
    }
    assert(listed.take(listed.len() as int) =~= listed);
    if let Some(pid) = owner {
        proof {
            first_with_finds(views(raw@), pid);
        }
        if find_pid(&raw, pid).is_none() {
            if let Some(k) = find_pid(fresh, pid) {
                let ghost before = raw@;
                let c = fresh[k].clone();
                assert(views(fresh@)[k as int] == fresh@[k as int]@);
                raw.push(c);
                assert(views(raw@) =~= views(before).push(c@));
            }
        }
    }
    raw
}

/// The first characters of a command line, as many as are shown.
pub open spec fn truncated(s: Seq<char>) -> Seq<char> {
    if s.len() <= CMDLINE_MAX {
        s
    } else {
        s.take(CMDLINE_MAX as int)
    }
}

/// Cuts a command line to the number of characters that are shown.
pub fn truncate_cmd(s: &str) -> (r: String)
    ensures
        r@ == truncated(s@),
{
    let v = text::chars_of(s);
    if v.len() <= CMDLINE_MAX {
        text::string_of(&v, 0, v.len())
    } else {
        text::string_of(&v, 0, CMDLINE_MAX)
    }
}

/// A cut command line is a beginning of the whole, at most `CMDLINE_MAX` characters long, and
/// cutting it again changes nothing.
pub proof fn truncation_laws(s: Seq<char>)
    ensures
        truncated(s).len() <= CMDLINE_MAX,
        truncated(s).is_prefix_of(s),
        truncated(truncated(s)) == truncated(s),
        s.len() <= CMDLINE_MAX ==> truncated(s) == s,
{
    assert(s.subrange(0, s.len() as int) =~= s);
}

/// A process that was not stopped, as it is reported.
#[derive(Debug)]
pub struct StaleProcessInfo {
    pub pid: u32,
    pub cmdline: String,
    pub evidence: String,
}

/// What is reported of a process that was not stopped.
pub struct StaleProcessInfoView {
    pub pid: u32,
    pub cmdline: Seq<char>,
    pub evidence: Seq<char>,
}

impl View for StaleProcessInfo {
    type V = StaleProcessInfoView;

    open spec fn view(&self) -> StaleProcessInfoView {
        StaleProcessInfoView { pid: self.pid, cmdline: self.cmdline@, evidence: self.evidence@ }
    }
}

impl Clone for StaleProcessInfo {
    fn clone(&self) -> (r: StaleProcessInfo)
        ensures
            r@ == self@,
    {
        StaleProcessInfo {
            pid: self.pid,
            cmdline: self.cmdline.clone(),
            evidence: self.evidence.clone(),
        }
    }
}

/// What is reported of the processes of a list.
pub open spec fn info_views(v: Seq<StaleProcessInfo>) -> Seq<StaleProcessInfoView> {
    v.map_values(|i: StaleProcessInfo| i@)
}

/// Why a cleanup did not succeed.
#[derive(Debug)]
pub enum StaleCleanupError {
    /// Processes that were still there after so many rounds.
    Survivors(Vec<StaleProcessInfo>, u8),
    /// The port is held by a process that is no backend of ours.
    ForeignPortOwner { port: u16, pid: u32, cmdline: String },
}

/// Why a cleanup did not succeed.
pub enum StaleCleanupErrorView {
    Survivors(Seq<StaleProcessInfoView>, u8),
    ForeignPortOwner { port: u16, pid: u32, cmdline: Seq<char> },
}

impl View for StaleCleanupError {
    type V = StaleCleanupErrorView;

    open spec fn view(&self) -> StaleCleanupErrorView {
        match self {
            StaleCleanupError::Survivors(v, rounds) => StaleCleanupErrorView::Survivors(
                info_views(v@),
                *rounds,
            ),
            StaleCleanupError::ForeignPortOwner { port, pid, cmdline } => {
                StaleCleanupErrorView::ForeignPortOwner { port: *port, pid: *pid, cmdline: cmdline@ }
            },
        }
    }
}

/// The number and the command line of a process, as a message names it.
pub open spec fn process_text(pid: u32, cmdline: Seq<char>) -> Seq<char> {
    "pid "@ + text::decimal_of(pid as nat) + ": "@ + cmdline
}

/// The message for an error.
pub open spec fn error_text(e: StaleCleanupErrorView) -> Seq<char> {
    match e {
        StaleCleanupErrorView::Survivors(v, rounds) => {
            "Failed to clean up stale ALAS processes after "@ + text::decimal_of(rounds as nat)
                + " attempts: "@ + text::joined(
                v.map_values(|i: StaleProcessInfoView| process_text(i.pid, i.cmdline)),
                ", "@,
            )
        },
        StaleCleanupErrorView::ForeignPortOwner { port, pid, cmdline } => {
            "Port "@ + port_text(port) + " is occupied by a non-ALAS process ("@ + process_text(
                pid,
                cmdline,
            ) + ")"@
        },
    }
}

/// The number and the command line of a process, as a message names it.
fn describe(pid: u32, cmdline: &str) -> (r: String)
    ensures
        r@ == process_text(pid, cmdline@),
{
    let n = text::decimal(pid as u64);
    let mut r = String::from_str("pid ");
    r.append(n.as_str());
    r.append(": ");
    r.append(cmdline);
    r
}

impl StaleCleanupError {
    /// The message for this error.
    pub fn to_string(&self) -> (r: String)
        ensures
            r@ == error_text(self@),
    {
        match self {
            StaleCleanupError::Survivors(v, rounds) => {
                let mut named: Vec<String> = Vec::new();
                let mut i: usize = 0;
                let ghost want = info_views(v@).map_values(
                    |i: StaleProcessInfoView| process_text(i.pid, i.cmdline),
                );
                while i < v.len()
                    invariant
                        i <= v@.len(),
                        named@.len() == i,
                        want.len() == v@.len(),
                        forall|j: int|
                            0 <= j < v@.len() ==> #[trigger] want[j] == process_text(
                                v@[j].pid,
                                v@[j].cmdline@,
                            ),
                        forall|j: int| 0 <= j < i ==> (#[trigger] named@[j])@ == want[j],
                    decreases v@.len() - i,
                {
                    named.push(describe(v[i].pid, v[i].cmdline.as_str()));
                    i = i + 1;
                }
                assert(text::texts(named@) =~= want);
                let list = text::join(&named, ", ");
                let n = text::decimal(*rounds as u64);
                let mut r = String::from_str("Failed to clean up stale ALAS processes after ");
                r.append(n.as_str());
                r.append(" attempts: ");
                r.append(list.as_str());
                r
            },
            StaleCleanupError::ForeignPortOwner { port, pid, cmdline } => {
                let p = text::decimal(*port as u64);
                let who = describe(*pid, cmdline.as_str());
                let mut r = String::from_str("Port ");
                r.append(p.as_str());
                r.append(" is occupied by a non-ALAS process (");
                r.append(who.as_str());
                r.append(")");
                r
            },
        }
    }
}

/// The command line of a process, as it is shown.
pub open spec fn shown_cmdline(c: CandidateView) -> Seq<char> {
    truncated(text::joined(c.cmd, " "@))
}

/// The command line of a process, as it is shown.
fn show_cmdline(c: &Candidate) -> (r: String)
    ensures
        r@ == shown_cmdline(c@),
{
    let line = text::join(&c.cmd, " ");
    truncate_cmd(line.as_str())
}

/// Which veto keeps a process from being stopped.
pub open spec fn veto_name(c: CandidateView, at: SurroundingsView, registered: Seq<u32>) -> Seq<
    char,
> {
    if c.pid == at.launcher_pid {
        "X1 self"@
    } else if registered.contains(c.pid) {
        "X3 registered"@
    } else {
        "X2 same pgid"@
    }
}

/// The report on a process that holds the port and must not be touched.
pub open spec fn veto_report(
    c: CandidateView,
    at: SurroundingsView,
    registered: Seq<u32>,
) -> StaleProcessInfoView {
    StaleProcessInfoView {
        pid: c.pid,
        cmdline: shown_cmdline(c),
        evidence: veto_name(c, at, registered) + " F/E "@ + c.cmd_debug,
    }
}

/// The report on a process that was to be stopped and is still there.
pub open spec fn survivor_report(c: CandidateView) -> StaleProcessInfoView {
    StaleProcessInfoView {
        pid: c.pid,
        cmdline: shown_cmdline(c),
        evidence: "verified survivor"@,
    }
}

/// The processes that are to be stopped, in the order of the list.
pub open spec fn stale_ones(
    raw: Seq<CandidateView>,
    at: SurroundingsView,
    registered: Seq<u32>,
) -> Seq<CandidateView>
    decreases raw.len(),
{
    if raw.len() == 0 {
        Seq::empty()
    } else {
        let before = stale_ones(raw.drop_last(), at, registered);
        if judged(raw.last(), at, registered) is Some {
            before.push(raw.last())
        } else {
            before
        }
    }
}

/// What a round does about the processes that were found.
#[derive(Debug)]
pub enum RoundPlan {
    /// There is nothing to do.
    Clear,
    /// The port is held by a process that is no backend of ours: nothing is stopped.
    Foreign { pid: u32, cmdline: String },
    /// Stop the targets; the owner of the port may be one that must not be touched.
    Strike { targets: Vec<Candidate>, blocked: Option<StaleProcessInfo> },
}

/// What a round does about the processes that were found.
pub enum RoundPlanView {
    Clear,
    Foreign { pid: u32, cmdline: Seq<char> },
    Strike { targets: Seq<CandidateView>, blocked: Option<StaleProcessInfoView> },
}

/// The report of an optional report.
pub open spec fn blocked_view(b: Option<StaleProcessInfo>) -> Option<StaleProcessInfoView> {
    match b {
        Some(i) => Some(i@),
        None => None,
    }
}

impl View for RoundPlan {
    type V = RoundPlanView;

    open spec fn view(&self) -> RoundPlanView {
        match self {
            RoundPlan::Clear => RoundPlanView::Clear,
            RoundPlan::Foreign { pid, cmdline } => RoundPlanView::Foreign {
                pid: *pid,
                cmdline: cmdline@,
            },
            RoundPlan::Strike { targets, blocked } => RoundPlanView::Strike {
                targets: views(targets@),
                blocked: blocked_view(*blocked),
            },
        }
    }
}

/// The process in the list that owns the port.
pub open spec fn port_holder(raw: Seq<CandidateView>, owner: Option<u32>) -> Option<CandidateView> {
    match owner {
        Some(pid) => match first_with(raw, pid) {
            Some(i) => Some(raw[i]),
            None => None,
        },
        None => None,
    }
}

/// What a round does: nothing if no process was found or none is stale; it refuses if the owner of
/// the port may be touched and is not stale; else it stops the stale ones, and reports the owner of
/// the port if that must not be touched.
pub open spec fn round_plan(
    raw: Seq<CandidateView>,
    owner: Option<u32>,
    at: SurroundingsView,
    registered: Seq<u32>,
) -> RoundPlanView {
    let holder = port_holder(raw, owner);
    if raw.len() == 0 {
        RoundPlanView::Clear
    } else if holder is Some && !vetoed(holder->0, at, registered) && evidence(holder->0, at) is None {
        RoundPlanView::Foreign { pid: holder->0.pid, cmdline: shown_cmdline(holder->0) }
    } else {
        let blocked = if holder is Some && vetoed(holder->0, at, registered) {
            Some(veto_report(holder->0, at, registered))
        } else {
            None
        };
        let targets = stale_ones(raw, at, registered);
        if targets.len() == 0 && blocked is None {
            RoundPlanView::Clear
        } else {
            RoundPlanView::Strike { targets, blocked }
        }
    }
}

/// The report on a process that holds the port and must not be touched.
fn report_veto(c: &Candidate, launcher_pid: u32, registered: &Vec<u32>) -> (r: StaleProcessInfo)
    ensures
        forall|at: SurroundingsView|
            at.launcher_pid == launcher_pid ==> r@ == #[trigger] veto_report(c@, at, registered@),
{
    let mut evidence = if c.pid == launcher_pid {
        String::from_str("X1 self")
    } else if is_registered(registered, c.pid) {
        String::from_str("X3 registered")
    } else {
        String::from_str("X2 same pgid")
    };
    evidence.append(" F/E ");
    evidence.append(c.cmd_debug.as_str());
    StaleProcessInfo { pid: c.pid, cmdline: show_cmdline(c), evidence }
}

/// Decides what a round does about the processes that were found.
pub fn plan_round(
    raw: &Vec<Candidate>,
    owner: Option<u32>,
    at: &Surroundings,
    registered: &Vec<u32>,
) -> (plan: RoundPlan)
    ensures
        plan@ == round_plan(views(raw@), owner, at@, registered@),
{
    if raw.len() == 0 {
        return RoundPlan::Clear;
    }
    let repo = at.repo.as_ref();
    let mut blocked: Option<StaleProcessInfo> = None;
    if let Some(pid) = owner {
        if let Some(k) = find_pid(raw, pid) {
            assert(views(raw@)[k as int] == raw@[k as int]@);
            let c = &raw[k];
            if is_vetoed(c, at.launcher_pid, at.launcher_pgid, registered) {
                blocked = Some(report_veto(c, at.launcher_pid, registered));
            } else {
                let verdict = is_stale_candidate(
                    c,
                    repo,
                    at.port,
                    at.launcher_pid,
                    at.launcher_pgid,
                    registered,
                    at.platform,
                );
                if verdict.is_none() {
                    return RoundPlan::Foreign { pid: c.pid, cmdline: show_cmdline(c) };
                }
            }
        }
    }
    let mut targets: Vec<Candidate> = Vec::new();
    let mut i: usize = 0;
    let ghost found = views(raw@);
    assert(views(targets@) =~= Seq::<CandidateView>::empty());
    assert(found.take(0) =~= Seq::<CandidateView>::empty());
    while i < raw.len()
        invariant
            i <= raw@.len(),
            found == views(raw@),
            surroundings(repo, at.port, at.launcher_pid, at.launcher_pgid, at.platform) == at@,
            views(targets@) == stale_ones(found.take(i as int), at@, registered@),
        decreases raw@.len() - i,
    {
        proof {
            assert(found.take(i + 1).drop_last() =~= found.take(i as int));
            assert(found[i as int] == raw@[i as int]@);
            assert(found.take(i + 1).last() == found[i as int]);
        }
        let verdict = is_stale_candidate(
            &raw[i],
            repo,
            at.port,
            at.launcher_pid,
            at.launcher_pgid,
            registered,
            at.platform,
        );
        if verdict.is_some() {
            let ghost before = targets@;
            let c = raw[i].clone();
            targets.push(c);
            assert(views(targets@) =~= views(before).push(c@));
        }
        i = i + 1;
    }
    assert(found.take(found.len() as int) =~= found);
    assert(views(targets@).len() == targets@.len());
    if targets.len() == 0 && blocked.is_none() {
        return RoundPlan::Clear;
    }
    RoundPlan::Strike { targets, blocked }
}

/// What a cleanup asks to be done next.
#[derive(Debug)]
pub enum SweepAction {
    /// List the processes, and find out who owns the port.
    Scan,
    /// Stop these processes one by one, show the message, and wait for `ROUND_PAUSE_MS`.
    Strike { pids: Vec<u32>, progress: String },
    /// The cleanup is over.
    Finish(Result<(), StaleCleanupError>),
}

/// What a cleanup asks to be done next.
pub enum SweepActionView {
    Scan,
    Strike { pids: Seq<u32>, progress: Seq<char> },
    Finish(Result<(), StaleCleanupErrorView>),
}

impl View for SweepAction {
    type V = SweepActionView;

    open spec fn view(&self) -> SweepActionView {
        match self {
            SweepAction::Scan => SweepActionView::Scan,
            SweepAction::Strike { pids, progress } => SweepActionView::Strike {
                pids: pids@,
                progress: progress@,
            },
            SweepAction::Finish(Ok(_)) => SweepActionView::Finish(Ok(())),
            SweepAction::Finish(Err(e)) => SweepActionView::Finish(Err(e@)),
        }
    }
}

/// A cleanup in progress: the round that it is in, and what the last strike was about.
#[derive(Debug)]
pub struct Sweep {
    pub at: Surroundings,
    pub max_rounds: u8,
    pub round: u8,
    pub targets: Vec<Candidate>,
    pub blocked: Option<StaleProcessInfo>,
}

/// A cleanup in progress.
pub struct SweepView {
    pub at: SurroundingsView,
    pub max_rounds: u8,
    pub round: u8,
    pub targets: Seq<CandidateView>,
    pub blocked: Option<StaleProcessInfoView>,
}

impl View for Sweep {
    type V = SweepView;

    open spec fn view(&self) -> SweepView {
        SweepView {
            at: self.at@,
            max_rounds: self.max_rounds,
            round: self.round,
            targets: views(self.targets@),
            blocked: blocked_view(self.blocked),
        }
    }
}

/// The message that a round shows.
pub open spec fn progress_text(round: u8, max_rounds: u8) -> Seq<char> {
    "Cleaning up stale ALAS processes (round "@ + text::decimal_of(round as nat) + "/"@
        + text::decimal_of(max_rounds as nat) + ")..."@
}

/// A cleanup after a scan, and what it asks to be done.
pub open spec fn after_scan(
    s: SweepView,
    raw: Seq<CandidateView>,
    owner: Option<u32>,
    registered: Seq<u32>,
) -> (SweepView, SweepActionView) {
    match round_plan(raw, owner, s.at, registered) {
        RoundPlanView::Clear => (s, SweepActionView::Finish(Ok(()))),
        RoundPlanView::Foreign { pid, cmdline } => (
            s,
            SweepActionView::Finish(
                Err(StaleCleanupErrorView::ForeignPortOwner { port: s.at.port, pid, cmdline }),
            ),
        ),
        RoundPlanView::Strike { targets, blocked } => (
            SweepView { targets, blocked, ..s },
            SweepActionView::Strike {
                pids: targets.map_values(|c: CandidateView| c.pid),
                progress: progress_text(s.round, s.max_rounds),
            },
        ),
    }
}

/// The processes that a strike was about, as they are reported when no round is left.
pub open spec fn survivors(s: SweepView) -> Seq<StaleProcessInfoView> {
    let struck = s.targets.map_values(|c: CandidateView| survivor_report(c));
    match s.blocked {
        Some(b) => seq![b] + struck,
        None => struck,
    }
}

/// A cleanup after a strike, and what it asks to be done.
pub open spec fn after_strike(s: SweepView) -> (SweepView, SweepActionView) {
    if s.round < s.max_rounds {
        (SweepView { round: (s.round + 1) as u8, ..s }, SweepActionView::Scan)
    } else if survivors(s).len() == 0 {
        (s, SweepActionView::Finish(Ok(())))
    } else {
        (
            s,
            SweepActionView::Finish(
                Err(StaleCleanupErrorView::Survivors(survivors(s), s.max_rounds)),
            ),
        )
    }
}

/// A cleanup at its beginning.
pub open spec fn sweep_begun(at: SurroundingsView, max_rounds: u8) -> SweepView {
    SweepView { at, max_rounds, round: 1, targets: Seq::empty(), blocked: None }
}

/// Starts the cleanup of the processes that an earlier run left behind.
pub fn kill_stale_alas(at: Surroundings) -> (r: (Sweep, SweepAction))
    ensures
        r.0@ == sweep_begun(at@, CLEANUP_ROUNDS),
        r.1@ == SweepActionView::Scan,
{
    Sweep::begin(at, CLEANUP_ROUNDS)
}

impl Sweep {
    /// Starts a cleanup of at most `max_rounds` rounds.
    pub fn begin(at: Surroundings, max_rounds: u8) -> (r: (Sweep, SweepAction))
        ensures
            r.0@ == sweep_begun(at@, max_rounds),
            r.1@ == (if max_rounds == 0 {
                SweepActionView::Finish(Ok(()))
            } else {
                SweepActionView::Scan
            }),
    {
        let sweep = Sweep { at, max_rounds, round: 1, targets: Vec::new(), blocked: None };
        assert(views(sweep.targets@) =~= Seq::<CandidateView>::empty());
        if max_rounds == 0 {
            (sweep, SweepAction::Finish(Ok(())))
        } else {
            (sweep, SweepAction::Scan)
        }
    }

    /// Takes the processes that a scan picked, the owner of the port and the processes that the
    /// launcher keeps track of.
    pub fn on_scan(&mut self, raw: &Vec<Candidate>, owner: Option<u32>, registered: &Vec<u32>) -> (r:
        SweepAction)
        ensures
            (final(self)@, r@) == after_scan(old(self)@, views(raw@), owner, registered@),
    {
        match plan_round(raw, owner, &self.at, registered) {
            RoundPlan::Clear => SweepAction::Finish(Ok(())),
            RoundPlan::Foreign { pid, cmdline } => SweepAction::Finish(
                Err(StaleCleanupError::ForeignPortOwner { port: self.at.port, pid, cmdline }),
            ),
            RoundPlan::Strike { targets, blocked } => {
                let mut pids: Vec<u32> = Vec::new();
                let mut i: usize = 0;
                while i < targets.len()
                    invariant
                        i <= targets@.len(),
                        pids@.len() == i,
                        forall|j: int| 0 <= j < i ==> #[trigger] pids@[j] == targets@[j].pid,
                    decreases targets@.len() - i,
                {
                    pids.push(targets[i].pid);
                    i = i + 1;
                }
                assert(pids@ =~= views(targets@).map_values(|c: CandidateView| c.pid));
                let a = text::decimal(self.round as u64);
                let b = text::decimal(self.max_rounds as u64);
                let mut progress = String::from_str("Cleaning up stale ALAS processes (round ");
                progress.append(a.as_str());
                progress.append("/");
                progress.append(b.as_str());
                progress.append(")...");
                self.targets = targets;
                self.blocked = blocked;
                SweepAction::Strike { pids, progress }
            },
        }
    }

    /// Takes notice that the strike was carried out and the pause is over.
    pub fn on_strike(&mut self) -> (r: SweepAction)
        ensures
            (final(self)@, r@) == after_strike(old(self)@),
    {
        if self.round < self.max_rounds {
            self.round = self.round + 1;
            return SweepAction::Scan;
        }
        let ghost want = survivors(self@);
        let mut left: Vec<StaleProcessInfo> = Vec::new();
        if let Some(b) = &self.blocked {
            left.push(b.clone());
        }
        let ghost head = info_views(left@);
        let mut i: usize = 0;
        let ghost struck = views(self.targets@).map_values(|c: CandidateView| survivor_report(c));
        assert(head + struck.take(0) =~= head);
        while i < self.targets.len()
            invariant
                i <= self.targets@.len(),
                struck == views(self.targets@).map_values(
                    |c: CandidateView| survivor_report(c),
                ),
                info_views(left@) == head + struck.take(i as int),
            decreases self.targets@.len() - i,
        {
            let c = &self.targets[i];
            let info = StaleProcessInfo {
                pid: c.pid,
                cmdline: show_cmdline(c),
                evidence: String::from_str("verified survivor"),
            };
            let ghost before = left@;
            left.push(info);
            proof {
                assert(struck[i as int] == info@);
                assert(struck.take(i + 1) =~= struck.take(i as int).push(info@));
                assert(info_views(left@) =~= info_views(before).push(info@));
                assert((head + struck.take(i as int)).push(info@) =~= head + struck.take(i + 1));
            }
            i = i + 1;
        }
        assert(struck.take(struck.len() as int) =~= struck);
        assert(info_views(left@) =~= want);
        if left.len() == 0 {
            SweepAction::Finish(Ok(()))
        } else {
            SweepAction::Finish(Err(StaleCleanupError::Survivors(left, self.max_rounds)))
        }
    }
}

/// Every process that a round stops was found by the scan, is stale, and may be touched.
pub proof fn targets_are_stale(raw: Seq<CandidateView>, at: SurroundingsView, registered: Seq<u32>)
    ensures
        forall|i: int|
            0 <= i < stale_ones(raw, at, registered).len() ==> {
                let c = #[trigger] stale_ones(raw, at, registered)[i];
                raw.contains(c) && !vetoed(c, at, registered) && evidence(c, at) is Some
            },
    decreases raw.len(),
{
    if raw.len() > 0 {
        targets_are_stale(raw.drop_last(), at, registered);
        let before = stale_ones(raw.drop_last(), at, registered);
        let all = stale_ones(raw, at, registered);
        assert forall|i: int| 0 <= i < all.len() implies {
            let c = #[trigger] all[i];
            raw.contains(c) && !vetoed(c, at, registered) && evidence(c, at) is Some
        } by {
            if i < before.len() {
                assert(all[i] == before[i]);
                let k = choose|k: int| 0 <= k < raw.drop_last().len() && raw.drop_last()[k] == before[i];
                assert(raw[k] == before[i]);
            } else {
                assert(all[i] == raw[raw.len() - 1]);
            }
        }
    }
}

/// No round stops the launcher, a process of its group, or one that it keeps track of, whatever
/// the evidence; and where the repository is known it stops only what runs from its toolkit.
pub proof fn vetoed_processes_are_spared(
    raw: Seq<CandidateView>,
    owner: Option<u32>,
    at: SurroundingsView,
    registered: Seq<u32>,
)
    ensures
        match round_plan(raw, owner, at, registered) {
            RoundPlanView::Strike { targets, blocked } => forall|i: int|
                0 <= i < targets.len() ==> {
                    let c = #[trigger] targets[i];
                    &&& raw.contains(c)
                    &&& !vetoed(c, at, registered)
                    &&& judged(c, at, registered) is Some
                    &&& at.repo is Some ==> anchored(c, at.repo->0)
                },
            _ => true,
        },
{
    targets_are_stale(raw, at, registered);
}

/// Where the repository is not known only the command line counts as evidence.
pub proof fn only_the_command_line_counts_without_a_repository(
    c: CandidateView,
    at: SurroundingsView,
    registered: Seq<u32>,
)
    requires
        at.repo is None,
    ensures
        judged(c, at, registered) is None || judged(c, at, registered) == Some(EvidenceKind::E2),
{
}

/// Where a process that is no backend of ours holds the port, nothing is stopped and the start is
/// refused with its number.
pub proof fn foreign_port_owner_stops_nothing(
    s: SweepView,
    raw: Seq<CandidateView>,
    pid: u32,
    registered: Seq<u32>,
)
    requires
        port_holder(raw, Some(pid)) is Some,
        !vetoed(port_holder(raw, Some(pid))->0, s.at, registered),
        evidence(port_holder(raw, Some(pid))->0, s.at) is None,
    ensures
        after_scan(s, raw, Some(pid), registered).1 == SweepActionView::Finish(
            Err(
                StaleCleanupErrorView::ForeignPortOwner {
                    port: s.at.port,
                    pid,
                    cmdline: shown_cmdline(port_holder(raw, Some(pid))->0),
                },
            ),
        ),
{
    first_with_finds(raw, pid);
}

/// Where the owner of the port must not be touched the cleanup goes on to its last round, and then
/// reports that owner: it never ends well.
pub proof fn vetoed_port_owner_is_reported(
    s: SweepView,
    raw: Seq<CandidateView>,
    owner: Option<u32>,
    registered: Seq<u32>,
)
    requires
        port_holder(raw, owner) is Some,
        vetoed(port_holder(raw, owner)->0, s.at, registered),
        s.round == s.max_rounds,
    ensures
        ({
            let (struck, action) = after_scan(s, raw, owner, registered);
            &&& action is Strike
            &&& after_strike(struck).1 matches SweepActionView::Finish(Err(e))
            &&& e matches StaleCleanupErrorView::Survivors(left, rounds)
            &&& rounds == s.max_rounds
            &&& left.len() > 0
            &&& left[0] == veto_report(port_holder(raw, owner)->0, s.at, registered)
        }),
{
    first_with_finds(raw, owner->0);
}

/// A strike is never about nothing, so a cleanup whose last round strikes ends with the processes
/// that it could not stop.
pub proof fn last_strike_reports_survivors(
    s: SweepView,
    raw: Seq<CandidateView>,
    owner: Option<u32>,
    registered: Seq<u32>,
)
    requires
        after_scan(s, raw, owner, registered).1 is Strike,
        s.round >= s.max_rounds,
    ensures
        ({
            let struck = after_scan(s, raw, owner, registered).0;
            &&& survivors(struck).len() > 0
            &&& after_strike(struck).1 == SweepActionView::Finish(
                Err(StaleCleanupErrorView::Survivors(survivors(struck), s.max_rounds)),
            )
        }),
{
}

/// A cleanup of at least one round scans in the rounds from 1 to the last and in no other: each
/// strike leads to the next round or to the end.
pub proof fn rounds_are_bounded(
    s: SweepView,
    raw: Seq<CandidateView>,
    owner: Option<u32>,
    registered: Seq<u32>,
)
    requires
        1 <= s.round <= s.max_rounds,
    ensures
        ({
            let scanned = after_scan(s, raw, owner, registered);
            &&& scanned.0.round == s.round
            &&& scanned.0.max_rounds == s.max_rounds
            &&& scanned.1 !is Scan
        }),
        ({
            let (next, action) = after_strike(s);
            &&& action !is Strike
            &&& action is Scan <==> s.round < s.max_rounds
            &&& action is Scan ==> next.round == s.round + 1 && next.round <= next.max_rounds
        }),
{
}

/// What a scan has found: the processes, the owner of the port, and the processes that the launcher
/// keeps track of.
pub struct ScanView {
    pub raw: Seq<CandidateView>,
    pub owner: Option<u32>,
    pub registered: Seq<u32>,
}

/// What became of a cleanup: where it stands, what it asks for, how many scans it has taken, and the
/// processes that it had stopped after each of them.
pub struct SweepRun {
    pub state: SweepView,
    pub action: SweepActionView,
    pub scans: nat,
    pub strikes: Seq<Seq<u32>>,
}

/// What becomes of a cleanup that scans in its first round, if its scans find these things one after
/// another. Every strike is carried out; what is found after the end plays no part.
pub open spec fn swept(s: SweepView, scans: Seq<ScanView>) -> SweepRun
    decreases scans.len(),
{
    if scans.len() == 0 {
        SweepRun { state: s, action: SweepActionView::Scan, scans: 0, strikes: Seq::empty() }
    } else {
        let before = swept(s, scans.drop_last());
        let scan = scans.last();
        let (scanned, action) = after_scan(before.state, scan.raw, scan.owner, scan.registered);
        if before.action !is Scan {
            before
        } else if action is Strike {
            let (next, then_action) = after_strike(scanned);
            SweepRun {
                state: next,
                action: then_action,
                scans: before.scans + 1,
                strikes: before.strikes.push(action->pids),
            }
        } else {
            SweepRun { state: scanned, action, scans: before.scans + 1, strikes: before.strikes }
        }
    }
}

/// A process with the number `pid` was found that is stale and may be touched; where the repository
/// is known it runs from its toolkit.
pub open spec fn may_be_struck(pid: u32, scan: ScanView, at: SurroundingsView) -> bool {
    exists|i: int|
        0 <= i < scan.raw.len() && {
            let c = #[trigger] scan.raw[i];
            &&& c.pid == pid
            &&& !vetoed(c, at, scan.registered)
            &&& judged(c, at, scan.registered) is Some
            &&& at.repo is Some ==> anchored(c, at.repo->0)
        }
}

/// Each strike was allowed by the scan before it, and was neither on the launcher nor on a process
/// that it keeps track of.
pub open spec fn strikes_allowed(
    strikes: Seq<Seq<u32>>,
    scans: Seq<ScanView>,
    at: SurroundingsView,
) -> bool {
    &&& strikes.len() <= scans.len()
    &&& forall|k: int, i: int|
        0 <= k < strikes.len() && 0 <= i < strikes[k].len() ==> {
            let pid = #[trigger] strikes[k][i];
            &&& may_be_struck(pid, scans[k], at)
            &&& pid != at.launcher_pid
            &&& !scans[k].registered.contains(pid)
        }
}

/// A whole cleanup of at least one round, whatever its scans find. It takes at most `max_rounds` of
/// them, and after so many it is over. After each it has stopped only processes that this very scan
/// has found, that are stale and that may be touched. It ends well only after a scan that leaves
/// nothing to do; it refuses the start only after one that finds a stranger on the port, on which it
/// does not strike; and where it ends with survivors it has struck in every round.
pub proof fn a_whole_cleanup(at: SurroundingsView, max_rounds: u8, scans: Seq<ScanView>)
    requires
        max_rounds >= 1,
    ensures
        ({
            let run = swept(sweep_begun(at, max_rounds), scans);
            let last = scans[run.scans - 1];
            let plan = round_plan(last.raw, last.owner, at, last.registered);
            &&& run.state.at == at && run.state.max_rounds == max_rounds
            &&& run.scans <= max_rounds && run.scans <= scans.len()
            &&& scans.len() >= max_rounds ==> run.action is Finish
            &&& strikes_allowed(run.strikes, scans, at)
            &&& match run.action {
                SweepActionView::Scan => {
                    &&& run.scans == run.strikes.len() == scans.len()
                    &&& run.state.round == run.scans + 1
                },
                SweepActionView::Strike { .. } => false,
                SweepActionView::Finish(Ok(_)) => {
                    &&& run.scans == run.strikes.len() + 1
                    &&& plan is Clear
                },
                SweepActionView::Finish(
                    Err(StaleCleanupErrorView::ForeignPortOwner { .. }),
                ) => {
                    &&& run.scans == run.strikes.len() + 1
                    &&& plan is Foreign
                },
                SweepActionView::Finish(Err(StaleCleanupErrorView::Survivors(left, rounds))) => {
                    &&& run.scans == run.strikes.len() == rounds == max_rounds
                    &&& left.len() > 0
                },
            }
        }),
    decreases scans.len(),
{
    if scans.len() > 0 {
        let front = scans.drop_last();
        a_whole_cleanup(at, max_rounds, front);
        let before = swept(sweep_begun(at, max_rounds), front);
        let run = swept(sweep_begun(at, max_rounds), scans);
        let scan = scans.last();
        let (scanned, action) = after_scan(before.state, scan.raw, scan.owner, scan.registered);
        let targets = stale_ones(scan.raw, at, scan.registered);
        targets_are_stale(scan.raw, at, scan.registered);
        if before.action is Scan {
            assert(scans[run.scans - 1] == scan);
        } else {
            assert(front[run.scans - 1] == scans[run.scans - 1]);
        }
        assert forall|k: int, i: int|
            0 <= k < run.strikes.len() && 0 <= i < run.strikes[k].len() implies {
            let pid = #[trigger] run.strikes[k][i];
            &&& may_be_struck(pid, scans[k], at)
            &&& pid != at.launcher_pid
            &&& !scans[k].registered.contains(pid)
        } by {
            if k < before.strikes.len() {
                assert(before.strikes[k][i] == run.strikes[k][i]);
                assert(front[k] == scans[k]);
            } else {
                let c = targets[i];
                assert(run.strikes[k][i] == c.pid);
                let j = choose|j: int| 0 <= j < scan.raw.len() && scan.raw[j] == c;
                assert(scan.raw[j].pid == c.pid);
            }
        }
    }
}

/// Every process of a scan that is judged stale is stopped, unless a stranger on the port refuses the
/// start; nothing else is, and they are stopped in the order of the scan. So a round has nothing to
/// do only where no process of the scan is stale.
pub proof fn every_stale_process_is_struck(
    raw: Seq<CandidateView>,
    owner: Option<u32>,
    at: SurroundingsView,
    registered: Seq<u32>,
)
    ensures
        ({
            let plan = round_plan(raw, owner, at, registered);
            &&& forall|i: int|
                0 <= i < raw.len() && judged(#[trigger] raw[i], at, registered) is Some
                    ==> plan is Foreign || (plan is Strike && plan->targets.contains(raw[i]))
            &&& plan is Strike ==> plan->targets == raw.filter(
                |c: CandidateView| judged(c, at, registered) is Some,
            )
        }),
{
    stale_ones_are_all(raw, at, registered);
    let stale = stale_ones(raw, at, registered);
    assert forall|i: int| 0 <= i < raw.len() && judged(
        #[trigger] raw[i],
        at,
        registered,
    ) is Some implies stale.contains(raw[i]) by {
        stale_ones_contain(raw, at, registered, i);
    }
}

proof fn stale_ones_are_all(raw: Seq<CandidateView>, at: SurroundingsView, registered: Seq<u32>)
    ensures
        stale_ones(raw, at, registered) == raw.filter(
            |c: CandidateView| judged(c, at, registered) is Some,
        ),
    decreases raw.len(),
{
    reveal(Seq::filter);
    if raw.len() > 0 {
        stale_ones_are_all(raw.drop_last(), at, registered);
    } else {
        assert(raw =~= Seq::<CandidateView>::empty());
    }
}

proof fn stale_ones_contain(
    raw: Seq<CandidateView>,
    at: SurroundingsView,
    registered: Seq<u32>,
    i: int,
)
    requires
        0 <= i < raw.len(),
        judged(raw[i], at, registered) is Some,
    ensures
        stale_ones(raw, at, registered).contains(raw[i]),
    decreases raw.len(),
{
    let front = raw.drop_last();
    let before = stale_ones(front, at, registered);
    let all = stale_ones(raw, at, registered);
    if i < front.len() {
        assert(front[i] == raw[i]);
        stale_ones_contain(front, at, registered, i);
        let k = choose|k: int| 0 <= k < before.len() && before[k] == raw[i];
        assert(all[k] == raw[i]);
    } else {
        assert(all[all.len() - 1] == raw[i]);
    }
}

/// A process is stopped exactly if it may be touched and there is evidence against it. It may be
/// touched if it is not the launcher, not of its process group and none that it keeps track of.
/// Without a repository the evidence is a command line with the web interface and the port. With
/// one, the program must lie under the toolkit of the repository; the evidence is then that the
/// command line names the repository, or runs the web interface on the port, or that the process
/// works in the repository, which counts as given on Windows, or that its environment is marked.
pub proof fn who_is_stale(c: CandidateView, at: SurroundingsView, registered: Seq<u32>)
    ensures
        judged(c, at, registered) is Some <==> {
            &&& c.pid != at.launcher_pid
            &&& c.pgid is None || at.launcher_pgid is None || c.pgid->0 != at.launcher_pgid->0
            &&& forall|i: int| 0 <= i < registered.len() ==> #[trigger] registered[i] != c.pid
            &&& match at.repo {
                None => {
                    &&& exists|i: int|
                        0 <= i < c.cmd.len() && text::has_text(#[trigger] c.cmd[i], "gui.py"@)
                    &&& exists|i: int|
                        0 <= i < c.cmd.len() && #[trigger] c.cmd[i] == text::decimal_of(
                            at.port as nat,
                        )
                },
                Some(repo) => {
                    &&& lies_under_toolkit(c.exe, repo)
                    &&& {
                        ||| text::has_text(text::joined(c.cmd, " "@), repo.text)
                        ||| {
                            &&& exists|i: int|
                                0 <= i < c.cmd.len() && #[trigger] c.cmd[i] == "gui.py"@
                            &&& exists|i: int|
                                0 <= i < c.cmd.len() - 1 && #[trigger] c.cmd[i] == "--port"@
                                    && c.cmd[i + 1] == text::decimal_of(at.port as nat)
                        }
                        ||| at.platform == Platform::Windows
                        ||| c.cwd is Some && c.cwd->0.parts == repo.parts
                        ||| exists|i: int|
                            0 <= i < c.environ.len() && text::begins(
                                #[trigger] c.environ[i],
                                "ALAS_LAUNCHER_PID="@,
                            )
                    }
                },
            }
        },
{
    if at.repo is Some {
        let repo = at.repo->0;
        let want = repo.parts.push("toolkit"@);
        if c.exe is Some {
            let parts = c.exe->0.parts;
            if anchored(c, repo) {
                assert forall|i: int| 0 <= i < repo.parts.len() implies #[trigger] parts[i]
                    == repo.parts[i] by {
                    assert(want[i] == parts.subrange(0, want.len() as int)[i]);
                }
                assert(want[repo.parts.len() as int] == parts.subrange(0, want.len() as int)[
                    repo.parts.len() as int]);
            }
            if lies_under_toolkit(c.exe, repo) {
                assert(want =~= parts.subrange(0, want.len() as int));
            }
        }
    }
}

/// A program lies under the toolkit of a repository: its path begins with that of the repository, and
/// then comes `toolkit`.
pub open spec fn lies_under_toolkit(exe: Option<OsPathView>, repo: OsPathView) -> bool {
    &&& exe is Some
    &&& exe->0.parts.len() > repo.parts.len()
    &&& forall|i: int|
        0 <= i < repo.parts.len() ==> #[trigger] exe->0.parts[i] == repo.parts[i]
    &&& exe->0.parts[repo.parts.len() as int] == "toolkit"@
}

/// The kinds of evidence are looked at in their order, and the first that holds is named.
pub proof fn the_first_evidence_is_named(
    c: CandidateView,
    at: SurroundingsView,
    registered: Seq<u32>,
)
    requires
        judged(c, at, registered) is Some,
        at.repo is Some,
    ensures
        ({
            let kind = judged(c, at, registered)->0;
            let named = text::has_text(text::joined(c.cmd, " "@), at.repo->0.text);
            let serving = c.cmd.contains("gui.py"@) && text::has_pair(
                c.cmd,
                "--port"@,
                text::decimal_of(at.port as nat),
            );
            let working = at.platform == Platform::Windows || (c.cwd is Some && c.cwd->0.parts
                == at.repo->0.parts);
            &&& kind == EvidenceKind::E1 <==> named
            &&& kind == EvidenceKind::E2 <==> !named && serving
            &&& kind == EvidenceKind::E3 <==> !named && !serving && working
            &&& kind == EvidenceKind::E4 <==> !named && !serving && !working
        }),
{
}

/// A scan picks every process that runs the web interface on the port or is marked as one of a
/// launcher, in the order of the listing. Behind them comes the owner of the port, from the second
/// listing, if it is not one of them already and is found there. It picks no other.
pub proof fn who_is_scanned(
    port: u16,
    all: Seq<CandidateView>,
    owner: Option<u32>,
    fresh: Seq<CandidateView>,
)
    ensures
        ({
            let raw = raw_candidates(port, all, owner, fresh);
            let found = all.filter(
                |c: CandidateView|
                    (exists|i: int|
                        0 <= i < c.cmd.len() && text::has_text(#[trigger] c.cmd[i], "gui.py"@)) && (
                    exists|i: int|
                        0 <= i < c.cmd.len() - 1 && #[trigger] c.cmd[i] == "--port"@ && c.cmd[i + 1]
                            == text::decimal_of(port as nat)) || (exists|i: int|
                        0 <= i < c.environ.len() && text::begins(
                            #[trigger] c.environ[i],
                            "ALAS_LAUNCHER_PID="@,
                        )),
            );
            let known = owner is None || exists|i: int|
                0 <= i < found.len() && (#[trigger] found[i]).pid == owner->0;
            &&& known ==> raw == found
            &&& !known && (forall|k: int|
                0 <= k < fresh.len() ==> (#[trigger] fresh[k]).pid != owner->0) ==> raw == found
            &&& forall|k: int|
                !known && 0 <= k < fresh.len() && (#[trigger] fresh[k]).pid == owner->0 && (forall|
                    j: int,
                |
                    0 <= j < k ==> (#[trigger] fresh[j]).pid != owner->0) ==> raw == found.push(
                    fresh[k],
                )
        }),
{
    let pred = |c: CandidateView|
        (exists|i: int| 0 <= i < c.cmd.len() && text::has_text(#[trigger] c.cmd[i], "gui.py"@)) && (
        exists|i: int|
            0 <= i < c.cmd.len() - 1 && #[trigger] c.cmd[i] == "--port"@ && c.cmd[i + 1]
                == text::decimal_of(port as nat)) || (exists|i: int|
            0 <= i < c.environ.len() && text::begins(
                #[trigger] c.environ[i],
                "ALAS_LAUNCHER_PID="@,
            ));
    assert forall|c: CandidateView| #[trigger] pred(c) == suspected(c, port) by {}
    suspects_are_all(all, port, pred);
    if owner is Some {
        first_with_finds(fresh, owner->0);
    }
}

proof fn suspects_are_all(
    all: Seq<CandidateView>,
    port: u16,
    pred: spec_fn(CandidateView) -> bool,
)
    requires
        forall|c: CandidateView| #[trigger] pred(c) == suspected(c, port),
    ensures
        suspects(all, port) == all.filter(pred),
    decreases all.len(),
{
    reveal(Seq::filter);
    if all.len() > 0 {
        suspects_are_all(all.drop_last(), port, pred);
        assert(pred(all.last()) == suspected(all.last(), port));
    } else {
        assert(all =~= Seq::<CandidateView>::empty());
    }
}

/// The start is refused exactly if the owner of the port was found by the scan, may be touched and is
/// not stale; the owner is reported and spared exactly if it was found and must not be touched.
pub proof fn the_owner_of_the_port(
    raw: Seq<CandidateView>,
    owner: Option<u32>,
    at: SurroundingsView,
    registered: Seq<u32>,
    k: int,
)
    requires
        owner is Some,
        0 <= k < raw.len(),
        raw[k].pid == owner->0,
        forall|j: int| 0 <= j < k ==> (#[trigger] raw[j]).pid != owner->0,
    ensures
        ({
            let plan = round_plan(raw, owner, at, registered);
            let c = raw[k];
            let untouchable = c.pid == at.launcher_pid || registered.contains(c.pid) || (c.pgid
                is Some && c.pgid == at.launcher_pgid);
            &&& plan is Foreign <==> !untouchable && judged(c, at, registered) is None
            &&& plan is Foreign ==> plan->Foreign_pid == c.pid
            &&& untouchable ==> plan is Strike && plan->blocked is Some && plan->blocked->0.pid
                == c.pid
            &&& !untouchable && plan is Strike ==> plan->blocked is None
        }),
{
    first_with_finds(raw, owner->0);
}

/// An owner of the port that was not found by the scan neither refuses the start nor is reported.
pub proof fn an_unseen_owner_plays_no_part(
    raw: Seq<CandidateView>,
    owner: Option<u32>,
    at: SurroundingsView,
    registered: Seq<u32>,
)
    requires
        owner is None || forall|j: int|
            0 <= j < raw.len() ==> (#[trigger] raw[j]).pid != owner->0,
    ensures
        round_plan(raw, owner, at, registered) !is Foreign,
        round_plan(raw, owner, at, registered) is Strike ==> round_plan(
            raw,
            owner,
            at,
            registered,
        )->blocked is None,
{
    if owner is Some {
        first_with_finds(raw, owner->0);
    }
}

/// A backend that an earlier run of this installation has left on our port, and that is neither ours
/// nor of our group, is stopped whatever else the listing holds, unless a stranger owns the port.
pub proof fn a_leftover_backend_is_stopped(
    s: SweepView,
    all: Seq<CandidateView>,
    owner: Option<u32>,
    fresh: Seq<CandidateView>,
    registered: Seq<u32>,
    k: int,
)
    requires
        s.at.repo is Some,
        0 <= k < all.len(),
        lies_under_toolkit(all[k].exe, s.at.repo->0),
        all[k].pid != s.at.launcher_pid,
        all[k].pgid is None || all[k].pgid != s.at.launcher_pgid,
        !registered.contains(all[k].pid),
        exists|i: int| 0 <= i < all[k].cmd.len() && #[trigger] all[k].cmd[i] == "gui.py"@,
        exists|i: int|
            0 <= i < all[k].cmd.len() - 1 && #[trigger] all[k].cmd[i] == "--port"@ && all[k].cmd[i
                + 1] == text::decimal_of(s.at.port as nat),
    ensures
        ({
            let raw = raw_candidates(s.at.port, all, owner, fresh);
            let action = after_scan(s, raw, owner, registered).1;
            ||| action matches SweepActionView::Strike { pids, progress } && pids.contains(
                all[k].pid,
            )
            ||| action matches SweepActionView::Finish(Err(e)) && e is ForeignPortOwner && owner
                is Some && e->pid == owner->0 && !(owner->0 == all[k].pid && forall|j: int|
                0 <= j < all.len() && j != k ==> (#[trigger] all[j]).pid != all[k].pid)
        }),
{
    let c = all[k];
    let raw = raw_candidates(s.at.port, all, owner, fresh);
    let found = suspects(all, s.at.port);
    let at_gui = choose|i: int| 0 <= i < c.cmd.len() && #[trigger] c.cmd[i] == "gui.py"@;
    assert(c.cmd[at_gui].subrange(0, c.cmd[at_gui].len() as int) =~= "gui.py"@);
    assert(text::occurs_at(c.cmd[at_gui], "gui.py"@, 0));
    assert(text::has_text(c.cmd[at_gui], "gui.py"@));
    suspects_contain(all, s.at.port, k);
    let m = choose|m: int| 0 <= m < found.len() && found[m] == c;
    assert(raw[m] == c);
    who_is_stale(c, s.at, registered);
    every_stale_process_is_struck(raw, owner, s.at, registered);
    if owner is Some {
        first_with_finds(raw, owner->0);
    }
    let plan = round_plan(raw, owner, s.at, registered);
    if plan is Strike {
        let t = choose|t: int| 0 <= t < plan->targets.len() && plan->targets[t] == c;
        let pids = after_scan(s, raw, owner, registered).1->pids;
        assert(pids[t] == c.pid);
    } else {
        assert(plan is Foreign);
        let j = first_with(raw, owner->0)->0;
        if owner->0 == c.pid && forall|j: int|
            0 <= j < all.len() && j != k ==> (#[trigger] all[j]).pid != c.pid {
            assert(lists(found, owner->0)) by {
                assert(found[m].pid == owner->0);
            }
            assert(raw == found);
            suspects_are_listed(all, s.at.port, j);
            let n = choose|n: int| 0 <= n < all.len() && all[n] == raw[j];
            assert(all[n].pid == c.pid);
            assert(n == k);
            assert(false);
        }
    }
}

proof fn suspects_contain(all: Seq<CandidateView>, port: u16, i: int)
    requires
        0 <= i < all.len(),
        suspected(all[i], port),
    ensures
        suspects(all, port).contains(all[i]),
    decreases all.len(),
{
    let front = all.drop_last();
    let before = suspects(front, port);
    let found = suspects(all, port);
    if i < front.len() {
        assert(front[i] == all[i]);
        suspects_contain(front, port, i);
        let k = choose|k: int| 0 <= k < before.len() && before[k] == all[i];
        assert(found[k] == all[i]);
    } else {
        assert(found[found.len() - 1] == all[i]);
    }
}

proof fn suspects_are_listed(all: Seq<CandidateView>, port: u16, i: int)
    requires
        0 <= i < suspects(all, port).len(),
    ensures
        all.contains(suspects(all, port)[i]),
    decreases all.len(),
{
    if all.len() > 0 {
        let front = all.drop_last();
        let before = suspects(front, port);
        if i < before.len() {
            suspects_are_listed(front, port, i);
            let k = choose|k: int| 0 <= k < front.len() && front[k] == before[i];
            assert(all[k] == suspects(all, port)[i]);
        } else {
            assert(all[all.len() - 1] == suspects(all, port)[i]);
        }
    }
}

/// A strike is on the targets one by one, and where it was the last, each of them is reported with
/// its number and its command line, behind the owner of the port that had to be spared.
pub proof fn every_target_is_reported(
    s: SweepView,
    raw: Seq<CandidateView>,
    owner: Option<u32>,
    registered: Seq<u32>,
)
    requires
        round_plan(raw, owner, s.at, registered) is Strike,
    ensures
        ({
            let plan = round_plan(raw, owner, s.at, registered);
            let targets = plan->targets;
            let (struck, action) = after_scan(s, raw, owner, registered);
            let n: int = if plan->blocked is Some {
                1
            } else {
                0
            };
            &&& action is Strike
            &&& action->pids.len() == targets.len()
            &&& forall|i: int|
                0 <= i < targets.len() ==> #[trigger] action->pids[i] == targets[i].pid
            &&& struck.round == s.round && struck.max_rounds == s.max_rounds && struck.at == s.at
            &&& s.round >= s.max_rounds ==> {
                &&& after_strike(struck).1 matches SweepActionView::Finish(Err(e))
                &&& e matches StaleCleanupErrorView::Survivors(left, rounds)
                &&& rounds == s.max_rounds
                &&& left.len() == targets.len() + n
                &&& plan->blocked is Some ==> left[0] == plan->blocked->0
                &&& forall|i: int|
                    0 <= i < targets.len() ==> {
                        let line = text::joined((#[trigger] targets[i]).cmd, " "@);
                        &&& left[i + n].pid == targets[i].pid
                        &&& left[i + n].evidence == "verified survivor"@
                        &&& left[i + n].cmdline.is_prefix_of(line)
                        &&& line.len() <= CMDLINE_MAX ==> left[i + n].cmdline == line
                    }
            }
        }),
{
    let targets = round_plan(raw, owner, s.at, registered)->targets;
    assert forall|i: int| 0 <= i < targets.len() implies {
        let line = text::joined((#[trigger] targets[i]).cmd, " "@);
        &&& shown_cmdline(targets[i]).is_prefix_of(line)
        &&& line.len() <= CMDLINE_MAX ==> shown_cmdline(targets[i]) == line
    } by {
        truncation_laws(text::joined(targets[i].cmd, " "@));
    }
}

/// A command line that is too long is cut after its first `CMDLINE_MAX` characters, and no others are
/// lost.
pub proof fn a_long_command_line_is_cut(s: Seq<char>)
    requires
        s.len() > CMDLINE_MAX,
    ensures
        truncated(s).len() == CMDLINE_MAX,
        exists|rest: Seq<char>| s == #[trigger] (truncated(s) + rest),
{
    assert(s =~= truncated(s) + s.skip(CMDLINE_MAX as int));
}

/// The message of a failed cleanup names every process that is still there, in the order of the
/// reports, and how many rounds there were; that of a port in other hands names the port and who holds
/// it.
pub proof fn what_a_failed_cleanup_says(
    reports: Seq<StaleProcessInfoView>,
    last: StaleProcessInfoView,
    rounds: u8,
    port: u16,
    pid: u32,
    cmdline: Seq<char>,
)
    ensures
        error_text(StaleCleanupErrorView::Survivors(Seq::empty(), rounds))
            == "Failed to clean up stale ALAS processes after "@ + text::decimal_of(rounds as nat)
            + " attempts: "@,
        error_text(StaleCleanupErrorView::Survivors(reports.push(last), rounds)) == error_text(
            StaleCleanupErrorView::Survivors(reports, rounds),
        ) + (if reports.len() > 0 {
            ", pid "@
        } else {
            "pid "@
        }) + text::decimal_of(last.pid as nat) + ": "@ + last.cmdline,
        error_text(StaleCleanupErrorView::ForeignPortOwner { port, pid, cmdline }) == "Port "@
            + text::decimal_of(port as nat) + " is occupied by a non-ALAS process (pid "@
            + text::decimal_of(pid as nat) + ": "@ + cmdline + ")"@,
{
    reveal_strlit(", ");
    reveal_strlit("pid ");
    reveal_strlit(", pid ");
    reveal_strlit(" is occupied by a non-ALAS process (");
    reveal_strlit(" is occupied by a non-ALAS process (pid ");
    let f = |i: StaleProcessInfoView| process_text(i.pid, i.cmdline);
    let none = Seq::<StaleProcessInfoView>::empty();
    let head = "Failed to clean up stale ALAS processes after "@ + text::decimal_of(rounds as nat)
        + " attempts: "@;
    assert(none.map_values(f) =~= Seq::<Seq<char>>::empty());
    assert(head + text::joined(none.map_values(f), ", "@) =~= head);
    let before = reports.map_values(f);
    let all = reports.push(last).map_values(f);
    assert(all =~= before.push(f(last)));
    assert(all.drop_last() =~= before);
    let name = text::decimal_of(last.pid as nat) + ": "@ + last.cmdline;
    if reports.len() > 0 {
        assert(text::joined(all, ", "@) == text::joined(before, ", "@) + ", "@ + f(last));
        assert(head + text::joined(all, ", "@) =~= head + text::joined(before, ", "@) + ", pid "@
            + text::decimal_of(last.pid as nat) + ": "@ + last.cmdline);
    } else {
        assert(before =~= Seq::<Seq<char>>::empty());
        assert(head + text::joined(all, ", "@) =~= head + text::joined(before, ", "@) + "pid "@
            + text::decimal_of(last.pid as nat) + ": "@ + last.cmdline);
    }
    assert(error_text(StaleCleanupErrorView::ForeignPortOwner { port, pid, cmdline }) =~= "Port "@
        + text::decimal_of(port as nat) + " is occupied by a non-ALAS process (pid "@
        + text::decimal_of(pid as nat) + ": "@ + cmdline + ")"@);
}

/// A round says which one it is and how many there are at most.
pub proof fn what_a_round_says(round: u8, max_rounds: u8)
    ensures
        progress_text(round, max_rounds) == "Cleaning up stale ALAS processes (round "@
            + text::decimal_of(round as nat) + "/"@ + text::decimal_of(max_rounds as nat)
            + ")..."@,
{
}

/// The report on an owner of the port that must not be touched says why: it is the launcher itself,
/// one that the launcher keeps track of, or else one of its group; and it gives the arguments in full.
pub proof fn why_an_owner_is_spared(c: CandidateView, at: SurroundingsView, registered: Seq<u32>)
    requires
        vetoed(c, at, registered),
    ensures
        ({
            let r = veto_report(c, at, registered);
            let own = c.pid == at.launcher_pid;
            let known = registered.contains(c.pid);
            &&& r.pid == c.pid
            &&& r.cmdline == shown_cmdline(c)
            &&& own ==> r.evidence == "X1 self F/E "@ + c.cmd_debug
            &&& !own && known ==> r.evidence == "X3 registered F/E "@ + c.cmd_debug
            &&& !own && !known ==> r.evidence == "X2 same pgid F/E "@ + c.cmd_debug
            &&& !own && !known ==> c.pgid is Some && c.pgid == at.launcher_pgid
        }),
{
    reveal_strlit("X1 self");
    reveal_strlit("X3 registered");
    reveal_strlit("X2 same pgid");
    reveal_strlit(" F/E ");
    reveal_strlit("X1 self F/E ");
    reveal_strlit("X3 registered F/E ");
    reveal_strlit("X2 same pgid F/E ");
    assert("X1 self"@ + " F/E "@ =~= "X1 self F/E "@);
    assert("X3 registered"@ + " F/E "@ =~= "X3 registered F/E "@);
    assert("X2 same pgid"@ + " F/E "@ =~= "X2 same pgid F/E "@);
}

} // verus!
