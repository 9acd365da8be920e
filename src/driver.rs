//! Bookkeeping of the fuzzing loop: run counters, the ring of recent
//! successful cases, and where failing and crashing cases are kept.
use crate::exec::{time_out_reason, ExecResult, Feedback};
use crate::model::APPConfig;
use crate::primitives::RegWidth;
use crate::prog::Inst;
use std::collections::VecDeque;
use vstd::prelude::*;
use vstd::string::*;

verus! {

/// `n` plus one, stopping at the largest `usize`.
pub open spec fn bump(n: usize) -> usize {
    if n < usize::MAX {
        (n + 1) as usize
    } else {
        n
    }
}

fn bump_exec(n: usize) -> (r: usize)
    ensures
        r == bump(n),
{
    if n < usize::MAX {
        n + 1
    } else {
        n
    }
}

/// Counts of executed, failed and crashed runs; they never decrease.
#[derive(Clone, Copy, Debug, PartialEq, Eq, Structural)]
pub struct Stats {
    pub crashed: usize,
    pub failed: usize,
    pub executed: usize,
}

impl Stats {
    pub fn new() -> (r: Stats)
        ensures
            r.crashed == 0 && r.failed == 0 && r.executed == 0,
    {
        Stats { crashed: 0, failed: 0, executed: 0 }
    }

    /// Counts an executed run; returns the count before it.
    pub fn inc_exec(&mut self) -> (r: usize)
        ensures
            r == old(self).executed,
            *final(self) == (Stats { executed: bump(old(self).executed), ..*old(self) }),
    {
        let r = self.executed;
        self.executed = bump_exec(r);
        r
    }

    /// Counts a failed run; returns the count before it.
    pub fn inc_failed(&mut self) -> (r: usize)
        ensures
            r == old(self).failed,
            *final(self) == (Stats { failed: bump(old(self).failed), ..*old(self) }),
    {
        let r = self.failed;
        self.failed = bump_exec(r);
        r
    }

    /// Counts a crashed run; returns the count before it.
    pub fn inc_crashed(&mut self) -> (r: usize)
        ensures
            r == old(self).crashed,
            *final(self) == (Stats { crashed: bump(old(self).crashed), ..*old(self) }),
    {
        let r = self.crashed;
        self.crashed = bump_exec(r);
        r
    }

    pub fn exec(&self) -> (r: usize)
        ensures
            r == self.executed,
    {
        self.executed
    }

    pub fn failed(&self) -> (r: usize)
        ensures
            r == self.failed,
    {
        self.failed
    }

    pub fn crashed(&self) -> (r: usize)
        ensures
            r == self.crashed,
    {
        self.crashed
    }
}

/// The ring after `x` is added: with no room left, the oldest case goes.
/// A ring of capacity zero keeps nothing.
pub open spec fn ring_insert(q: Seq<Inst>, cap: usize, x: Inst) -> Seq<Inst> {
    if cap == 0 {
        q
    } else if q.len() >= cap {
        q.drop_first().push(x)
    } else {
        q.push(x)
    }
}

/// The ring after each of `xs` is added in turn to an empty ring.
pub open spec fn ring_fill(cap: usize, xs: Seq<Inst>) -> Seq<Inst>
    decreases xs.len(),
{
    if xs.len() == 0 {
        Seq::empty()
    } else {
        ring_insert(ring_fill(cap, xs.drop_last()), cap, xs.last())
    }
}

/// The recent successful cases, oldest first, at most `capacity` of them.
pub struct State {
    pub executed: VecDeque<Inst>,
    pub capacity: usize,
}

impl State {
    pub open spec fn wf(&self) -> bool {
        self.executed@.len() <= self.capacity
    }

    pub fn with_capacity(size: usize) -> (r: State)
        ensures
            r.capacity == size,
            r.executed@.len() == 0,
            r.wf(),
    {
        State { executed: VecDeque::with_capacity(size), capacity: size }
    }

    /// Adds a successful case, evicting the oldest one when the ring is
    /// full.
    pub fn insert_exec(&mut self, exec: Inst)
        requires
            old(self).wf(),
        ensures
            final(self).wf(),
            final(self).capacity == old(self).capacity,
            final(self).executed@ == ring_insert(old(self).executed@, old(self).capacity, exec),
    {
        if self.capacity == 0 {
            return;
        }
        if self.executed.len() >= self.capacity {
            self.executed.pop_front();
        }
        self.executed.push_back(exec);
        assert(final(self).executed@ =~= ring_insert(old(self).executed@, old(self).capacity, exec));
    }

    pub fn len(&self) -> (r: usize)
        ensures
            r == self.executed@.len(),
    {
        self.executed.len()
    }

    /// The `i`-th kept case, oldest first.
    pub fn get(&self, i: usize) -> (r: &Inst)
        requires
            i < self.executed@.len(),
        ensures
            *r == self.executed@[i as int],
    {
        &self.executed[i]
    }
}

/// A ring of capacity `cap` holds the last `cap` cases added to it, oldest
/// first; so after `cap + 1` cases it holds exactly `cap` of them, and the
/// first one has been evicted.
pub proof fn lemma_ring_keeps_last(cap: usize, xs: Seq<Inst>)
    requires
        cap > 0,
    ensures
        xs.len() <= cap ==> ring_fill(cap, xs) == xs,
        xs.len() > cap ==> ring_fill(cap, xs) == xs.subrange(xs.len() - cap, xs.len() as int),
        xs.len() == cap + 1 ==> ring_fill(cap, xs).len() == cap && ring_fill(cap, xs) == xs.drop_first(),
    decreases xs.len(),
{
    if xs.len() > 0 {
        let init = xs.drop_last();
        lemma_ring_keeps_last(cap, init);
        if init.len() >= cap {
            if init.len() == cap {
                assert(ring_fill(cap, init) == init);
            }
            assert(ring_fill(cap, xs) =~= xs.subrange(xs.len() - cap, xs.len() as int));
        } else {
            assert(ring_fill(cap, xs) =~= xs);
        }
        if xs.len() == cap + 1 {
            assert(xs.subrange(xs.len() - cap, xs.len() as int) =~= xs.drop_first());
        }
    } else {
        assert(ring_fill(cap, xs) =~= xs);
    }
}

/// The decimal digit `d`.
pub open spec fn digit_char(d: nat) -> char {
    if d < 10 {
        ((d + 48) as u8) as char
    } else {
        '?'
    }
}

/// The decimal representation of `n`, without leading zeros.
pub open spec fn dec(n: nat) -> Seq<char>
    decreases n,
{
    if n < 10 {
        seq![digit_char(n)]
    } else {
        dec(n / 10).push(digit_char(n % 10))
    }
}

fn digit_str(d: u64) -> (r: &'static str)
    requires
        d < 10,
    ensures
        r@ == seq![digit_char(d as nat)],
{
    proof {
        reveal_strlit("0");
        reveal_strlit("1");
        reveal_strlit("2");
        reveal_strlit("3");
        reveal_strlit("4");
        reveal_strlit("5");
        reveal_strlit("6");
        reveal_strlit("7");
        reveal_strlit("8");
        reveal_strlit("9");
    }
    let r = match d {
        0 => "0",
        1 => "1",
        2 => "2",
        3 => "3",
        4 => "4",
        5 => "5",
        6 => "6",
        7 => "7",
        8 => "8",
        _ => "9",
    };
    assert(r@ =~= seq![digit_char(d as nat)]);
    r
}

/// Appends the decimal representation of `n` to `out`.
pub fn push_decimal(out: &mut String, n: u64)
    ensures
        final(out)@ == old(out)@ + dec(n as nat),
    decreases n,
{
    if n >= 10 {
        push_decimal(out, n / 10);
    }
    out.append(digit_str(n % 10));
    assert(final(out)@ =~= old(out)@ + dec(n as nat));
}

proof fn lemma_dec_len(n: nat)
    ensures
        n < 10 <==> dec(n).len() == 1,
        dec(n).len() >= 1,
    decreases n,
{
    if n >= 10 {
        lemma_dec_len(n / 10);
    }
}

proof fn lemma_digit_char_injective(a: nat, b: nat)
    requires
        a < 10,
        b < 10,
        digit_char(a) == digit_char(b),
    ensures
        a == b,
{
    assert(((a + 48) as u8) as char == ((b + 48) as u8) as char ==> a == b) by (nonlinear_arith)
        requires
            a < 10,
            b < 10,
    ;
}

/// Distinct numbers have distinct decimal representations.
pub proof fn lemma_dec_injective(a: nat, b: nat)
    ensures
        dec(a) == dec(b) ==> a == b,
    decreases a,
{
    if dec(a) == dec(b) {
        lemma_dec_len(a);
        lemma_dec_len(b);
        if a < 10 {
            assert(dec(a)[0] == dec(b)[0]);
            lemma_digit_char_injective(a, b);
        } else {
            assert(dec(a).last() == dec(b).last());
            lemma_digit_char_injective(a % 10, b % 10);
            assert(dec(a).drop_last() =~= dec(a / 10));
            assert(dec(b).drop_last() =~= dec(b / 10));
            lemma_dec_injective(a / 10, b / 10);
        }
    }
}

/// The lowercase hexadecimal digit `d`.
pub open spec fn hex_char(d: nat) -> char {
    if d < 10 {
        ((d + 48) as u8) as char
    } else if d < 16 {
        ((d + 87) as u8) as char
    } else {
        '?'
    }
}

/// Two lowercase hexadecimal digits per byte.
pub open spec fn hex_of(bytes: Seq<u8>) -> Seq<char>
    decreases bytes.len(),
{
    if bytes.len() == 0 {
        Seq::empty()
    } else {
        hex_of(bytes.drop_last()) + seq![
            hex_char((bytes.last() / 16) as nat),
            hex_char((bytes.last() % 16) as nat),
        ]
    }
}

fn hex_str(d: u8) -> (r: &'static str)
    requires
        d < 16,
    ensures
        r@ == seq![hex_char(d as nat)],
{
    if d < 10 {
        return digit_str(d as u64);
    }
    proof {
        reveal_strlit("a");
        reveal_strlit("b");
        reveal_strlit("c");
        reveal_strlit("d");
        reveal_strlit("e");
        reveal_strlit("f");
    }
    let r = match d {
        10 => "a",
        11 => "b",
        12 => "c",
        13 => "d",
        14 => "e",
        _ => "f",
    };
    assert(r@ =~= seq![hex_char(d as nat)]);
    r
}

/// Lowercase hexadecimal, two digits per byte.
pub fn hex_lower(bytes: &Vec<u8>) -> (r: String)
    ensures
        r@ == hex_of(bytes@),
{
    let mut out = String::new();
    let mut i: usize = 0;
    while i < bytes.len()
        invariant
            i <= bytes@.len(),
            out@ == hex_of(bytes@.take(i as int)),
        decreases bytes@.len() - i,
    {
        let b = bytes[i];
        out.append(hex_str(b / 16));
        out.append(hex_str(b % 16));
        assert(bytes@.take(i + 1).drop_last() =~= bytes@.take(i as int));
        assert(out@ =~= hex_of(bytes@.take(i + 1)));
        i = i + 1;
    }
    assert(bytes@.take(bytes@.len() as int) =~= bytes@);
    out
}

/// The MD5 digest of the UTF-8 encoding of `text`.
pub uninterp spec fn md5_of(text: Seq<char>) -> Seq<u8>;

/// Relies on `md5::compute` (md5 0.7): the 16-byte MD5 digest of the bytes
/// it is given, here the UTF-8 bytes of `text`, so a function of `text`
/// alone.
#[verifier::external_body]
fn md5_digest(text: &str) -> (r: Vec<u8>)
    ensures
        r@ == md5_of(text@),
        r@.len() == 16,
{
    md5::compute(text.as_bytes()).0.to_vec()
}

/// The directory, under `base`, that keeps the cases whose reason has the
/// digest `digest`.
pub open spec fn case_dir(base: Seq<char>, digest: Seq<u8>) -> Seq<char> {
    base + seq!['/'] + hex_of(digest)
}

/// The name of the file that keeps the `n`-th saved case.
pub open spec fn case_file(n: nat) -> Seq<char> {
    seq!['p'] + dec(n)
}

/// The directory under `base` for cases with the given reason digest.
pub fn dir_for_digest(base: &str, digest: &Vec<u8>) -> (r: String)
    ensures
        r@ == case_dir(base@, digest@),
{
    let mut r = String::from_str(base);
    r.append("/");
    let hex = hex_lower(digest);
    r.append(hex.as_str());
    proof {
        reveal_strlit("/");
    }
    assert(r@ =~= case_dir(base@, digest@));
    r
}

/// The directory under `base` for cases that failed or crashed with the
/// reason `reason`: the MD5 digest of the reason, in hexadecimal.
pub fn failure_dir(base: &str, reason: &str) -> (r: String)
    ensures
        r@ == case_dir(base@, md5_of(reason@)),
{
    let digest = md5_digest(reason);
    dir_for_digest(base, &digest)
}

/// The file name of the `n`-th saved case.
pub fn case_file_name(n: usize) -> (r: String)
    ensures
        r@ == case_file(n as nat),
{
    let mut r = String::from_str("p");
    proof {
        reveal_strlit("p");
    }
    push_decimal(&mut r, n as u64);
    assert(r@ =~= case_file(n as nat));
    r
}

/// Failures with the same reason share a directory, and cases saved under
/// different counts get different files, so none overwrites another.
pub proof fn lemma_dedup(base: Seq<char>, reason1: Seq<char>, reason2: Seq<char>, n1: nat, n2: nat)
    ensures
        reason1 == reason2 ==> case_dir(base, md5_of(reason1)) == case_dir(base, md5_of(reason2)),
        n1 != n2 ==> case_file(n1) != case_file(n2),
{
    if case_file(n1) == case_file(n2) {
        assert(case_file(n1).drop_first() =~= dec(n1));
        assert(case_file(n2).drop_first() =~= dec(n2));
        lemma_dec_injective(n1, n2);
    }
}

/// A case to keep on disk: its directory, its file name, the reason text
/// and the program.
pub struct SaveRequest {
    pub dir: String,
    pub file: String,
    pub reason: String,
    pub case: Inst,
}

/// The configuration of a fuzzing session.
#[derive(Clone, Debug)]
pub struct Config {
    /// Header included by the C rendering of every case.
    pub extra_header: String,
    /// Command that builds and runs a rendered case (script backend).
    pub shell_cmd: String,
    /// Directory of the template project (script backend).
    pub template_dir: String,
    /// File name of the rendered case inside the template project.
    pub out_name: String,
    /// Capacity of the ring of recent successful cases.
    pub num_save: usize,
    /// Seconds a run of the script backend may take.
    pub timeout: u64,
    pub app: APPConfig,
    /// Width of the target's registers.
    pub reg_size: RegWidth,
    /// Run cases through the build script rather than the debugger.
    pub use_script: bool,
    pub t32_node: String,
    pub t32_port: u16,
    /// Debugger command that restarts the kernel before each run.
    pub restart_os_cmm_hook: String,
}

/// The counters once a run has ended with `result`.
pub open spec fn stats_after(s: Stats, result: ExecResult) -> Stats {
    match result {
        ExecResult::Success(_) => Stats { executed: bump(s.executed), ..s },
        ExecResult::Failed(_) => Stats { failed: bump(s.failed), ..s },
        ExecResult::Crashed(_) => Stats { crashed: bump(s.crashed), ..s },
    }
}

/// The ring once a run of `case` has ended with `result`.
pub open spec fn ring_after(q: Seq<Inst>, cap: usize, case: Inst, result: ExecResult) -> Seq<Inst> {
    match result {
        ExecResult::Success(_) => ring_insert(q, cap, case),
        _ => q,
    }
}

/// The directory and file that keep a case whose run ended with `result`,
/// given the counters before it; a success is not kept on disk.
pub open spec fn save_place(s: Stats, result: ExecResult) -> Option<(Seq<char>, Seq<char>)> {
    match result {
        ExecResult::Success(_) => None,
        ExecResult::Failed(reason) => Some(
            (case_dir("failed"@, md5_of(reason@)), case_file(s.failed as nat)),
        ),
        ExecResult::Crashed(info) => Some(
            (case_dir("crashed"@, md5_of(info@)), case_file(s.crashed as nat)),
        ),
    }
}

/// Records how a run of `case` ended. A success joins the ring of recent
/// cases; a failure or crash is counted and handed back to be kept on disk,
/// under the directory of its reason's digest and the file numbered by the
/// count before this one.
pub fn record_outcome(stats: &mut Stats, state: &mut State, case: Inst, result: ExecResult) -> (r: Option<SaveRequest>)
    requires
        old(state).wf(),
    ensures
        final(state).wf(),
        final(state).capacity == old(state).capacity,
        *final(stats) == stats_after(*old(stats), result),
        final(state).executed@ == ring_after(old(state).executed@, old(state).capacity, case, result),
        match r {
            None => save_place(*old(stats), result) is None,
            Some(req) => save_place(*old(stats), result) == Some((req.dir@, req.file@)) && req.case
                == case,
        },
        match result {
            ExecResult::Success(_) => {
                &&& r is None
                &&& final(state).executed@ == ring_insert(old(state).executed@, old(state).capacity, case)
                &&& *final(stats) == (Stats { executed: bump(old(stats).executed), ..*old(stats) })
            },
            ExecResult::Failed(reason) => {
                &&& final(state).executed@ == old(state).executed@
                &&& *final(stats) == (Stats { failed: bump(old(stats).failed), ..*old(stats) })
                &&& r matches Some(req) && req.dir@ == case_dir("failed"@, md5_of(reason@))
                    && req.file@ == case_file(old(stats).failed as nat) && req.reason == reason
                    && req.case == case
            },
            ExecResult::Crashed(info) => {
                &&& final(state).executed@ == old(state).executed@
                &&& *final(stats) == (Stats { crashed: bump(old(stats).crashed), ..*old(stats) })
                &&& r matches Some(req) && req.dir@ == case_dir("crashed"@, md5_of(info@))
                    && req.file@ == case_file(old(stats).crashed as nat) && req.reason == info
                    && req.case == case
            },
        },
{
    match result {
        ExecResult::Success(_) => {
            state.insert_exec(case);
            stats.inc_exec();
            None
        },
        ExecResult::Failed(reason) => {
            let dir = failure_dir("failed", reason.as_str());
            let file = case_file_name(stats.failed());
            stats.inc_failed();
            Some(SaveRequest { dir, file, reason, case })
        },
        ExecResult::Crashed(info) => {
            let dir = failure_dir("crashed", info.as_str());
            let file = case_file_name(stats.crashed());
            stats.inc_crashed();
            Some(SaveRequest { dir, file, reason: info, case })
        },
    }
}

/// Two runs that fail with the same reason, one after the other, are kept
/// in the same directory under two different files, numbered by the failure
/// count before each, so the first is not overwritten; the count goes up by
/// two. (The counter stops at the largest `usize`, hence the bound.)
pub proof fn lemma_repeated_failure(s0: Stats, reason1: String, reason2: String)
    requires
        reason1@ == reason2@,
        s0.failed < usize::MAX - 1,
    ensures
        ({
            let s1 = stats_after(s0, ExecResult::Failed(reason1));
            let s2 = stats_after(s1, ExecResult::Failed(reason2));
            &&& s2.failed == s0.failed + 2
            &&& s2.executed == s0.executed && s2.crashed == s0.crashed
            &&& save_place(s0, ExecResult::Failed(reason1)) == Some(
                (case_dir("failed"@, md5_of(reason1@)), case_file(s0.failed as nat)),
            )
            &&& save_place(s1, ExecResult::Failed(reason2)) == Some(
                (case_dir("failed"@, md5_of(reason1@)), case_file((s0.failed + 1) as nat)),
            )
            &&& case_file(s0.failed as nat) != case_file((s0.failed + 1) as nat)
        }),
{
    lemma_dedup("failed"@, reason1@, reason2@, s0.failed as nat, (s0.failed + 1) as nat);
}

/// The first run of a session that succeeds is counted once and is the one
/// case in a ring of capacity at least one; nothing is kept on disk.
pub proof fn lemma_first_success(case: Inst, cap: usize)
    requires
        cap >= 1,
    ensures
        stats_after(Stats { crashed: 0, failed: 0, executed: 0 }, ExecResult::Success(Feedback))
            == (Stats { crashed: 0, failed: 0, executed: 1 }),
        ring_after(Seq::empty(), cap, case, ExecResult::Success(Feedback)) == seq![case],
        save_place(Stats { crashed: 0, failed: 0, executed: 0 }, ExecResult::Success(Feedback))
            is None,
{
    assert(Seq::<Inst>::empty().push(case) =~= seq![case]);
}

/// A run that times out is counted as a failure and kept under the digest
/// of "Time out", numbered by the failure count before it; the ring and the
/// other counters do not change. (The counter stops at the largest
/// `usize`, hence the bound.)
pub proof fn lemma_time_out(s0: Stats, q: Seq<Inst>, cap: usize, case: Inst, reason: String)
    requires
        reason@ == time_out_reason(),
        s0.failed < usize::MAX,
    ensures
        stats_after(s0, ExecResult::Failed(reason)) == (Stats { failed: (s0.failed + 1) as usize, ..s0 }),
        ring_after(q, cap, case, ExecResult::Failed(reason)) == q,
        save_place(s0, ExecResult::Failed(reason)) == Some(
            (case_dir("failed"@, md5_of(time_out_reason())), case_file(s0.failed as nat)),
        ),
{
}

} // verus!
