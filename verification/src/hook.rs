//! The hook engine: which rules a frame sets off, when a rule may run
//! again, and what is handed to the program that a rule runs.

pub mod control;

use vstd::prelude::*;
use vstd::string::StringExecFns;
use crate::can::{CanPacket, CanPacketView};

verus! {

/// A rule: the frames it is set off by, the program it runs, and how often
/// and how late. A field that is absent admits every frame.
#[derive(Debug, PartialEq, Eq)]
pub struct Hook {
    pub src_addr: Option<u8>,
    pub src_port: Option<u8>,
    pub dst_addr: Option<u8>,
    pub dst_port: Option<u8>,
    pub payload: Option<Vec<u8>>,
    /// The program and its arguments.
    pub run: Vec<String>,
    /// The least time between two runs, in milliseconds.
    pub cooldown: Option<u64>,
    /// The time between a frame and the run it sets off, in milliseconds.
    pub delay: Option<u64>,
}

impl Clone for Hook {
    fn clone(&self) -> (r: Self)
        ensures
            r.src_addr == self.src_addr,
            r.src_port == self.src_port,
            r.dst_addr == self.dst_addr,
            r.dst_port == self.dst_port,
            r.wanted_payload() == self.wanted_payload(),
            r.run@ == self.run@,
            r.cooldown == self.cooldown,
            r.delay == self.delay,
    {
        let payload = match &self.payload {
            Some(bytes) => Some(bytes.clone()),
            None => None,
        };
        Hook {
            src_addr: self.src_addr,
            src_port: self.src_port,
            dst_addr: self.dst_addr,
            dst_port: self.dst_port,
            payload,
            run: clone_strings(&self.run),
            cooldown: self.cooldown,
            delay: self.delay,
        }
    }
}

/// A copy of a list of texts.
fn clone_strings(list: &Vec<String>) -> (r: Vec<String>)
    ensures
        r@ == list@,
{
    let mut out: Vec<String> = Vec::new();
    let mut i: usize = 0;
    while i < list.len()
        invariant
            i <= list.len(),
            out@ == list@.take(i as int),
        decreases list.len() - i,
    {
        out.push(list[i].clone());
        assert(out@ == list@.take(i + 1));
        i = i + 1;
    }
    assert(list@.take(list@.len() as int) == list@);
    out
}

impl Hook {
    /// The payload that the rule asks for, if it asks for one.
    pub open spec fn wanted_payload(&self) -> Option<Seq<u8>> {
        match self.payload {
            Some(bytes) => Some(bytes@),
            None => None,
        }
    }

    /// Whether the frame sets the rule off: each field that the rule
    /// holds is the frame's, the payload byte for byte.
    pub open spec fn admits(&self, p: CanPacketView) -> bool {
        &&& self.src_addr matches Some(a) ==> a == p.src.addr
        &&& self.dst_addr matches Some(a) ==> a == p.dest.addr
        &&& self.src_port matches Some(a) ==> a == p.src.port
        &&& self.dst_port matches Some(a) ==> a == p.dest.port
        &&& self.wanted_payload() matches Some(bytes) ==> bytes == p.payload
    }
}

/// Whether two byte strings are the same.
pub fn bytes_equal(a: &[u8], b: &[u8]) -> (r: bool)
    ensures
        r == (a@ == b@),
{
    if a.len() != b.len() {
        return false;
    }
    let mut i: usize = 0;
    while i < a.len()
        invariant
            i <= a.len(),
            a@.len() == b@.len(),
            forall|j: int| 0 <= j < i ==> a@[j] == b@[j],
        decreases a.len() - i,
    {
        if a[i] != b[i] {
            return false;
        }
        i = i + 1;
    }
    assert(a@ == b@);
    true
}

/// Whether the frame sets the rule off.
pub fn match_packet_against_config(p: &CanPacket, h: &Hook) -> (r: bool)
    ensures
        r == h.admits(p@),
{
    if let Some(src_addr) = h.src_addr {
        if src_addr != p.src.addr() {
            return false;
        }
    }
    if let Some(dst_addr) = h.dst_addr {
        if dst_addr != p.dest.addr() {
            return false;
        }
    }
    if let Some(src_port) = h.src_port {
        if src_port != p.src.port() {
            return false;
        }
    }
    if let Some(dst_port) = h.dst_port {
        if dst_port != p.dest.port() {
            return false;
        }
    }
    if let Some(payload) = &h.payload {
        if !bytes_equal(payload.as_slice(), p.payload.as_slice()) {
            return false;
        }
    }
    true
}

/// Whether a rule that last ran at `last` must still rest at `now`: it has
/// run before, it has a cooldown, and the cooldown is not over.
pub open spec fn resting(last: Option<u64>, cooldown: Option<u64>, now: u64) -> bool {
    last matches Some(t) && cooldown matches Some(c) && t + c > now
}

/// The time from which on a run that a frame at `admitted_at` set off may start.
pub open spec fn ready_at(admitted_at: u64, delay: Option<u64>) -> int {
    match delay {
        Some(d) => admitted_at + d,
        None => admitted_at as int,
    }
}

/// A run that a frame has set off: the rule, and when the frame came.
#[derive(Debug, Clone, Copy, PartialEq, Eq, Structural)]
pub struct Job {
    pub hook: usize,
    pub admitted_at: u64,
}

/// What is handed to the program of a rule.
#[derive(Debug, PartialEq, Eq)]
pub struct ChildCommand {
    pub program: String,
    pub args: Vec<String>,
    /// The environment variables, each with its value.
    pub env: Vec<(String, String)>,
}

/// What a run is to do next.
#[derive(Debug, PartialEq, Eq)]
pub enum Step {
    /// It is too early: wait this many milliseconds, then ask again.
    Wait(u64),
    /// The rule rests: the run ends without the program.
    Suppressed,
    /// The program is to be started, with its output read for commands.
    Run(ChildCommand),
    /// The rule names no program: the run ends.
    NoProgram,
}

/// The rules, and for each rule when it last ran.
pub struct Hooks {
    hooks: Vec<Hook>,
    cooldowns: Vec<Option<u64>>,
}

impl Hooks {
    /// Whether the table of last runs has an entry for each rule.
    pub closed spec fn wf(&self) -> bool {
        self.cooldowns@.len() == self.hooks@.len()
    }

    /// The rules.
    pub closed spec fn rules(&self) -> Seq<Hook> {
        self.hooks@
    }

    /// For each rule, when it last ran.
    pub closed spec fn last_runs(&self) -> Seq<Option<u64>> {
        self.cooldowns@
    }

    /// The engine for the rules, none of which has run.
    pub fn new(hooks: Vec<Hook>) -> (r: Hooks)
        ensures
            r.wf(),
            r.rules() == hooks@,
            r.last_runs() == Seq::new(hooks@.len(), |i: int| None::<u64>),
    {
        let mut cooldowns: Vec<Option<u64>> = Vec::new();
        let mut i: usize = 0;
        while i < hooks.len()
            invariant
                i <= hooks.len(),
                cooldowns@ == Seq::new(i as nat, |j: int| None::<u64>),
            decreases hooks.len() - i,
        {
            cooldowns.push(None);
            assert(cooldowns@ == Seq::new((i + 1) as nat, |j: int| None::<u64>));
            i = i + 1;
        }
        Hooks { hooks, cooldowns }
    }

    /// The number of rules.
    pub fn len(&self) -> (n: usize)
        ensures
            n == self.rules().len(),
    {
        self.hooks.len()
    }

    /// The runs that a frame at `now` sets off: one for each rule that
    /// the frame sets off, in the order of the rules.
    pub fn process_hooks(&self, packet: &CanPacket, now: u64) -> (jobs: Vec<Job>)
        ensures
            forall|k: int|
                #![trigger jobs@[k]]
                0 <= k < jobs@.len() ==> jobs@[k].admitted_at == now && jobs@[k].hook
                    < self.rules().len() && self.rules()[jobs@[k].hook as int].admits(packet@),
            forall|k: int, l: int|
                #![trigger jobs@[k], jobs@[l]]
                0 <= k < l < jobs@.len() ==> jobs@[k].hook < jobs@[l].hook,
            forall|i: int|
                0 <= i < self.rules().len() && (#[trigger] self.rules()[i]).admits(packet@)
                    ==> exists|k: int| 0 <= k < jobs@.len() && jobs@[k].hook == i,
    {
        let mut jobs: Vec<Job> = Vec::new();
        let mut hook_num: usize = 0;
        while hook_num < self.hooks.len()
            invariant
                hook_num <= self.hooks.len(),
                forall|k: int|
                    #![trigger jobs@[k]]
                    0 <= k < jobs@.len() ==> jobs@[k].admitted_at == now && jobs@[k].hook
                        < hook_num && self.hooks@[jobs@[k].hook as int].admits(packet@),
                forall|k: int, l: int|
                    #![trigger jobs@[k], jobs@[l]]
                    0 <= k < l < jobs@.len() ==> jobs@[k].hook < jobs@[l].hook,
                forall|i: int|
                    0 <= i < hook_num && (#[trigger] self.hooks@[i]).admits(packet@) ==> exists|
                        k: int,
                    | 0 <= k < jobs@.len() && jobs@[k].hook == i,
            decreases self.hooks.len() - hook_num,
        {
            if match_packet_against_config(packet, &self.hooks[hook_num]) {
                let ghost before = jobs@;
                jobs.push(Job { hook: hook_num, admitted_at: now });
                proof {
                    assert forall|k: int| 0 <= k < jobs@.len() implies (#[trigger] jobs@[k]).hook
                        < hook_num + 1 && jobs@[k].admitted_at == now && self.hooks@[jobs@[k].hook as int].admits(
                        packet@,
                    ) by {
                        if k < before.len() {
                            assert(jobs@[k] == before[k]);
                        }
                    }
                    assert forall|k: int, l: int| 0 <= k < l < jobs@.len() implies (
                    #[trigger] jobs@[k]).hook < (#[trigger] jobs@[l]).hook by {
                        assert(jobs@[k] == before[k]);
                        if l < before.len() {
                            assert(jobs@[l] == before[l]);
                        }
                    }
                    assert forall|i: int|
                        0 <= i < hook_num + 1 && (#[trigger] self.hooks@[i]).admits(
                            packet@,
                        ) implies exists|k: int| 0 <= k < jobs@.len() && jobs@[k].hook == i by {
                        if i < hook_num {
                            let k = choose|k: int| 0 <= k < before.len() && before[k].hook == i;
                            assert(jobs@[k].hook == i);
                        } else {
                            assert(jobs@[before.len() as int].hook == i);
                        }
                    }
                }
            }
            hook_num = hook_num + 1;
        }
        jobs
    }

    /// Whether the rule may run at `now`; if it may, `now` is recorded as
    /// its last run. A rule rests while its cooldown since its last run
    /// is not over.
    pub fn try_activate(&mut self, hook_num: usize, now: u64) -> (r: bool)
        requires
            old(self).wf(),
            hook_num < old(self).rules().len(),
        ensures
            final(self).wf(),
            final(self).rules() == old(self).rules(),
            r == !resting(
                old(self).last_runs()[hook_num as int],
                old(self).rules()[hook_num as int].cooldown,
                now,
            ),
            final(self).last_runs() == (if r {
                old(self).last_runs().update(hook_num as int, Some(now))
            } else {
                old(self).last_runs()
            }),
    {
        if let Some(last_activation) = self.cooldowns[hook_num] {
            if let Some(cooldown) = self.hooks[hook_num].cooldown {
                let over = match last_activation.checked_add(cooldown) {
                    Some(end) => end <= now,
                    None => false,
                };
                if !over {
                    return false;
                }
            }
        }
        self.cooldowns[hook_num] = Some(now);
        true
    }

    /// What the run is to do at `now`.
    ///
    /// Before the delay of its rule is over, it waits for what is left of
    /// it. After that, it ends if the rule rests; else `now` is recorded
    /// as the rule's last run, and the program of the rule is to be started
    /// with the frame in its environment.
    pub fn advance(&mut self, job: Job, packet: &CanPacket, now: u64) -> (r: Step)
        requires
            old(self).wf(),
            job.hook < old(self).rules().len(),
        ensures
            final(self).wf(),
            final(self).rules() == old(self).rules(),
            advanced(
                old(self).rules()[job.hook as int],
                old(self).last_runs(),
                job,
                packet@,
                now,
                final(self).last_runs(),
                r,
            ),
    {
        let ready: Option<u64> = match self.hooks[job.hook].delay {
            Some(delay) => job.admitted_at.checked_add(delay),
            None => Some(job.admitted_at),
        };
        match ready {
            Some(at) => {
                if now < at {
                    return Step::Wait(at - now);
                }
            },
            None => {
                return Step::Wait(u64::MAX - now);
            },
        }
        if !self.try_activate(job.hook, now) {
            return Step::Suppressed;
        }
        match child_command(&self.hooks[job.hook], packet) {
            Some(command) => Step::Run(command),
            None => Step::NoProgram,
        }
    }
}

/// What one step of a run does, and what it asks for.
pub open spec fn advanced(
    hook: Hook,
    before: Seq<Option<u64>>,
    job: Job,
    packet: CanPacketView,
    now: u64,
    after: Seq<Option<u64>>,
    r: Step,
) -> bool {
    if now < ready_at(job.admitted_at, hook.delay) {
        &&& after == before
        &&& r matches Step::Wait(ms)
        &&& ms == (if ready_at(job.admitted_at, hook.delay) <= u64::MAX {
            ready_at(job.admitted_at, hook.delay) - now
        } else {
            u64::MAX - now
        })
    } else if resting(before[job.hook as int], hook.cooldown, now) {
        after == before && r is Suppressed
    } else {
        &&& after == before.update(job.hook as int, Some(now))
        &&& if hook.run@.len() == 0 {
            r is NoProgram
        } else {
            r matches Step::Run(command) && runs(command, hook, packet)
        }
    }
}

/// The lowercase hexadecimal digit of a number below sixteen.
pub open spec fn hex_digit(n: u8) -> char {
    if n == 0 {
        '0'
    } else if n == 1 {
        '1'
    } else if n == 2 {
        '2'
    } else if n == 3 {
        '3'
    } else if n == 4 {
        '4'
    } else if n == 5 {
        '5'
    } else if n == 6 {
        '6'
    } else if n == 7 {
        '7'
    } else if n == 8 {
        '8'
    } else if n == 9 {
        '9'
    } else if n == 10 {
        'a'
    } else if n == 11 {
        'b'
    } else if n == 12 {
        'c'
    } else if n == 13 {
        'd'
    } else if n == 14 {
        'e'
    } else {
        'f'
    }
}

/// A byte in lowercase hexadecimal, without a leading zero.
pub open spec fn hex_u8(x: u8) -> Seq<char> {
    if x < 16 {
        seq![hex_digit(x)]
    } else {
        seq![hex_digit(x / 16), hex_digit(x % 16)]
    }
}

/// The bytes in lowercase hexadecimal, each without a leading zero, one
/// after the other without a separator.
pub open spec fn hex_bytes(bytes: Seq<u8>) -> Seq<char>
    decreases bytes.len(),
{
    if bytes.len() == 0 {
        Seq::empty()
    } else {
        hex_bytes(bytes.drop_last()) + hex_u8(bytes.last())
    }
}

/// Whether the command is the one that the rule runs for the frame: the
/// program and the arguments of the rule, and the frame in the
/// environment.
pub open spec fn runs(command: ChildCommand, hook: Hook, packet: CanPacketView) -> bool {
    &&& hook.run@.len() > 0
    &&& command.program@ == hook.run@[0]@
    &&& command.args@ == hook.run@.skip(1)
    &&& command.env@.len() == 5
    &&& command.env@[0].0@ == "CAN_SRC_ADDR"@
    &&& command.env@[0].1@ == hex_u8(packet.src.addr)
    &&& command.env@[1].0@ == "CAN_DST_ADDR"@
    &&& command.env@[1].1@ == hex_u8(packet.dest.addr)
    &&& command.env@[2].0@ == "CAN_SRC_PORT"@
    &&& command.env@[2].1@ == hex_u8(packet.src.port)
    &&& command.env@[3].0@ == "CAN_DST_PORT"@
    &&& command.env@[3].1@ == hex_u8(packet.dest.port)
    &&& command.env@[4].0@ == "CAN_PAYLOAD"@
    &&& command.env@[4].1@ == hex_bytes(packet.payload)
}

/// The text of one hexadecimal digit.
fn digit_text(n: u8) -> (text: &'static str)
    requires
        n < 16,
    ensures
        text@ == seq![hex_digit(n)],
{
    proof {
        reveal_strlit("0");
        reveal_strlit("1");
        reveal_strlit("2");
        reveal_strlit("3");
        reveal_strlit("4");
        reveal_strlit("5");
        reveal_strlit("6");
        reveal_strlit("7");
        reveal_strlit("8");
        reveal_strlit("9");
        reveal_strlit("a");
        reveal_strlit("b");
        reveal_strlit("c");
        reveal_strlit("d");
        reveal_strlit("e");
        reveal_strlit("f");
    }
    let text = match n {
        0 => "0",
        1 => "1",
        2 => "2",
        3 => "3",
        4 => "4",
        5 => "5",
        6 => "6",
        7 => "7",
        8 => "8",
        9 => "9",
        10 => "a",
        11 => "b",
        12 => "c",
        13 => "d",
        14 => "e",
        _ => "f",
    };
    assert(text@ =~= seq![hex_digit(n)]);
    text
}

/// Appends a byte in lowercase hexadecimal, without a leading zero.
fn push_hex(out: &mut String, x: u8)
    ensures
        final(out)@ == old(out)@ + hex_u8(x),
{
    if x >= 16 {
        out.append(digit_text(x / 16));
    }
    out.append(digit_text(x % 16));
    assert(final(out)@ == old(out)@ + hex_u8(x));
}

/// A byte in lowercase hexadecimal, without a leading zero.
pub fn format_hex(x: u8) -> (text: String)
    ensures
        text@ == hex_u8(x),
{
    let mut out = String::new();
    push_hex(&mut out, x);
    assert(Seq::<char>::empty() + hex_u8(x) == hex_u8(x));
    out
}

/// The bytes in lowercase hexadecimal, each without a leading zero, one
/// after the other without a separator.
pub fn format_payload(bytes: &[u8]) -> (text: String)
    ensures
        text@ == hex_bytes(bytes@),
{
    let mut out = String::new();
    let mut i: usize = 0;
    while i < bytes.len()
        invariant
            i <= bytes.len(),
            out@ == hex_bytes(bytes@.take(i as int)),
        decreases bytes.len() - i,
    {
        push_hex(&mut out, bytes[i]);
        proof {
            let next = bytes@.take(i + 1);
            assert(next.drop_last() == bytes@.take(i as int));
            assert(next.last() == bytes@[i as int]);
        }
        i = i + 1;
    }
    assert(bytes@.take(bytes@.len() as int) == bytes@);
    out
}

/// The command that the rule runs for the frame, if the rule names a program.
pub fn child_command(hook: &Hook, packet: &CanPacket) -> (r: Option<ChildCommand>)
    ensures
        match r {
            Some(command) => runs(command, *hook, packet@),
            None => hook.run@.len() == 0,
        },
{
    if hook.run.len() == 0 {
        return None;
    }
    let program = hook.run[0].clone();
    let mut args: Vec<String> = Vec::new();
    let mut i: usize = 1;
    while i < hook.run.len()
        invariant
            1 <= i <= hook.run.len(),
            args@ == hook.run@.subrange(1, i as int),
        decreases hook.run.len() - i,
    {
        args.push(hook.run[i].clone());
        assert(args@ == hook.run@.subrange(1, i + 1));
        i = i + 1;
    }
    assert(hook.run@.subrange(1, hook.run@.len() as int) == hook.run@.skip(1));
    let mut env: Vec<(String, String)> = Vec::new();
    env.push((String::from_str("CAN_SRC_ADDR"), format_hex(packet.src.addr())));
    env.push((String::from_str("CAN_DST_ADDR"), format_hex(packet.dest.addr())));
    env.push((String::from_str("CAN_SRC_PORT"), format_hex(packet.src.port())));
    env.push((String::from_str("CAN_DST_PORT"), format_hex(packet.dest.port())));
    env.push((String::from_str("CAN_PAYLOAD"), format_payload(packet.payload.as_slice())));
    Some(ChildCommand { program, args, env })
}

/// Of two frames that set off a rule with a cooldown, the first at a
/// time when the rule does not rest, the program is started for the first;
/// for the second it is started exactly if the cooldown since the first is
/// over, and a second that is suppressed leaves the time of the last run as
/// it was. The times are those at which the runs are past their delay.
pub proof fn cooldown_law(
    hook: Hook,
    cooldown: u64,
    table: Seq<Option<u64>>,
    first: Job,
    second: Job,
    frame1: CanPacketView,
    frame2: CanPacketView,
    t1: u64,
    t2: u64,
    between: Seq<Option<u64>>,
    after: Seq<Option<u64>>,
    r1: Step,
    r2: Step,
)
    requires
        hook.cooldown == Some(cooldown),
        hook.run@.len() > 0,
        first.hook == second.hook,
        first.hook < table.len(),
        !resting(table[first.hook as int], hook.cooldown, t1),
        ready_at(first.admitted_at, hook.delay) <= t1,
        ready_at(second.admitted_at, hook.delay) <= t2,
        t1 <= t2,
        advanced(hook, table, first, frame1, t1, between, r1),
        advanced(hook, between, second, frame2, t2, after, r2),
    ensures
        r1 is Run,
        t2 < t1 + cooldown ==> r2 is Suppressed && after == between,
        t2 >= t1 + cooldown ==> r2 is Run,
{
}

/// A run does not start its program before the delay of its rule is over.
pub proof fn delay_law(
    hook: Hook,
    before: Seq<Option<u64>>,
    job: Job,
    packet: CanPacketView,
    now: u64,
    after: Seq<Option<u64>>,
    r: Step,
)
    requires
        advanced(hook, before, job, packet, now, after, r),
        r is Run,
    ensures
        hook.delay matches Some(d) ==> now >= job.admitted_at + d,
        now >= job.admitted_at,
{
}

} // verus!
