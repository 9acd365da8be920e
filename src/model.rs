//! The application description: which hooks, ISRs, tasks, counters and
//! alarms the kernel under test is configured with, and the values of its
//! symbolic constants.
use vstd::prelude::*;
use vstd::string::*;

verus! {

/// A kernel lifecycle hook.
#[derive(Clone, Copy, Debug, PartialEq, Eq, Structural)]
pub enum HookType {
    Error,
    PreTask,
    PostTask,
    Startup,
    Shutdown,
}

impl HookType {
    /// The bit of each hook in a [`HookSet`].
    pub open spec fn mask(self) -> u8 {
        match self {
            HookType::Error => 1,
            HookType::PreTask => 2,
            HookType::PostTask => 4,
            HookType::Startup => 8,
            HookType::Shutdown => 16,
        }
    }

    /// Position of the hook in the fixed iteration order
    /// ERROR, PRE_TASK, POST_TASK, STARTUP, SHUTDOWN.
    pub open spec fn rank(self) -> nat {
        match self {
            HookType::Error => 0,
            HookType::PreTask => 1,
            HookType::PostTask => 2,
            HookType::Startup => 3,
            HookType::Shutdown => 4,
        }
    }

    pub fn bit(self) -> (r: u8)
        ensures
            r == self.mask(),
    {
        match self {
            HookType::Error => 1,
            HookType::PreTask => 2,
            HookType::PostTask => 4,
            HookType::Startup => 8,
            HookType::Shutdown => 16,
        }
    }
}

/// The mask of all five hooks.
pub const ALL_HOOK_BITS: u8 = 31;

/// A set of hooks, stored as a bit mask.
#[derive(Clone, Copy, Debug, PartialEq, Eq, Structural)]
pub struct HookSet {
    pub bits: u8,
}

impl HookSet {
    pub open spec fn has(self, h: HookType) -> bool {
        self.bits & h.mask() != 0
    }

    pub fn empty() -> (r: HookSet)
        ensures
            r.bits == 0,
            forall|h: HookType| !r.has(h),
    {
        let r = HookSet { bits: 0 };
        assert forall|h: HookType| !r.has(h) by {
            assert(0u8 & h.mask() == 0) by (bit_vector);
        }
        r
    }

    pub fn all() -> (r: HookSet)
        ensures
            r.bits == ALL_HOOK_BITS,
            forall|h: HookType| r.has(h),
    {
        let r = HookSet { bits: ALL_HOOK_BITS };
        assert forall|h: HookType| r.has(h) by {
            let m = h.mask();
            assert(m == 1 || m == 2 || m == 4 || m == 8 || m == 16);
            assert((m == 1 || m == 2 || m == 4 || m == 8 || m == 16) ==> 31u8 & m != 0)
                by (bit_vector);
        }
        r
    }

    pub fn contains(&self, h: HookType) -> (r: bool)
        ensures
            r == self.has(h),
    {
        self.bits & h.bit() != 0
    }

    /// The set with `h` added.
    pub fn with(self, h: HookType) -> (r: HookSet)
        ensures
            r.bits == self.bits | h.mask(),
            forall|g: HookType| r.has(g) == (self.has(g) || g == h),
    {
        let r = HookSet { bits: self.bits | h.bit() };
        assert forall|g: HookType| r.has(g) == (self.has(g) || g == h) by {
            let a = self.bits;
            let m = h.mask();
            let n = g.mask();
            assert(m == 1 || m == 2 || m == 4 || m == 8 || m == 16);
            assert(n == 1 || n == 2 || n == 4 || n == 8 || n == 16);
            assert(n == m <==> g == h);
            assert((m == 1 || m == 2 || m == 4 || m == 8 || m == 16) && (n == 1 || n == 2 || n
                == 4 || n == 8 || n == 16) ==> (((a | m) & n != 0) == ((a & n != 0) || n == m)))
                by (bit_vector);
        }
        r
    }

    /// Every hook is in the set and no other bit is set.
    pub fn is_all(&self) -> (r: bool)
        ensures
            r == (self.bits == ALL_HOOK_BITS),
    {
        self.bits == ALL_HOOK_BITS
    }

    pub fn is_empty(&self) -> (r: bool)
        ensures
            r == (self.bits == 0),
    {
        self.bits == 0
    }
}

/// An interrupt service routine of the application.
#[derive(Clone, Debug)]
pub struct ISR {
    /// Category-1 ISRs run with interrupts off and may only use the raw
    /// interrupt enable/disable services.
    pub is_isr1: bool,
    pub id: String,
    pub handler: Option<String>,
}

impl ISR {
    pub fn new_isr2(id: String, handler: Option<String>) -> (r: ISR)
        ensures
            !r.is_isr1,
            r.id == id,
            r.handler == handler,
    {
        ISR { is_isr1: false, id, handler }
    }

    /// A field-by-field copy.
    pub fn duplicate(&self) -> (r: ISR)
        ensures
            r == *self,
    {
        let handler = match &self.handler {
            Some(h) => Some(h.clone()),
            None => None,
        };
        ISR { is_isr1: self.is_isr1, id: self.id.clone(), handler }
    }
}

/// A task of the application, with the events it may wait on and the
/// resources it may take.
#[derive(Clone, Debug)]
pub struct Task {
    pub id: String,
    pub events: Vec<String>,
    pub resources: Vec<String>,
}

/// A copy of each name, in order.
pub fn copy_names(v: &Vec<String>) -> (r: Vec<String>)
    ensures
        r@ == v@,
{
    let mut r: Vec<String> = Vec::new();
    let mut i: usize = 0;
    while i < v.len()
        invariant
            i <= v@.len(),
            r@ == v@.take(i as int),
        decreases v@.len() - i,
    {
        r.push(v[i].clone());
        assert(r@ =~= v@.take(i + 1));
        i = i + 1;
    }
    assert(v@.take(v@.len() as int) =~= v@);
    r
}

impl Task {
    /// A field-by-field copy.
    pub fn duplicate(&self) -> (r: Task)
        ensures
            r.id == self.id,
            r.events@ == self.events@,
            r.resources@ == self.resources@,
    {
        Task {
            id: self.id.clone(),
            events: copy_names(&self.events),
            resources: copy_names(&self.resources),
        }
    }
}

/// The application configuration that programs are generated for.
#[derive(Clone, Debug)]
pub struct APPConfig {
    pub enabled_hook: HookSet,
    pub isr: Vec<ISR>,
    pub tasks: Vec<Task>,
    pub counters: Vec<String>,
    pub alarms: Vec<String>,
    /// The raw value of each symbolic constant; the first entry for a name
    /// is the one that counts.
    pub sym_val: Vec<(String, u32)>,
}

/// The value that `table` gives the symbol `s`: that of its first entry
/// named `s`.
pub open spec fn sym_lookup(table: Seq<(String, u32)>, s: Seq<char>) -> Option<u32>
    decreases table.len(),
{
    if table.len() == 0 {
        None
    } else if table[0].0@ == s {
        Some(table[0].1)
    } else {
        sym_lookup(table.drop_first(), s)
    }
}

/// Looks up the value of the symbol `s`.
pub fn lookup_symbol(table: &Vec<(String, u32)>, s: &String) -> (r: Option<u32>)
    ensures
        r == sym_lookup(table@, s@),
{
    let mut i: usize = 0;
    assert(table@.skip(0) =~= table@);
    while i < table.len()
        invariant
            i <= table@.len(),
            sym_lookup(table@, s@) == sym_lookup(table@.skip(i as int), s@),
        decreases table@.len() - i,
    {
        assert(table@.skip(i as int).drop_first() =~= table@.skip(i + 1));
        if table[i].0 == *s {
            return Some(table[i].1);
        }
        i = i + 1;
    }
    None
}

/// The context that a call is generated for.
#[derive(Clone, Debug)]
pub enum InstType {
    Task(Task),
    Isr(ISR),
    Hook(HookType),
}

fn owned(s: &str) -> (r: String)
    ensures
        r@ == s@,
{
    String::from_str(s)
}

fn isr2_named(name: &str) -> (r: ISR)
    ensures
        !r.is_isr1,
        r.id@ == name@,
        r.handler matches Some(h) && h@ == name@,
{
    ISR::new_isr2(owned(name), Some(owned(name)))
}

fn task_of(id: &str, e1: &str, e2: &str, r1: &str, r2: &str) -> (r: Task)
    ensures
        r.id@ == id@,
        r.events@.len() == 2,
        r.events@[0]@ == e1@,
        r.events@[1]@ == e2@,
        r.resources@.len() == 2,
        r.resources@[0]@ == r1@,
        r.resources@[1]@ == r2@,
{
    Task {
        id: owned(id),
        events: vec![owned(e1), owned(e2)],
        resources: vec![owned(r1), owned(r2)],
    }
}

impl Default for APPConfig {
    /// Three tasks, three category-2 ISRs, two counters, three alarms, the
    /// ERROR, PRE_TASK, POST_TASK and STARTUP hooks, and no symbol values.
    fn default() -> (r: APPConfig)
        ensures
            forall|h: HookType| r.enabled_hook.has(h) == (h != HookType::Shutdown),
            r.isr@.len() == 3,
            r.isr@[0].id@ == "isr1_handler"@,
            r.isr@[1].id@ == "isr2_handler"@,
            r.isr@[2].id@ == "isr3_handler"@,
            forall|i: int| 0 <= i < 3 ==> !(#[trigger] r.isr@[i]).is_isr1,
            forall|i: int|
                0 <= i < 3 ==> ((#[trigger] r.isr@[i]).handler matches Some(h) && h@ == r.isr@[i].id@),
            r.tasks@.len() == 3,
            r.tasks@[0].id@ == "Task1"@,
            r.tasks@[1].id@ == "Task2"@,
            r.tasks@[2].id@ == "Task3"@,
            forall|i: int|
                0 <= i < 3 ==> (#[trigger] r.tasks@[i]).events@.len() == 2
                    && r.tasks@[i].resources@.len() == 2,
            r.tasks@[0].events@[0]@ == "Event1"@ && r.tasks@[0].events@[1]@ == "Event2"@,
            r.tasks@[1].events@[0]@ == "Event1"@ && r.tasks@[1].events@[1]@ == "Event3"@,
            r.tasks@[2].events@[0]@ == "Event2"@ && r.tasks@[2].events@[1]@ == "Event3"@,
            r.tasks@[0].resources@[0]@ == "Resource1"@ && r.tasks@[0].resources@[1]@ == "Resource2"@,
            r.tasks@[1].resources@[0]@ == "Resource1"@ && r.tasks@[1].resources@[1]@ == "Resource3"@,
            r.tasks@[2].resources@[0]@ == "Resource2"@ && r.tasks@[2].resources@[1]@ == "Resource3"@,
            r.counters@.len() == 2,
            r.counters@[0]@ == "Counter1"@,
            r.counters@[1]@ == "Counter2"@,
            r.alarms@.len() == 3,
            r.alarms@[0]@ == "Alarm1"@,
            r.alarms@[1]@ == "Alarm2"@,
            r.alarms@[2]@ == "Alarm3"@,
            r.sym_val@.len() == 0,
    {
        let hooks = HookSet::empty().with(HookType::Error).with(HookType::Startup).with(
            HookType::PreTask,
        ).with(HookType::PostTask);
        APPConfig {
            enabled_hook: hooks,
            isr: vec![isr2_named("isr1_handler"), isr2_named("isr2_handler"), isr2_named("isr3_handler")],
            tasks: vec![
                task_of("Task1", "Event1", "Event2", "Resource1", "Resource2"),
                task_of("Task2", "Event1", "Event3", "Resource1", "Resource3"),
                task_of("Task3", "Event2", "Event3", "Resource2", "Resource3"),
            ],
            counters: vec![owned("Counter1"), owned("Counter2")],
            alarms: vec![owned("Alarm1"), owned("Alarm2"), owned("Alarm3")],
            sym_val: Vec::new(),
        }
    }
}

} // verus!
