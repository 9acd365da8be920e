//! The stateful program generator.
//!
//! Generation tracks, for each task, whether it runs normally, waits on an
//! event, or holds a resource, and keeps a task from blocking while it holds
//! a resource or waits.
use crate::model::{sym_lookup, APPConfig, HookType, InstType};
use crate::wire::{all_resolve, arg_resolves, call_resolves, data_var, entities, lemma_entities_index};
use crate::primitives::{
    allowed, arg_known, chain_task, isr1_kind, known, lemma_args_known, of_app, rand_call,
    symbols_known, tp_of_app, RegWidth,
};
use crate::prog::{
    hook_at, hook_at_index, sym_arg, Call, CallKind, HookInst, ISRInst, Inst, TaskInst, Value,
    HOOK_KINDS,
};
use crate::rng::{chance, coin, rand_below, rand_index};
use vstd::prelude::*;

verus! {

/// The execution state of a task during generation.
#[derive(Clone, Debug)]
pub enum TaskState {
    /// Waiting on the event.
    WaitEvent(String),
    /// Holding the resource.
    HoldRes(String),
    Normal,
}

impl TaskState {
    pub fn waiting_event(&self) -> (r: Option<String>)
        ensures
            match *self {
                TaskState::WaitEvent(e) => r == Some(e),
                _ => r is None,
            },
    {
        match self {
            TaskState::WaitEvent(e) => Some(e.clone()),
            _ => None,
        }
    }

    pub fn is_waiting(&self) -> (r: bool)
        ensures
            r == (*self is WaitEvent),
    {
        match self {
            TaskState::WaitEvent(_) => true,
            _ => false,
        }
    }
}

/// Calls a task may not make while it holds a resource.
pub open spec fn forbidden_holding(k: CallKind) -> bool {
    k == CallKind::Schedule || k == CallKind::WaitEvent || k == CallKind::GetResource
}

/// Calls a task may not make while it waits on an event.
pub open spec fn forbidden_waiting(k: CallKind) -> bool {
    k == CallKind::WaitEvent || k == CallKind::GetResource
}

/// `k` may be made by a task in state `s`.
pub open spec fn permitted(s: TaskState, k: CallKind) -> bool {
    match s {
        TaskState::HoldRes(_) => !forbidden_holding(k),
        TaskState::WaitEvent(_) => !forbidden_waiting(k),
        TaskState::Normal => true,
    }
}

/// The generation context: the state of each task, by position, and the
/// length its sequence had when it entered that state.
pub struct Context {
    pub states: Vec<TaskState>,
    pub entered: Ghost<Seq<nat>>,
}

impl Context {
    /// Every task starts in the normal state.
    pub fn new(inst: &Inst) -> (r: Context)
        ensures
            r.states@.len() == inst.tasks@.len(),
            forall|i: int| 0 <= i < r.states@.len() ==> r.states@[i] is Normal,
            respects(*inst, r),
    {
        let mut states: Vec<TaskState> = Vec::new();
        let mut i: usize = 0;
        while i < inst.tasks.len()
            invariant
                i <= inst.tasks@.len(),
                states@.len() == i,
                forall|k: int| 0 <= k < i ==> states@[k] is Normal,
            decreases inst.tasks@.len() - i,
        {
            states.push(TaskState::Normal);
            i = i + 1;
        }
        let ghost entered = inst.tasks@.map_values(|t: TaskInst| t.seq@.len());
        Context { states, entered: Ghost(entered) }
    }
}

/// Since each task entered its current state, every call appended to its
/// sequence is one that the state permits: none of Schedule, WaitEvent and
/// GetResource while it holds a resource, neither WaitEvent nor GetResource
/// while it waits on an event.
pub open spec fn respects(inst: Inst, ctx: Context) -> bool {
    &&& ctx.states@.len() == inst.tasks@.len()
    &&& ctx.entered@.len() == inst.tasks@.len()
    &&& forall|i: int|
        0 <= i < inst.tasks@.len() ==> #[trigger] ctx.entered@[i] <= inst.tasks@[i].seq@.len()
    &&& forall|i: int, k: int|
        0 <= i < inst.tasks@.len() && ctx.entered@[i] <= k < inst.tasks@[i].seq@.len() ==> permitted(
            ctx.states@[i],
            (#[trigger] inst.tasks@[i].seq@[k]).name,
        )
}

/// `respects` over a task list rather than a whole program.
pub open spec fn tasks_respect(tasks: Seq<TaskInst>, ctx: Context) -> bool {
    &&& ctx.states@.len() == tasks.len()
    &&& ctx.entered@.len() == tasks.len()
    &&& forall|i: int| 0 <= i < tasks.len() ==> #[trigger] ctx.entered@[i] <= tasks[i].seq@.len()
    &&& forall|i: int, k: int|
        0 <= i < tasks.len() && ctx.entered@[i] <= k < tasks[i].seq@.len() ==> permitted(
            ctx.states@[i],
            (#[trigger] tasks[i].seq@[k]).name,
        )
}

/// Each call of a task sequence is well formed, legal for a task, and
/// names only entities of `app`.
pub open spec fn tasks_ok(tasks: Seq<TaskInst>, app: APPConfig) -> bool {
    forall|i: int, k: int|
        0 <= i < tasks.len() && 0 <= k < tasks[i].seq@.len() ==> {
            &&& (#[trigger] tasks[i].seq@[k]).well_formed()
            &&& tasks[i].seq@[k].name != CallKind::TerminateTask
            &&& tasks[i].seq@[k].name != CallKind::ChainTask
            &&& symbols_known(tasks[i].seq@[k], app)
        }
}

/// The task sequences belong to the tasks of `app`, in order.
pub open spec fn tasks_match(tasks: Seq<TaskInst>, app: APPConfig) -> bool {
    &&& tasks.len() == app.tasks@.len()
    &&& forall|i: int| 0 <= i < tasks.len() ==> (#[trigger] tasks[i]).id == app.tasks@[i].id
}

/// Every event waited on and every resource held names an entity of `app`.
pub open spec fn ctx_known(ctx: Context, app: APPConfig) -> bool {
    forall|i: int|
        0 <= i < ctx.states@.len() ==> match #[trigger] ctx.states@[i] {
            TaskState::WaitEvent(e) => known(app, e@),
            TaskState::HoldRes(r) => known(app, r@),
            TaskState::Normal => true,
        }
}

/// Each call of an ISR sequence is well formed, legal for its ISR, and
/// names only entities of `app`.
pub open spec fn isrs_ok(isr: Seq<ISRInst>, app: APPConfig) -> bool {
    forall|i: int, k: int|
        0 <= i < isr.len() && 0 <= k < isr[i].seq@.len() ==> {
            &&& (#[trigger] isr[i].seq@[k]).well_formed()
            &&& allowed(InstType::Isr(isr[i].meta), isr[i].seq@[k].name)
            &&& symbols_known(isr[i].seq@[k], app)
        }
}

/// Each call of a hook sequence is well formed, legal for its hook, and
/// names only entities of `app`.
pub open spec fn hooks_ok(hooks: HookInst, app: APPConfig) -> bool {
    forall|h: HookType, k: int|
        0 <= k < hooks.calls(h).len() ==> {
            &&& (#[trigger] hooks.calls(h)[k]).well_formed()
            &&& allowed(InstType::Hook(h), hooks.calls(h)[k].name)
            &&& symbols_known(hooks.calls(h)[k], app)
        }
}

/// Task `t` grew by at least one call, its identity is kept, and every
/// other task is unchanged.
pub open spec fn grew_only(old_tasks: Seq<TaskInst>, new_tasks: Seq<TaskInst>, t: int) -> bool {
    &&& new_tasks.len() == old_tasks.len()
    &&& new_tasks[t].id == old_tasks[t].id
    &&& new_tasks[t].seq@.len() > old_tasks[t].seq@.len()
    &&& old_tasks[t].seq@ == new_tasks[t].seq@.take(old_tasks[t].seq@.len() as int)
    &&& forall|i: int| 0 <= i < new_tasks.len() && i != t ==> new_tasks[i] == old_tasks[i]
}

/// Tasks keep their identities and their sequences only grow.
pub open spec fn tasks_extend(old_tasks: Seq<TaskInst>, new_tasks: Seq<TaskInst>) -> bool {
    &&& new_tasks.len() == old_tasks.len()
    &&& forall|i: int|
        0 <= i < new_tasks.len() ==> (#[trigger] new_tasks[i]).id == old_tasks[i].id
            && old_tasks[i].seq@.len() <= new_tasks[i].seq@.len()
}

fn push_task_call(tasks: &mut Vec<TaskInst>, t: usize, c: Call)
    requires
        t < old(tasks)@.len(),
    ensures
        final(tasks)@.len() == old(tasks)@.len(),
        final(tasks)@[t as int].id == old(tasks)@[t as int].id,
        final(tasks)@[t as int].seq@ == old(tasks)@[t as int].seq@.push(c),
        forall|i: int| 0 <= i < final(tasks)@.len() && i != t ==> final(tasks)@[i] == old(tasks)@[i],
{
    tasks[t].seq.push(c);
}

fn set_state(ctx: &mut Context, t: usize, s: TaskState, len: Ghost<nat>)
    requires
        t < old(ctx).states@.len(),
        old(ctx).entered@.len() == old(ctx).states@.len(),
    ensures
        final(ctx).states@ == old(ctx).states@.update(t as int, s),
        final(ctx).entered@ == old(ctx).entered@.update(t as int, len@),
{
    ctx.states.set(t, s);
    ctx.entered = Ghost(ctx.entered@.update(t as int, len@));
}

/// The first waiting task, by position, and the event it waits on.
pub fn waiting_task(ctx: &Context) -> (r: Option<(usize, String)>)
    ensures
        match r {
            Some((i, e)) => i < ctx.states@.len() && ctx.states@[i as int] == TaskState::WaitEvent(e)
                && forall|k: int| 0 <= k < i ==> !(ctx.states@[k] is WaitEvent),
            None => forall|k: int| 0 <= k < ctx.states@.len() ==> !(ctx.states@[k] is WaitEvent),
        },
{
    let mut i: usize = 0;
    while i < ctx.states.len()
        invariant
            i <= ctx.states@.len(),
            forall|k: int| 0 <= k < i ==> !(ctx.states@[k] is WaitEvent),
        decreases ctx.states@.len() - i,
    {
        if let Some(e) = ctx.states[i].waiting_event() {
            return Some((i, e));
        }
        i = i + 1;
    }
    None
}

/// The enable or resume call that matches an interrupt-disabling call.
pub open spec fn matching_enable(k: CallKind) -> Option<CallKind> {
    if k == CallKind::DisableAllInterrupts {
        Some(CallKind::EnableAllInterrupts)
    } else if k == CallKind::SuspendAllInterrupts {
        Some(CallKind::ResumeAllInterrupts)
    } else if k == CallKind::SuspendOSInterrupts {
        Some(CallKind::ResumeOSInterrupts)
    } else {
        None
    }
}

/// The state of a task in state `s` once it has made a call of kind
/// `kind` whose first argument is the symbol `arg` (if it is a symbol):
/// releasing the held resource returns it to normal; in the normal state,
/// taking a resource or waiting on an event enters the matching state;
/// anything else keeps the state.
pub open spec fn next_state(s: TaskState, kind: CallKind, arg: Option<String>) -> TaskState {
    match s {
        TaskState::HoldRes(r) => if kind == CallKind::ReleaseResource && (arg matches Some(x) && x@
            == r@) {
            TaskState::Normal
        } else {
            s
        },
        TaskState::Normal => match arg {
            Some(x) => if kind == CallKind::GetResource {
                TaskState::HoldRes(x)
            } else if kind == CallKind::WaitEvent {
                TaskState::WaitEvent(x)
            } else {
                TaskState::Normal
            },
            None => TaskState::Normal,
        },
        TaskState::WaitEvent(_) => s,
    }
}

/// The symbol that is the first argument of `c`, if it is one.
pub open spec fn first_symbol(c: Call) -> Option<String> {
    if c.args@.len() > 0 {
        match c.args@[0] {
            Value::Symbol(x) => Some(x),
            _ => None,
        }
    } else {
        None
    }
}

/// The sequence `new` is `old` with `c` appended and then, when `c`
/// disables interrupts, possibly the matching enable call; the state of the
/// task follows `c` unless that enable call was appended, which keeps it.
pub open spec fn call_step(
    old_seq: Seq<Call>,
    new_seq: Seq<Call>,
    old_state: TaskState,
    new_state: TaskState,
    c: Call,
) -> bool {
    ||| new_seq == old_seq.push(c) && new_state == next_state(old_state, c.name, first_symbol(c))
    ||| matching_enable(c.name) is Some && new_seq.len() == old_seq.len() + 2 && new_seq.drop_last()
        == old_seq.push(c) && new_seq.last().name == matching_enable(c.name)->Some_0
        && new_seq.last().args@.len() == 0 && new_state == old_state
}

/// One `add_call` step on task `t`: a call permitted by the task's state
/// is appended (with its enable call, see `call_step`), the state of task
/// `t` follows it, and no other task or state changes.
pub open spec fn add_call_step(
    old_tasks: Seq<TaskInst>,
    new_tasks: Seq<TaskInst>,
    old_states: Seq<TaskState>,
    new_states: Seq<TaskState>,
    t: int,
) -> bool {
    &&& 0 <= t < old_tasks.len() == new_tasks.len()
    &&& old_states.len() == new_states.len()
    &&& new_tasks[t].id == old_tasks[t].id
    &&& forall|i: int| 0 <= i < new_tasks.len() && i != t ==> new_tasks[i] == old_tasks[i]
    &&& forall|i: int| 0 <= i < new_states.len() && i != t ==> new_states[i] == old_states[i]
    &&& exists|c: Call|
        {
            &&& (#[trigger] c.well_formed())
            &&& permitted(old_states[t], c.name)
            &&& c.name != CallKind::TerminateTask
            &&& c.name != CallKind::ChainTask
            &&& call_step(old_tasks[t].seq@, new_tasks[t].seq@, old_states[t], new_states[t], c)
        }
}

/// Records the effect of the call `c` just appended to task `t`: an
/// interrupt-disabling call is usually followed at once by its matching
/// enable call; releasing the held resource returns the task to normal; in
/// the normal state, taking a resource or waiting on an event enters the
/// matching state.
fn update_state(
    tasks: &mut Vec<TaskInst>,
    t: usize,
    kind: CallKind,
    arg: Option<String>,
    ctx: &mut Context,
    app: &APPConfig,
)
    requires
        t < old(tasks)@.len(),
        tasks_respect(old(tasks)@, *old(ctx)),
        tasks_ok(old(tasks)@, *app),
        ctx_known(*old(ctx), *app),
        arg matches Some(s) ==> known(*app, s@),
    ensures
        tasks_respect(final(tasks)@, *final(ctx)),
        tasks_ok(final(tasks)@, *app),
        ctx_known(*final(ctx), *app),
        final(tasks)@.len() == old(tasks)@.len(),
        final(tasks)@[t as int].id == old(tasks)@[t as int].id,
        final(tasks)@[t as int].seq@.len() >= old(tasks)@[t as int].seq@.len(),
        old(tasks)@[t as int].seq@ == final(tasks)@[t as int].seq@.take(
            old(tasks)@[t as int].seq@.len() as int,
        ),
        forall|i: int| 0 <= i < final(tasks)@.len() && i != t ==> final(tasks)@[i] == old(tasks)@[i],
        (matching_enable(kind) is Some && final(tasks)@[t as int].seq@.len() == old(
            tasks,
        )@[t as int].seq@.len() + 1 && final(tasks)@[t as int].seq@.drop_last() == old(
            tasks,
        )@[t as int].seq@ && final(tasks)@[t as int].seq@.last().name == matching_enable(
            kind,
        )->Some_0 && final(tasks)@[t as int].seq@.last().args@.len() == 0 && final(ctx).states@
            == old(ctx).states@) || (final(tasks)@[t as int].seq@ == old(tasks)@[t as int].seq@
            && final(ctx).states@ == old(ctx).states@.update(
            t as int,
            next_state(old(ctx).states@[t as int], kind, arg),
        )),
{
    let follow = match kind {
        CallKind::DisableAllInterrupts => Some(Call::enable_int()),
        CallKind::SuspendAllInterrupts => Some(Call::resume_int()),
        CallKind::SuspendOSInterrupts => Some(Call::resume_os_int()),
        _ => None,
    };
    if let Some(f) = follow {
        if chance(920) {
            push_task_call(tasks, t, f);
            assert(tasks@[t as int].seq@.take(old(tasks)@[t as int].seq@.len() as int)
                =~= old(tasks)@[t as int].seq@);
            assert(tasks@[t as int].seq@.drop_last() =~= old(tasks)@[t as int].seq@);
            return;
        }
    }
    let len = tasks[t].seq.len();
    assert(old(tasks)@[t as int].seq@.take(len as int) =~= old(tasks)@[t as int].seq@);
    match &ctx.states[t] {
        TaskState::HoldRes(res) => {
            if kind == CallKind::ReleaseResource {
                if let Some(s) = &arg {
                    if *s == *res {
                        set_state(ctx, t, TaskState::Normal, Ghost(len as nat));
                    }
                }
            }
        },
        TaskState::Normal => {
            if let Some(s) = arg {
                if kind == CallKind::GetResource {
                    set_state(ctx, t, TaskState::HoldRes(s), Ghost(len as nat));
                } else if kind == CallKind::WaitEvent {
                    set_state(ctx, t, TaskState::WaitEvent(s), Ghost(len as nat));
                }
            }
        },
        TaskState::WaitEvent(_) => {},
    }
    assert(ctx.states@ =~= old(ctx).states@.update(
        t as int,
        next_state(old(ctx).states@[t as int], kind, arg),
    ));
}

/// Most draws a task may make before a plain query is taken instead.
pub const MAX_DRAWS: u32 = 64;

/// Appends a random call to task `t` that its state permits, and records
/// its effect on the state.
pub fn add_call(tasks: &mut Vec<TaskInst>, t: usize, ctx: &mut Context, app: &APPConfig, w: RegWidth)
    requires
        t < old(tasks)@.len(),
        old(tasks)@.len() == app.tasks@.len(),
        tasks_respect(old(tasks)@, *old(ctx)),
        tasks_ok(old(tasks)@, *app),
        ctx_known(*old(ctx), *app),
    ensures
        tasks_respect(final(tasks)@, *final(ctx)),
        tasks_ok(final(tasks)@, *app),
        ctx_known(*final(ctx), *app),
        grew_only(old(tasks)@, final(tasks)@, t as int),
        add_call_step(old(tasks)@, final(tasks)@, old(ctx).states@, final(ctx).states@, t as int),
        final(tasks)@[t as int].seq@.len() <= old(tasks)@[t as int].seq@.len() + 2,
        forall|k: int|
            old(tasks)@[t as int].seq@.len() <= k < final(tasks)@[t as int].seq@.len() ==> permitted(
                old(ctx).states@[t as int],
                (#[trigger] final(tasks)@[t as int].seq@[k]).name,
            ),
{
    let tp = InstType::Task(app.tasks[t].duplicate());
    assert(of_app(*app, tp->Task_0)) by {
        assert(app.tasks@[t as int].id@ == tp->Task_0.id@);
    }
    let c0 = Call::get_task_id();
    proof {
        lemma_args_known(c0, *app);
    }
    let mut c = c0;
    let mut tries: u32 = 0;
    while tries < MAX_DRAWS
        invariant
            tp is Task,
            tp_of_app(*app, tp),
            symbols_known(c, *app),
            c.well_formed(),
            c.name != CallKind::TerminateTask && c.name != CallKind::ChainTask,
            permitted(ctx.states@[t as int], c.name),
            t < ctx.states@.len(),
        decreases MAX_DRAWS - tries,
    {
        let d = rand_call(app, &tp, w);
        let ok = match &ctx.states[t] {
            TaskState::HoldRes(_) => !(d.name == CallKind::Schedule || d.name == CallKind::WaitEvent
                || d.name == CallKind::GetResource),
            TaskState::WaitEvent(_) => !(d.name == CallKind::WaitEvent || d.name
                == CallKind::GetResource),
            TaskState::Normal => true,
        };
        if ok {
            c = d;
            break;
        }
        tries = tries + 1;
    }
    let ghost before = tasks@;
    let ghost states0 = ctx.states@;
    let ghost cg = c;
    let kind = c.name;
    let arg = if c.args.len() > 0 {
        assert(arg_known(c.args@[0], *app));
        c.args[0].symbol()
    } else {
        None
    };
    assert(arg == first_symbol(cg));
    push_task_call(tasks, t, c);
    assert(tasks_respect(tasks@, *ctx)) by {
        assert forall|i: int, k: int|
            0 <= i < tasks@.len() && ctx.entered@[i] <= k < tasks@[i].seq@.len() implies permitted(
            ctx.states@[i],
            (#[trigger] tasks@[i].seq@[k]).name,
        ) by {
            if i != t && k < before[i].seq@.len() {
                assert(tasks@[i].seq@[k] == before[i].seq@[k]);
            } else if i == t && k < before[i].seq@.len() {
                assert(tasks@[i].seq@[k] == before[i].seq@[k]);
            }
        }
    }
    assert(tasks_ok(tasks@, *app)) by {
        assert forall|i: int, k: int|
            0 <= i < tasks@.len() && 0 <= k < tasks@[i].seq@.len() implies (#[trigger] tasks@[i].seq@[k]).well_formed()
            && tasks@[i].seq@[k].name != CallKind::TerminateTask
            && tasks@[i].seq@[k].name != CallKind::ChainTask && symbols_known(tasks@[i].seq@[k], *app) by {
            if k < before[i].seq@.len() {
                assert(tasks@[i].seq@[k] == before[i].seq@[k]);
            }
        }
    }
    let ghost mid = tasks@;
    update_state(tasks, t, kind, arg, ctx, app);
    assert(tasks@[t as int].seq@.take(before[t as int].seq@.len() as int) =~= before[t as int].seq@) by {
        let n = before[t as int].seq@.len() as int;
        let m = mid[t as int].seq@.len() as int;
        assert forall|k: int| 0 <= k < n implies tasks@[t as int].seq@[k] == before[t as int].seq@[k] by {
            assert(tasks@[t as int].seq@.take(m)[k] == mid[t as int].seq@[k]);
            assert(mid[t as int].seq@[k] == before[t as int].seq@[k]);
        }
    }
    proof {
        let ti = t as int;
        assert(mid[ti].seq@ == before[ti].seq@.push(cg));
        if tasks@[ti].seq@ == mid[ti].seq@ {
            assert(call_step(before[ti].seq@, tasks@[ti].seq@, states0[ti], ctx.states@[ti], cg));
        } else {
            assert(tasks@[ti].seq@.drop_last() == before[ti].seq@.push(cg));
            assert(call_step(before[ti].seq@, tasks@[ti].seq@, states0[ti], ctx.states@[ti], cg));
        }
        assert(cg.well_formed() && permitted(states0[ti], cg.name));
        assert forall|k: int|
            before[ti].seq@.len() <= k < tasks@[ti].seq@.len() implies permitted(
            states0[ti],
            (#[trigger] tasks@[ti].seq@[k]).name,
        ) by {
            if k == before[ti].seq@.len() {
                assert(tasks@[ti].seq@[k] == mid[ti].seq@[k]);
            } else {
                assert(tasks@[ti].seq@[k] == tasks@[ti].seq@.last());
            }
        }
    }
}

proof fn lemma_push_keeps(
    before: Seq<TaskInst>,
    after: Seq<TaskInst>,
    ctx: Context,
    t: int,
    c: Call,
    app: APPConfig,
)
    requires
        0 <= t < before.len(),
        tasks_respect(before, ctx),
        tasks_ok(before, app),
        symbols_known(c, app),
        after.len() == before.len(),
        after[t].seq@ == before[t].seq@.push(c),
        forall|i: int| 0 <= i < after.len() && i != t ==> after[i] == before[i],
        permitted(ctx.states@[t], c.name),
        c.well_formed(),
        c.name != CallKind::TerminateTask,
        c.name != CallKind::ChainTask,
    ensures
        tasks_respect(after, ctx),
        tasks_ok(after, app),
{
    assert forall|i: int, k: int|
        0 <= i < after.len() && ctx.entered@[i] <= k < after[i].seq@.len() implies permitted(
        ctx.states@[i],
        (#[trigger] after[i].seq@[k]).name,
    ) by {
        if k < before[i].seq@.len() {
            assert(after[i].seq@[k] == before[i].seq@[k]);
        }
    }
    assert forall|i: int, k: int|
        0 <= i < after.len() && 0 <= k < after[i].seq@.len() implies (
        #[trigger] after[i].seq@[k]).well_formed() && after[i].seq@[k].name != CallKind::TerminateTask
        && after[i].seq@[k].name != CallKind::ChainTask && symbols_known(after[i].seq@[k], app) by {
        if k < before[i].seq@.len() {
            assert(after[i].seq@[k] == before[i].seq@[k]);
        }
    }
    assert forall|i: int| 0 <= i < after.len() implies #[trigger] ctx.entered@[i] <= after[i].seq@.len() by {
        if i != t {
            assert(after[i] == before[i]);
        }
    }
}

proof fn lemma_enter_state(tasks: Seq<TaskInst>, old_ctx: Context, new_ctx: Context, t: int, s: TaskState)
    requires
        0 <= t < tasks.len(),
        tasks_respect(tasks, old_ctx),
        new_ctx.states@ == old_ctx.states@.update(t, s),
        new_ctx.entered@ == old_ctx.entered@.update(t, tasks[t].seq@.len()),
    ensures
        tasks_respect(tasks, new_ctx),
{
    assert forall|i: int, k: int|
        0 <= i < tasks.len() && new_ctx.entered@[i] <= k < tasks[i].seq@.len() implies permitted(
        new_ctx.states@[i],
        (#[trigger] tasks[i].seq@[k]).name,
    ) by {
        if i != t {
            assert(new_ctx.states@[i] == old_ctx.states@[i]);
            assert(new_ctx.entered@[i] == old_ctx.entered@[i]);
        }
    }
}

/// Setting the event that task `wi` waits on names only entities of `app`.
proof fn lemma_wake_known(app: APPConfig, tasks: Seq<TaskInst>, ctx: Context, wi: int, c: Call)
    requires
        tasks_match(tasks, app),
        ctx_known(ctx, app),
        ctx.states@.len() == tasks.len(),
        0 <= wi < tasks.len(),
        ctx.states@[wi] matches TaskState::WaitEvent(e) && c.args@.len() == 2 && sym_arg(
            c.args@[0],
            tasks[wi].id@,
        ) && sym_arg(c.args@[1], e@),
    ensures
        symbols_known(c, app),
{
    assert(tasks[wi].id == app.tasks@[wi].id);
    assert(known(app, tasks[wi].id@));
    assert(known(app, (ctx.states@[wi]->WaitEvent_0)@));
    lemma_args_known(c, app);
}

/// `wi` is the first task, by position, that waits on an event.
pub open spec fn first_waiting(states: Seq<TaskState>, wi: int) -> bool {
    &&& 0 <= wi < states.len()
    &&& states[wi] is WaitEvent
    &&& forall|k: int| 0 <= k < wi ==> !(#[trigger] states[k] is WaitEvent)
}

/// Some task waits on an event.
pub open spec fn some_waiting(states: Seq<TaskState>) -> bool {
    exists|i: int| 0 <= i < states.len() && #[trigger] states[i] is WaitEvent
}

/// Some task does not wait on an event.
pub open spec fn some_idle(states: Seq<TaskState>) -> bool {
    exists|i: int| 0 <= i < states.len() && !(#[trigger] states[i] is WaitEvent)
}

/// Task `t` grew by exactly the one call `c`, and no other task changed.
pub open spec fn appended_one(old_tasks: Seq<TaskInst>, new_tasks: Seq<TaskInst>, t: int, c: Call) -> bool {
    &&& new_tasks.len() == old_tasks.len()
    &&& new_tasks[t].id == old_tasks[t].id
    &&& new_tasks[t].seq@ == old_tasks[t].seq@.push(c)
    &&& forall|i: int| 0 <= i < new_tasks.len() && i != t ==> new_tasks[i] == old_tasks[i]
}

/// `c` sets the event `e` of the task `tid`.
pub open spec fn set_event_call(c: Call, tid: Seq<char>, e: Seq<char>) -> bool {
    c.name == CallKind::SetEvent && c.args@.len() == 2 && sym_arg(c.args@[0], tid) && sym_arg(
        c.args@[1],
        e,
    )
}

/// `c` releases the resource `r`.
pub open spec fn release_call(c: Call, r: Seq<char>) -> bool {
    c.name == CallKind::ReleaseResource && c.args@.len() == 1 && sym_arg(c.args@[0], r)
}

/// What one `gen_task` step did to the chosen task `t`: if some task waits
/// and `t` does not, `t` set the event of the first waiting task, which
/// runs again; otherwise `t`, when it holds a resource, may have released
/// it; otherwise it took an `add_call` step.
pub open spec fn task_step(
    old_tasks: Seq<TaskInst>,
    new_tasks: Seq<TaskInst>,
    old_states: Seq<TaskState>,
    new_states: Seq<TaskState>,
    t: int,
) -> bool {
    if some_waiting(old_states) && !(old_states[t] is WaitEvent) {
        exists|wi: int, c: Call|
            #![trigger first_waiting(old_states, wi), appended_one(old_tasks, new_tasks, t, c)]
            first_waiting(old_states, wi) && appended_one(old_tasks, new_tasks, t, c) && set_event_call(
                c,
                old_tasks[wi].id@,
                (old_states[wi]->WaitEvent_0)@,
            ) && new_states == old_states.update(wi, TaskState::Normal)
    } else {
        ||| (old_states[t] is HoldRes && exists|c: Call|
            #[trigger] appended_one(old_tasks, new_tasks, t, c) && release_call(
                c,
                (old_states[t]->HoldRes_0)@,
            ) && new_states == old_states.update(t, TaskState::Normal))
        ||| add_call_step(old_tasks, new_tasks, old_states, new_states, t)
    }
}

/// Appends a call to a task: preferably to one that is not waiting. If some
/// task waits on an event and the chosen one does not, the chosen task sets
/// that event and the waiting task runs again; otherwise a task holding a
/// resource usually releases it; otherwise a random permitted call is added.
pub fn gen_task(tasks: &mut Vec<TaskInst>, ctx: &mut Context, app: &APPConfig, w: RegWidth)
    requires
        old(tasks)@.len() > 0,
        tasks_match(old(tasks)@, *app),
        tasks_respect(old(tasks)@, *old(ctx)),
        tasks_ok(old(tasks)@, *app),
        ctx_known(*old(ctx), *app),
    ensures
        tasks_respect(final(tasks)@, *final(ctx)),
        tasks_ok(final(tasks)@, *app),
        ctx_known(*final(ctx), *app),
        tasks_extend(old(tasks)@, final(tasks)@),
        exists|t: int|
            #![trigger grew_only(old(tasks)@, final(tasks)@, t)]
            0 <= t < old(tasks)@.len() && grew_only(old(tasks)@, final(tasks)@, t) && (some_idle(
                old(ctx).states@,
            ) ==> !(old(ctx).states@[t] is WaitEvent)) && task_step(
                old(tasks)@,
                final(tasks)@,
                old(ctx).states@,
                final(ctx).states@,
                t,
            ),
{
    let n = tasks.len();
    let mut idle: Vec<usize> = Vec::new();
    let mut i: usize = 0;
    while i < n
        invariant
            n == ctx.states@.len(),
            i <= n,
            forall|k: int|
                0 <= k < idle@.len() ==> (#[trigger] idle@[k]) < n && !(
                ctx.states@[idle@[k] as int] is WaitEvent),
            idle@.len() == 0 ==> forall|k: int| 0 <= k < i ==> #[trigger] ctx.states@[k] is WaitEvent,
        decreases n - i,
    {
        if !ctx.states[i].is_waiting() {
            idle.push(i);
        }
        i = i + 1;
    }
    let t = if idle.len() > 0 {
        idle[rand_index(idle.len())]
    } else {
        rand_index(n)
    };
    let ghost before = tasks@;
    let ghost states0 = ctx.states@;
    assert(some_idle(states0) ==> !(states0[t as int] is WaitEvent));
    if let Some((wi, ev)) = waiting_task(ctx) {
        if !ctx.states[t].is_waiting() {
            let c = Call::set_event(tasks[wi].id.as_str(), ev.as_str());
            let ghost cg = c;
            proof {
                lemma_wake_known(*app, tasks@, *ctx, wi as int, c);
            }
            push_task_call(tasks, t, c);
            proof {
                lemma_push_keeps(before, tasks@, *ctx, t as int, c, *app);
            }
            let ghost mid = *ctx;
            set_state(ctx, wi, TaskState::Normal, Ghost(tasks@[wi as int].seq@.len()));
            proof {
                lemma_enter_state(tasks@, mid, *ctx, wi as int, TaskState::Normal);
                let ti = t as int;
                assert(tasks@[ti].seq@.take(before[ti].seq@.len() as int) =~= before[ti].seq@);
                assert(some_waiting(states0));
                assert(first_waiting(states0, wi as int));
                assert(appended_one(before, tasks@, ti, cg));
                assert(task_step(before, tasks@, states0, ctx.states@, ti));
                assert(grew_only(before, tasks@, ti));
            }
            return;
        }
    }
    let release = match &ctx.states[t] {
        TaskState::HoldRes(res) => Some(Call::release_res(res.as_str())),
        _ => None,
    };
    assert(!(some_waiting(states0) && !(states0[t as int] is WaitEvent)));
    if let Some(c) = release {
        if chance(850) {
            let ghost cg = c;
            proof {
                let res = ctx.states@[t as int]->HoldRes_0;
                assert(known(*app, res@));
                assert(arg_known(c.args@[0], *app));
                lemma_args_known(c, *app);
            }
            push_task_call(tasks, t, c);
            proof {
                lemma_push_keeps(before, tasks@, *ctx, t as int, c, *app);
            }
            let ghost mid = *ctx;
            set_state(ctx, t, TaskState::Normal, Ghost(tasks@[t as int].seq@.len()));
            proof {
                lemma_enter_state(tasks@, mid, *ctx, t as int, TaskState::Normal);
                let ti = t as int;
                assert(tasks@[ti].seq@.take(before[ti].seq@.len() as int) =~= before[ti].seq@);
                assert(appended_one(before, tasks@, ti, cg));
                assert(task_step(before, tasks@, states0, ctx.states@, ti));
                assert(grew_only(before, tasks@, ti));
            }
            return;
        }
    }
    add_call(tasks, t, ctx, app, w);
    assert(task_step(before, tasks@, states0, ctx.states@, t as int));
    assert(grew_only(before, tasks@, t as int));
}

fn push_isr_call(isr: &mut Vec<ISRInst>, i: usize, c: Call, app: &APPConfig)
    requires
        i < old(isr)@.len(),
        isrs_ok(old(isr)@, *app),
        c.well_formed(),
        symbols_known(c, *app),
        allowed(InstType::Isr(old(isr)@[i as int].meta), c.name),
    ensures
        isrs_ok(final(isr)@, *app),
        final(isr)@.len() == old(isr)@.len(),
        final(isr)@[i as int].meta == old(isr)@[i as int].meta,
        final(isr)@[i as int].seq@ == old(isr)@[i as int].seq@.push(c),
        forall|k: int| 0 <= k < final(isr)@.len() && k != i ==> final(isr)@[k] == old(isr)@[k],
{
    let ghost before = isr@;
    isr[i].seq.push(c);
    assert forall|j: int, k: int|
        0 <= j < isr@.len() && 0 <= k < isr@[j].seq@.len() implies (#[trigger] isr@[j].seq@[k]).well_formed()
        && allowed(InstType::Isr(isr@[j].meta), isr@[j].seq@[k].name) && symbols_known(
        isr@[j].seq@[k],
        *app,
    ) by {
        if k < before[j].seq@.len() {
            assert(isr@[j].seq@[k] == before[j].seq@[k]);
        }
    }
}

/// ISR metadata is kept and every sequence only grows.
pub open spec fn isrs_extend(old_isr: Seq<ISRInst>, new_isr: Seq<ISRInst>) -> bool {
    &&& new_isr.len() == old_isr.len()
    &&& forall|i: int|
        0 <= i < new_isr.len() ==> (#[trigger] new_isr[i]).meta == old_isr[i].meta
            && old_isr[i].seq@.len() <= new_isr[i].seq@.len()
}

/// ISR `i` grew by exactly the one call `c`, and no other ISR changed.
pub open spec fn isr_appended(old_isr: Seq<ISRInst>, new_isr: Seq<ISRInst>, i: int, c: Call) -> bool {
    &&& 0 <= i < old_isr.len()
    &&& new_isr.len() == old_isr.len()
    &&& new_isr[i].meta == old_isr[i].meta
    &&& new_isr[i].seq@ == old_isr[i].seq@.push(c)
    &&& forall|k: int| 0 <= k < new_isr.len() && k != i ==> new_isr[k] == old_isr[k]
}

/// Appends a random call to a uniformly chosen ISR, legal for that ISR.
pub fn gen_isr1(isr: &mut Vec<ISRInst>, app: &APPConfig, w: RegWidth)
    requires
        isrs_ok(old(isr)@, *app),
    ensures
        isrs_ok(final(isr)@, *app),
        isrs_extend(old(isr)@, final(isr)@),
        old(isr)@.len() > 0 ==> exists|i: int|
            0 <= i < final(isr)@.len() && (#[trigger] final(isr)@[i]).seq@.len() > old(isr)@[i].seq@.len(),
        old(isr)@.len() == 0 ==> final(isr)@ == old(isr)@,
        old(isr)@.len() > 0 ==> exists|i: int, c: Call|
            #[trigger] isr_appended(old(isr)@, final(isr)@, i, c) && allowed(
                InstType::Isr(old(isr)@[i].meta),
                c.name,
            ),
{
    if isr.len() == 0 {
        return;
    }
    let i = rand_index(isr.len());
    let tp = InstType::Isr(isr[i].meta.duplicate());
    let c = rand_call(app, &tp, w);
    let ghost before = isr@;
    let ghost cg = c;
    push_isr_call(isr, i, c, app);
    assert(isr_appended(before, isr@, i as int, cg));
}

/// Appends a call to a uniformly chosen ISR. A category-2 ISR wakes a
/// waiting task, if there is one, by setting its event; otherwise the ISR
/// gets a random call that is legal for it.
pub fn gen_isr2(isr: &mut Vec<ISRInst>, tasks: &Vec<TaskInst>, ctx: &mut Context, app: &APPConfig, w: RegWidth)
    requires
        isrs_ok(old(isr)@, *app),
        tasks_match(tasks@, *app),
        ctx_known(*old(ctx), *app),
        tasks_respect(tasks@, *old(ctx)),
    ensures
        isrs_ok(final(isr)@, *app),
        isrs_extend(old(isr)@, final(isr)@),
        tasks_respect(tasks@, *final(ctx)),
        ctx_known(*final(ctx), *app),
        old(isr)@.len() > 0 ==> exists|i: int|
            0 <= i < final(isr)@.len() && (#[trigger] final(isr)@[i]).seq@.len() > old(isr)@[i].seq@.len(),
        old(isr)@.len() == 0 ==> final(isr)@ == old(isr)@ && final(ctx).states@ == old(ctx).states@,
        old(isr)@.len() > 0 ==> exists|i: int, c: Call|
            #[trigger] isr_appended(old(isr)@, final(isr)@, i, c) && if !old(isr)@[i].meta.is_isr1
                && some_waiting(old(ctx).states@) {
                exists|wi: int|
                    #[trigger] first_waiting(old(ctx).states@, wi) && set_event_call(
                        c,
                        tasks@[wi].id@,
                        (old(ctx).states@[wi]->WaitEvent_0)@,
                    ) && final(ctx).states@ == old(ctx).states@.update(wi, TaskState::Normal)
            } else {
                allowed(InstType::Isr(old(isr)@[i].meta), c.name) && final(ctx).states@ == old(
                    ctx,
                ).states@
            },
{
    if isr.len() == 0 {
        return;
    }
    let i = rand_index(isr.len());
    let ghost before = isr@;
    let ghost states0 = ctx.states@;
    if !isr[i].meta.is_isr1 {
        if let Some((wi, ev)) = waiting_task(ctx) {
            let c = Call::set_event(tasks[wi].id.as_str(), ev.as_str());
            let ghost cg = c;
            proof {
                lemma_wake_known(*app, tasks@, *ctx, wi as int, c);
            }
            push_isr_call(isr, i, c, app);
            let ghost mid = *ctx;
            set_state(ctx, wi, TaskState::Normal, Ghost(tasks@[wi as int].seq@.len()));
            proof {
                lemma_enter_state(tasks@, mid, *ctx, wi as int, TaskState::Normal);
                assert(some_waiting(states0));
                assert(first_waiting(states0, wi as int));
                assert(isr_appended(before, isr@, i as int, cg));
            }
            return;
        }
    }
    let tp = InstType::Isr(isr[i].meta.duplicate());
    let c = rand_call(app, &tp, w);
    let ghost cg = c;
    push_isr_call(isr, i, c, app);
    assert(isr_appended(before, isr@, i as int, cg));
}

/// The hooks keep their enabled set and every sequence only grows.
pub open spec fn hooks_extend(old_h: HookInst, new_h: HookInst) -> bool {
    &&& new_h.enabled == old_h.enabled
    &&& forall|h: HookType| (#[trigger] new_h.slot(h)) is Some == old_h.slot(h) is Some
    &&& forall|h: HookType| old_h.calls(h).len() <= (#[trigger] new_h.calls(h)).len()
}

fn push_hook_call(hooks: &mut HookInst, h: HookType, c: Call, app: &APPConfig)
    requires
        old(hooks).slot(h) is Some,
        hooks_ok(*old(hooks), *app),
        c.well_formed(),
        symbols_known(c, *app),
        allowed(InstType::Hook(h), c.name),
    ensures
        hooks_ok(*final(hooks), *app),
        hooks_extend(*old(hooks), *final(hooks)),
        final(hooks).calls(h).len() == old(hooks).calls(h).len() + 1,
        final(hooks).slot(h) is Some,
        final(hooks).calls(h) == old(hooks).calls(h).push(c),
        forall|g: HookType| g != h ==> #[trigger] final(hooks).slot(g) == old(hooks).slot(g),
{
    let ghost before = *hooks;
    hooks.push(h, c);
    assert forall|g: HookType, k: int| 0 <= k < hooks.calls(g).len() implies (
    #[trigger] hooks.calls(g)[k]).well_formed() && allowed(InstType::Hook(g), hooks.calls(g)[k].name)
        && symbols_known(hooks.calls(g)[k], *app) by {
        if g != h {
            assert(hooks.slot(g) == before.slot(g));
            assert(hooks.calls(g)[k] == before.calls(g)[k]);
        } else if k < before.calls(g).len() {
            assert(hooks.calls(g)[k] == before.calls(g)[k]);
        } else {
            assert(hooks.calls(g)[k] == c);
        }
    }
    assert forall|g: HookType| before.calls(g).len() <= (#[trigger] hooks.calls(g)).len() by {
        if g != h {
            assert(hooks.slot(g) == before.slot(g));
        }
    }
    assert forall|g: HookType| (#[trigger] hooks.slot(g)) is Some == before.slot(g) is Some by {
        if g != h {
            assert(hooks.slot(g) == before.slot(g));
        }
    }
}

/// Appends a random call, legal for the hook, to a uniformly chosen present
/// hook.
pub fn gen_hook(hooks: &mut HookInst, app: &APPConfig, w: RegWidth)
    requires
        hooks_ok(*old(hooks), *app),
    ensures
        hooks_ok(*final(hooks), *app),
        hooks_extend(*old(hooks), *final(hooks)),
        old(hooks).present().len() == 0 ==> *final(hooks) == *old(hooks),
        old(hooks).present().len() > 0 ==> exists|h: HookType, c: Call|
            #![trigger old(hooks).calls(h).push(c)]
            {
                &&& old(hooks).slot(h) is Some
                &&& final(hooks).slot(h) is Some
                &&& final(hooks).calls(h) == old(hooks).calls(h).push(c)
                &&& allowed(InstType::Hook(h), c.name)
                &&& forall|g: HookType| g != h ==> #[trigger] final(hooks).slot(g) == old(hooks).slot(g)
            },
{
    let present = hooks.hook_kinds();
    if present.len() == 0 {
        return;
    }
    let h = present[rand_index(present.len())];
    proof {
        crate::prog::lemma_present_order(*hooks);
    }
    let c = rand_call(app, &InstType::Hook(h), w);
    let ghost cg = c;
    let ghost before = *hooks;
    push_hook_call(hooks, h, c, app);
    assert(before.slot(h) is Some && hooks.calls(h) == before.calls(h).push(cg));
}

/// Every task, every ISR and every present hook has at least one call.
pub open spec fn all_nonempty(p: Inst) -> bool {
    &&& forall|i: int| 0 <= i < p.tasks@.len() ==> (#[trigger] p.tasks@[i]).seq@.len() > 0
    &&& forall|i: int| 0 <= i < p.isr@.len() ==> (#[trigger] p.isr@[i]).seq@.len() > 0
    &&& forall|h: HookType| (#[trigger] p.hooks.slot(h)) is Some ==> p.hooks.calls(h).len() > 0
}

/// Some task, ISR or hook has at least four calls.
pub open spec fn some_long(p: Inst) -> bool {
    ||| exists|i: int| 0 <= i < p.tasks@.len() && (#[trigger] p.tasks@[i]).seq@.len() >= 4
    ||| exists|i: int| 0 <= i < p.isr@.len() && (#[trigger] p.isr@[i]).seq@.len() >= 4
    ||| exists|h: HookType| (#[trigger] p.hooks.calls(h)).len() >= 4
}

proof fn lemma_hook_cases(h: HookType)
    ensures
        h.rank() < 5,
        h == hook_at(h.rank()),
{
}

/// Generation stops once every entity has a call and some entity has at
/// least four.
pub fn should_stop(inst: &Inst) -> (r: bool)
    ensures
        r == (all_nonempty(*inst) && some_long(*inst)),
{
    let mut nonempty = true;
    let mut long = false;
    let mut i: usize = 0;
    while i < inst.tasks.len()
        invariant
            i <= inst.tasks@.len(),
            nonempty == forall|k: int| 0 <= k < i ==> (#[trigger] inst.tasks@[k]).seq@.len() > 0,
            long == exists|k: int| 0 <= k < i && (#[trigger] inst.tasks@[k]).seq@.len() >= 4,
        decreases inst.tasks@.len() - i,
    {
        let n = inst.tasks[i].seq.len();
        if n == 0 {
            nonempty = false;
        }
        if n >= 4 {
            long = true;
        }
        i = i + 1;
    }
    let ghost tasks_nonempty = nonempty;
    let ghost tasks_long = long;
    let mut isr_nonempty = true;
    let mut isr_long = false;
    let mut i: usize = 0;
    while i < inst.isr.len()
        invariant
            i <= inst.isr@.len(),
            isr_nonempty == forall|k: int| 0 <= k < i ==> (#[trigger] inst.isr@[k]).seq@.len() > 0,
            isr_long == exists|k: int| 0 <= k < i && (#[trigger] inst.isr@[k]).seq@.len() >= 4,
        decreases inst.isr@.len() - i,
    {
        let n = inst.isr[i].seq.len();
        if n == 0 {
            isr_nonempty = false;
        }
        if n >= 4 {
            isr_long = true;
        }
        i = i + 1;
    }
    let mut hook_nonempty = true;
    let mut hook_long = false;
    let mut i: usize = 0;
    while i < HOOK_KINDS
        invariant
            i <= HOOK_KINDS,
            hook_nonempty == forall|k: nat|
                k < i ==> (#[trigger] inst.hooks.slot(hook_at(k))) is Some ==> inst.hooks.calls(hook_at(k)).len() > 0,
            hook_long == exists|k: nat| k < i && (#[trigger] inst.hooks.calls(hook_at(k))).len() >= 4,
        decreases HOOK_KINDS - i,
    {
        let h = hook_at_index(i);
        match inst.hooks.get(h) {
            Some(v) => {
                if v.len() == 0 {
                    hook_nonempty = false;
                }
                if v.len() >= 4 {
                    hook_long = true;
                }
            },
            None => {},
        }
        proof {
            if hook_nonempty {
                assert forall|k: nat|
                    k < i + 1 && (#[trigger] inst.hooks.slot(hook_at(k))) is Some implies inst.hooks.calls(
                    hook_at(k),
                ).len() > 0 by {
                    if k < i {
                    } else {
                        assert(hook_at(k) == h);
                    }
                }
            } else {
                if inst.hooks.slot(h) is Some && inst.hooks.calls(h).len() == 0 {
                    assert(inst.hooks.slot(hook_at(i as nat)) is Some);
                }
            }
            if hook_long && !(exists|k: nat| k < i && (#[trigger] inst.hooks.calls(hook_at(k))).len() >= 4) {
                assert(inst.hooks.calls(hook_at(i as nat)).len() >= 4);
            }
        }
        i = i + 1;
    }
    proof {
        if hook_nonempty {
            assert forall|h: HookType| (#[trigger] inst.hooks.slot(h)) is Some implies inst.hooks.calls(h).len() > 0 by {
                lemma_hook_cases(h);
                assert(inst.hooks.slot(hook_at(h.rank())) is Some);
            }
        }
        if hook_long {
            let k = choose|k: nat| k < 5 && (#[trigger] inst.hooks.calls(hook_at(k))).len() >= 4;
            assert(inst.hooks.calls(hook_at(k)).len() >= 4);
        }
        if exists|h: HookType| (#[trigger] inst.hooks.calls(h)).len() >= 4 {
            let h = choose|h: HookType| (#[trigger] inst.hooks.calls(h)).len() >= 4;
            lemma_hook_cases(h);
            assert(inst.hooks.calls(hook_at(h.rank())).len() >= 4);
        }
        if !hook_nonempty {
            let k = choose|k: nat| k < 5 && !((#[trigger] inst.hooks.slot(hook_at(k))) is Some ==> inst.hooks.calls(hook_at(k)).len() > 0);
            assert(inst.hooks.slot(hook_at(k)) is Some);
        }
    }
    nonempty && isr_nonempty && hook_nonempty && (long || isr_long || hook_long)
}

/// The invariant of generation: the program keeps the application's shape,
/// every call is well formed and legal where it stands, and the tasks
/// respect their states.
pub open spec fn generating(inst: Inst, ctx: Context, app: APPConfig) -> bool {
    &&& inst.shaped_for(app)
    &&& tasks_respect(inst.tasks@, ctx)
    &&& tasks_ok(inst.tasks@, app)
    &&& isrs_ok(inst.isr@, app)
    &&& hooks_ok(inst.hooks, app)
    &&& ctx_known(ctx, app)
}

proof fn lemma_keeps_shape(a: Inst, b: Inst, app: APPConfig)
    requires
        a.shaped_for(app),
        tasks_extend(a.tasks@, b.tasks@),
        isrs_extend(a.isr@, b.isr@),
        hooks_extend(a.hooks, b.hooks),
    ensures
        b.shaped_for(app),
{
    assert forall|i: int| 0 <= i < b.tasks@.len() implies (#[trigger] b.tasks@[i]).id == app.tasks@[i].id by {
        assert(b.tasks@[i].id == a.tasks@[i].id);
    }
    assert forall|i: int| 0 <= i < b.isr@.len() implies (#[trigger] b.isr@[i]).meta == app.isr@[i] by {
        assert(b.isr@[i].meta == a.isr@[i].meta);
    }
    assert forall|h: HookType| (#[trigger] b.hooks.slot(h)) is Some <==> b.hooks.enabled.has(h) by {
        assert(a.hooks.slot(h) is Some <==> a.hooks.enabled.has(h));
    }
}

/// Most random steps before generation is completed deterministically.
pub const MAX_ROUNDS: u64 = 100000;

/// Gives every empty task, ISR and present hook one call, then adds calls to
/// the first task until it has at least four.
pub fn complete(inst: &mut Inst, ctx: &mut Context, app: &APPConfig, w: RegWidth)
    requires
        app.tasks@.len() > 0,
        generating(*old(inst), *old(ctx), *app),
    ensures
        generating(*final(inst), *final(ctx), *app),
        all_nonempty(*final(inst)),
        some_long(*final(inst)),
{
    let mut i: usize = 0;
    while i < inst.tasks.len()
        invariant
            generating(*inst, *ctx, *app),
            i <= inst.tasks@.len(),
            forall|k: int| 0 <= k < i ==> (#[trigger] inst.tasks@[k]).seq@.len() > 0,
        decreases inst.tasks@.len() - i,
    {
        if inst.tasks[i].seq.len() == 0 {
            let ghost before = *inst;
            add_call(&mut inst.tasks, i, ctx, app, w);
            proof {
                assert(tasks_extend(before.tasks@, inst.tasks@));
                assert(isrs_extend(before.isr@, inst.isr@));
                assert(hooks_extend(before.hooks, inst.hooks));
                lemma_keeps_shape(before, *inst, *app);
                assert forall|k: int| 0 <= k < i + 1 implies (#[trigger] inst.tasks@[k]).seq@.len() > 0 by {
                    if k != i {
                        assert(inst.tasks@[k] == before.tasks@[k]);
                    }
                }
            }
        }
        i = i + 1;
    }
    let mut i: usize = 0;
    while i < inst.isr.len()
        invariant
            generating(*inst, *ctx, *app),
            i <= inst.isr@.len(),
            forall|k: int| 0 <= k < inst.tasks@.len() ==> (#[trigger] inst.tasks@[k]).seq@.len() > 0,
            forall|k: int| 0 <= k < i ==> (#[trigger] inst.isr@[k]).seq@.len() > 0,
        decreases inst.isr@.len() - i,
    {
        if inst.isr[i].seq.len() == 0 {
            let ghost before = *inst;
            let tp = InstType::Isr(inst.isr[i].meta.duplicate());
            let c = rand_call(app, &tp, w);
            push_isr_call(&mut inst.isr, i, c, app);
            proof {
                assert(hooks_extend(before.hooks, inst.hooks));
                assert(tasks_extend(before.tasks@, inst.tasks@));
                lemma_keeps_shape(before, *inst, *app);
                assert forall|k: int| 0 <= k < i + 1 implies (#[trigger] inst.isr@[k]).seq@.len() > 0 by {
                    if k != i {
                        assert(inst.isr@[k] == before.isr@[k]);
                    }
                }
            }
        }
        i = i + 1;
    }
    let mut i: usize = 0;
    while i < HOOK_KINDS
        invariant
            generating(*inst, *ctx, *app),
            i <= HOOK_KINDS,
            forall|k: int| 0 <= k < inst.tasks@.len() ==> (#[trigger] inst.tasks@[k]).seq@.len() > 0,
            forall|k: int| 0 <= k < inst.isr@.len() ==> (#[trigger] inst.isr@[k]).seq@.len() > 0,
            forall|k: nat|
                k < i ==> (#[trigger] inst.hooks.slot(hook_at(k))) is Some ==> inst.hooks.calls(hook_at(k)).len() > 0,
        decreases HOOK_KINDS - i,
    {
        let h = hook_at_index(i);
        let empty = match inst.hooks.get(h) {
            Some(v) => v.len() == 0,
            None => false,
        };
        if empty {
            let ghost before = *inst;
            let c = rand_call(app, &InstType::Hook(h), w);
            push_hook_call(&mut inst.hooks, h, c, app);
            proof {
                assert(tasks_extend(before.tasks@, inst.tasks@));
                assert(isrs_extend(before.isr@, inst.isr@));
                lemma_keeps_shape(before, *inst, *app);
                assert forall|k: nat|
                    k < i + 1 && (#[trigger] inst.hooks.slot(hook_at(k))) is Some implies inst.hooks.calls(
                    hook_at(k),
                ).len() > 0 by {
                    assert(before.hooks.calls(hook_at(k)).len() <= inst.hooks.calls(hook_at(k)).len());
                    assert(before.hooks.slot(hook_at(k)) is Some == inst.hooks.slot(hook_at(k)) is Some);
                }
            }
        }
        i = i + 1;
    }
    proof {
        assert forall|h: HookType| (#[trigger] inst.hooks.slot(h)) is Some implies inst.hooks.calls(h).len() > 0 by {
            lemma_hook_cases(h);
            assert(inst.hooks.slot(hook_at(h.rank())) is Some);
        }
    }
    while inst.tasks[0].seq.len() < 4
        invariant
            generating(*inst, *ctx, *app),
            inst.tasks@.len() > 0,
            all_nonempty(*inst),
        decreases if inst.tasks@[0].seq@.len() < 4 {
            4 - inst.tasks@[0].seq@.len()
        } else {
            0
        },
    {
        let ghost before = *inst;
        add_call(&mut inst.tasks, 0, ctx, app, w);
        proof {
            assert(inst.tasks@[0].seq@.len() > before.tasks@[0].seq@.len());
            assert(tasks_extend(before.tasks@, inst.tasks@));
            assert(isrs_extend(before.isr@, inst.isr@));
            assert(hooks_extend(before.hooks, inst.hooks));
            lemma_keeps_shape(before, *inst, *app);
            assert forall|k: int| 0 <= k < inst.tasks@.len() implies (#[trigger] inst.tasks@[k]).seq@.len() > 0 by {
                if k != 0 {
                    assert(inst.tasks@[k] == before.tasks@[k]);
                }
            }
        }
    }
    assert(inst.tasks@[0].seq@.len() >= 4);
}

/// Ends every task with TerminateTask or, as often, a ChainTask.
fn term_task(tasks: &mut Vec<TaskInst>, app: &APPConfig, w: RegWidth)
    ensures
        final(tasks)@.len() == old(tasks)@.len(),
        forall|i: int|
            0 <= i < final(tasks)@.len() ==> {
                &&& (#[trigger] final(tasks)@[i]).id == old(tasks)@[i].id
                &&& final(tasks)@[i].seq@.len() == old(tasks)@[i].seq@.len() + 1
                &&& final(tasks)@[i].seq@.drop_last() == old(tasks)@[i].seq@
                &&& final(tasks)@[i].seq@.last().well_formed()
                &&& symbols_known(final(tasks)@[i].seq@.last(), *app)
                &&& (final(tasks)@[i].seq@.last().name == CallKind::TerminateTask
                    || final(tasks)@[i].seq@.last().name == CallKind::ChainTask)
            },
{
    let mut i: usize = 0;
    while i < tasks.len()
        invariant
            i <= tasks@.len(),
            tasks@.len() == old(tasks)@.len(),
            forall|k: int|
                0 <= k < i ==> {
                    &&& (#[trigger] tasks@[k]).id == old(tasks)@[k].id
                    &&& tasks@[k].seq@.len() == old(tasks)@[k].seq@.len() + 1
                    &&& tasks@[k].seq@.drop_last() == old(tasks)@[k].seq@
                    &&& tasks@[k].seq@.last().well_formed()
                    &&& symbols_known(tasks@[k].seq@.last(), *app)
                    &&& (tasks@[k].seq@.last().name == CallKind::TerminateTask
                        || tasks@[k].seq@.last().name == CallKind::ChainTask)
                },
            forall|k: int| i <= k < tasks@.len() ==> #[trigger] tasks@[k] == old(tasks)@[k],
        decreases tasks@.len() - i,
    {
        let c = if coin() {
            Call::term_task()
        } else {
            chain_task(app, w)
        };
        proof {
            lemma_args_known(c, *app);
        }
        let ghost before = tasks@;
        push_task_call(tasks, i, c);
        assert(tasks@[i as int].seq@.drop_last() =~= before[i as int].seq@);
        assert forall|k: int| 0 <= k < tasks@.len() && k != i implies #[trigger] tasks@[k] == before[k] by {}
        i = i + 1;
    }
}

/// Generates a program for `app`.
///
/// Random steps append calls to tasks (two thirds of the steps), ISRs (two
/// ninths; category-1 ISRs get a step of their own one time in twenty when
/// there are any) and hooks (one ninth), until every entity has a call and
/// one has four. Should that not happen within [`MAX_ROUNDS`] steps, the
/// missing calls are added directly. Every task then ends with TerminateTask
/// or ChainTask.
pub fn gen(app: &APPConfig, w: RegWidth) -> (r: Inst)
    requires
        app.tasks@.len() > 0,
    ensures
        r.shaped_for(*app),
        all_nonempty(r),
        some_long(r),
        isrs_ok(r.isr@, *app),
        hooks_ok(r.hooks, *app),
        program_known(r, *app),
        forall|i: int|
            0 <= i < r.tasks@.len() ==> {
                let s = (#[trigger] r.tasks@[i]).seq@;
                &&& s.last().name == CallKind::TerminateTask || s.last().name == CallKind::ChainTask
                &&& forall|k: int|
                    0 <= k < s.len() ==> (#[trigger] s[k]).well_formed() && symbols_known(s[k], *app)
                &&& forall|k: int|
                    0 <= k < s.len() - 1 ==> (#[trigger] s[k]).name != CallKind::TerminateTask
                        && s[k].name != CallKind::ChainTask
            },
{
    let mut inst = Inst::new(app);
    let mut ctx = Context::new(&inst);
    let mut has_isr1 = false;
    let mut i: usize = 0;
    while i < app.isr.len()
        invariant
            i <= app.isr@.len(),
        decreases app.isr@.len() - i,
    {
        if app.isr[i].is_isr1 {
            has_isr1 = true;
        }
        i = i + 1;
    }
    let mut rounds: u64 = 0;
    while rounds < MAX_ROUNDS && !should_stop(&inst)
        invariant
            app.tasks@.len() > 0,
            generating(inst, ctx, *app),
        decreases MAX_ROUNDS - rounds,
    {
        let ghost before = inst;
        let step = rand_below(9);
        if step <= 5 {
            gen_task(&mut inst.tasks, &mut ctx, app, w);
        } else if step <= 7 {
            if has_isr1 && chance(50) {
                gen_isr1(&mut inst.isr, app, w);
            } else {
                gen_isr2(&mut inst.isr, &inst.tasks, &mut ctx, app, w);
            }
        } else {
            gen_hook(&mut inst.hooks, app, w);
        }
        proof {
            assert(tasks_extend(before.tasks@, inst.tasks@));
            assert(isrs_extend(before.isr@, inst.isr@));
            assert(hooks_extend(before.hooks, inst.hooks));
            lemma_keeps_shape(before, inst, *app);
        }
        rounds = rounds + 1;
    }
    complete(&mut inst, &mut ctx, app, w);
    let ghost before = inst;
    term_task(&mut inst.tasks, app, w);
    proof {
        assert forall|i: int| 0 <= i < inst.tasks@.len() implies (#[trigger] inst.tasks@[i]).id == app.tasks@[i].id by {
            assert(inst.tasks@[i].id == before.tasks@[i].id);
        }
        assert forall|i: int| 0 <= i < inst.tasks@.len() implies {
            let s = (#[trigger] inst.tasks@[i]).seq@;
            &&& s.last().name == CallKind::TerminateTask || s.last().name == CallKind::ChainTask
            &&& forall|k: int|
                0 <= k < s.len() ==> (#[trigger] s[k]).well_formed() && symbols_known(s[k], *app)
            &&& forall|k: int|
                0 <= k < s.len() - 1 ==> (#[trigger] s[k]).name != CallKind::TerminateTask
                    && s[k].name != CallKind::ChainTask
        } by {
            let s = inst.tasks@[i].seq@;
            assert forall|k: int| 0 <= k < s.len() - 1 implies (#[trigger] s[k]).well_formed() && s[k].name != CallKind::TerminateTask
                && s[k].name != CallKind::ChainTask by {
                assert(s[k] == s.drop_last()[k]);
                assert(before.tasks@[i].seq@[k] == s[k]);
            }
            assert forall|k: int| 0 <= k < s.len() implies (#[trigger] s[k]).well_formed()
                && symbols_known(s[k], *app) by {
                if k < s.len() - 1 {
                    assert(s[k] == s.drop_last()[k]);
                    assert(before.tasks@[i].seq@[k] == s[k]);
                }
            }
        }
        assert(program_known(inst, *app)) by {
            assert forall|i: int, k: int|
                0 <= i < inst.tasks@.len() && 0 <= k < inst.tasks@[i].seq@.len() implies symbols_known(
                #[trigger] inst.tasks@[i].seq@[k],
                *app,
            ) by {
                let s = inst.tasks@[i].seq@;
                assert(s[k].well_formed() && symbols_known(s[k], *app));
            }
        }
        assert(some_long(inst)) by {
            if exists|i: int| 0 <= i < before.tasks@.len() && (#[trigger] before.tasks@[i]).seq@.len() >= 4 {
                let i = choose|i: int| 0 <= i < before.tasks@.len() && (#[trigger] before.tasks@[i]).seq@.len() >= 4;
                assert(inst.tasks@[i].seq@.len() >= 4);
            }
        }
    }
    inst
}

/// In a generated program, a category-1 ISR only makes raw interrupt
/// enable/disable calls.
pub proof fn lemma_isr1_calls(p: Inst, app: APPConfig)
    requires
        isrs_ok(p.isr@, app),
    ensures
        forall|i: int, k: int|
            0 <= i < p.isr@.len() && p.isr@[i].meta.is_isr1 && 0 <= k < p.isr@[i].seq@.len()
                ==> isr1_kind(#[trigger] p.isr@[i].seq@[k].name),
{
    assert forall|i: int, k: int|
        0 <= i < p.isr@.len() && p.isr@[i].meta.is_isr1 && 0 <= k < p.isr@[i].seq@.len() implies isr1_kind(
        #[trigger] p.isr@[i].seq@[k].name,
    ) by {
        assert(allowed(InstType::Isr(p.isr@[i].meta), p.isr@[i].seq@[k].name));
    }
}

/// Every name of `app` has a value in its symbol table.
pub open spec fn names_resolve(app: APPConfig) -> bool {
    forall|s: Seq<char>| #[trigger] known(app, s) ==> sym_lookup(app.sym_val@, s) is Some
}

/// Every call of `p` names only entities of `app`.
pub open spec fn program_known(p: Inst, app: APPConfig) -> bool {
    &&& forall|i: int, k: int|
        0 <= i < p.tasks@.len() && 0 <= k < p.tasks@[i].seq@.len() ==> symbols_known(
            #[trigger] p.tasks@[i].seq@[k],
            app,
        )
    &&& forall|i: int, k: int|
        0 <= i < p.isr@.len() && 0 <= k < p.isr@[i].seq@.len() ==> symbols_known(
            #[trigger] p.isr@[i].seq@[k],
            app,
        )
    &&& forall|h: HookType, k: int|
        0 <= k < p.hooks.calls(h).len() ==> symbols_known(#[trigger] p.hooks.calls(h)[k], app)
}

proof fn lemma_calls_resolve(calls: Seq<Call>, app: APPConfig)
    requires
        names_resolve(app),
        forall|k: int| 0 <= k < calls.len() ==> symbols_known(#[trigger] calls[k], app),
    ensures
        all_resolve(calls, app.sym_val@),
{
    assert forall|k: int| 0 <= k < calls.len() implies call_resolves(#[trigger] calls[k], app.sym_val@) by {
        assert(symbols_known(calls[k], app));
        assert forall|j: int| 0 <= j < calls[k].args@.len() implies arg_resolves(
            #[trigger] calls[k].args@[j],
            app.sym_val@,
        ) by {
            assert(arg_known(calls[k].args@[j], app));
            if let Value::Symbol(x) = calls[k].args@[j] {
                assert(known(app, x@));
            }
        }
    }
}

/// When every name of the application has a value, every symbol of a
/// program that names only entities of the application resolves, so laying
/// the program out can fail only by overflow.
pub proof fn lemma_known_symbols_resolve(p: Inst, app: APPConfig)
    requires
        program_known(p, app),
        names_resolve(app),
    ensures
        forall|k: int|
            0 <= k < entities(p).len() ==> all_resolve(#[trigger] entities(p)[k].1, app.sym_val@),
{
    lemma_entities_index(p);
    let nh = p.hooks.present().len() as int;
    let ni = p.isr@.len() as int;
    assert forall|k: int| 0 <= k < entities(p).len() implies all_resolve(
        #[trigger] entities(p)[k].1,
        app.sym_val@,
    ) by {
        if k < nh {
            let h = p.hooks.present()[k];
            assert forall|m: int| 0 <= m < p.hooks.calls(h).len() implies symbols_known(
                #[trigger] p.hooks.calls(h)[m],
                app,
            ) by {}
            lemma_calls_resolve(p.hooks.calls(h), app);
            assert(entities(p)[k].1 == p.hooks.calls(h));
        } else if k < nh + ni {
            let x = p.isr@[k - nh];
            assert forall|m: int| 0 <= m < x.seq@.len() implies symbols_known(#[trigger] x.seq@[m], app) by {
                assert(p.isr@[k - nh].seq@[m] == x.seq@[m]);
            }
            lemma_calls_resolve(x.seq@, app);
            let k2 = k - nh;
            assert(entities(p)[p.hooks.present().len() + k2] == (data_var(x.meta.id@), x.seq@));
            assert(entities(p)[k].1 == x.seq@);
        } else {
            let t = p.tasks@[k - nh - ni];
            assert forall|m: int| 0 <= m < t.seq@.len() implies symbols_known(#[trigger] t.seq@[m], app) by {
                assert(p.tasks@[k - nh - ni].seq@[m] == t.seq@[m]);
            }
            lemma_calls_resolve(t.seq@, app);
            let k3 = k - nh - ni;
            assert(entities(p)[p.hooks.present().len() + p.isr@.len() + k3] == (
                data_var(t.id@),
                t.seq@,
            ));
            assert(entities(p)[k].1 == t.seq@);
        }
    }
}

} // verus!
