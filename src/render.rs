//! C text of a generated program, for the build script and for the cases
//! kept on disk.
//!
//! Each task becomes `TASK(<id>)`, each ISR `ISR1(<id>)` or `ISR2(<id>)`
//! after its category, and each present hook its kernel callback, with one
//! statement per call. An output pointer becomes the address of a
//! zero-initialised compound literal of its type.
use crate::driver::{dec, push_decimal};
use crate::model::HookType;
use crate::prog::{Call, HookInst, ISRInst, Inst, PtrValue, TaskInst, Value};
use vstd::prelude::*;
use vstd::string::*;

verus! {

/// The decimal text of `n`, with a minus sign when it is negative.
pub open spec fn num_text(n: i64) -> Seq<char> {
    if n < 0 {
        seq!['-'] + dec((-(n as int)) as nat)
    } else {
        dec(n as nat)
    }
}

pub open spec fn value_text(v: Value) -> Seq<char> {
    match v {
        Value::Symbol(s) => s@,
        Value::Num(n) => num_text(n),
        Value::Ptr(PtrValue::Out(t)) => "&("@ + t@ + "){0}"@,
        Value::Ptr(PtrValue::Ref(t)) => "&("@ + t@ + "){0}"@,
        Value::Ptr(PtrValue::Null) => "0"@,
    }
}

/// The arguments, separated by `", "`.
pub open spec fn args_text(args: Seq<Value>) -> Seq<char>
    decreases args.len(),
{
    if args.len() == 0 {
        Seq::empty()
    } else if args.len() == 1 {
        value_text(args[0])
    } else {
        args_text(args.drop_last()) + ", "@ + value_text(args.last())
    }
}

/// A call as C source, without the semicolon.
pub open spec fn call_text(c: Call) -> Seq<char> {
    c.name.spec_name() + "("@ + args_text(c.args@) + ")"@
}

/// One indented statement per call.
pub open spec fn body_text(calls: Seq<Call>) -> Seq<char>
    decreases calls.len(),
{
    if calls.len() == 0 {
        Seq::empty()
    } else {
        body_text(calls.drop_last()) + "    "@ + call_text(calls.last()) + ";\n"@
    }
}

/// A function with the given head and the calls as its body.
pub open spec fn block_text(head: Seq<char>, calls: Seq<Call>) -> Seq<char> {
    head + "\n{\n"@ + body_text(calls) + "}\n\n"@
}

pub open spec fn hook_head(h: HookType) -> Seq<char> {
    match h {
        HookType::Error => "void ErrorHook(StatusType Error)"@,
        HookType::PreTask => "void PreTaskHook(void)"@,
        HookType::PostTask => "void PostTaskHook(void)"@,
        HookType::Startup => "void StartupHook(void)"@,
        HookType::Shutdown => "void ShutdownHook(StatusType Error)"@,
    }
}

pub open spec fn task_text(t: TaskInst) -> Seq<char> {
    block_text("TASK("@ + t.id@ + ")"@, t.seq@)
}

pub open spec fn isr_text(x: ISRInst) -> Seq<char> {
    block_text(
        (if x.meta.is_isr1 {
            "ISR1("@
        } else {
            "ISR2("@
        }) + x.meta.id@ + ")"@,
        x.seq@,
    )
}

/// The functions of the hooks `hs`, in order.
pub open spec fn hooks_text(hooks: HookInst, hs: Seq<HookType>) -> Seq<char>
    decreases hs.len(),
{
    if hs.len() == 0 {
        Seq::empty()
    } else {
        hooks_text(hooks, hs.drop_last()) + block_text(hook_head(hs.last()), hooks.calls(hs.last()))
    }
}

pub open spec fn isrs_text(isr: Seq<ISRInst>) -> Seq<char>
    decreases isr.len(),
{
    if isr.len() == 0 {
        Seq::empty()
    } else {
        isrs_text(isr.drop_last()) + isr_text(isr.last())
    }
}

pub open spec fn tasks_text(tasks: Seq<TaskInst>) -> Seq<char>
    decreases tasks.len(),
{
    if tasks.len() == 0 {
        Seq::empty()
    } else {
        tasks_text(tasks.drop_last()) + task_text(tasks.last())
    }
}

/// The whole program: the present hooks in the fixed order, then the ISRs,
/// then the tasks.
pub open spec fn program_text(p: Inst) -> Seq<char> {
    hooks_text(p.hooks, p.hooks.present()) + isrs_text(p.isr@) + tasks_text(p.tasks@)
}

/// Appends the decimal text of `n`.
fn push_num(out: &mut String, n: i64)
    ensures
        final(out)@ == old(out)@ + num_text(n),
{
    if n < 0 {
        out.append("-");
        let m = (-(n + 1)) as u64 + 1;
        assert(m as int == -(n as int));
        push_decimal(out, m);
        proof {
            reveal_strlit("-");
        }
        assert(final(out)@ =~= old(out)@ + num_text(n));
    } else {
        push_decimal(out, n as u64);
    }
}

fn push_value(out: &mut String, v: &Value)
    ensures
        final(out)@ == old(out)@ + value_text(*v),
{
    match v {
        Value::Symbol(s) => {
            out.append(s.as_str());
        },
        Value::Num(n) => {
            push_num(out, *n);
        },
        Value::Ptr(PtrValue::Out(t)) => {
            out.append("&(");
            out.append(t.as_str());
            out.append("){0}");
            assert(final(out)@ =~= old(out)@ + value_text(*v));
        },
        Value::Ptr(PtrValue::Ref(t)) => {
            out.append("&(");
            out.append(t.as_str());
            out.append("){0}");
            assert(final(out)@ =~= old(out)@ + value_text(*v));
        },
        Value::Ptr(PtrValue::Null) => {
            out.append("0");
        },
    }
}

fn push_call(out: &mut String, c: &Call)
    ensures
        final(out)@ == old(out)@ + call_text(*c),
{
    out.append(c.name.name());
    out.append("(");
    let mut i: usize = 0;
    while i < c.args.len()
        invariant
            i <= c.args@.len(),
            out@ == old(out)@ + c.name.spec_name() + "("@ + args_text(c.args@.take(i as int)),
        decreases c.args@.len() - i,
    {
        let ghost before = out@;
        if i > 0 {
            out.append(", ");
        }
        push_value(out, &c.args[i]);
        proof {
            let t = c.args@.take(i + 1);
            assert(t.drop_last() =~= c.args@.take(i as int));
            if i == 0 {
                assert(args_text(c.args@.take(0)) =~= Seq::<char>::empty());
            }
        }
        assert(out@ =~= old(out)@ + c.name.spec_name() + "("@ + args_text(c.args@.take(i + 1)));
        i = i + 1;
    }
    assert(c.args@.take(c.args@.len() as int) =~= c.args@);
    out.append(")");
    assert(final(out)@ =~= old(out)@ + call_text(*c));
}

impl Call {
    /// The call as C source, without the semicolon.
    pub fn to_text(&self) -> (r: String)
        ensures
            r@ == call_text(*self),
    {
        let mut r = String::new();
        push_call(&mut r, self);
        assert(r@ =~= call_text(*self));
        r
    }
}

fn push_block(out: &mut String, head: &str, calls: &Vec<Call>)
    ensures
        final(out)@ == old(out)@ + block_text(head@, calls@),
{
    out.append(head);
    out.append("\n{\n");
    let ghost start = out@;
    let mut i: usize = 0;
    while i < calls.len()
        invariant
            i <= calls@.len(),
            out@ == start + body_text(calls@.take(i as int)),
        decreases calls@.len() - i,
    {
        out.append("    ");
        push_call(out, &calls[i]);
        out.append(";\n");
        assert(calls@.take(i + 1).drop_last() =~= calls@.take(i as int));
        assert(out@ =~= start + body_text(calls@.take(i + 1)));
        i = i + 1;
    }
    assert(calls@.take(calls@.len() as int) =~= calls@);
    out.append("}\n\n");
    assert(final(out)@ =~= old(out)@ + block_text(head@, calls@));
}

fn hook_head_str(h: HookType) -> (r: &'static str)
    ensures
        r@ == hook_head(h),
{
    match h {
        HookType::Error => "void ErrorHook(StatusType Error)",
        HookType::PreTask => "void PreTaskHook(void)",
        HookType::PostTask => "void PostTaskHook(void)",
        HookType::Startup => "void StartupHook(void)",
        HookType::Shutdown => "void ShutdownHook(StatusType Error)",
    }
}

impl TaskInst {
    /// The task as a C function.
    pub fn to_cprog(&self) -> (r: String)
        ensures
            r@ == task_text(*self),
    {
        let mut head = String::from_str("TASK(");
        head.append(self.id.as_str());
        head.append(")");
        let mut r = String::new();
        push_block(&mut r, head.as_str(), &self.seq);
        assert(r@ =~= task_text(*self));
        r
    }
}

impl ISRInst {
    /// The ISR as a C function.
    pub fn to_cprog(&self) -> (r: String)
        ensures
            r@ == isr_text(*self),
    {
        let mut head = if self.meta.is_isr1 {
            String::from_str("ISR1(")
        } else {
            String::from_str("ISR2(")
        };
        head.append(self.meta.id.as_str());
        head.append(")");
        let mut r = String::new();
        push_block(&mut r, head.as_str(), &self.seq);
        assert(r@ =~= isr_text(*self));
        r
    }
}

impl Inst {
    /// The program as C source.
    pub fn to_cprog(&self) -> (r: String)
        ensures
            r@ == program_text(*self),
    {
        let mut r = String::new();
        let hooks = self.hooks.hook_kinds();
        let mut i: usize = 0;
        while i < hooks.len()
            invariant
                i <= hooks@.len(),
                hooks@ == self.hooks.present(),
                r@ == hooks_text(self.hooks, hooks@.take(i as int)),
            decreases hooks@.len() - i,
        {
            let h = hooks[i];
            let calls = match self.hooks.get(h) {
                Some(v) => v,
                None => {
                    proof {
                        crate::prog::lemma_present_order(self.hooks);
                    }
                    assert(self.hooks.slot(hooks@[i as int]) is Some);
                    assert(false);
                    return r;
                },
            };
            push_block(&mut r, hook_head_str(h), calls);
            assert(hooks@.take(i + 1).drop_last() =~= hooks@.take(i as int));
            i = i + 1;
        }
        assert(hooks@.take(hooks@.len() as int) =~= hooks@);
        let ghost after_hooks = r@;
        let mut i: usize = 0;
        while i < self.isr.len()
            invariant
                i <= self.isr@.len(),
                r@ == after_hooks + isrs_text(self.isr@.take(i as int)),
            decreases self.isr@.len() - i,
        {
            let t = self.isr[i].to_cprog();
            r.append(t.as_str());
            assert(self.isr@.take(i + 1).drop_last() =~= self.isr@.take(i as int));
            assert(r@ =~= after_hooks + isrs_text(self.isr@.take(i + 1)));
            i = i + 1;
        }
        assert(self.isr@.take(self.isr@.len() as int) =~= self.isr@);
        let ghost after_isrs = r@;
        let mut i: usize = 0;
        while i < self.tasks.len()
            invariant
                i <= self.tasks@.len(),
                r@ == after_isrs + tasks_text(self.tasks@.take(i as int)),
            decreases self.tasks@.len() - i,
        {
            let t = self.tasks[i].to_cprog();
            r.append(t.as_str());
            assert(self.tasks@.take(i + 1).drop_last() =~= self.tasks@.take(i as int));
            assert(r@ =~= after_isrs + tasks_text(self.tasks@.take(i + 1)));
            i = i + 1;
        }
        assert(self.tasks@.take(self.tasks@.len() as int) =~= self.tasks@);
        assert(r@ =~= program_text(*self));
        r
    }
}

/// The program as C source, after the line `extra` when there is one.
pub fn to_c(p: &Inst, extra: Option<&str>) -> (r: String)
    ensures
        r@ == match extra {
            Some(e) => e@ + "\n"@ + program_text(*p),
            None => program_text(*p),
        },
{
    let body = p.to_cprog();
    match extra {
        Some(e) => {
            let mut r = String::from_str(e);
            r.append("\n");
            r.append(body.as_str());
            r
        },
        None => body,
    }
}

/// The line that includes `header`.
pub fn include_line(header: &str) -> (r: String)
    ensures
        r@ == "#include\""@ + header@ + "\""@,
{
    let mut r = String::from_str("#include\"");
    r.append(header);
    r.append("\"");
    r
}

} // verus!
