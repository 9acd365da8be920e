//! The wire layout of a program in target memory.
//!
//! Each entity (hook, ISR, task) gets a buffer of [`BUF_LEN`] bytes holding
//! one 20-byte record per call: the call's identifier followed by four
//! argument slots, each a little-endian `u32`. Unused slots are zero. The
//! records are followed by the terminator word `0x0000FFFF`, and the rest of
//! the buffer is zero.
use crate::model::{sym_lookup, lookup_symbol, APPConfig, HookType};
use crate::prog::{
    lemma_call_id_round_trip, lemma_present_order, Call, CallKind, ISRInst, Inst, TaskInst, Value,
};
use vstd::prelude::*;
use vstd::string::*;

verus! {

/// Size of the buffer of each entity.
pub const BUF_LEN: usize = 1024;

/// Size of the record of one call.
pub const RECORD_LEN: usize = 20;

/// Number of argument slots in a record.
pub const ARG_SLOTS: usize = 4;

/// The word that ends the records of a buffer.
pub const TERMINATOR: u32 = 0xFFFF;

/// Why a call sequence cannot be laid out.
#[derive(Clone, Debug)]
pub enum SerializeError {
    /// The records and the terminator do not fit the buffer, or a call has
    /// more arguments than a record has slots.
    Overflow,
    /// The symbol has no value in the application's table.
    UnknownSymbol(String),
}

/// The four little-endian bytes of `x`.
pub open spec fn le32(x: u32) -> Seq<u8> {
    seq![
        (x % 256) as u8,
        ((x / 256) % 256) as u8,
        ((x / 65536) % 256) as u8,
        ((x / 16777216) % 256) as u8,
    ]
}

/// The little-endian bytes of each word, one after the other.
pub open spec fn le32s(ws: Seq<u32>) -> Seq<u8>
    decreases ws.len(),
{
    if ws.len() == 0 {
        Seq::empty()
    } else {
        le32(ws[0]) + le32s(ws.drop_first())
    }
}

/// The raw value of an argument: a symbol's value from the table, the low
/// 32 bits of a number, and zero for a pointer (the receiver supplies the
/// storage).
pub open spec fn word(v: Value, table: Seq<(String, u32)>) -> u32 {
    match v {
        Value::Symbol(s) => match sym_lookup(table, s@) {
            Some(x) => x,
            None => 0,
        },
        Value::Num(n) => n as u32,
        Value::Ptr(_) => 0,
    }
}

/// The four argument slots of the record of `c`.
pub open spec fn slots(c: Call, table: Seq<(String, u32)>) -> Seq<u32> {
    c.args@.map_values(|v: Value| word(v, table)) + Seq::new(
        (ARG_SLOTS - c.args@.len()) as nat,
        |_i: int| 0u32,
    )
}

/// The five words of the record of `c`.
pub open spec fn call_words(c: Call, table: Seq<(String, u32)>) -> Seq<u32> {
    seq![c.name.spec_id()] + slots(c, table)
}

/// The words of the records of `calls`, one record after the other.
pub open spec fn calls_words(calls: Seq<Call>, table: Seq<(String, u32)>) -> Seq<u32>
    decreases calls.len(),
{
    if calls.len() == 0 {
        Seq::empty()
    } else {
        call_words(calls[0], table) + calls_words(calls.drop_first(), table)
    }
}

/// The records and the terminator fit the buffer, and no call has more
/// arguments than a record has slots.
pub open spec fn fits(calls: Seq<Call>) -> bool {
    &&& RECORD_LEN * calls.len() + 4 <= BUF_LEN
    &&& forall|i: int| 0 <= i < calls.len() ==> (#[trigger] calls[i]).args@.len() <= ARG_SLOTS
}

pub open spec fn arg_resolves(v: Value, table: Seq<(String, u32)>) -> bool {
    match v {
        Value::Symbol(s) => sym_lookup(table, s@) is Some,
        _ => true,
    }
}

pub open spec fn call_resolves(c: Call, table: Seq<(String, u32)>) -> bool {
    forall|j: int| 0 <= j < c.args@.len() ==> arg_resolves(#[trigger] c.args@[j], table)
}

/// Every symbol among the arguments of `calls` has a value.
pub open spec fn all_resolve(calls: Seq<Call>, table: Seq<(String, u32)>) -> bool {
    forall|i: int| 0 <= i < calls.len() ==> call_resolves(#[trigger] calls[i], table)
}

/// Argument `j` of call `i` is the first argument, in call order and then
/// argument order, whose symbol has no value.
pub open spec fn first_missing_at(calls: Seq<Call>, table: Seq<(String, u32)>, i: int, j: int) -> bool {
    &&& 0 <= i < calls.len()
    &&& 0 <= j < calls[i].args@.len()
    &&& !arg_resolves(calls[i].args@[j], table)
    &&& forall|k: int| 0 <= k < i ==> call_resolves(#[trigger] calls[k], table)
    &&& forall|k: int| 0 <= k < j ==> arg_resolves(#[trigger] calls[i].args@[k], table)
}

/// The buffer of an entity whose calls are `calls`.
pub open spec fn encode(calls: Seq<Call>, table: Seq<(String, u32)>) -> Seq<u8> {
    le32s(calls_words(calls, table).push(TERMINATOR)) + Seq::new(
        (BUF_LEN - RECORD_LEN * calls.len() - 4) as nat,
        |_i: int| 0u8,
    )
}

/// What laying out `calls` gives: the buffer when the calls fit and every
/// symbol has a value; otherwise the error, an overflow taking precedence
/// over the first symbol without a value.
pub open spec fn serialize_outcome(
    calls: Seq<Call>,
    table: Seq<(String, u32)>,
    r: Result<Vec<u8>, SerializeError>,
) -> bool {
    if !fits(calls) {
        r matches Err(SerializeError::Overflow)
    } else if all_resolve(calls, table) {
        r matches Ok(buf) && buf@ == encode(calls, table)
    } else {
        r matches Err(SerializeError::UnknownSymbol(s)) && exists|i: int, j: int|
            #![trigger calls[i].args@[j]]
            first_missing_at(calls, table, i, j) && sym_arg_named(calls[i].args@[j], s@)
    }
}

pub open spec fn sym_arg_named(v: Value, s: Seq<char>) -> bool {
    v matches Value::Symbol(x) && x@ == s
}

proof fn lemma_le32s_append(a: Seq<u32>, b: Seq<u32>)
    ensures
        le32s(a + b) == le32s(a) + le32s(b),
    decreases a.len(),
{
    if a.len() == 0 {
        assert(a + b =~= b);
        assert(le32s(a) + le32s(b) =~= le32s(b));
    } else {
        assert((a + b).drop_first() =~= a.drop_first() + b);
        lemma_le32s_append(a.drop_first(), b);
        assert(le32s(a + b) =~= le32s(a) + le32s(b));
    }
}

proof fn lemma_le32s_len(a: Seq<u32>)
    ensures
        le32s(a).len() == 4 * a.len(),
    decreases a.len(),
{
    if a.len() > 0 {
        lemma_le32s_len(a.drop_first());
    }
}

proof fn lemma_calls_words_push(calls: Seq<Call>, c: Call, table: Seq<(String, u32)>)
    ensures
        calls_words(calls.push(c), table) == calls_words(calls, table) + call_words(c, table),
    decreases calls.len(),
{
    if calls.len() == 0 {
        assert(calls.push(c).drop_first() =~= Seq::<Call>::empty());
        assert(calls_words(Seq::<Call>::empty(), table) =~= Seq::<u32>::empty());
        assert(call_words(c, table) + Seq::<u32>::empty() =~= call_words(c, table));
        assert(calls_words(calls.push(c), table) =~= call_words(c, table));
        assert(calls_words(calls, table) + call_words(c, table) =~= call_words(c, table));
    } else {
        assert(calls.push(c).drop_first() =~= calls.drop_first().push(c));
        lemma_calls_words_push(calls.drop_first(), c, table);
        assert(calls_words(calls.push(c), table) =~= calls_words(calls, table) + call_words(c, table));
    }
}

proof fn lemma_calls_words_len(calls: Seq<Call>, table: Seq<(String, u32)>)
    requires
        forall|i: int| 0 <= i < calls.len() ==> (#[trigger] calls[i]).args@.len() <= ARG_SLOTS,
    ensures
        calls_words(calls, table).len() == 5 * calls.len(),
    decreases calls.len(),
{
    if calls.len() > 0 {
        assert forall|i: int| 0 <= i < calls.drop_first().len() implies (
        #[trigger] calls.drop_first()[i]).args@.len() <= ARG_SLOTS by {
            assert(calls.drop_first()[i] == calls[i + 1]);
        }
        lemma_calls_words_len(calls.drop_first(), table);
        assert(calls[0].args@.len() <= ARG_SLOTS);
    }
}

/// Appends the four little-endian bytes of `x`.
fn push_word(buf: &mut Vec<u8>, x: u32)
    ensures
        final(buf)@ == old(buf)@ + le32(x),
{
    buf.push((x % 256) as u8);
    buf.push(((x / 256) % 256) as u8);
    buf.push(((x / 65536) % 256) as u8);
    buf.push(((x / 16777216) % 256) as u8);
    assert(final(buf)@ =~= old(buf)@ + le32(x));
}

/// Appends the words `ws` in little-endian order.
proof fn lemma_push_word_step(prefix: Seq<u32>, x: u32)
    ensures
        le32s(prefix.push(x)) == le32s(prefix) + le32(x),
{
    lemma_le32s_append(prefix, seq![x]);
    assert(prefix + seq![x] =~= prefix.push(x));
    assert(seq![x].drop_first() =~= Seq::<u32>::empty());
    assert(le32s(Seq::<u32>::empty()) =~= Seq::<u8>::empty());
    assert(le32(x) + Seq::<u8>::empty() =~= le32(x));
    assert(le32s(seq![x]) =~= le32(x));
}

/// Lays out the record of `c`.
fn serialize_call(c: &Call, table: &Vec<(String, u32)>, buf: &mut Vec<u8>) -> (r: Result<
    (),
    SerializeError,
>)
    requires
        c.args@.len() <= ARG_SLOTS,
    ensures
        match r {
            Ok(()) => call_resolves(*c, table@) && final(buf)@ == old(buf)@ + le32s(
                call_words(*c, table@),
            ),
            Err(e) => e matches SerializeError::UnknownSymbol(s) && exists|j: int|
                #![trigger c.args@[j]]
                0 <= j < c.args@.len() && !arg_resolves(c.args@[j], table@) && sym_arg_named(
                    c.args@[j],
                    s@,
                ) && forall|k: int| 0 <= k < j ==> arg_resolves(#[trigger] c.args@[k], table@),
        },
{
    let ghost ws = call_words(*c, table@);
    push_word(buf, c.name.id());
    proof {
        lemma_push_word_step(Seq::empty(), c.name.spec_id());
        assert(Seq::<u32>::empty().push(c.name.spec_id()) =~= ws.take(1));
        assert(le32s(Seq::<u32>::empty()) =~= Seq::<u8>::empty());
        assert(buf@ =~= old(buf)@ + le32s(ws.take(1)));
    }
    let n = c.args.len();
    let mut j: usize = 0;
    while j < n
        invariant
            n == c.args@.len() <= ARG_SLOTS,
            ws == call_words(*c, table@),
            j <= n,
            buf@ == old(buf)@ + le32s(ws.take(j + 1)),
            forall|k: int| 0 <= k < j ==> arg_resolves(#[trigger] c.args@[k], table@),
        decreases n - j,
    {
        let x: u32 = match &c.args[j] {
            Value::Symbol(s) => match lookup_symbol(table, s) {
                Some(x) => x,
                None => {
                    return Err(SerializeError::UnknownSymbol(s.clone()));
                },
            },
            Value::Num(n) => #[verifier::truncate]
            (*n as u32),
            Value::Ptr(_) => 0,
        };
        assert(x == word(c.args@[j as int], table@));
        assert(ws[j + 1] == x);
        push_word(buf, x);
        proof {
            lemma_push_word_step(ws.take(j + 1), x);
            assert(ws.take(j + 1).push(x) =~= ws.take(j + 2));
        }
        j = j + 1;
    }
    while j < ARG_SLOTS
        invariant
            n == c.args@.len() <= ARG_SLOTS,
            ws == call_words(*c, table@),
            n <= j <= ARG_SLOTS,
            buf@ == old(buf)@ + le32s(ws.take(j + 1)),
            forall|k: int| 0 <= k < n ==> arg_resolves(#[trigger] c.args@[k], table@),
        decreases ARG_SLOTS - j,
    {
        assert(ws[j + 1] == 0u32);
        push_word(buf, 0);
        proof {
            lemma_push_word_step(ws.take(j + 1), 0);
            assert(ws.take(j + 1).push(0) =~= ws.take(j + 2));
        }
        j = j + 1;
    }
    assert(ws.take(5) =~= ws);
    Ok(())
}

/// Lays out the calls of one entity in a fresh buffer of [`BUF_LEN`] bytes.
pub fn serialize_calls(calls: &Vec<Call>, table: &Vec<(String, u32)>) -> (r: Result<
    Vec<u8>,
    SerializeError,
>)
    ensures
        serialize_outcome(calls@, table@, r),
{
    let n = calls.len();
    if n > (BUF_LEN - 4) / RECORD_LEN {
        return Err(SerializeError::Overflow);
    }
    let mut i: usize = 0;
    while i < n
        invariant
            n == calls@.len(),
            i <= n,
            forall|k: int| 0 <= k < i ==> (#[trigger] calls@[k]).args@.len() <= ARG_SLOTS,
        decreases n - i,
    {
        if calls[i].args.len() > ARG_SLOTS {
            return Err(SerializeError::Overflow);
        }
        i = i + 1;
    }
    assert(fits(calls@));
    let mut buf: Vec<u8> = Vec::new();
    let mut i: usize = 0;
    while i < n
        invariant
            n == calls@.len(),
            fits(calls@),
            i <= n,
            buf@ == le32s(calls_words(calls@.take(i as int), table@)),
            forall|k: int| 0 <= k < i ==> call_resolves(#[trigger] calls@[k], table@),
        decreases n - i,
    {
        let ghost before = buf@;
        match serialize_call(&calls[i], table, &mut buf) {
            Ok(()) => {},
            Err(e) => {
                proof {
                    let s = e->UnknownSymbol_0;
                    let j = choose|j: int|
                        #![trigger calls@[i as int].args@[j]]
                        0 <= j < calls@[i as int].args@.len() && !arg_resolves(
                            calls@[i as int].args@[j],
                            table@,
                        ) && sym_arg_named(calls@[i as int].args@[j], s@) && forall|k: int|
                            0 <= k < j ==> arg_resolves(#[trigger] calls@[i as int].args@[k], table@);
                    assert(first_missing_at(calls@, table@, i as int, j));
                    assert(!all_resolve(calls@, table@));
                }
                return Err(e);
            },
        }
        proof {
            lemma_calls_words_push(calls@.take(i as int), calls@[i as int], table@);
            assert(calls@.take(i as int).push(calls@[i as int]) =~= calls@.take(i + 1));
            lemma_le32s_append(
                calls_words(calls@.take(i as int), table@),
                call_words(calls@[i as int], table@),
            );
        }
        i = i + 1;
    }
    assert(calls@.take(n as int) =~= calls@);
    push_word(&mut buf, TERMINATOR);
    proof {
        lemma_push_word_step(calls_words(calls@, table@), TERMINATOR);
        lemma_calls_words_len(calls@, table@);
        lemma_le32s_len(calls_words(calls@, table@).push(TERMINATOR));
    }
    let used = RECORD_LEN * n + 4;
    let ghost head = buf@;
    let mut k: usize = used;
    while k < BUF_LEN
        invariant
            used <= k <= BUF_LEN,
            head.len() == used,
            buf@.len() == k,
            buf@ == head + Seq::new((k - used) as nat, |_i: int| 0u8),
        decreases BUF_LEN - k,
    {
        buf.push(0);
        k = k + 1;
        assert(buf@ =~= head + Seq::new((k - used) as nat, |_i: int| 0u8));
    }
    Ok(buf)
}

/// The name of the target variable that receives the buffer of hook `h`.
pub open spec fn hook_var(h: HookType) -> Seq<char> {
    match h {
        HookType::Error => "ERROR_HOOK_DATA"@,
        HookType::PreTask => "PRE_TASK_DATA"@,
        HookType::PostTask => "POST_TASK_DATA"@,
        HookType::Startup => "STARTUP_DATA"@,
        HookType::Shutdown => "SHUTDOWN_DATA"@,
    }
}

/// The name of the target variable that receives the buffer of the ISR or
/// task `id`.
pub open spec fn data_var(id: Seq<char>) -> Seq<char> {
    id + "_DATA"@
}

/// The name of the target variable that holds the rendezvous state of task
/// `id`.
pub open spec fn state_var(id: Seq<char>) -> Seq<char> {
    id + "_STATE"@
}

pub fn hook_var_name(h: HookType) -> (r: &'static str)
    ensures
        r@ == hook_var(h),
{
    match h {
        HookType::Error => "ERROR_HOOK_DATA",
        HookType::PreTask => "PRE_TASK_DATA",
        HookType::PostTask => "POST_TASK_DATA",
        HookType::Startup => "STARTUP_DATA",
        HookType::Shutdown => "SHUTDOWN_DATA",
    }
}

pub fn isr_task_var_name(id: &str) -> (r: String)
    ensures
        r@ == data_var(id@),
{
    let mut r = String::from_str(id);
    r.append("_DATA");
    r
}

pub fn to_task_state_var(id: &str) -> (r: String)
    ensures
        r@ == state_var(id@),
{
    let mut r = String::from_str(id);
    r.append("_STATE");
    r
}

/// The entities of a program in layout order, each with the name of its
/// target variable and its calls: the present hooks in the fixed hook order,
/// then the ISRs, then the tasks.
#[verifier::opaque]
pub open spec fn entities(p: Inst) -> Seq<(Seq<char>, Seq<Call>)> {
    p.hooks.present().map_values(|h: HookType| (hook_var(h), p.hooks.calls(h))) + p.isr@.map_values(
        |x: ISRInst| (data_var(x.meta.id@), x.seq@),
    ) + p.tasks@.map_values(|t: TaskInst| (data_var(t.id@), t.seq@))
}

pub open spec fn entity_ok(calls: Seq<Call>, table: Seq<(String, u32)>) -> bool {
    fits(calls) && all_resolve(calls, table)
}

/// `out` holds, for each of the first `n` entities, the name of its
/// variable and its buffer.
pub open spec fn laid_out(
    out: Seq<(String, Vec<u8>)>,
    ents: Seq<(Seq<char>, Seq<Call>)>,
    table: Seq<(String, u32)>,
    n: int,
) -> bool {
    &&& out.len() == n
    &&& forall|k: int| 0 <= k < n ==> entity_ok(#[trigger] ents[k].1, table)
    &&& forall|k: int|
        0 <= k < n ==> {
            &&& (#[trigger] out[k]).0@ == ents[k].0
            &&& out[k].1@ == encode(ents[k].1, table)
        }
}

fn serialize_item(
    name: String,
    calls: &Vec<Call>,
    table: &Vec<(String, u32)>,
    out: &mut Vec<(String, Vec<u8>)>,
) -> (r: Result<(), SerializeError>)
    ensures
        r is Ok <==> entity_ok(calls@, table@),
        r matches Err(e) ==> serialize_outcome(calls@, table@, Err(e)),
        r is Ok ==> final(out)@ == old(out)@.push((name, final(out)@.last().1)),
        r is Ok ==> final(out)@.last().1@ == encode(calls@, table@),
{
    match serialize_calls(calls, table) {
        Ok(buf) => {
            out.push((name, buf));
            Ok(())
        },
        Err(e) => Err(e),
    }
}

/// The entities of `p` at each position of the layout order.
pub proof fn lemma_entities_index(p: Inst)
    ensures
        entities(p).len() == p.hooks.present().len() + p.isr@.len() + p.tasks@.len(),
        forall|k: int|
            0 <= k < p.hooks.present().len() ==> #[trigger] entities(p)[k] == (
                hook_var(p.hooks.present()[k]),
                p.hooks.calls(p.hooks.present()[k]),
            ),
        forall|k: int|
            0 <= k < p.isr@.len() ==> #[trigger] entities(p)[p.hooks.present().len() + k] == (
                data_var(p.isr@[k].meta.id@),
                p.isr@[k].seq@,
            ),
        forall|k: int|
            0 <= k < p.tasks@.len() ==> #[trigger] entities(p)[p.hooks.present().len()
                + p.isr@.len() + k] == (data_var(p.tasks@[k].id@), p.tasks@[k].seq@),
{
    reveal(entities);
}

/// Lays out every entity of `p`, in layout order, with the name of the
/// target variable that receives it.
pub fn serialize(p: &Inst, app: &APPConfig) -> (r: Result<Vec<(String, Vec<u8>)>, SerializeError>)
    ensures
        r is Ok <==> forall|k: int|
            0 <= k < entities(*p).len() ==> entity_ok(#[trigger] entities(*p)[k].1, app.sym_val@),
        r matches Ok(v) ==> laid_out(v@, entities(*p), app.sym_val@, entities(*p).len() as int),
        r matches Err(e) ==> exists|k: int|
            #![trigger entities(*p)[k]]
            0 <= k < entities(*p).len() && (forall|m: int|
                0 <= m < k ==> entity_ok(#[trigger] entities(*p)[m].1, app.sym_val@))
                && serialize_outcome(entities(*p)[k].1, app.sym_val@, Err(e)),
{
    let ghost ents = entities(*p);
    let ghost table = app.sym_val@;
    proof {
        lemma_entities_index(*p);
        lemma_present_order(p.hooks);
    }
    let table_ref = &app.sym_val;
    let hooks = p.hooks.hook_kinds();
    let ghost nh = hooks@.len() as int;
    let ghost ni = p.isr@.len() as int;
    let ghost nt = p.tasks@.len() as int;
    let mut out: Vec<(String, Vec<u8>)> = Vec::new();
    let mut i: usize = 0;
    while i < hooks.len()
        invariant
            ents == entities(*p),
            table == app.sym_val@,
            table_ref@ == table,
            hooks@ == p.hooks.present(),
            nh == hooks@.len(),
            ni == p.isr@.len(),
            nt == p.tasks@.len(),
            ents.len() == nh + ni + nt,
            forall|k: int|
                0 <= k < nh ==> #[trigger] ents[k] == (hook_var(hooks@[k]), p.hooks.calls(hooks@[k])),
            forall|k: int| 0 <= k < nh ==> (#[trigger] p.hooks.slot(hooks@[k])) is Some,
            i <= nh,
            laid_out(out@, ents, table, i as int),
        decreases hooks@.len() - i,
    {
        let h = hooks[i];
        assert(ents[i as int] == (hook_var(h), p.hooks.calls(h)));
        assert(p.hooks.slot(hooks@[i as int]) is Some);
        match p.hooks.get(h) {
            Some(calls) => {
                let name = String::from_str(hook_var_name(h));
                match serialize_item(name, calls, table_ref, &mut out) {
                    Ok(()) => {},
                    Err(e) => {
                        assert(serialize_outcome(ents[i as int].1, table, Err(e)));
                assert(!entity_ok(ents[i as int].1, table));
                        return Err(e);
                    },
                }
            },
            None => {
                return Err(SerializeError::Overflow);
            },
        }
        i = i + 1;
    }
    let mut i: usize = 0;
    while i < p.isr.len()
        invariant
            ents == entities(*p),
            table == app.sym_val@,
            table_ref@ == table,
            nh == p.hooks.present().len(),
            ni == p.isr@.len(),
            nt == p.tasks@.len(),
            ents.len() == nh + ni + nt,
            forall|k: int|
                0 <= k < ni ==> #[trigger] ents[nh + k] == (
                    data_var(p.isr@[k].meta.id@),
                    p.isr@[k].seq@,
                ),
            i <= ni,
            laid_out(out@, ents, table, nh + i),
        decreases p.isr@.len() - i,
    {
        let x = &p.isr[i];
        assert(ents[nh + i] == (data_var(x.meta.id@), x.seq@));
        let name = isr_task_var_name(x.meta.id.as_str());
        match serialize_item(name, &x.seq, table_ref, &mut out) {
            Ok(()) => {},
            Err(e) => {
                assert(serialize_outcome(ents[nh + i].1, table, Err(e)));
                assert(!entity_ok(ents[nh + i].1, table));
                return Err(e);
            },
        }
        i = i + 1;
    }
    let mut i: usize = 0;
    while i < p.tasks.len()
        invariant
            ents == entities(*p),
            table == app.sym_val@,
            table_ref@ == table,
            nh == p.hooks.present().len(),
            ni == p.isr@.len(),
            nt == p.tasks@.len(),
            ents.len() == nh + ni + nt,
            forall|k: int|
                0 <= k < nt ==> #[trigger] ents[nh + ni + k] == (
                    data_var(p.tasks@[k].id@),
                    p.tasks@[k].seq@,
                ),
            i <= nt,
            laid_out(out@, ents, table, nh + ni + i),
        decreases p.tasks@.len() - i,
    {
        let t = &p.tasks[i];
        assert(ents[nh + ni + i] == (data_var(t.id@), t.seq@));
        let name = isr_task_var_name(t.id.as_str());
        match serialize_item(name, &t.seq, table_ref, &mut out) {
            Ok(()) => {},
            Err(e) => {
                assert(serialize_outcome(ents[nh + ni + i].1, table, Err(e)));
                assert(!entity_ok(ents[nh + ni + i].1, table));
                return Err(e);
            },
        }
        i = i + 1;
    }
    Ok(out)
}

/// The little-endian word at byte offset `k` of `b`.
pub open spec fn u32_at(b: Seq<u8>, k: int) -> u32 {
    (b[k] as int + 256 * b[k + 1] as int + 65536 * b[k + 2] as int + 16777216 * b[k + 3] as int) as u32
}

/// How the receiver reads a buffer: 20-byte records, each a call
/// identifier and four argument slots, up to the terminator word.
pub open spec fn decode(b: Seq<u8>) -> Seq<(Option<CallKind>, Seq<u32>)>
    decreases b.len(),
{
    if b.len() < RECORD_LEN || u32_at(b, 0) == TERMINATOR {
        Seq::empty()
    } else {
        seq![
            (
                CallKind::spec_from_id(u32_at(b, 0)),
                seq![u32_at(b, 4), u32_at(b, 8), u32_at(b, 12), u32_at(b, 16)],
            ),
        ] + decode(b.skip(RECORD_LEN as int))
    }
}

proof fn lemma_u32_at_le32(x: u32, t: Seq<u8>)
    ensures
        u32_at(le32(x) + t, 0) == x,
{
    let b = le32(x) + t;
    assert(b[0] == (x % 256) as u8);
    assert(b[1] == ((x / 256) % 256) as u8);
    assert(b[2] == ((x / 65536) % 256) as u8);
    assert(b[3] == ((x / 16777216) % 256) as u8);
    assert(((x % 256) as u8) as int + 256 * (((x / 256) % 256) as u8) as int + 65536 * (((x / 65536)
        % 256) as u8) as int + 16777216 * (((x / 16777216) % 256) as u8) as int == x as int) by {
        assert(((x % 256) as u8) as int == x % 256);
        assert((((x / 256) % 256) as u8) as int == (x / 256) % 256);
        assert((((x / 65536) % 256) as u8) as int == (x / 65536) % 256);
        assert((((x / 16777216) % 256) as u8) as int == (x / 16777216) % 256);
        assert((x % 256) + 256 * ((x / 256) % 256) + 65536 * ((x / 65536) % 256) + 16777216 * ((x
            / 16777216) % 256) == x) by (nonlinear_arith);
    }
}

proof fn lemma_u32_at_le32s(ws: Seq<u32>, t: Seq<u8>, k: int)
    requires
        0 <= k < ws.len(),
    ensures
        u32_at(le32s(ws) + t, 4 * k) == ws[k],
    decreases k,
{
    let rest = le32s(ws.drop_first()) + t;
    assert(le32s(ws) + t =~= le32(ws[0]) + rest);
    if k == 0 {
        lemma_u32_at_le32(ws[0], rest);
    } else {
        lemma_u32_at_le32s(ws.drop_first(), t, k - 1);
        let b = le32(ws[0]) + rest;
        lemma_le32s_len(ws.drop_first());
        assert(b[4 * k] == rest[4 * (k - 1)]);
        assert(b[4 * k + 1] == rest[4 * (k - 1) + 1]);
        assert(b[4 * k + 2] == rest[4 * (k - 1) + 2]);
        assert(b[4 * k + 3] == rest[4 * (k - 1) + 3]);
        assert(u32_at(b, 4 * k) == u32_at(rest, 4 * (k - 1)));
    }
}

proof fn lemma_decode_records(calls: Seq<Call>, table: Seq<(String, u32)>, z: Seq<u8>)
    requires
        forall|i: int| 0 <= i < calls.len() ==> (#[trigger] calls[i]).args@.len() <= ARG_SLOTS,
    ensures
        decode(le32s(calls_words(calls, table).push(TERMINATOR)) + z) == calls.map_values(
            |c: Call| (Some(c.name), slots(c, table)),
        ),
    decreases calls.len(),
{
    let b = le32s(calls_words(calls, table).push(TERMINATOR)) + z;
    if calls.len() == 0 {
        assert(calls_words(calls, table).push(TERMINATOR) =~= seq![TERMINATOR]);
        assert(le32s(seq![TERMINATOR]) + z =~= le32(TERMINATOR) + (le32s(
            seq![TERMINATOR].drop_first(),
        ) + z));
        lemma_u32_at_le32(TERMINATOR, le32s(seq![TERMINATOR].drop_first()) + z);
        assert(calls.map_values(|c: Call| (Some(c.name), slots(c, table))) =~= Seq::empty());
    } else {
        let c = calls[0];
        let rest = calls.drop_first();
        assert forall|i: int| 0 <= i < rest.len() implies (#[trigger] rest[i]).args@.len()
            <= ARG_SLOTS by {
            assert(rest[i] == calls[i + 1]);
        }
        lemma_decode_records(rest, table, z);
        let cw = call_words(c, table);
        assert(c.args@.len() <= ARG_SLOTS);
        assert(cw.len() == 5);
        let tail = calls_words(rest, table).push(TERMINATOR);
        assert(calls_words(calls, table).push(TERMINATOR) =~= cw + tail);
        lemma_le32s_append(cw, tail);
        lemma_le32s_len(cw);
        let r = le32s(tail) + z;
        assert(b =~= le32s(cw) + r);
        assert forall|k: int| 0 <= k < 5 implies u32_at(b, 4 * k) == cw[k] by {
            lemma_u32_at_le32s(cw, r, k);
        }
        assert(u32_at(b, 0) == c.name.spec_id());
        lemma_call_id_round_trip(c.name, 0);
        assert(b.skip(RECORD_LEN as int) =~= r);
        assert(seq![u32_at(b, 4), u32_at(b, 8), u32_at(b, 12), u32_at(b, 16)] =~= slots(c, table))
            by {
            assert(u32_at(b, 4 * 1int) == cw[1]);
            assert(u32_at(b, 4 * 2int) == cw[2]);
            assert(u32_at(b, 4 * 3int) == cw[3]);
            assert(u32_at(b, 4 * 4int) == cw[4]);
        }
        assert(calls.map_values(|c: Call| (Some(c.name), slots(c, table))) =~= seq![
            (Some(c.name), slots(c, table)),
        ] + rest.map_values(|c: Call| (Some(c.name), slots(c, table))));
    }
}

/// Reading back a buffer that [`serialize_calls`] produced gives, record by
/// record, the kind of each call and its four argument slots: the raw
/// values of its arguments, then zeros.
pub proof fn lemma_serialize_round_trip(calls: Seq<Call>, table: Seq<(String, u32)>)
    requires
        fits(calls),
        all_resolve(calls, table),
    ensures
        decode(encode(calls, table)) == calls.map_values(
            |c: Call| (Some(c.name), slots(c, table)),
        ),
        forall|i: int, j: int|
            0 <= i < calls.len() && 0 <= j < ARG_SLOTS ==> #[trigger] slots(calls[i], table)[j] == if j
                < calls[i].args@.len() {
                word(calls[i].args@[j], table)
            } else {
                0u32
            },
{
    assert forall|i: int, j: int| 0 <= i < calls.len() && 0 <= j < ARG_SLOTS implies #[trigger] slots(
        calls[i],
        table,
    )[j] == if j < calls[i].args@.len() {
        word(calls[i].args@[j], table)
    } else {
        0u32
    } by {
        assert(calls[i].args@.len() <= ARG_SLOTS);
    }
    lemma_decode_records(
        calls,
        table,
        Seq::new((BUF_LEN - RECORD_LEN * calls.len() - 4) as nat, |_i: int| 0u8),
    );
}

} // verus!
