//! The bytecode interpreter: a stack machine that runs one action list on a
//! current target.
use vstd::prelude::*;
use crate::movie::{Action, Movie, Function, Preload};
use crate::object::{values_model, lookup, assign, update_object, MAX_PROTO_HOPS, ObjectModel};
use crate::stage::{AudioCommand, Stage, StageModel, DisplayModel, PendingLoad, LoadRequest, RequestModel, valid, objs_model, MAX_OBJECTS};
use crate::timeline::goto;
use crate::movie::{label_frame, find_label};
use crate::navigator::{NavigationMethod, SendVarsMethod};
use crate::form::{form_text, encode_variables, pairs_model};
use crate::object::{sent_variables, keys};
use crate::value::{
    Value, ValueModel, Number, value_text, value_add, value_number, num_sub, num_mul, num_div, loose_equal,
    strict_equal, value_less, value_truth, to_text, add_values, to_number, subtract_numbers,
    multiply_numbers, divide_numbers, loose_equals, strict_equals, less_than, to_boolean,
};

verus! {

/// The text a trace line shows for a value: `undefined` for the undefined value
/// in every version, else the value's text.
pub open spec fn trace_text(version: u8, v: ValueModel) -> Seq<char> {
    if v is Undefined {
        seq!['u', 'n', 'd', 'e', 'f', 'i', 'n', 'e', 'd']
    } else {
        value_text(version, v)
    }
}

/// The script object of object `target`, or none.
pub open spec fn vars_of(m: StageModel, target: int) -> int {
    if valid(m, target) {
        m.objs[target].vars as int
    } else {
        -1
    }
}

/// The stage with object `target` playing or stopped.
pub open spec fn set_playing(m: StageModel, target: int, playing: bool) -> StageModel {
    if valid(m, target) {
        StageModel { objs: m.objs.update(target, DisplayModel { playing, ..m.objs[target] }), ..m }
    } else {
        m
    }
}

/// The stage with object `target` shown or hidden.
pub open spec fn set_visible(m: StageModel, target: int, visible: bool) -> StageModel {
    if valid(m, target) {
        StageModel { objs: m.objs.update(target, DisplayModel { visible, ..m.objs[target] }), ..m }
    } else {
        m
    }
}

/// Whether an action pops two operands and pushes one result.
pub open spec fn is_binary(a: &Action) -> bool {
    a is Add || a is Subtract || a is Multiply || a is Divide || a is Equals || a is StrictEquals || a is Less
}

/// The result of a binary action on `x` (pushed first) and `y`.
pub open spec fn binary_result(version: u8, a: &Action, x: ValueModel, y: ValueModel) -> ValueModel {
    match a {
        Action::Add => value_add(version, x, y),
        Action::Subtract => ValueModel::Num(num_sub(value_number(version, x), value_number(version, y))),
        Action::Multiply => ValueModel::Num(num_mul(value_number(version, x), value_number(version, y))),
        Action::Divide => ValueModel::Num(num_div(value_number(version, x), value_number(version, y))),
        Action::Equals => ValueModel::Bool(loose_equal(version, x, y)),
        Action::StrictEquals => ValueModel::Bool(strict_equal(x, y)),
        _ => value_less(version, x, y),
    }
}

/// Why an action list stopped early.
#[derive(Clone, Copy, Debug, PartialEq, Eq, Structural)]
pub enum ScriptError {
    /// An action needed more operands than the stack held.
    StackUnderflow,
    /// Calls nested deeper than `MAX_CALL_DEPTH`.
    StackOverflow,
    /// A register beyond the running activation's register file.
    BadRegister,
    /// A call of a function that does not exist.
    NotCallable,
}

/// How deeply calls may nest.
pub const MAX_CALL_DEPTH: usize = 64;

/// The size of the register file of code that runs outside any function.
pub const MAIN_REGISTERS: usize = 4;

/// The navigation method a send-variables method asks for.
pub open spec fn send_method(method: SendVarsMethod) -> Option<NavigationMethod> {
    match method {
        SendVarsMethod::Omit => None,
        SendVarsMethod::Get => Some(NavigationMethod::GET),
        SendVarsMethod::Post => Some(NavigationMethod::POST),
    }
}

/// The request of a load by `target` from `url`: by GET its variables follow
/// the URL after `?` (where it has any); by POST they are the body.
pub open spec fn load_request(m: StageModel, target: int, load: usize, url: Seq<char>, method: SendVarsMethod) -> RequestModel {
    let text = form_text(sent_variables(m.version, m.store, vars_of(m, target)));
    RequestModel {
        load,
        url: if method == SendVarsMethod::Get && text.len() > 0 {
            url + seq!['?'] + text
        } else {
            url
        },
        method: send_method(method),
        body: if method == SendVarsMethod::Post {
            Some(text)
        } else {
            None
        },
    }
}

/// Names as string values, last first.
pub open spec fn names_reversed(ks: Seq<Seq<char>>) -> Seq<ValueModel> {
    Seq::new(ks.len(), |i: int| ValueModel::Str(ks[ks.len() - 1 - i]))
}

/// One action other than a call or a return, on the stage, the operand stack and
/// the registers; an error aborts the action list.
pub open spec fn step(
    movie: &Movie,
    m: StageModel,
    target: int,
    stack: Seq<ValueModel>,
    regs: Seq<ValueModel>,
    a: &Action,
) -> Result<(StageModel, Seq<ValueModel>, Seq<ValueModel>), ScriptError> {
    let n = stack.len();
    let version = m.version;
    if is_binary(a) {
        if n < 2 {
            Err(ScriptError::StackUnderflow)
        } else {
            Ok((m, stack.take(n - 2).push(binary_result(version, a, stack[n - 2], stack[n - 1])), regs))
        }
    } else {
        match a {
            Action::Push(v) => Ok((m, stack.push(v@), regs)),
            Action::Pop => if n < 1 {
                Err(ScriptError::StackUnderflow)
            } else {
                Ok((m, stack.drop_last(), regs))
            },
            Action::Not => if n < 1 {
                Err(ScriptError::StackUnderflow)
            } else {
                Ok((m, stack.drop_last().push(ValueModel::Bool(!value_truth(version, stack.last()))), regs))
            },
            Action::Trace => if n < 1 {
                Err(ScriptError::StackUnderflow)
            } else {
                Ok((StageModel { trace: m.trace.push(trace_text(version, stack.last())), ..m }, stack.drop_last(), regs))
            },
            Action::GetVariable => if n < 1 {
                Err(ScriptError::StackUnderflow)
            } else {
                Ok(
                    (
                        m,
                        stack.drop_last().push(
                            lookup(
                                version,
                                m.store,
                                vars_of(m, target),
                                value_text(version, stack.last()),
                                MAX_PROTO_HOPS as nat,
                            ),
                        ),
                        regs,
                    ),
                )
            },
            Action::SetVariable => if n < 2 {
                Err(ScriptError::StackUnderflow)
            } else {
                let obj = vars_of(m, target);
                Ok(
                    (
                        StageModel {
                            store: update_object(
                                m.store,
                                obj,
                                assign(version, m.store[obj], value_text(version, stack[n - 2]), stack[n - 1]),
                            ),
                            ..m
                        },
                        stack.take(n - 2),
                        regs,
                    ),
                )
            },
            Action::InitArray(c) => if n < *c {
                Err(ScriptError::StackUnderflow)
            } else {
                let items = stack.subrange(n - *c, n as int);
                let rest = stack.take(n - *c);
                if m.store.len() < MAX_OBJECTS {
                    Ok(
                        (
                            StageModel {
                                store: m.store.push(ObjectModel { props: seq![], proto: None, elements: Some(items) }),
                                ..m
                            },
                            rest.push(ValueModel::Object(m.store.len() as usize)),
                            regs,
                        ),
                    )
                } else {
                    Ok((m, rest.push(ValueModel::Undefined), regs))
                }
            },
            Action::InitObject => if m.store.len() < MAX_OBJECTS {
                Ok(
                    (
                        StageModel { store: m.store.push(ObjectModel { props: seq![], proto: None, elements: None }), ..m },
                        stack.push(ValueModel::Object(m.store.len() as usize)),
                        regs,
                    ),
                )
            } else {
                Ok((m, stack.push(ValueModel::Undefined), regs))
            },
            Action::GetMember => if n < 2 {
                Err(ScriptError::StackUnderflow)
            } else {
                let v = match stack[n - 2] {
                    ValueModel::Object(o) => lookup(version, m.store, o as int, value_text(version, stack[n - 1]), MAX_PROTO_HOPS as nat),
                    _ => ValueModel::Undefined,
                };
                Ok((m, stack.take(n - 2).push(v), regs))
            },
            Action::SetMember => if n < 3 {
                Err(ScriptError::StackUnderflow)
            } else {
                let m1 = match stack[n - 3] {
                    ValueModel::Object(o) => StageModel {
                        store: update_object(
                            m.store,
                            o as int,
                            assign(version, m.store[o as int], value_text(version, stack[n - 2]), stack[n - 1]),
                        ),
                        ..m
                    },
                    _ => m,
                };
                Ok((m1, stack.take(n - 3), regs))
            },
            Action::Enumerate => if n < 1 {
                Err(ScriptError::StackUnderflow)
            } else {
                let ks = match stack[n - 1] {
                    ValueModel::Object(o) => if (o as int) < m.store.len() {
                        keys(m.store[o as int])
                    } else {
                        seq![]
                    },
                    _ => seq![],
                };
                Ok((m, stack.drop_last().push(ValueModel::Null) + names_reversed(ks), regs))
            },
            Action::PushRegister(r) => if (*r as int) < regs.len() {
                Ok((m, stack.push(regs[*r as int]), regs))
            } else {
                Err(ScriptError::BadRegister)
            },
            Action::StoreRegister(r) => if n < 1 {
                Err(ScriptError::StackUnderflow)
            } else if (*r as int) < regs.len() {
                Ok((m, stack, regs.update(*r as int, stack.last())))
            } else {
                Err(ScriptError::BadRegister)
            },
            Action::GotoLabel(name) => Ok(
                (
                    if valid(m, target) {
                        match label_frame(movie, m.objs[target].character as int, name@) {
                            Some(f) => goto(movie, m, target, f),
                            None => m,
                        }
                    } else {
                        m
                    },
                    stack,
                    regs,
                ),
            ),
            Action::GotoAndStop(f) => Ok((set_playing(goto(movie, m, target, *f as int), target, false), stack, regs)),
            Action::GotoAndPlay(f) => Ok((set_playing(goto(movie, m, target, *f as int), target, true), stack, regs)),
            Action::MouseX => Ok((m, stack.push(ValueModel::Num(Number::Int(m.input.mouse_x as i64))), regs)),
            Action::MouseY => Ok((m, stack.push(ValueModel::Num(Number::Int(m.input.mouse_y as i64))), regs)),
            Action::IsKeyDown(k) => Ok((m, stack.push(ValueModel::Bool(m.input.keys_down.contains(*k))), regs)),
            Action::SetVisible(v) => Ok((set_visible(m, target, *v), stack, regs)),
            Action::StartSound(id) => Ok((StageModel { audio: m.audio.push(AudioCommand::StartStream(*id)), ..m }, stack, regs)),
            Action::StopSound(id) => Ok((StageModel { audio: m.audio.push(AudioCommand::StopStream(*id)), ..m }, stack, regs)),
            Action::Stop => Ok((set_playing(m, target, false), stack, regs)),
            Action::Play => Ok((set_playing(m, target, true), stack, regs)),
            Action::LoadVariables { url, callback, method } => Ok(
                (
                    StageModel {
                        loads: m.loads.push(
                            PendingLoad { target: target as usize, callback: *callback, live: true, resolved: false },
                        ),
                        requests: m.requests.push(load_request(m, target, m.loads.len() as usize, url@, *method)),
                        ..m
                    },
                    stack,
                    regs,
                ),
            ),
            _ => Ok((m, stack, regs)),
        }
    }
}

/// The script object of object `id` as a value, or `undefined`.
pub open spec fn vars_value(m: StageModel, id: int) -> ValueModel {
    if valid(m, id) {
        ValueModel::Object(m.objs[id].vars)
    } else {
        ValueModel::Undefined
    }
}

/// The script object of the parent of object `id` as a value, or `undefined`.
pub open spec fn parent_value(m: StageModel, id: int) -> ValueModel {
    if valid(m, id) && m.objs[id].parent is Some {
        vars_value(m, m.objs[id].parent.unwrap() as int)
    } else {
        ValueModel::Undefined
    }
}

/// `s` with `v` pushed where `b` holds.
pub open spec fn push_if(s: Seq<ValueModel>, b: bool, v: ValueModel) -> Seq<ValueModel> {
    if b {
        s.push(v)
    } else {
        s
    }
}

/// Register 0 (`undefined`) and the values a preload configuration puts in
/// registers 1 and on, given the values it can draw from.
pub open spec fn preload_of(p: Preload, this_v: ValueModel, args_v: ValueModel, root_v: ValueModel, parent_v: ValueModel) -> Seq<ValueModel> {
    let s0 = seq![ValueModel::Undefined];
    let s1 = push_if(s0, p.this, this_v);
    let s2 = push_if(s1, p.arguments, args_v);
    let s3 = push_if(s2, p.super_, ValueModel::Undefined);
    let s4 = push_if(s3, p.root, root_v);
    let s5 = push_if(s4, p.parent, parent_v);
    push_if(s5, p.global, ValueModel::Undefined)
}

/// Register 0 and the preloaded values of an activation on `target`; `args` is
/// the arguments array.
pub open spec fn preload_values(m: StageModel, target: int, p: Preload, args: ValueModel) -> Seq<ValueModel> {
    preload_of(p, vars_value(m, target), args, vars_value(m, 0), parent_value(m, target))
}

/// Register file entries: `vals` in the first registers, `undefined` in the
/// others; values beyond the file are dropped.
pub open spec fn fill_registers(count: nat, vals: Seq<ValueModel>) -> Seq<ValueModel> {
    Seq::new(count, |i: int| if i < vals.len() { vals[i] } else { ValueModel::Undefined })
}

/// The value of the arguments array of a new activation: the next object, where
/// the store has room.
pub open spec fn args_array_value(m: StageModel) -> ValueModel {
    if m.store.len() < MAX_OBJECTS {
        ValueModel::Object(m.store.len() as usize)
    } else {
        ValueModel::Undefined
    }
}

/// The register file of a new activation of `f` on `target` with `args`:
/// register 0 is `undefined`, the preloaded values follow, then the arguments.
pub open spec fn activation_registers(m: StageModel, target: int, f: &Function, args: Seq<ValueModel>) -> Seq<ValueModel> {
    fill_registers(
        f.registers as nat,
        preload_values(m, target, f.preload, args_array_value(m)) + args,
    )
}

/// The stage of a new activation of `f`: an arguments array, where asked for
/// and where the store has room, is a new object.
pub open spec fn activation_stage(m: StageModel, f: &Function, args: Seq<ValueModel>) -> StageModel {
    if f.preload.arguments && m.store.len() < MAX_OBJECTS {
        StageModel {
            store: m.store.push(ObjectModel { props: seq![], proto: None, elements: Some(args) }),
            ..m
        }
    } else {
        m
    }
}

/// The stage and register file of a new activation.
pub open spec fn activation(m: StageModel, target: int, f: &Function, args: Seq<ValueModel>) -> (StageModel, Seq<ValueModel>) {
    (activation_stage(m, f, args), activation_registers(m, target, f, args))
}

/// An activation's register file has exactly the size its function declares.
pub proof fn lemma_activation_register_count(m: StageModel, target: int, f: &Function, args: Seq<ValueModel>)
    ensures
        activation(m, target, f, args).1.len() == f.registers,
{
}

/// The first child, shallowest first, from position `i` of `ch` whose instance
/// name is `name`.
pub open spec fn named_from(m: StageModel, ch: Seq<(i32, usize)>, name: Seq<char>, i: int) -> Option<usize>
    decreases ch.len() - i,
{
    if i < 0 || i >= ch.len() {
        None
    } else if valid(m, ch[i].1 as int) && m.objs[ch[i].1 as int].name == name {
        Some(ch[i].1)
    } else {
        named_from(m, ch, name, i + 1)
    }
}

/// The current target after redirecting to `name` from `base`: `base` itself
/// for an empty name, else its child of that name; `usize::MAX`, which names no
/// object, where it has none.
pub open spec fn redirect(m: StageModel, base: int, name: Seq<char>) -> int {
    if name.len() == 0 {
        base
    } else if valid(m, base) {
        match named_from(m, m.objs[base].children, name, 0) {
            Some(c) => c as int,
            None => usize::MAX as int,
        }
    } else {
        usize::MAX as int
    }
}

/// Running `body` from `pc` with the given stack and registers, `depth` calls
/// deep, on the current `target` of a list whose base clip is `base`: the stage
/// afterwards, and what the body returned (`undefined` where it ran off its end)
/// or the error that aborted it. A call runs the callee in a new activation on
/// the current target; an error inside it aborts the caller too.
pub open spec fn run_body(
    movie: &Movie,
    m: StageModel,
    base: int,
    target: int,
    body: Seq<Action>,
    pc: int,
    stack: Seq<ValueModel>,
    regs: Seq<ValueModel>,
    depth: nat,
) -> (StageModel, Result<ValueModel, ScriptError>)
    decreases MAX_CALL_DEPTH - depth, body.len() - pc,
{
    if depth > MAX_CALL_DEPTH {
        (m, Err(ScriptError::StackOverflow))
    } else if pc < 0 || pc >= body.len() {
        (m, Ok(ValueModel::Undefined))
    } else {
        let n = stack.len();
        match body[pc] {
            Action::Return => (m, Ok(if n > 0 { stack.last() } else { ValueModel::Undefined })),
            Action::CallFunction { function, args } => {
                if n < args {
                    (m, Err(ScriptError::StackUnderflow))
                } else if function >= movie.functions@.len() {
                    (m, Err(ScriptError::NotCallable))
                } else if depth >= MAX_CALL_DEPTH {
                    (m, Err(ScriptError::StackOverflow))
                } else {
                    let f = &movie.functions@[function as int];
                    let act = activation(m, target, f, stack.subrange(n - args, n as int));
                    let called = run_body(movie, act.0, target, target, f.body@, 0, seq![], act.1, depth + 1);
                    match called.1 {
                        Err(e) => (called.0, Err(e)),
                        Ok(v) => run_body(movie, called.0, base, target, body, pc + 1, stack.take(n - args).push(v), regs, depth),
                    }
                }
            },
            Action::SetTarget(name) => run_body(movie, m, base, redirect(m, base, name@), body, pc + 1, stack, regs, depth),
            _ => match step(movie, m, target, stack, regs, &body[pc]) {
                Err(e) => (m, Err(e)),
                Ok((m1, s1, r1)) => run_body(movie, m1, base, target, body, pc + 1, s1, r1, depth),
            },
        }
    }
}

/// The stage after running an action list on `target` outside any function,
/// with an empty stack; an error ends the list and keeps what came before it.
pub open spec fn run_actions(movie: &Movie, m: StageModel, target: int, acts: Seq<Action>) -> StageModel {
    run_body(movie, m, target, target, acts, 0, seq![], fill_registers(MAIN_REGISTERS as nat, seq![]), 0).0
}

/// The result of a binary action, as `binary_result` says.
fn binary_exec(version: u8, a: &Action, x: &Value, y: &Value) -> (r: Value)
    requires
        is_binary(a),
    ensures
        r@ == binary_result(version, a, x@, y@),
{
    match a {
        Action::Add => add_values(version, x, y),
        Action::Subtract => Value::Num(subtract_numbers(to_number(version, x), to_number(version, y))),
        Action::Multiply => Value::Num(multiply_numbers(to_number(version, x), to_number(version, y))),
        Action::Divide => Value::Num(divide_numbers(to_number(version, x), to_number(version, y))),
        Action::Equals => Value::Bool(loose_equals(version, x, y)),
        Action::StrictEquals => Value::Bool(strict_equals(x, y)),
        _ => less_than(version, x, y),
    }
}

/// The text a trace line shows, as `trace_text` says.
fn trace_line(version: u8, v: &Value) -> (r: Vec<char>)
    ensures
        r@ == trace_text(version, v@),
{
    match v {
        Value::Undefined => {
            let r = vec!['u', 'n', 'd', 'e', 'f', 'i', 'n', 'e', 'd'];
            assert(r@ =~= trace_text(version, v@));
            r
        },
        _ => to_text(version, v),
    }
}

/// Pop the top value.
fn pop_value(stack: &mut Vec<Value>) -> (r: Value)
    requires
        old(stack)@.len() > 0,
    ensures
        r@ == values_model(old(stack)@).last(),
        values_model(final(stack)@) == values_model(old(stack)@).drop_last(),
        final(stack)@.len() == old(stack)@.len() - 1,
{
    let ghost s = stack@;
    let r = stack.pop().unwrap();
    assert(values_model(stack@) =~= values_model(s).drop_last());
    r
}

/// Register 0 and the preloaded values, as `preload_of` says.
fn preload_exec(p: Preload, this_v: Value, args_v: Value, root_v: Value, parent_v: Value) -> (r: Vec<Value>)
    ensures
        values_model(r@) == preload_of(p, this_v@, args_v@, root_v@, parent_v@),
{
    let mut vals: Vec<Value> = Vec::new();
    push_value(&mut vals, Value::Undefined);
    assert(values_model(vals@) =~= seq![ValueModel::Undefined]);
    if p.this {
        push_value(&mut vals, this_v);
    }
    if p.arguments {
        push_value(&mut vals, args_v);
    }
    if p.super_ {
        push_value(&mut vals, Value::Undefined);
    }
    if p.root {
        push_value(&mut vals, root_v);
    }
    if p.parent {
        push_value(&mut vals, parent_v);
    }
    if p.global {
        push_value(&mut vals, Value::Undefined);
    }
    vals
}

/// A register file of `count` entries filled from `vals`, as `fill_registers` says.
fn fill_registers_exec(count: usize, vals: &Vec<Value>) -> (r: Vec<Value>)
    ensures
        values_model(r@) == fill_registers(count as nat, values_model(vals@)),
{
    let mut regs: Vec<Value> = Vec::new();
    let mut k: usize = 0;
    while k < count
        invariant
            k <= count,
            values_model(regs@) =~= fill_registers(k as nat, values_model(vals@)),
        decreases count - k,
    {
        let v = if k < vals.len() {
            vals[k].copy()
        } else {
            Value::Undefined
        };
        push_value(&mut regs, v);
        k += 1;
    }
    regs
}

/// Push a value.
fn push_value(stack: &mut Vec<Value>, v: Value)
    ensures
        values_model(final(stack)@) == values_model(old(stack)@).push(v@),
{
    let ghost s = stack@;
    let ghost vm = v@;
    stack.push(v);
    assert(values_model(stack@) =~= values_model(s).push(vm));
}

impl Stage {
    /// Set whether object `target` plays, as `set_playing` says.
    fn set_playing_exec(&mut self, target: usize, playing: bool)
        ensures
            final(self)@ == set_playing(old(self)@, target as int, playing),
    {
        if target >= self.objs.len() {
            return;
        }
        let ghost before = objs_model(self.objs@);
        let mut o = crate::stage::take_obj(&mut self.objs, target);
        o.playing = playing;
        crate::stage::put_obj(&mut self.objs, target, o, Ghost(before));
    }

    /// Run one action other than a call or a return, as `step` says; on an error
    /// nothing changed.
    pub fn step(
        &mut self,
        movie: &Movie,
        target: usize,
        stack: &mut Vec<Value>,
        regs: &mut Vec<Value>,
        a: &Action,
    ) -> (r: Result<(), ScriptError>)
        ensures
            r is Err <==> step(movie, old(self)@, target as int, values_model(old(stack)@), values_model(old(regs)@), a) is Err,
            r is Err ==> r->Err_0 == step(movie, old(self)@, target as int, values_model(old(stack)@), values_model(old(regs)@), a)->Err_0,
            r is Ok ==> (final(self)@, values_model(final(stack)@), values_model(final(regs)@)) == step(
                movie,
                old(self)@,
                target as int,
                values_model(old(stack)@),
                values_model(old(regs)@),
                a,
            ).unwrap(),
            r is Err ==> final(self)@ == old(self)@,
    {
        let version = self.version;
        let n = stack.len();
        let ghost s = values_model(stack@);
        match a {
            Action::Add | Action::Subtract | Action::Multiply | Action::Divide | Action::Equals
            | Action::StrictEquals | Action::Less => {
                if n < 2 {
                    return Err(ScriptError::StackUnderflow);
                }
                let y = pop_value(stack);
                let x = pop_value(stack);
                assert(s.drop_last().drop_last() =~= s.take(n - 2));
                let r = binary_exec(version, a, &x, &y);
                push_value(stack, r);
                Ok(())
            },
            Action::Push(v) => {
                push_value(stack, v.copy());
                Ok(())
            },
            Action::Pop => {
                if n < 1 {
                    return Err(ScriptError::StackUnderflow);
                }
                pop_value(stack);
                Ok(())
            },
            Action::Not => {
                if n < 1 {
                    return Err(ScriptError::StackUnderflow);
                }
                let x = pop_value(stack);
                push_value(stack, Value::Bool(!to_boolean(version, &x)));
                Ok(())
            },
            Action::Trace => {
                if n < 1 {
                    return Err(ScriptError::StackUnderflow);
                }
                let x = pop_value(stack);
                let line = trace_line(version, &x);
                let ghost t = self.trace@;
                let ghost lm = line@;
                self.trace.push(line);
                assert(self.trace@.map_values(|t: Vec<char>| t@) =~= t.map_values(|t: Vec<char>| t@).push(lm));
                Ok(())
            },
            Action::GetVariable => {
                if n < 1 {
                    return Err(ScriptError::StackUnderflow);
                }
                let x = pop_value(stack);
                let name = to_text(version, &x);
                let v = if target < self.objs.len() {
                    assert(objs_model(self.objs@)[target as int] == self.objs@[target as int]@);
                    self.store.get(version, self.objs[target].vars, &name)
                } else {
                    Value::Undefined
                };
                push_value(stack, v);
                Ok(())
            },
            Action::SetVariable => {
                if n < 2 {
                    return Err(ScriptError::StackUnderflow);
                }
                let y = pop_value(stack);
                let x = pop_value(stack);
                assert(s.drop_last().drop_last() =~= s.take(n - 2));
                let name = to_text(version, &x);
                if target < self.objs.len() {
                    assert(objs_model(self.objs@)[target as int] == self.objs@[target as int]@);
                    let vars = self.objs[target].vars;
                    self.store.set(version, vars, &name, y);
                }
                Ok(())
            },
            Action::InitArray(c) => {
                let c = *c;
                if n < c {
                    return Err(ScriptError::StackUnderflow);
                }
                let items = stack.split_off(n - c);
                assert(values_model(items@) =~= s.subrange(n - c, n as int));
                assert(values_model(stack@) =~= s.take(n - c));
                if self.store.len() < MAX_OBJECTS {
                    let o = self.store.create_array(None, items);
                    push_value(stack, Value::Object(o));
                } else {
                    push_value(stack, Value::Undefined);
                }
                Ok(())
            },
            Action::InitObject => {
                if self.store.len() < MAX_OBJECTS {
                    let o = self.store.create_object(None);
                    push_value(stack, Value::Object(o));
                } else {
                    push_value(stack, Value::Undefined);
                }
                Ok(())
            },
            Action::GetMember => {
                if n < 2 {
                    return Err(ScriptError::StackUnderflow);
                }
                let y = pop_value(stack);
                let x = pop_value(stack);
                assert(s.drop_last().drop_last() =~= s.take(n - 2));
                let v = match x {
                    Value::Object(o) => {
                        let name = to_text(version, &y);
                        self.store.get(version, o, &name)
                    },
                    _ => Value::Undefined,
                };
                push_value(stack, v);
                Ok(())
            },
            Action::SetMember => {
                if n < 3 {
                    return Err(ScriptError::StackUnderflow);
                }
                let z = pop_value(stack);
                let y = pop_value(stack);
                let x = pop_value(stack);
                assert(s.drop_last().drop_last().drop_last() =~= s.take(n - 3));
                match x {
                    Value::Object(o) => {
                        let name = to_text(version, &y);
                        self.store.set(version, o, &name, z);
                    },
                    _ => {},
                }
                Ok(())
            },
            Action::Enumerate => {
                if n < 1 {
                    return Err(ScriptError::StackUnderflow);
                }
                let x = pop_value(stack);
                let ks: Vec<Vec<char>> = match x {
                    Value::Object(o) => self.store.enumerate(o),
                    _ => Vec::new(),
                };
                let ghost km = ks@.map_values(|k: Vec<char>| k@);
                assert(km == match x@ {
                    ValueModel::Object(o) => if (o as int) < self.store.model().len() {
                        keys(self.store.model()[o as int])
                    } else {
                        Seq::<Seq<char>>::empty()
                    },
                    _ => Seq::<Seq<char>>::empty(),
                }) by {
                    if !(x@ is Object) {
                        assert(km =~= Seq::<Seq<char>>::empty());
                    } else if ks@.len() == 0 {
                        assert(km =~= Seq::<Seq<char>>::empty());
                    }
                }
                push_value(stack, Value::Null);
                let ghost base = values_model(stack@);
                let k = ks.len();
                let mut j: usize = 0;
                while j < k
                    invariant
                        k == ks@.len(),
                        j <= k,
                        km == ks@.map_values(|k: Vec<char>| k@),
                        values_model(stack@) == base + names_reversed(km).take(j as int),
                    decreases k - j,
                {
                    push_value(stack, Value::Str(crate::value::copy_chars(&ks[k - 1 - j])));
                    assert(names_reversed(km).take(j + 1) =~= names_reversed(km).take(j as int).push(
                        ValueModel::Str(km[k - 1 - j]),
                    ));
                    j += 1;
                }
                assert(names_reversed(km).take(j as int) =~= names_reversed(km));
                Ok(())
            },
            Action::PushRegister(r) => {
                if (*r as usize) < regs.len() {
                    let v = regs[*r as usize].copy();
                    push_value(stack, v);
                    Ok(())
                } else {
                    Err(ScriptError::BadRegister)
                }
            },
            Action::StoreRegister(r) => {
                if n < 1 {
                    return Err(ScriptError::StackUnderflow);
                }
                if (*r as usize) < regs.len() {
                    let v = stack[n - 1].copy();
                    let ghost rs = regs@;
                    let ghost vm = v@;
                    regs.set(*r as usize, v);
                    assert(values_model(regs@) =~= values_model(rs).update(*r as int, vm));
                    Ok(())
                } else {
                    Err(ScriptError::BadRegister)
                }
            },
            Action::GotoLabel(name) => {
                if target < self.objs.len() {
                    assert(objs_model(self.objs@)[target as int] == self.objs@[target as int]@);
                    match find_label(movie, self.objs[target].character, name) {
                        Some(f) => self.goto_frame(movie, target, f),
                        None => {},
                    }
                }
                Ok(())
            },
            Action::GotoAndStop(f) => {
                self.goto_frame(movie, target, *f as usize);
                self.set_playing_exec(target, false);
                Ok(())
            },
            Action::GotoAndPlay(f) => {
                self.goto_frame(movie, target, *f as usize);
                self.set_playing_exec(target, true);
                Ok(())
            },
            Action::MouseX => {
                push_value(stack, Value::Num(Number::Int(self.input.mouse_x as i64)));
                Ok(())
            },
            Action::MouseY => {
                push_value(stack, Value::Num(Number::Int(self.input.mouse_y as i64)));
                Ok(())
            },
            Action::IsKeyDown(k) => {
                let mut down = false;
                let mut i: usize = 0;
                while i < self.input.keys_down.len()
                    invariant
                        i <= self.input.keys_down@.len(),
                        down == self.input.keys_down@.take(i as int).contains(*k),
                    decreases self.input.keys_down.len() - i,
                {
                    assert(self.input.keys_down@.take(i + 1) =~= self.input.keys_down@.take(i as int).push(
                        self.input.keys_down@[i as int],
                    ));
                    if self.input.keys_down[i] == *k {
                        down = true;
                        assert(self.input.keys_down@.take(i + 1)[i as int] == *k);
                    }
                    i += 1;
                }
                assert(self.input.keys_down@.take(i as int) =~= self.input.keys_down@);
                push_value(stack, Value::Bool(down));
                Ok(())
            },
            Action::StartSound(id) => {
                self.audio.push(AudioCommand::StartStream(*id));
                Ok(())
            },
            Action::StopSound(id) => {
                self.audio.push(AudioCommand::StopStream(*id));
                Ok(())
            },
            Action::SetVisible(v) => {
                if target < self.objs.len() {
                    let ghost before = objs_model(self.objs@);
                    let mut o = crate::stage::take_obj(&mut self.objs, target);
                    o.visible = *v;
                    crate::stage::put_obj(&mut self.objs, target, o, Ghost(before));
                }
                Ok(())
            },
            Action::Stop => {
                self.set_playing_exec(target, false);
                Ok(())
            },
            Action::Play => {
                self.set_playing_exec(target, true);
                Ok(())
            },
            Action::LoadVariables { url, callback, method } => {
                let load = self.loads.len();
                let req = self.make_request(target, load, url, *method);
                self.loads.push(PendingLoad { target, callback: *callback, live: true, resolved: false });
                let ghost rq = self.requests@;
                let ghost reqm = req@;
                self.requests.push(req);
                assert(self.requests@.map_values(|r: LoadRequest| r@) =~= rq.map_values(|r: LoadRequest| r@).push(reqm));
                Ok(())
            },
            Action::CallFunction { .. } | Action::Return | Action::SetTarget(_) => Ok(()),
        }
    }

    /// The request of a load, as `load_request` says.
    fn make_request(&self, target: usize, load: usize, url: &Vec<char>, method: SendVarsMethod) -> (r: LoadRequest)
        ensures
            r@ == load_request(self@, target as int, load, url@, method),
    {
        let vars = if target < self.objs.len() {
            assert(objs_model(self.objs@)[target as int] == self.objs@[target as int]@);
            self.store.variables(self.version, self.objs[target].vars)
        } else {
            let none: Vec<(Vec<char>, Vec<char>)> = Vec::new();
            assert(pairs_model(none@) =~= Seq::<(Seq<char>, Seq<char>)>::empty());
            none
        };
        let text = encode_variables(&vars);
        let mut full = crate::value::copy_chars(url);
        if method == SendVarsMethod::Get && text.len() > 0 {
            full.push('?');
            crate::value::append_chars(&mut full, &text);
        }
        let body = if method == SendVarsMethod::Post {
            Some(text)
        } else {
            None
        };
        let r = LoadRequest { load, url: full, method: NavigationMethod::from_send_vars_method(method), body };
        assert(r@.url =~= load_request(self@, target as int, load, url@, method).url);
        r
    }

    /// The script object of object `id` as a value, as `vars_value` says.
    fn vars_value_exec(&self, id: usize) -> (r: Value)
        ensures
            r@ == vars_value(self@, id as int),
    {
        if id < self.objs.len() {
            assert(objs_model(self.objs@)[id as int] == self.objs@[id as int]@);
            Value::Object(self.objs[id].vars)
        } else {
            Value::Undefined
        }
    }

    /// The script object of the parent of object `id` as a value, as `parent_value` says.
    fn parent_value_exec(&self, id: usize) -> (r: Value)
        ensures
            r@ == parent_value(self@, id as int),
    {
        if id < self.objs.len() {
            assert(objs_model(self.objs@)[id as int] == self.objs@[id as int]@);
            match self.objs[id].parent {
                Some(q) => self.vars_value_exec(q),
                None => Value::Undefined,
            }
        } else {
            Value::Undefined
        }
    }

    /// The register file of a new activation, as `activation_registers` says.
    fn activation_registers_exec(&self, target: usize, f: &Function, args: &Vec<Value>) -> (r: Vec<Value>)
        ensures
            values_model(r@) == activation_registers(self@, target as int, f, values_model(args@)),
    {
        let args_value = if self.store.len() < MAX_OBJECTS {
            Value::Object(self.store.len())
        } else {
            Value::Undefined
        };
        let this_v = self.vars_value_exec(target);
        let root_v = self.vars_value_exec(0);
        let parent_v = self.parent_value_exec(target);
        let mut vals = preload_exec(f.preload, this_v, args_value, root_v, parent_v);
        let ghost pre = values_model(vals@);
        let mut i: usize = 0;
        while i < args.len()
            invariant
                i <= args.len(),
                values_model(vals@) == pre + values_model(args@).take(i as int),
            decreases args.len() - i,
        {
            push_value(&mut vals, args[i].copy());
            assert(values_model(args@).take(i + 1) =~= values_model(args@).take(i as int).push(args@[i as int]@));
            i += 1;
        }
        assert(values_model(args@).take(i as int) =~= values_model(args@));
        fill_registers_exec(f.registers as usize, &vals)
    }

    /// Set up a new activation of `f`, as `activation` says.
    pub(crate) fn activate(&mut self, target: usize, f: &Function, args: Vec<Value>) -> (r: Vec<Value>)
        ensures
            final(self)@ == activation_stage(old(self)@, f, values_model(args@)),
            values_model(r@) == activation_registers(old(self)@, target as int, f, values_model(args@)),
    {
        let regs = self.activation_registers_exec(target, f, &args);
        if f.preload.arguments && self.store.len() < MAX_OBJECTS {
            let _ = self.store.create_array(None, args);
        }
        regs
    }

    /// The current target after redirecting to `name`, as `redirect` says.
    fn redirect_exec(&self, base: usize, name: &Vec<char>) -> (r: usize)
        ensures
            r as int == redirect(self@, base as int, name@),
    {
        if name.len() == 0 {
            return base;
        }
        if base >= self.objs.len() {
            return usize::MAX;
        }
        assert(objs_model(self.objs@)[base as int] == self.objs@[base as int]@);
        let ch = &self.objs[base].children;
        let mut i: usize = 0;
        while i < ch.len()
            invariant
                base < self.objs@.len(),
                name@.len() > 0,
                ch@ == self@.objs[base as int].children,
                i <= ch@.len(),
                named_from(self@, ch@, name@, 0) == named_from(self@, ch@, name@, i as int),
            decreases ch.len() - i,
        {
            let c = ch[i].1;
            if c < self.objs.len() {
                assert(objs_model(self.objs@)[c as int] == self.objs@[c as int]@);
                if crate::value::chars_eq(&self.objs[c].name, name) {
                    assert(self@.objs[c as int].name == name@);
                    assert(named_from(self@, ch@, name@, i as int) == Some(c));
                    return c;
                }
            }
            i += 1;
        }
        usize::MAX
    }

    /// Run `body` in an activation with registers `regs`, `depth` calls deep, as
    /// `run_body` says from its start with an empty stack.
    #[verifier::loop_isolation(false)]
    pub fn run_body(&mut self, movie: &Movie, target: usize, body: &Vec<Action>, regs: Vec<Value>, depth: usize) -> (r:
        Result<Value, ScriptError>)
        requires
            depth <= MAX_CALL_DEPTH,
        ensures
            ({
                let (m, res) = run_body(movie, old(self)@, target as int, target as int, body@, 0, seq![], values_model(regs@), depth as nat);
                &&& final(self)@ == m
                &&& r is Ok <==> res is Ok
                &&& r is Ok ==> r.unwrap()@ == res.unwrap()
                &&& r is Err ==> r == Err::<Value, ScriptError>(res->Err_0)
            }),
        decreases MAX_CALL_DEPTH - depth,
    {
        let base = target;
        let mut target = target;
        let mut stack: Vec<Value> = Vec::new();
        let ghost regs0 = values_model(regs@);
        let mut regs = regs;
        let mut pc: usize = 0;
        assert(values_model(stack@) =~= Seq::<ValueModel>::empty());
        while pc < body.len()
            invariant
                depth <= MAX_CALL_DEPTH,
                pc <= body.len(),
                run_body(movie, old(self)@, base as int, base as int, body@, 0, seq![], regs0, depth as nat) == run_body(
                    movie,
                    self@,
                    base as int,
                    target as int,
                    body@,
                    pc as int,
                    values_model(stack@),
                    values_model(regs@),
                    depth as nat,
                ),
            decreases body.len() - pc,
        {
            let n = stack.len();
            match &body[pc] {
                Action::Return => {
                    if n > 0 {
                        assert(values_model(stack@).last() == stack@[n - 1]@);
                        return Ok(stack[n - 1].copy());
                    }
                    return Ok(Value::Undefined);
                },
                Action::CallFunction { function, args } => {
                    let function = *function;
                    let args = *args;
                    if n < args {
                        return Err(ScriptError::StackUnderflow);
                    }
                    if function >= movie.functions.len() {
                        return Err(ScriptError::NotCallable);
                    }
                    if depth >= MAX_CALL_DEPTH {
                        return Err(ScriptError::StackOverflow);
                    }
                    let ghost s = values_model(stack@);
                    let argv = stack.split_off(n - args);
                    assert(values_model(argv@) =~= s.subrange(n - args, n as int));
                    assert(values_model(stack@) =~= s.take(n - args));
                    let f = &movie.functions[function];
                    let fregs = self.activate(target, f, argv);
                    let res = self.run_body(movie, target, &f.body, fregs, depth + 1);
                    match res {
                        Err(e) => {
                            return Err(e);
                        },
                        Ok(v) => {
                            push_value(&mut stack, v);
                        },
                    }
                },
                Action::SetTarget(name) => {
                    target = self.redirect_exec(base, name);
                },
                _ => {
                    let res = self.step(movie, target, &mut stack, &mut regs, &body[pc]);
                    match res {
                        Err(e) => {
                            return Err(e);
                        },
                        Ok(()) => {},
                    }
                },
            }
            pc += 1;
        }
        Ok(Value::Undefined)
    }

    /// Run an action list on `target` outside any function, as `run_actions` says.
    pub fn run_actions(&mut self, movie: &Movie, target: usize, acts: &Vec<Action>)
        ensures
            final(self)@ == run_actions(movie, old(self)@, target as int, acts@),
    {
        let mut regs: Vec<Value> = Vec::new();
        let mut k: usize = 0;
        while k < MAIN_REGISTERS
            invariant
                k <= MAIN_REGISTERS,
                values_model(regs@) =~= fill_registers(k as nat, seq![]),
            decreases MAIN_REGISTERS - k,
        {
            push_value(&mut regs, Value::Undefined);
            k += 1;
        }
        let _ = self.run_body(movie, target, acts, regs, 0);
    }
}

} // verus!
