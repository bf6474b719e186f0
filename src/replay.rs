//! Replay laws: the trace only grows, so a replay of fewer ticks gives a prefix
//! of the trace of a longer one.
use vstd::prelude::*;
use crate::movie::{Action, Movie, frame_tags};
use crate::stage::{StageModel, Job, mark_removed, valid};
use crate::timeline::{
    apply_tag, apply_tags_from, set_frame, enter_frame, remove_all_from, clear_children, frames_from, goto,
    advance, structural_pass, gotos_from, children_stack,
};
use crate::interp::{step, run_body, activation, MAX_CALL_DEPTH};
use crate::player::{run_job, run_jobs, tick, run_ticks, events_from, job_actions, job_target};

verus! {

/// `r`'s trace starts with `m`'s.
pub open spec fn trace_extends(m: StageModel, r: StageModel) -> bool {
    r.trace.len() >= m.trace.len() && r.trace.take(m.trace.len() as int) == m.trace
}

proof fn lemma_extends_refl(m: StageModel)
    ensures
        trace_extends(m, m),
{
    assert(m.trace.take(m.trace.len() as int) =~= m.trace);
}

proof fn lemma_extends_trans(a: StageModel, b: StageModel, c: StageModel)
    requires
        trace_extends(a, b),
        trace_extends(b, c),
    ensures
        trace_extends(a, c),
{
    assert(c.trace.take(a.trace.len() as int) =~= c.trace.take(b.trace.len() as int).take(a.trace.len() as int));
}

proof fn lemma_apply_tags(movie: &Movie, m: StageModel, owner: int, c: int, f: int, k: int, shown: bool)
    ensures
        apply_tags_from(movie, m, owner, c, f, k, shown).trace == m.trace,
    decreases frame_tags(movie, c, f).len() - k,
{
    if 0 <= k < frame_tags(movie, c, f).len() {
        lemma_apply_tags(movie, apply_tag(movie, m, owner, c, f, k, shown), owner, c, f, k + 1, shown);
    }
}

proof fn lemma_enter_frame(movie: &Movie, m: StageModel, id: int, f: int, shown: bool)
    ensures
        enter_frame(movie, m, id, f, shown).trace == m.trace,
{
    if valid(m, id) {
        lemma_apply_tags(movie, set_frame(m, id, f), id, m.objs[id].character as int, f, 0, shown);
    }
}

proof fn lemma_remove_all(m: StageModel, ch: Seq<(i32, usize)>, i: int)
    ensures
        remove_all_from(m, ch, i).trace == m.trace,
    decreases ch.len() - i,
{
    if 0 <= i < ch.len() {
        lemma_remove_all(mark_removed(m, ch[i].1 as int), ch, i + 1);
    }
}

proof fn lemma_clear_children(m: StageModel, id: int)
    ensures
        clear_children(m, id).trace == m.trace,
{
    if valid(m, id) {
        let m1 = StageModel {
            objs: m.objs.update(id, crate::stage::DisplayModel { children: seq![], ..m.objs[id] }),
            ..m
        };
        lemma_remove_all(m1, m.objs[id].children, 0);
    }
}

proof fn lemma_frames_from(movie: &Movie, m: StageModel, id: int, from: int, to: int)
    ensures
        frames_from(movie, m, id, from, to).trace == m.trace,
    decreases to - from + 1,
{
    if from <= to {
        lemma_enter_frame(movie, m, id, from, from == to);
        lemma_frames_from(movie, enter_frame(movie, m, id, from, from == to), id, from + 1, to);
    }
}

proof fn lemma_goto(movie: &Movie, m: StageModel, id: int, f: int)
    ensures
        goto(movie, m, id, f).trace == m.trace,
{
    if valid(m, id) {
        let cur = m.objs[id].current_frame as int;
        lemma_frames_from(movie, m, id, cur + 1, f);
        lemma_clear_children(m, id);
        lemma_frames_from(movie, clear_children(m, id), id, 1, f);
    }
}

proof fn lemma_advance(movie: &Movie, m: StageModel, id: int)
    ensures
        advance(movie, m, id).trace == m.trace,
{
    if valid(m, id) && !m.objs[id].removed {
        let o = m.objs[id];
        let m1 = StageModel {
            queue: m.queue.push(Job::Init { target: id as usize, character: o.character }),
            objs: m.objs.update(id, crate::stage::DisplayModel { init_pending: false, ..o }),
            ..m
        };
        lemma_enter_frame(movie, m1, id, 1, true);
        lemma_enter_frame(movie, m, id, 1, true);
        lemma_enter_frame(movie, m, id, o.current_frame + 1, true);
        lemma_clear_children(m, id);
        lemma_enter_frame(movie, clear_children(m, id), id, 1, true);
    }
}

proof fn lemma_structural_pass(movie: &Movie, m: StageModel, stack: Seq<usize>, fuel: nat)
    ensures
        structural_pass(movie, m, stack, fuel).trace == m.trace,
    decreases fuel,
{
    if fuel > 0 && stack.len() > 0 {
        let id = stack.last() as int;
        let m1 = advance(movie, m, id);
        lemma_advance(movie, m, id);
        lemma_structural_pass(movie, m1, stack.drop_last() + children_stack(m1, id), (fuel - 1) as nat);
    }
}

proof fn lemma_gotos(movie: &Movie, m: StageModel, i: int, n: int)
    ensures
        gotos_from(movie, m, i, n).trace == m.trace,
    decreases n - i,
{
    if i < n && i >= 0 {
        if valid(m, i) && m.objs[i].pending_goto is Some {
            let f = m.objs[i].pending_goto.unwrap();
            let m1 = StageModel {
                objs: m.objs.update(i, crate::stage::DisplayModel { pending_goto: None, ..m.objs[i] }),
                ..m
            };
            lemma_goto(movie, m1, i, f as int);
            lemma_gotos(movie, goto(movie, m1, i, f as int), i + 1, n);
        } else {
            lemma_gotos(movie, m, i + 1, n);
        }
    }
}

proof fn lemma_step(movie: &Movie, m: StageModel, target: int, stack: Seq<crate::value::ValueModel>, regs: Seq<crate::value::ValueModel>, a: &Action)
    ensures
        step(movie, m, target, stack, regs, a) is Ok ==> trace_extends(m, step(movie, m, target, stack, regs, a).unwrap().0),
{
    lemma_extends_refl(m);
    match a {
        Action::Trace => {
            if stack.len() >= 1 {
                let r = step(movie, m, target, stack, regs, a).unwrap().0;
                assert(r.trace.take(m.trace.len() as int) =~= m.trace);
            }
        },
        Action::GotoAndStop(f) => {
            lemma_goto(movie, m, target, *f as int);
        },
        Action::GotoAndPlay(f) => {
            lemma_goto(movie, m, target, *f as int);
        },
        Action::GotoLabel(name) => {
            if valid(m, target) {
                match crate::movie::label_frame(movie, m.objs[target].character as int, name@) {
                    Some(f) => lemma_goto(movie, m, target, f),
                    None => {},
                }
            }
        },
        _ => {},
    }
}

proof fn lemma_run_body(
    movie: &Movie,
    m: StageModel,
    base: int,
    target: int,
    body: Seq<Action>,
    pc: int,
    stack: Seq<crate::value::ValueModel>,
    regs: Seq<crate::value::ValueModel>,
    depth: nat,
)
    ensures
        trace_extends(m, run_body(movie, m, base, target, body, pc, stack, regs, depth).0),
    decreases MAX_CALL_DEPTH - depth, body.len() - pc,
{
    lemma_extends_refl(m);
    if depth <= MAX_CALL_DEPTH && 0 <= pc < body.len() {
        let n = stack.len();
        match body[pc] {
            Action::Return => {},
            Action::CallFunction { function, args } => {
                if n >= args && function < movie.functions@.len() && depth < MAX_CALL_DEPTH {
                    let f = &movie.functions@[function as int];
                    let act = activation(m, target, f, stack.subrange(n - args, n as int));
                    assert(act.0.trace == m.trace);
                    lemma_extends_refl(act.0);
                    lemma_run_body(movie, act.0, target, target, f.body@, 0, seq![], act.1, depth + 1);
                    let called = run_body(movie, act.0, target, target, f.body@, 0, seq![], act.1, depth + 1);
                    lemma_extends_trans(m, act.0, called.0);
                    match called.1 {
                        Err(e) => {},
                        Ok(v) => {
                            lemma_run_body(movie, called.0, base, target, body, pc + 1, stack.take(n - args).push(v), regs, depth);
                            lemma_extends_trans(
                                m,
                                called.0,
                                run_body(movie, called.0, base, target, body, pc + 1, stack.take(n - args).push(v), regs, depth).0,
                            );
                        },
                    }
                }
            },
            Action::SetTarget(name) => {
                lemma_run_body(movie, m, base, crate::interp::redirect(m, base, name@), body, pc + 1, stack, regs, depth);
            },
            _ => {
                lemma_step(movie, m, target, stack, regs, &body[pc]);
                match step(movie, m, target, stack, regs, &body[pc]) {
                    Err(e) => {},
                    Ok((m1, s1, r1)) => {
                        lemma_run_body(movie, m1, base, target, body, pc + 1, s1, r1, depth);
                        lemma_extends_trans(m, m1, run_body(movie, m1, base, target, body, pc + 1, s1, r1, depth).0);
                    },
                }
            },
        }
    }
}

proof fn lemma_run_job(movie: &Movie, m: StageModel, job: Job)
    ensures
        trace_extends(m, run_job(movie, m, job)),
{
    lemma_extends_refl(m);
    let t = job_target(job) as int;
    if !crate::stage::is_destroyed(m, t) {
        let m1 = match job {
            Job::Callback { success, .. } => {
                let obj = crate::interp::vars_of(m, t);
                StageModel {
                    store: crate::object::update_object(
                        m.store,
                        obj,
                        crate::object::assign(m.version, m.store[obj], crate::player::success_name(), crate::value::ValueModel::Bool(success)),
                    ),
                    ..m
                }
            },
            _ => m,
        };
        assert(m1.trace == m.trace);
        match job {
            Job::Event { function, .. } => {
                if 0 <= function < movie.functions@.len() {
                    let f = &movie.functions@[function as int];
                    let act = activation(m1, t, f, seq![]);
                    lemma_run_body(movie, act.0, t, t, f.body@, 0, seq![], act.1, 0);
                }
            },
            _ => match job_actions(movie, job) {
                Some(acts) => {
                    lemma_run_body(movie, m1, t, t, acts, 0, seq![], crate::interp::fill_registers(crate::interp::MAIN_REGISTERS as nat, seq![]), 0);
                },
                None => {},
            },
        }
    }
}

proof fn lemma_run_jobs(movie: &Movie, m: StageModel, i: int, fuel: nat)
    ensures
        trace_extends(m, run_jobs(movie, m, i, fuel)),
    decreases fuel,
{
    lemma_extends_refl(m);
    if fuel > 0 && 0 <= i < m.queue.len() {
        let m1 = run_job(movie, m, m.queue[i]);
        lemma_run_job(movie, m, m.queue[i]);
        lemma_run_jobs(movie, m1, i + 1, (fuel - 1) as nat);
        lemma_extends_trans(m, m1, run_jobs(movie, m1, i + 1, (fuel - 1) as nat));
    }
}

proof fn lemma_tick(movie: &Movie, m: StageModel)
    ensures
        trace_extends(m, tick(movie, m)),
{
    lemma_extends_refl(m);
    if m.objs.len() > 0 {
        let m0 = StageModel { queue: m.next_tick, next_tick: seq![], input: m.input_latest, ..m };
        let m1 = gotos_from(movie, m0, 0, m0.objs.len() as int);
        lemma_gotos(movie, m0, 0, m0.objs.len() as int);
        let m2 = structural_pass(movie, m1, seq![0usize], crate::timeline::MAX_VISITS as nat);
        lemma_structural_pass(movie, m1, seq![0usize], crate::timeline::MAX_VISITS as nat);
        let m3 = run_jobs(movie, m2, 0, crate::player::MAX_JOBS as nat);
        lemma_run_jobs(movie, m2, 0, crate::player::MAX_JOBS as nat);
        let m4 = StageModel { queue: m3.queue + events_from(m3, 0, m3.objs.len() as int), ..m3 };
        let m5 = run_jobs(movie, m4, m3.queue.len() as int, crate::player::MAX_JOBS as nat);
        lemma_run_jobs(movie, m4, m3.queue.len() as int, crate::player::MAX_JOBS as nat);
        lemma_extends_refl(m2);
        lemma_extends_trans(m, m2, m3);
        lemma_extends_trans(m, m4, m5);
    }
}

/// Replaying a movie from the same stage for the same number of ticks yields an
/// identical trace and an identical display list: a tick depends on nothing but
/// the movie and the stage.
pub proof fn lemma_replay_identical(movie: &Movie, a: StageModel, b: StageModel, n: nat)
    requires
        a == b,
    ensures
        run_ticks(movie, a, n).trace == run_ticks(movie, b, n).trace,
        run_ticks(movie, a, n).objs == run_ticks(movie, b, n).objs,
{
}

/// Replaying a movie from the same stage for `k` ticks yields a prefix of the
/// trace of replaying it for `n >= k` ticks: the trace log only grows.
pub proof fn lemma_replay_prefix(movie: &Movie, m: StageModel, k: nat, n: nat)
    requires
        k <= n,
    ensures
        trace_extends(run_ticks(movie, m, k), run_ticks(movie, m, n)),
    decreases n - k,
{
    if k == n {
        lemma_extends_refl(run_ticks(movie, m, n));
    } else {
        lemma_replay_prefix(movie, m, k, (n - 1) as nat);
        lemma_tick(movie, run_ticks(movie, m, (n - 1) as nat));
        lemma_extends_trans(run_ticks(movie, m, k), run_ticks(movie, m, (n - 1) as nat), run_ticks(movie, m, n));
    }
}

} // verus!
