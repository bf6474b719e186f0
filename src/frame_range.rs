//! The timeline invariant: every clip's current frame lies within its own
//! timeline (0 before its first frame), at every step of every tick.
use vstd::prelude::*;
use crate::movie::{Action, Movie, Tag, frame_tags, frame_count};
use crate::stage::{StageModel, DisplayModel, Job, place, remove, mark_removed, valid, find_depth, diagnose, Diagnostic};
use crate::timeline::{
    apply_tag, apply_tags_from, set_frame, enter_frame, remove_all_from, clear_children, frames_from, goto,
    advance, structural_pass, gotos_from, children_stack,
};
use crate::interp::{step, run_body, activation, set_playing, set_visible, MAX_CALL_DEPTH};
use crate::player::{run_job, run_jobs, tick, run_ticks, events_from, job_actions, job_target};
use crate::value::ValueModel;

verus! {

/// Every object's current frame is at most its character's frame count.
pub open spec fn frames_in_range(movie: &Movie, m: StageModel) -> bool {
    forall|p: int| 0 <= p < m.objs.len() ==> (#[trigger] m.objs[p]).current_frame <= frame_count(movie, m.objs[p].character as int)
}

proof fn lemma_same_frames(movie: &Movie, m: StageModel, r: StageModel)
    requires
        frames_in_range(movie, m),
        r.objs.len() >= m.objs.len(),
        forall|p: int| 0 <= p < m.objs.len() ==> #[trigger] r.objs[p].current_frame == m.objs[p].current_frame
            && r.objs[p].character == m.objs[p].character,
        forall|p: int| m.objs.len() <= p < r.objs.len() ==> #[trigger] r.objs[p].current_frame == 0,
    ensures
        frames_in_range(movie, r),
{
    assert forall|p: int| 0 <= p < r.objs.len() implies (#[trigger] r.objs[p]).current_frame <= frame_count(
        movie,
        r.objs[p].character as int,
    ) by {
        if p < m.objs.len() {
            assert(r.objs[p].current_frame == m.objs[p].current_frame);
        }
    }
}

proof fn lemma_place_frames(movie: &Movie, m: StageModel, parent: int, depth: i32, character: int, name: Seq<char>)
    requires
        frames_in_range(movie, m),
    ensures
        frames_in_range(movie, place(movie, m, parent, depth, character, name)),
{
    let r = place(movie, m, parent, depth, character, name);
    assert forall|p: int| 0 <= p < m.objs.len() implies #[trigger] r.objs[p].current_frame == m.objs[p].current_frame
        && r.objs[p].character == m.objs[p].character by {}
    lemma_same_frames(movie, m, r);
}

proof fn lemma_mark_removed_frames(movie: &Movie, m: StageModel, id: int)
    requires
        frames_in_range(movie, m),
    ensures
        frames_in_range(movie, mark_removed(m, id)),
{
    lemma_same_frames(movie, m, mark_removed(m, id));
}

proof fn lemma_remove_frames(movie: &Movie, m: StageModel, parent: int, depth: i32)
    requires
        frames_in_range(movie, m),
    ensures
        frames_in_range(movie, remove(m, parent, depth)),
{
    if valid(m, parent) {
        match find_depth(m.objs[parent].children, depth, 0) {
            Some(k) => {
                let p0 = m.objs[parent];
                let m1 = StageModel { objs: m.objs.update(parent, DisplayModel { children: p0.children.remove(k), ..p0 }), ..m };
                lemma_same_frames(movie, m, m1);
                lemma_mark_removed_frames(movie, m1, p0.children[k].1 as int);
            },
            None => lemma_same_frames(movie, m, remove(m, parent, depth)),
        }
    } else {
        lemma_same_frames(movie, m, remove(m, parent, depth));
    }
}

proof fn lemma_apply_tags(movie: &Movie, m: StageModel, owner: int, c: int, f: int, k: int, shown: bool)
    requires
        frames_in_range(movie, m),
    ensures
        frames_in_range(movie, apply_tags_from(movie, m, owner, c, f, k, shown)),
    decreases frame_tags(movie, c, f).len() - k,
{
    if 0 <= k < frame_tags(movie, c, f).len() {
        let tags = frame_tags(movie, c, f);
        match tags[k] {
            Tag::PlaceObject { depth, character, name } => lemma_place_frames(movie, m, owner, depth, character as int, name@),
            Tag::RemoveObject { depth } => lemma_remove_frames(movie, m, owner, depth),
            _ => {},
        }
        lemma_apply_tags(movie, apply_tag(movie, m, owner, c, f, k, shown), owner, c, f, k + 1, shown);
    }
}

proof fn lemma_enter_frame(movie: &Movie, m: StageModel, id: int, f: int, shown: bool)
    requires
        frames_in_range(movie, m),
        valid(m, id) ==> 0 <= f <= frame_count(movie, m.objs[id].character as int),
    ensures
        frames_in_range(movie, enter_frame(movie, m, id, f, shown)),
{
    if valid(m, id) {
        let m1 = set_frame(m, id, f);
        assert forall|p: int| 0 <= p < m1.objs.len() implies (#[trigger] m1.objs[p]).current_frame <= frame_count(
            movie,
            m1.objs[p].character as int,
        ) by {
            if p != id {
                assert(m1.objs[p] == m.objs[p]);
            }
        }
        lemma_apply_tags(movie, m1, id, m.objs[id].character as int, f, 0, shown);
    }
}

proof fn lemma_remove_all(movie: &Movie, m: StageModel, ch: Seq<(i32, usize)>, i: int)
    requires
        frames_in_range(movie, m),
    ensures
        frames_in_range(movie, remove_all_from(m, ch, i)),
    decreases ch.len() - i,
{
    if 0 <= i < ch.len() {
        lemma_mark_removed_frames(movie, m, ch[i].1 as int);
        lemma_remove_all(movie, mark_removed(m, ch[i].1 as int), ch, i + 1);
    }
}

proof fn lemma_clear_children(movie: &Movie, m: StageModel, id: int)
    requires
        frames_in_range(movie, m),
    ensures
        frames_in_range(movie, clear_children(m, id)),
{
    if valid(m, id) {
        let m1 = StageModel { objs: m.objs.update(id, DisplayModel { children: seq![], ..m.objs[id] }), ..m };
        lemma_same_frames(movie, m, m1);
        lemma_remove_all(movie, m1, m.objs[id].children, 0);
    }
}

proof fn lemma_frames_from(movie: &Movie, m: StageModel, id: int, from: int, to: int)
    requires
        frames_in_range(movie, m),
        from >= 1,
        valid(m, id) ==> to <= frame_count(movie, m.objs[id].character as int),
    ensures
        frames_in_range(movie, frames_from(movie, m, id, from, to)),
    decreases to - from + 1,
{
    if from <= to {
        lemma_enter_frame(movie, m, id, from, from == to);
        let m1 = enter_frame(movie, m, id, from, from == to);
        if valid(m, id) {
            crate::timeline::lemma_enter_frame_keeps(movie, m, id, from, from == to, id);
        }
        lemma_frames_from(movie, m1, id, from + 1, to);
    }
}

proof fn lemma_goto(movie: &Movie, m: StageModel, id: int, f: int)
    requires
        frames_in_range(movie, m),
    ensures
        frames_in_range(movie, goto(movie, m, id, f)),
{
    lemma_same_frames(movie, m, diagnose(m, Diagnostic::NoSuchObject(id as usize)));
    if valid(m, id) {
        let cur = m.objs[id].current_frame as int;
        lemma_same_frames(movie, m, diagnose(m, Diagnostic::NoSuchFrame { target: id as usize, frame: f as usize }));
        if 1 <= f <= frame_count(movie, m.objs[id].character as int) {
            lemma_frames_from(movie, m, id, cur + 1, f);
            lemma_clear_children(movie, m, id);
            crate::timeline::lemma_clear_children_keeps(m, id, id);
            lemma_frames_from(movie, clear_children(m, id), id, 1, f);
        }
    }
}

proof fn lemma_advance(movie: &Movie, m: StageModel, id: int)
    requires
        frames_in_range(movie, m),
    ensures
        frames_in_range(movie, advance(movie, m, id)),
{
    if valid(m, id) && !m.objs[id].removed {
        let o = m.objs[id];
        let n = frame_count(movie, o.character as int);
        if n > 0 {
            let m1 = StageModel {
                queue: m.queue.push(Job::Init { target: id as usize, character: o.character }),
                objs: m.objs.update(id, DisplayModel { init_pending: false, ..o }),
                ..m
            };
            lemma_same_frames(movie, m, m1);
            lemma_enter_frame(movie, m1, id, 1, true);
            lemma_enter_frame(movie, m, id, 1, true);
            if (o.current_frame as int) < n {
                lemma_enter_frame(movie, m, id, o.current_frame + 1, true);
            }
            lemma_clear_children(movie, m, id);
            crate::timeline::lemma_clear_children_keeps(m, id, id);
            lemma_enter_frame(movie, clear_children(m, id), id, 1, true);
        }
    }
}

proof fn lemma_structural_pass(movie: &Movie, m: StageModel, stack: Seq<usize>, fuel: nat)
    requires
        frames_in_range(movie, m),
    ensures
        frames_in_range(movie, structural_pass(movie, m, stack, fuel)),
    decreases fuel,
{
    if fuel > 0 && stack.len() > 0 {
        let id = stack.last() as int;
        let m1 = advance(movie, m, id);
        lemma_advance(movie, m, id);
        lemma_structural_pass(movie, m1, stack.drop_last() + children_stack(m1, id), (fuel - 1) as nat);
    }
}

proof fn lemma_gotos(movie: &Movie, m: StageModel, i: int, n: int)
    requires
        frames_in_range(movie, m),
    ensures
        frames_in_range(movie, gotos_from(movie, m, i, n)),
    decreases n - i,
{
    if i < n && i >= 0 {
        if valid(m, i) && m.objs[i].pending_goto is Some {
            let f = m.objs[i].pending_goto.unwrap();
            let m1 = StageModel { objs: m.objs.update(i, DisplayModel { pending_goto: None, ..m.objs[i] }), ..m };
            lemma_same_frames(movie, m, m1);
            lemma_goto(movie, m1, i, f as int);
            lemma_gotos(movie, goto(movie, m1, i, f as int), i + 1, n);
        } else {
            lemma_gotos(movie, m, i + 1, n);
        }
    }
}

proof fn lemma_step(movie: &Movie, m: StageModel, target: int, stack: Seq<ValueModel>, regs: Seq<ValueModel>, a: &Action)
    requires
        frames_in_range(movie, m),
    ensures
        step(movie, m, target, stack, regs, a) is Ok ==> frames_in_range(movie, step(movie, m, target, stack, regs, a).unwrap().0),
{
    match a {
        Action::GotoAndStop(f) => {
            lemma_goto(movie, m, target, *f as int);
            let g = goto(movie, m, target, *f as int);
            lemma_same_frames(movie, g, set_playing(g, target, false));
        },
        Action::GotoAndPlay(f) => {
            lemma_goto(movie, m, target, *f as int);
            let g = goto(movie, m, target, *f as int);
            lemma_same_frames(movie, g, set_playing(g, target, true));
        },
        Action::GotoLabel(name) => {
            if valid(m, target) {
                match crate::movie::label_frame(movie, m.objs[target].character as int, name@) {
                    Some(f) => lemma_goto(movie, m, target, f),
                    None => {},
                }
            }
        },
        Action::Stop => lemma_same_frames(movie, m, set_playing(m, target, false)),
        Action::Play => lemma_same_frames(movie, m, set_playing(m, target, true)),
        Action::SetVisible(v) => lemma_same_frames(movie, m, set_visible(m, target, *v)),
        _ => {
            if step(movie, m, target, stack, regs, a) is Ok {
                lemma_same_frames(movie, m, step(movie, m, target, stack, regs, a).unwrap().0);
            }
        },
    }
}

proof fn lemma_run_body(
    movie: &Movie,
    m: StageModel,
    base: int,
    target: int,
    body: Seq<Action>,
    pc: int,
    stack: Seq<ValueModel>,
    regs: Seq<ValueModel>,
    depth: nat,
)
    requires
        frames_in_range(movie, m),
    ensures
        frames_in_range(movie, run_body(movie, m, base, target, body, pc, stack, regs, depth).0),
    decreases MAX_CALL_DEPTH - depth, body.len() - pc,
{
    if depth <= MAX_CALL_DEPTH && 0 <= pc < body.len() {
        let n = stack.len();
        match body[pc] {
            Action::Return => {},
            Action::CallFunction { function, args } => {
                if n >= args && function < movie.functions@.len() && depth < MAX_CALL_DEPTH {
                    let f = &movie.functions@[function as int];
                    let act = activation(m, target, f, stack.subrange(n - args, n as int));
                    lemma_same_frames(movie, m, act.0);
                    lemma_run_body(movie, act.0, target, target, f.body@, 0, seq![], act.1, depth + 1);
                    let called = run_body(movie, act.0, target, target, f.body@, 0, seq![], act.1, depth + 1);
                    match called.1 {
                        Err(e) => {},
                        Ok(v) => {
                            lemma_run_body(movie, called.0, base, target, body, pc + 1, stack.take(n - args).push(v), regs, depth);
                        },
                    }
                }
            },
            Action::SetTarget(name) => {
                lemma_run_body(movie, m, base, crate::interp::redirect(m, base, name@), body, pc + 1, stack, regs, depth);
            },
            _ => {
                lemma_step(movie, m, target, stack, regs, &body[pc]);
                match step(movie, m, target, stack, regs, &body[pc]) {
                    Err(e) => {},
                    Ok((m1, s1, r1)) => {
                        lemma_run_body(movie, m1, base, target, body, pc + 1, s1, r1, depth);
                    },
                }
            },
        }
    }
}

proof fn lemma_run_job(movie: &Movie, m: StageModel, job: Job)
    requires
        frames_in_range(movie, m),
    ensures
        frames_in_range(movie, run_job(movie, m, job)),
{
    let t = job_target(job) as int;
    if !crate::stage::is_destroyed(m, t) {
        let m1 = match job {
            Job::Callback { success, .. } => {
                let obj = crate::interp::vars_of(m, t);
                StageModel {
                    store: crate::object::update_object(
                        m.store,
                        obj,
                        crate::object::assign(m.version, m.store[obj], crate::player::success_name(), ValueModel::Bool(success)),
                    ),
                    ..m
                }
            },
            _ => m,
        };
        lemma_same_frames(movie, m, m1);
        match job {
            Job::Event { function, .. } => {
                if 0 <= function < movie.functions@.len() {
                    let f = &movie.functions@[function as int];
                    let act = activation(m1, t, f, seq![]);
                    lemma_same_frames(movie, m1, act.0);
                    lemma_run_body(movie, act.0, t, t, f.body@, 0, seq![], act.1, 0);
                }
            },
            _ => match job_actions(movie, job) {
                Some(acts) => {
                    lemma_run_body(movie, m1, t, t, acts, 0, seq![], crate::interp::fill_registers(crate::interp::MAIN_REGISTERS as nat, seq![]), 0);
                },
                None => {},
            },
        }
    }
}

proof fn lemma_run_jobs(movie: &Movie, m: StageModel, i: int, fuel: nat)
    requires
        frames_in_range(movie, m),
    ensures
        frames_in_range(movie, run_jobs(movie, m, i, fuel)),
    decreases fuel,
{
    if fuel > 0 && 0 <= i < m.queue.len() {
        lemma_run_job(movie, m, m.queue[i]);
        lemma_run_jobs(movie, run_job(movie, m, m.queue[i]), i + 1, (fuel - 1) as nat);
    }
}

/// A tick keeps every clip's current frame within its timeline.
pub proof fn lemma_tick_keeps_frames_in_range(movie: &Movie, m: StageModel)
    requires
        frames_in_range(movie, m),
    ensures
        frames_in_range(movie, tick(movie, m)),
{
    if m.objs.len() > 0 {
        let m0 = StageModel { queue: m.next_tick, next_tick: seq![], input: m.input_latest, ..m };
        lemma_same_frames(movie, m, m0);
        lemma_gotos(movie, m0, 0, m0.objs.len() as int);
        let m1 = gotos_from(movie, m0, 0, m0.objs.len() as int);
        lemma_structural_pass(movie, m1, seq![0usize], crate::timeline::MAX_VISITS as nat);
        let m2 = structural_pass(movie, m1, seq![0usize], crate::timeline::MAX_VISITS as nat);
        lemma_run_jobs(movie, m2, 0, crate::player::MAX_JOBS as nat);
        let m3 = run_jobs(movie, m2, 0, crate::player::MAX_JOBS as nat);
        let m4 = StageModel { queue: m3.queue + events_from(m3, 0, m3.objs.len() as int), ..m3 };
        lemma_same_frames(movie, m3, m4);
        lemma_run_jobs(movie, m4, m3.queue.len() as int, crate::player::MAX_JOBS as nat);
        let m5 = run_jobs(movie, m4, m3.queue.len() as int, crate::player::MAX_JOBS as nat);
        lemma_same_frames(movie, m5, StageModel { queue: seq![], ..m5 });
    }
}

/// Every clip's current frame lies within its timeline at the start and after
/// every tick.
pub proof fn lemma_frames_in_range_always(movie: &Movie, version: u8, n: nat)
    ensures
        frames_in_range(movie, run_ticks(movie, crate::stage::initial_stage(version), n)),
    decreases n,
{
    if n == 0 {
        assert(frames_in_range(movie, crate::stage::initial_stage(version)));
    } else {
        lemma_frames_in_range_always(movie, version, (n - 1) as nat);
        lemma_tick_keeps_frames_in_range(movie, run_ticks(movie, crate::stage::initial_stage(version), (n - 1) as nat));
    }
}

} // verus!
