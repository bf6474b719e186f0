//! The display list's invariant: sibling depths are unique, at every step of
//! every tick.
use vstd::prelude::*;
use crate::movie::{Action, Movie, Tag, frame_tags};
use crate::stage::{
    StageModel, DisplayModel, Job, place, remove, mark_removed, valid, find_depth, insert_pos, attach, detach,
    diagnose, Diagnostic,
};
use crate::timeline::{
    apply_tag, apply_tags_from, set_frame, enter_frame, remove_all_from, clear_children, frames_from, goto,
    advance, structural_pass, gotos_from, children_stack,
};
use crate::interp::{step, run_body, activation, set_playing, set_visible, MAX_CALL_DEPTH};
use crate::player::{run_job, run_jobs, tick, run_ticks, events_from, job_actions, job_target};
use crate::value::ValueModel;

verus! {

/// No two children share a depth.
pub open spec fn unique_depths(ch: Seq<(i32, usize)>) -> bool {
    forall|i: int, j: int| 0 <= i < j < ch.len() ==> ch[i].0 != ch[j].0
}

/// Every object's children have distinct depths.
pub open spec fn depths_unique(m: StageModel) -> bool {
    forall|p: int| 0 <= p < m.objs.len() ==> unique_depths(#[trigger] m.objs[p].children)
}

proof fn lemma_find_none(ch: Seq<(i32, usize)>, d: i32, i: int)
    requires
        0 <= i,
        find_depth(ch, d, i) is None,
    ensures
        forall|k: int| i <= k < ch.len() ==> ch[k].0 != d,
    decreases ch.len() - i,
{
    if i < ch.len() {
        lemma_find_none(ch, d, i + 1);
    }
}

proof fn lemma_insert_pos_bound(ch: Seq<(i32, usize)>, d: i32, i: int)
    requires
        0 <= i <= ch.len(),
    ensures
        0 <= insert_pos(ch, d, i) <= ch.len(),
    decreases ch.len() - i,
{
    if i < ch.len() && ch[i].0 <= d {
        lemma_insert_pos_bound(ch, d, i + 1);
    }
}

proof fn lemma_insert_unique(ch: Seq<(i32, usize)>, k: int, e: (i32, usize))
    requires
        unique_depths(ch),
        0 <= k <= ch.len(),
        forall|x: int| 0 <= x < ch.len() ==> ch[x].0 != e.0,
    ensures
        unique_depths(ch.insert(k, e)),
{
    ch.insert_ensures(k, e);
    let r = ch.insert(k, e);
    assert forall|i: int, j: int| 0 <= i < j < r.len() implies r[i].0 != r[j].0 by {
        if j < k {
            assert(r[i] == ch[i] && r[j] == ch[j]);
        } else if j == k {
            assert(r[i] == ch[i]);
        } else if i < k {
            assert(r[i] == ch[i] && r[j] == ch[j - 1]);
        } else if i == k {
            assert(r[j] == ch[j - 1]);
        } else {
            assert(r[i] == ch[i - 1] && r[j] == ch[j - 1]);
        }
    }
}

proof fn lemma_remove_unique(ch: Seq<(i32, usize)>, k: int)
    requires
        unique_depths(ch),
        0 <= k < ch.len(),
    ensures
        unique_depths(ch.remove(k)),
{
    ch.remove_ensures(k);
    let r = ch.remove(k);
    assert forall|i: int, j: int| 0 <= i < j < r.len() implies r[i].0 != r[j].0 by {
        if j < k {
            assert(r[i] == ch[i] && r[j] == ch[j]);
        } else if i < k {
            assert(r[i] == ch[i] && r[j] == ch[j + 1]);
        } else {
            assert(r[i] == ch[i + 1] && r[j] == ch[j + 1]);
        }
    }
}

proof fn lemma_find_bound(ch: Seq<(i32, usize)>, d: i32, i: int)
    requires
        0 <= i,
    ensures
        find_depth(ch, d, i) is Some ==> i <= find_depth(ch, d, i).unwrap() < ch.len(),
    decreases ch.len() - i,
{
    if i < ch.len() && ch[i].0 != d {
        lemma_find_bound(ch, d, i + 1);
    }
}

/// Placing keeps sibling depths unique: a placement at a taken depth is skipped.
pub proof fn lemma_place_unique(movie: &Movie, m: StageModel, parent: int, depth: i32, character: int, name: Seq<char>)
    requires
        depths_unique(m),
    ensures
        depths_unique(place(movie, m, parent, depth, character, name)),
{
    if valid(m, parent) && find_depth(m.objs[parent].children, depth, 0) is None && 0 <= character
        < movie.characters@.len() && m.objs.len() < crate::stage::MAX_OBJECTS && m.store.len()
        < crate::stage::MAX_OBJECTS {
        let ch = m.objs[parent].children;
        lemma_find_none(ch, depth, 0);
        let k = insert_pos(ch, depth, 0);
        lemma_insert_pos_bound(ch, depth, 0);
        lemma_insert_unique(ch, k, (depth, m.objs.len() as usize));
        let r = place(movie, m, parent, depth, character, name);
        assert forall|p: int| 0 <= p < r.objs.len() implies unique_depths(#[trigger] r.objs[p].children) by {
            if p < m.objs.len() && p != parent {
                assert(r.objs[p] == m.objs[p]);
            }
        }
    }
}

proof fn lemma_mark_removed_unique(m: StageModel, id: int)
    requires
        depths_unique(m),
    ensures
        depths_unique(mark_removed(m, id)),
{
    let r = mark_removed(m, id);
    assert forall|p: int| 0 <= p < r.objs.len() implies unique_depths(#[trigger] r.objs[p].children) by {
        assert(r.objs[p].children == m.objs[p].children);
    }
}

/// Removing keeps sibling depths unique.
pub proof fn lemma_remove_unique_depths(m: StageModel, parent: int, depth: i32)
    requires
        depths_unique(m),
    ensures
        depths_unique(remove(m, parent, depth)),
{
    if valid(m, parent) {
        let ch = m.objs[parent].children;
        lemma_find_bound(ch, depth, 0);
        match find_depth(ch, depth, 0) {
            Some(k) => {
                lemma_remove_unique(ch, k);
                let p0 = m.objs[parent];
                let m1 = StageModel { objs: m.objs.update(parent, DisplayModel { children: ch.remove(k), ..p0 }), ..m };
                assert forall|p: int| 0 <= p < m1.objs.len() implies unique_depths(#[trigger] m1.objs[p].children) by {
                    if p != parent {
                        assert(m1.objs[p] == m.objs[p]);
                    }
                }
                lemma_mark_removed_unique(m1, ch[k].1 as int);
            },
            None => {},
        }
    }
}

/// Detaching and attaching keep sibling depths unique.
pub proof fn lemma_detach_attach_unique(m: StageModel, id: int, parent: int, depth: i32)
    requires
        depths_unique(m),
    ensures
        depths_unique(detach(m, id)),
        depths_unique(attach(m, id, parent, depth)),
{
    if valid(m, id) && m.objs[id].parent is Some {
        let p = m.objs[id].parent.unwrap() as int;
        if valid(m, p) {
            let ch = m.objs[p].children;
            lemma_find_bound(ch, m.objs[id].depth, 0);
            match find_depth(ch, m.objs[id].depth, 0) {
                Some(k) => {
                    if ch[k].1 == id && p != id {
                        lemma_remove_unique(ch, k);
                        let r = detach(m, id);
                        assert forall|q: int| 0 <= q < r.objs.len() implies unique_depths(#[trigger] r.objs[q].children) by {
                            if q != p && q != id {
                                assert(r.objs[q] == m.objs[q]);
                            }
                        }
                    }
                },
                None => {},
            }
        }
    }
    if valid(m, id) && valid(m, parent) && id != parent && m.objs[id].parent is None && !m.objs[id].removed
        && find_depth(m.objs[parent].children, depth, 0) is None {
        let ch = m.objs[parent].children;
        lemma_find_none(ch, depth, 0);
        lemma_insert_pos_bound(ch, depth, 0);
        lemma_insert_unique(ch, insert_pos(ch, depth, 0), (depth, id as usize));
        let r = attach(m, id, parent, depth);
        assert forall|q: int| 0 <= q < r.objs.len() implies unique_depths(#[trigger] r.objs[q].children) by {
            if q != parent && q != id {
                assert(r.objs[q] == m.objs[q]);
            }
        }
    }
}

proof fn lemma_same_children(m: StageModel, r: StageModel)
    requires
        depths_unique(m),
        r.objs.len() == m.objs.len(),
        forall|p: int| 0 <= p < m.objs.len() ==> #[trigger] r.objs[p].children == m.objs[p].children,
    ensures
        depths_unique(r),
{
    assert forall|p: int| 0 <= p < r.objs.len() implies unique_depths(#[trigger] r.objs[p].children) by {
        assert(r.objs[p].children == m.objs[p].children);
    }
}

proof fn lemma_apply_tags(movie: &Movie, m: StageModel, owner: int, c: int, f: int, k: int, shown: bool)
    requires
        depths_unique(m),
    ensures
        depths_unique(apply_tags_from(movie, m, owner, c, f, k, shown)),
    decreases frame_tags(movie, c, f).len() - k,
{
    if 0 <= k < frame_tags(movie, c, f).len() {
        let tags = frame_tags(movie, c, f);
        match tags[k] {
            Tag::PlaceObject { depth, character, name } => lemma_place_unique(movie, m, owner, depth, character as int, name@),
            Tag::RemoveObject { depth } => lemma_remove_unique_depths(m, owner, depth),
            _ => {},
        }
        lemma_apply_tags(movie, apply_tag(movie, m, owner, c, f, k, shown), owner, c, f, k + 1, shown);
    }
}

proof fn lemma_enter_frame(movie: &Movie, m: StageModel, id: int, f: int, shown: bool)
    requires
        depths_unique(m),
    ensures
        depths_unique(enter_frame(movie, m, id, f, shown)),
{
    if valid(m, id) {
        lemma_same_children(m, set_frame(m, id, f));
        lemma_apply_tags(movie, set_frame(m, id, f), id, m.objs[id].character as int, f, 0, shown);
    }
}

proof fn lemma_remove_all(m: StageModel, ch: Seq<(i32, usize)>, i: int)
    requires
        depths_unique(m),
    ensures
        depths_unique(remove_all_from(m, ch, i)),
    decreases ch.len() - i,
{
    if 0 <= i < ch.len() {
        lemma_mark_removed_unique(m, ch[i].1 as int);
        lemma_remove_all(mark_removed(m, ch[i].1 as int), ch, i + 1);
    }
}

proof fn lemma_clear_children(m: StageModel, id: int)
    requires
        depths_unique(m),
    ensures
        depths_unique(clear_children(m, id)),
{
    if valid(m, id) {
        let m1 = StageModel { objs: m.objs.update(id, DisplayModel { children: seq![], ..m.objs[id] }), ..m };
        assert forall|p: int| 0 <= p < m1.objs.len() implies unique_depths(#[trigger] m1.objs[p].children) by {
            if p != id {
                assert(m1.objs[p] == m.objs[p]);
            }
        }
        lemma_remove_all(m1, m.objs[id].children, 0);
    }
}

proof fn lemma_frames_from(movie: &Movie, m: StageModel, id: int, from: int, to: int)
    requires
        depths_unique(m),
    ensures
        depths_unique(frames_from(movie, m, id, from, to)),
    decreases to - from + 1,
{
    if from <= to {
        lemma_enter_frame(movie, m, id, from, from == to);
        lemma_frames_from(movie, enter_frame(movie, m, id, from, from == to), id, from + 1, to);
    }
}

proof fn lemma_goto(movie: &Movie, m: StageModel, id: int, f: int)
    requires
        depths_unique(m),
    ensures
        depths_unique(goto(movie, m, id, f)),
{
    lemma_same_children(m, diagnose(m, Diagnostic::NoSuchObject(id as usize)));
    if valid(m, id) {
        let cur = m.objs[id].current_frame as int;
        lemma_same_children(m, diagnose(m, Diagnostic::NoSuchFrame { target: id as usize, frame: f as usize }));
        lemma_frames_from(movie, m, id, cur + 1, f);
        lemma_clear_children(m, id);
        lemma_frames_from(movie, clear_children(m, id), id, 1, f);
    }
}

proof fn lemma_advance(movie: &Movie, m: StageModel, id: int)
    requires
        depths_unique(m),
    ensures
        depths_unique(advance(movie, m, id)),
{
    if valid(m, id) && !m.objs[id].removed {
        let o = m.objs[id];
        let m1 = StageModel {
            queue: m.queue.push(Job::Init { target: id as usize, character: o.character }),
            objs: m.objs.update(id, DisplayModel { init_pending: false, ..o }),
            ..m
        };
        lemma_same_children(m, m1);
        lemma_enter_frame(movie, m1, id, 1, true);
        lemma_enter_frame(movie, m, id, 1, true);
        lemma_enter_frame(movie, m, id, o.current_frame + 1, true);
        lemma_clear_children(m, id);
        lemma_enter_frame(movie, clear_children(m, id), id, 1, true);
    }
}

proof fn lemma_structural_pass(movie: &Movie, m: StageModel, stack: Seq<usize>, fuel: nat)
    requires
        depths_unique(m),
    ensures
        depths_unique(structural_pass(movie, m, stack, fuel)),
    decreases fuel,
{
    if fuel > 0 && stack.len() > 0 {
        let id = stack.last() as int;
        let m1 = advance(movie, m, id);
        lemma_advance(movie, m, id);
        lemma_structural_pass(movie, m1, stack.drop_last() + children_stack(m1, id), (fuel - 1) as nat);
    }
}

proof fn lemma_gotos(movie: &Movie, m: StageModel, i: int, n: int)
    requires
        depths_unique(m),
    ensures
        depths_unique(gotos_from(movie, m, i, n)),
    decreases n - i,
{
    if i < n && i >= 0 {
        if valid(m, i) && m.objs[i].pending_goto is Some {
            let f = m.objs[i].pending_goto.unwrap();
            let m1 = StageModel { objs: m.objs.update(i, DisplayModel { pending_goto: None, ..m.objs[i] }), ..m };
            lemma_same_children(m, m1);
            lemma_goto(movie, m1, i, f as int);
            lemma_gotos(movie, goto(movie, m1, i, f as int), i + 1, n);
        } else {
            lemma_gotos(movie, m, i + 1, n);
        }
    }
}

proof fn lemma_step(movie: &Movie, m: StageModel, target: int, stack: Seq<ValueModel>, regs: Seq<ValueModel>, a: &Action)
    requires
        depths_unique(m),
    ensures
        step(movie, m, target, stack, regs, a) is Ok ==> depths_unique(step(movie, m, target, stack, regs, a).unwrap().0),
{
    match a {
        Action::GotoAndStop(f) => {
            lemma_goto(movie, m, target, *f as int);
            let g = goto(movie, m, target, *f as int);
            lemma_same_children(g, set_playing(g, target, false));
        },
        Action::GotoAndPlay(f) => {
            lemma_goto(movie, m, target, *f as int);
            let g = goto(movie, m, target, *f as int);
            lemma_same_children(g, set_playing(g, target, true));
        },
        Action::GotoLabel(name) => {
            if valid(m, target) {
                match crate::movie::label_frame(movie, m.objs[target].character as int, name@) {
                    Some(f) => lemma_goto(movie, m, target, f),
                    None => {},
                }
            }
        },
        Action::Stop => lemma_same_children(m, set_playing(m, target, false)),
        Action::Play => lemma_same_children(m, set_playing(m, target, true)),
        Action::SetVisible(v) => lemma_same_children(m, set_visible(m, target, *v)),
        _ => {
            if step(movie, m, target, stack, regs, a) is Ok {
                lemma_same_children(m, step(movie, m, target, stack, regs, a).unwrap().0);
            }
        },
    }
}

proof fn lemma_run_body(
    movie: &Movie,
    m: StageModel,
    base: int,
    target: int,
    body: Seq<Action>,
    pc: int,
    stack: Seq<ValueModel>,
    regs: Seq<ValueModel>,
    depth: nat,
)
    requires
        depths_unique(m),
    ensures
        depths_unique(run_body(movie, m, base, target, body, pc, stack, regs, depth).0),
    decreases MAX_CALL_DEPTH - depth, body.len() - pc,
{
    if depth <= MAX_CALL_DEPTH && 0 <= pc < body.len() {
        let n = stack.len();
        match body[pc] {
            Action::Return => {},
            Action::CallFunction { function, args } => {
                if n >= args && function < movie.functions@.len() && depth < MAX_CALL_DEPTH {
                    let f = &movie.functions@[function as int];
                    let act = activation(m, target, f, stack.subrange(n - args, n as int));
                    lemma_same_children(m, act.0);
                    lemma_run_body(movie, act.0, target, target, f.body@, 0, seq![], act.1, depth + 1);
                    let called = run_body(movie, act.0, target, target, f.body@, 0, seq![], act.1, depth + 1);
                    match called.1 {
                        Err(e) => {},
                        Ok(v) => {
                            lemma_run_body(movie, called.0, base, target, body, pc + 1, stack.take(n - args).push(v), regs, depth);
                        },
                    }
                }
            },
            Action::SetTarget(name) => {
                lemma_run_body(movie, m, base, crate::interp::redirect(m, base, name@), body, pc + 1, stack, regs, depth);
            },
            _ => {
                lemma_step(movie, m, target, stack, regs, &body[pc]);
                match step(movie, m, target, stack, regs, &body[pc]) {
                    Err(e) => {},
                    Ok((m1, s1, r1)) => {
                        lemma_run_body(movie, m1, base, target, body, pc + 1, s1, r1, depth);
                    },
                }
            },
        }
    }
}

proof fn lemma_run_job(movie: &Movie, m: StageModel, job: Job)
    requires
        depths_unique(m),
    ensures
        depths_unique(run_job(movie, m, job)),
{
    let t = job_target(job) as int;
    if !crate::stage::is_destroyed(m, t) {
        let m1 = match job {
            Job::Callback { success, .. } => {
                let obj = crate::interp::vars_of(m, t);
                StageModel {
                    store: crate::object::update_object(
                        m.store,
                        obj,
                        crate::object::assign(m.version, m.store[obj], crate::player::success_name(), ValueModel::Bool(success)),
                    ),
                    ..m
                }
            },
            _ => m,
        };
        lemma_same_children(m, m1);
        match job {
            Job::Event { function, .. } => {
                if 0 <= function < movie.functions@.len() {
                    let f = &movie.functions@[function as int];
                    let act = activation(m1, t, f, seq![]);
                    lemma_same_children(m1, act.0);
                    lemma_run_body(movie, act.0, t, t, f.body@, 0, seq![], act.1, 0);
                }
            },
            _ => match job_actions(movie, job) {
                Some(acts) => {
                    lemma_run_body(movie, m1, t, t, acts, 0, seq![], crate::interp::fill_registers(crate::interp::MAIN_REGISTERS as nat, seq![]), 0);
                },
                None => {},
            },
        }
    }
}

proof fn lemma_run_jobs(movie: &Movie, m: StageModel, i: int, fuel: nat)
    requires
        depths_unique(m),
    ensures
        depths_unique(run_jobs(movie, m, i, fuel)),
    decreases fuel,
{
    if fuel > 0 && 0 <= i < m.queue.len() {
        lemma_run_job(movie, m, m.queue[i]);
        lemma_run_jobs(movie, run_job(movie, m, m.queue[i]), i + 1, (fuel - 1) as nat);
    }
}

/// A tick keeps sibling depths unique.
pub proof fn lemma_tick_keeps_depths_unique(movie: &Movie, m: StageModel)
    requires
        depths_unique(m),
    ensures
        depths_unique(tick(movie, m)),
{
    if m.objs.len() > 0 {
        let m0 = StageModel { queue: m.next_tick, next_tick: seq![], input: m.input_latest, ..m };
        lemma_same_children(m, m0);
        lemma_gotos(movie, m0, 0, m0.objs.len() as int);
        let m1 = gotos_from(movie, m0, 0, m0.objs.len() as int);
        lemma_structural_pass(movie, m1, seq![0usize], crate::timeline::MAX_VISITS as nat);
        let m2 = structural_pass(movie, m1, seq![0usize], crate::timeline::MAX_VISITS as nat);
        lemma_run_jobs(movie, m2, 0, crate::player::MAX_JOBS as nat);
        let m3 = run_jobs(movie, m2, 0, crate::player::MAX_JOBS as nat);
        let m4 = StageModel { queue: m3.queue + events_from(m3, 0, m3.objs.len() as int), ..m3 };
        lemma_same_children(m3, m4);
        lemma_run_jobs(movie, m4, m3.queue.len() as int, crate::player::MAX_JOBS as nat);
        let m5 = run_jobs(movie, m4, m3.queue.len() as int, crate::player::MAX_JOBS as nat);
        lemma_same_children(m5, StageModel { queue: seq![], ..m5 });
    }
}

/// Sibling depths are unique at the start and after every tick.
pub proof fn lemma_depths_unique_always(movie: &Movie, version: u8, n: nat)
    ensures
        depths_unique(run_ticks(movie, crate::stage::initial_stage(version), n)),
    decreases n,
{
    if n == 0 {
        assert(depths_unique(crate::stage::initial_stage(version)));
    } else {
        lemma_depths_unique_always(movie, version, (n - 1) as nat);
        lemma_tick_keeps_depths_unique(movie, run_ticks(movie, crate::stage::initial_stage(version), (n - 1) as nat));
    }
}

} // verus!
