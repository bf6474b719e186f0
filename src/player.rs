//! The player: one tick of the scheduler, queued script work, and the bridge
//! that carries loads out to the host and their results back in.
use vstd::prelude::*;
use crate::movie::{Action, Movie, Tag, frame_tags};
use crate::object::{assign, update_object};
use crate::stage::{AudioCommand, Stage, StageModel, Job, InputState, PendingLoad, LoadRequest, is_destroyed, initial_stage, objs_model, valid};
use crate::timeline::{gotos_from, structural_pass, MAX_VISITS};
use crate::interp::{run_actions, vars_of, activation, run_body};
use crate::object::{lookup, values_model, MAX_PROTO_HOPS};
use crate::value::{Value, ValueModel};
use crate::form::{pairs_model, form_pairs, parse_variables};

verus! {

/// What stops a tick as a whole.
#[derive(Clone, Copy, Debug, PartialEq, Eq, Structural)]
pub enum FatalError {
    /// The stage has no root display object.
    NoRoot,
}

/// The most queued jobs one tick runs.
pub const MAX_JOBS: usize = 1000000;

/// The object a job runs on.
pub open spec fn job_target(job: Job) -> usize {
    match job {
        Job::Frame { target, .. } => target,
        Job::Init { target, .. } => target,
        Job::Callback { target, .. } => target,
        Job::Event { target, .. } => target,
    }
}

/// The actions a job runs, where they exist.
pub open spec fn job_actions(movie: &Movie, job: Job) -> Option<Seq<Action>> {
    match job {
        Job::Frame { target, character, frame, tag } => {
            let tags = frame_tags(movie, character as int, frame as int);
            if tag < tags.len() {
                match tags[tag as int] {
                    Tag::DoAction(acts) => Some(acts@),
                    _ => None,
                }
            } else {
                None
            }
        },
        Job::Init { target, character } => if character < movie.characters@.len() {
            Some(movie.characters@[character as int].init_actions@)
        } else {
            None
        },
        Job::Callback { target, code, success } => if code < movie.code@.len() {
            Some(movie.code@[code as int]@)
        } else {
            None
        },
        Job::Event { .. } => None,
    }
}

/// The stage after function `function` ran as a handler of `target`, in a new
/// activation without arguments.
pub open spec fn run_handler(movie: &Movie, m: StageModel, target: int, function: int) -> StageModel {
    if 0 <= function < movie.functions@.len() {
        let f = &movie.functions@[function];
        let act = activation(m, target, f, seq![]);
        run_body(movie, act.0, target, target, f.body@, 0, seq![], act.1, 0).0
    } else {
        m
    }
}

/// The name of the frame-enter handler property.
pub open spec fn enter_frame_name() -> Seq<char> {
    seq!['o', 'n', 'E', 'n', 't', 'e', 'r', 'F', 'r', 'a', 'm', 'e']
}

/// The frame-enter handler of object `id`: the function its script object holds
/// under `onEnterFrame`, where it is on stage.
pub open spec fn handler_of(m: StageModel, id: int) -> Option<usize> {
    if valid(m, id) && !is_destroyed(m, id) {
        match lookup(m.version, m.store, vars_of(m, id), enter_frame_name(), MAX_PROTO_HOPS as nat) {
            ValueModel::Function(f) => Some(f),
            _ => None,
        }
    } else {
        None
    }
}

/// The handler jobs of objects `i..n`, in creation order.
pub open spec fn events_from(m: StageModel, i: int, n: int) -> Seq<Job>
    decreases n - i,
{
    if i >= n || i < 0 {
        seq![]
    } else {
        let rest = events_from(m, i + 1, n);
        match handler_of(m, i) {
            Some(f) => seq![Job::Event { target: i as usize, function: f }] + rest,
            None => rest,
        }
    }
}

/// The name of the variable a load callback finds its outcome in.
pub open spec fn success_name() -> Seq<char> {
    seq!['s', 'u', 'c', 'c', 'e', 's', 's']
}

/// The stage after one job: nothing where its target is destroyed; a load
/// callback first sets `success` on its target; then its actions run.
pub open spec fn run_job(movie: &Movie, m: StageModel, job: Job) -> StageModel {
    let t = job_target(job) as int;
    if is_destroyed(m, t) {
        m
    } else {
        let m1 = match job {
            Job::Callback { success, .. } => {
                let obj = vars_of(m, t);
                StageModel {
                    store: update_object(
                        m.store,
                        obj,
                        assign(m.version, m.store[obj], success_name(), ValueModel::Bool(success)),
                    ),
                    ..m
                }
            },
            _ => m,
        };
        match job {
            Job::Event { function, .. } => run_handler(movie, m1, t, function as int),
            _ => match job_actions(movie, job) {
                Some(acts) => run_actions(movie, m1, t, acts),
                None => m1,
            },
        }
    }
}

/// The stage after the queued jobs from position `i` ran, in order, jobs queued
/// meanwhile included; at most `fuel` run.
pub open spec fn run_jobs(movie: &Movie, m: StageModel, i: int, fuel: nat) -> StageModel
    decreases fuel,
{
    if fuel == 0 || i < 0 || i >= m.queue.len() {
        m
    } else {
        run_jobs(movie, run_job(movie, m, m.queue[i]), i + 1, (fuel - 1) as nat)
    }
}

/// One tick, on a stage with its root; a stage without one is left as it is.
/// The latest input report becomes the one every script of the tick reads; the
/// work queued for it comes first in the queue; queued gotos
/// run; the structural pass advances every timeline, parent before child; then
/// the queued jobs run in order; then the frame-enter handlers run, in creation order.
pub open spec fn tick(movie: &Movie, m: StageModel) -> StageModel {
    if m.objs.len() == 0 {
        m
    } else {
        tick_body(movie, m)
    }
}

/// The work of a tick on a stage that has its root.
pub open spec fn tick_body(movie: &Movie, m: StageModel) -> StageModel {
    let m0 = StageModel { queue: m.next_tick, next_tick: seq![], input: m.input_latest, ..m };
    let m1 = gotos_from(movie, m0, 0, m0.objs.len() as int);
    let m2 = structural_pass(movie, m1, seq![0usize], MAX_VISITS as nat);
    let m3 = run_jobs(movie, m2, 0, MAX_JOBS as nat);
    let m4 = StageModel { queue: m3.queue + events_from(m3, 0, m3.objs.len() as int), ..m3 };
    let m5 = run_jobs(movie, m4, m3.queue.len() as int, MAX_JOBS as nat);
    StageModel { queue: seq![], ..m5 }
}

/// The stage after `n` ticks.
pub open spec fn run_ticks(movie: &Movie, m: StageModel, n: nat) -> StageModel
    decreases n,
{
    if n == 0 {
        m
    } else {
        tick(movie, run_ticks(movie, m, (n - 1) as nat))
    }
}

/// The stage after the loaded variables `pairs[i..]` are set on object `obj`, as strings.
pub open spec fn merge_from(m: StageModel, obj: int, pairs: Seq<(Seq<char>, Seq<char>)>, i: int) -> StageModel
    decreases pairs.len() - i,
{
    if i < 0 || i >= pairs.len() {
        m
    } else {
        let m1 = StageModel {
            store: update_object(
                m.store,
                obj,
                assign(m.version, m.store[obj], pairs[i].0, ValueModel::Str(pairs[i].1)),
            ),
            ..m
        };
        merge_from(m1, obj, pairs, i + 1)
    }
}

/// The stage after load `load` ended with `outcome` (the loaded variables, or
/// `None` for a failure). A load that does not exist or already ended changes
/// nothing. Where its target was destroyed, it is only marked dead and ended.
/// Otherwise the variables are set on the target, the load is ended, and its
/// callback is queued for the next tick with the outcome.
pub open spec fn resolve(m: StageModel, load: int, outcome: Option<Seq<(Seq<char>, Seq<char>)>>) -> StageModel {
    if !(0 <= load < m.loads.len()) || m.loads[load].resolved {
        m
    } else {
        let l = m.loads[load];
        if !l.live || is_destroyed(m, l.target as int) {
            StageModel { loads: m.loads.update(load, PendingLoad { live: false, resolved: true, ..l }), ..m }
        } else {
            let m1 = match outcome {
                Some(p) => merge_from(m, vars_of(m, l.target as int), p, 0),
                None => m,
            };
            StageModel {
                loads: m1.loads.update(load, PendingLoad { resolved: true, ..l }),
                next_tick: m1.next_tick.push(
                    Job::Callback { target: l.target, code: l.callback, success: outcome is Some },
                ),
                ..m1
            }
        }
    }
}


impl Stage {
    /// Set a variable of object `target`, as `SetVariable` does.
    fn set_var(&mut self, target: usize, name: &Vec<char>, v: Value)
        ensures
            final(self)@ == (StageModel {
                store: update_object(
                    old(self)@.store,
                    vars_of(old(self)@, target as int),
                    assign(
                        old(self)@.version,
                        old(self)@.store[vars_of(old(self)@, target as int)],
                        name@,
                        v@,
                    ),
                ),
                ..old(self)@
            }),
    {
        if target < self.objs.len() {
            assert(objs_model(self.objs@)[target as int] == self.objs@[target as int]@);
            let vars = self.objs[target].vars;
            self.store.set(self.version, vars, name, v);
        }
    }

    /// Run one job, as `run_job` says.
    pub fn run_job(&mut self, movie: &Movie, job: Job)
        ensures
            final(self)@ == run_job(movie, old(self)@, job),
    {
        let t = match job {
            Job::Frame { target, .. } => target,
            Job::Init { target, .. } => target,
            Job::Callback { target, .. } => target,
            Job::Event { target, .. } => target,
        };
        if self.is_destroyed(t) {
            return;
        }
        match job {
            Job::Callback { success, .. } => {
                let name = vec!['s', 'u', 'c', 'c', 'e', 's', 's'];
                assert(name@ =~= success_name());
                self.set_var(t, &name, Value::Bool(success));
            },
            _ => {},
        }
        match job {
            Job::Frame { target, character, frame, tag } => {
                if character < movie.characters.len() && 1 <= frame && frame
                    <= movie.characters[character].frames.len() {
                    let tags = &movie.characters[character].frames[frame - 1].tags;
                    if tag < tags.len() {
                        match &tags[tag] {
                            Tag::DoAction(acts) => {
                                self.run_actions(movie, t, acts);
                            },
                            _ => {},
                        }
                    }
                }
            },
            Job::Init { target, character } => {
                if character < movie.characters.len() {
                    self.run_actions(movie, t, &movie.characters[character].init_actions);
                }
            },
            Job::Callback { target, code, success } => {
                if code < movie.code.len() {
                    self.run_actions(movie, t, &movie.code[code]);
                }
            },
            Job::Event { target, function } => {
                if function < movie.functions.len() {
                    let f = &movie.functions[function];
                    let no_args: Vec<Value> = Vec::new();
                    assert(values_model(no_args@) =~= Seq::<ValueModel>::empty());
                    let regs = self.activate(t, f, no_args);
                    let _ = self.run_body(movie, t, &f.body, regs, 0);
                }
            },
        }
    }

    /// The frame-enter handler of object `id`, as `handler_of` says.
    fn handler_exec(&self, id: usize) -> (r: Option<usize>)
        ensures
            r == handler_of(self@, id as int),
    {
        if id >= self.objs.len() || self.is_destroyed(id) {
            return None;
        }
        assert(objs_model(self.objs@)[id as int] == self.objs@[id as int]@);
        let name = vec!['o', 'n', 'E', 'n', 't', 'e', 'r', 'F', 'r', 'a', 'm', 'e'];
        assert(name@ =~= enter_frame_name());
        match self.store.get(self.version, self.objs[id].vars, &name) {
            Value::Function(f) => Some(f),
            _ => None,
        }
    }

    /// Queue the frame-enter handlers of all objects, in creation order, as
    /// `events_from` says.
    fn queue_events(&mut self)
        ensures
            final(self)@ == (StageModel {
                queue: old(self)@.queue + events_from(old(self)@, 0, old(self)@.objs.len() as int),
                ..old(self)@
            }),
    {
        let n = self.objs.len();
        let ghost m = self@;
        let mut jobs: Vec<Job> = Vec::new();
        let mut i: usize = 0;
        while i < n
            invariant
                i <= n,
                n == m.objs.len(),
                self@ == m,
                events_from(m, 0, n as int) == jobs@ + events_from(m, i as int, n as int),
            decreases n - i,
        {
            match self.handler_exec(i) {
                Some(f) => {
                    let ghost before = jobs@;
                    jobs.push(Job::Event { target: i, function: f });
                    assert(before + (seq![Job::Event { target: i, function: f }] + events_from(m, i + 1, n as int))
                        =~= jobs@ + events_from(m, i + 1, n as int));
                },
                None => {},
            }
            i += 1;
        }
        assert(jobs@ + events_from(m, i as int, n as int) =~= jobs@);
        self.queue.append(&mut jobs);
    }

    /// Run the queued jobs in order from position `start`, as `run_jobs` says.
    pub fn run_queued_jobs(&mut self, movie: &Movie, start: usize)
        ensures
            final(self)@ == run_jobs(movie, old(self)@, start as int, MAX_JOBS as nat),
    {
        let mut i: usize = start;
        let mut fuel: usize = MAX_JOBS;
        while fuel > 0 && i < self.queue.len()
            invariant
                start <= i,
                run_jobs(movie, old(self)@, start as int, MAX_JOBS as nat) == run_jobs(movie, self@, i as int, fuel as nat),
            decreases fuel,
        {
            let job = self.queue[i];
            self.run_job(movie, job);
            i += 1;
            fuel -= 1;
        }
    }

    /// Run one tick, as `tick` says; a stage without its root fails with
    /// `FatalError::NoRoot` and is left as it is.
    pub fn tick(&mut self, movie: &Movie) -> (r: Result<(), FatalError>)
        ensures
            final(self)@ == tick(movie, old(self)@),
            r is Err <==> old(self)@.objs.len() == 0,
    {
        if self.objs.len() == 0 {
            return Err(FatalError::NoRoot);
        }
        let mut q: Vec<Job> = Vec::new();
        std::mem::swap(&mut q, &mut self.next_tick);
        self.queue = q;
        self.input = self.input_latest.copy();
        self.resolve_gotos(movie);
        self.run_structural_pass(movie);
        self.run_queued_jobs(movie, 0);
        let handled = self.queue.len();
        self.queue_events();
        self.run_queued_jobs(movie, handled);
        self.queue = Vec::new();
        assert(self@.queue =~= Seq::<Job>::empty());
        Ok(())
    }

    /// Set the loaded variables `pairs[i..]` on object `obj`, as `merge_from` says.
    fn merge_vars(&mut self, target: usize, pairs: &Vec<(Vec<char>, Vec<char>)>)
        ensures
            final(self)@ == merge_from(old(self)@, vars_of(old(self)@, target as int), pairs_model(pairs@), 0),
            final(self).loads@ == old(self).loads@,
    {
        let ghost obj = vars_of(self@, target as int);
        let mut i: usize = 0;
        while i < pairs.len()
            invariant
                i <= pairs.len(),
                obj == vars_of(self@, target as int),
                self.loads@ == old(self).loads@,
                merge_from(old(self)@, vars_of(old(self)@, target as int), pairs_model(pairs@), 0) == merge_from(
                    self@,
                    obj,
                    pairs_model(pairs@),
                    i as int,
                ),
            decreases pairs.len() - i,
        {
            let v = Value::Str(crate::value::copy_chars(&pairs[i].1));
            self.set_var(target, &pairs[i].0, v);
            i += 1;
        }
    }

    /// End load `load` with `outcome`, as `resolve` says.
    pub fn resolve_load(&mut self, load: usize, outcome: Option<Vec<(Vec<char>, Vec<char>)>>)
        ensures
            final(self)@ == resolve(
                old(self)@,
                load as int,
                match outcome {
                    Some(p) => Some(pairs_model(p@)),
                    None => None,
                },
            ),
    {
        if load >= self.loads.len() || self.loads[load].resolved {
            return;
        }
        let l = self.loads[load];
        if !l.live || self.is_destroyed(l.target) {
            self.loads.set(load, PendingLoad { live: false, resolved: true, ..l });
            return;
        }
        let success = outcome.is_some();
        match &outcome {
            Some(p) => self.merge_vars(l.target, p),
            None => {},
        }
        self.loads.set(load, PendingLoad { resolved: true, ..l });
        self.next_tick.push(Job::Callback { target: l.target, code: l.callback, success });
    }

    /// End load `load` with the fetched text, or `None` where the fetch failed:
    /// the text is decoded as a variable set, as `form_pairs` says.
    pub fn complete_load(&mut self, load: usize, payload: Option<&Vec<char>>)
        ensures
            final(self)@ == resolve(
                old(self)@,
                load as int,
                match payload {
                    Some(t) => Some(form_pairs(t@)),
                    None => None,
                },
            ),
    {
        match payload {
            Some(t) => {
                let pairs = parse_variables(t);
                self.resolve_load(load, Some(pairs));
            },
            None => self.resolve_load(load, None),
        }
    }

    /// Hand over the fetches not yet handed to the host.
    pub fn take_requests(&mut self) -> (r: Vec<LoadRequest>)
        ensures
            r@.map_values(|q: LoadRequest| q@) == old(self)@.requests,
            final(self)@ == (StageModel { requests: seq![], ..old(self)@ }),
    {
        let mut r: Vec<LoadRequest> = Vec::new();
        std::mem::swap(&mut r, &mut self.requests);
        assert(self@.requests =~= Seq::<crate::stage::RequestModel>::empty());
        r
    }

    /// Hand over the audio requests issued since the last call, in issue order.
    pub fn take_audio(&mut self) -> (r: Vec<AudioCommand>)
        ensures
            r@ == old(self)@.audio,
            final(self)@ == (StageModel { audio: seq![], ..old(self)@ }),
    {
        let mut r: Vec<AudioCommand> = Vec::new();
        std::mem::swap(&mut r, &mut self.audio);
        assert(self@.audio =~= Seq::<AudioCommand>::empty());
        r
    }

    /// Record the host's latest input report; the next tick's scripts read it.
    pub fn report_input(&mut self, input: InputState)
        ensures
            final(self)@ == (StageModel { input_latest: input@, ..old(self)@ }),
    {
        self.input_latest = input;
    }

    /// Queue a goto of object `id` to frame `f` for the start of the next tick.
    pub fn queue_goto(&mut self, id: usize, f: usize)
        ensures
            id < old(self)@.objs.len() ==> final(self)@ == (StageModel {
                objs: old(self)@.objs.update(
                    id as int,
                    crate::stage::DisplayModel { pending_goto: Some(f), ..old(self)@.objs[id as int] },
                ),
                ..old(self)@
            }),
            id >= old(self)@.objs.len() ==> final(self)@ == old(self)@,
    {
        if id >= self.objs.len() {
            return;
        }
        let ghost before = objs_model(self.objs@);
        let mut o = crate::stage::take_obj(&mut self.objs, id);
        o.pending_goto = Some(f);
        crate::stage::put_obj(&mut self.objs, id, o, Ghost(before));
    }
}

/// A movie and the stage that plays it.
pub struct Player {
    /// The movie played.
    pub movie: Movie,
    /// The stage.
    pub stage: Stage,
}

impl Player {
    /// A player before its first tick.
    pub fn new(movie: Movie) -> (r: Self)
        ensures
            r.movie == movie,
            r.stage@ == initial_stage(movie.version),
    {
        let stage = Stage::new(movie.version);
        Player { movie, stage }
    }

    /// Run one tick.
    pub fn tick(&mut self) -> (r: Result<(), FatalError>)
        ensures
            final(self).movie == old(self).movie,
            final(self).stage@ == tick(&old(self).movie, old(self).stage@),
            r is Err <==> old(self).stage@.objs.len() == 0,
    {
        self.stage.tick(&self.movie)
    }

    /// Run `n` ticks, stopping at the first that fails.
    pub fn run(&mut self, n: usize) -> (r: Result<(), FatalError>)
        ensures
            final(self).movie == old(self).movie,
            r is Ok ==> final(self).stage@ == run_ticks(&old(self).movie, old(self).stage@, n as nat),
            r is Err ==> final(self).stage@.objs.len() == 0,
    {
        let mut i: usize = 0;
        while i < n
            invariant
                i <= n,
                self.movie == old(self).movie,
                self.stage@ == run_ticks(&old(self).movie, old(self).stage@, i as nat),
            decreases n - i,
        {
            let r = self.stage.tick(&self.movie);
            if r.is_err() {
                return r;
            }
            i += 1;
        }
        Ok(())
    }

    /// The trace lines emitted so far.
    pub fn trace(&self) -> (r: &Vec<Vec<char>>)
        ensures
            r@.map_values(|t: Vec<char>| t@) == self.stage@.trace,
    {
        &self.stage.trace
    }
}


/// A load whose target was destroyed before the load ended never queues its
/// callback and changes no display object, script object, trace line or queued
/// work, whatever the outcome; it ends dead, so a later outcome changes nothing.
pub proof fn lemma_destroyed_target_load_is_inert(
    m: StageModel,
    load: int,
    outcome: Option<Seq<(Seq<char>, Seq<char>)>>,
    later: Option<Seq<(Seq<char>, Seq<char>)>>,
)
    requires
        0 <= load < m.loads.len(),
        is_destroyed(m, m.loads[load].target as int),
    ensures
        ({
            let r = resolve(m, load, outcome);
            &&& r.objs == m.objs
            &&& r.store == m.store
            &&& r.trace == m.trace
            &&& r.queue == m.queue
            &&& r.next_tick == m.next_tick
            &&& r.requests == m.requests
            &&& r.loads[load].resolved
            &&& !m.loads[load].resolved ==> !r.loads[load].live
            &&& resolve(r, load, later) == r
        }),
{
}

} // verus!
