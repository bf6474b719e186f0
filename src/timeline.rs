//! Timelines: applying frames, gotos, and the per-tick structural pass.
use vstd::prelude::*;
use crate::movie::{Movie, Tag, frame_count, frame_tags};
use crate::stage::{
    Stage, StageModel, DisplayModel, Job, Diagnostic, valid, place, remove, mark_removed, objs_model, find_depth,
    diagnose,
};

verus! {

/// The most objects one structural pass visits.
pub const MAX_VISITS: usize = 1000000;

/// The stage after tag `k` of frame `f` of character `c`, on the timeline of
/// object `owner`. Placements and removals always apply; a `DoAction` queues its
/// job only when the frame is shown.
pub open spec fn apply_tag(movie: &Movie, m: StageModel, owner: int, c: int, f: int, k: int, shown: bool) -> StageModel {
    let tags = frame_tags(movie, c, f);
    if !(0 <= k < tags.len()) {
        m
    } else {
        match tags[k] {
            Tag::PlaceObject { depth, character, name } => place(movie, m, owner, depth, character as int, name@),
            Tag::RemoveObject { depth } => remove(m, owner, depth),
            Tag::SetBackgroundColor(color) => StageModel { background: color, ..m },
            Tag::DoAction(_) => if shown {
                StageModel {
                    queue: m.queue.push(
                        Job::Frame { target: owner as usize, character: c as usize, frame: f as usize, tag: k as usize },
                    ),
                    ..m
                }
            } else {
                m
            },
            _ => m,
        }
    }
}

/// The stage after tags `k..` of the frame.
pub open spec fn apply_tags_from(movie: &Movie, m: StageModel, owner: int, c: int, f: int, k: int, shown: bool) -> StageModel
    decreases frame_tags(movie, c, f).len() - k,
{
    if k < 0 || k >= frame_tags(movie, c, f).len() {
        m
    } else {
        apply_tags_from(movie, apply_tag(movie, m, owner, c, f, k, shown), owner, c, f, k + 1, shown)
    }
}

/// The stage with object `id` showing frame `f`.
pub open spec fn set_frame(m: StageModel, id: int, f: int) -> StageModel {
    if valid(m, id) {
        StageModel { objs: m.objs.update(id, DisplayModel { current_frame: f as usize, ..m.objs[id] }), ..m }
    } else {
        m
    }
}

/// The stage after object `id` enters frame `f` of its timeline.
pub open spec fn enter_frame(movie: &Movie, m: StageModel, id: int, f: int, shown: bool) -> StageModel {
    if !valid(m, id) {
        m
    } else {
        apply_tags_from(movie, set_frame(m, id, f), id, m.objs[id].character as int, f, 0, shown)
    }
}

/// The stage after marking children `i..` of `ch` removed.
pub open spec fn remove_all_from(m: StageModel, ch: Seq<(i32, usize)>, i: int) -> StageModel
    decreases ch.len() - i,
{
    if i < 0 || i >= ch.len() {
        m
    } else {
        remove_all_from(mark_removed(m, ch[i].1 as int), ch, i + 1)
    }
}

/// The stage after removing every child of object `id`.
pub open spec fn clear_children(m: StageModel, id: int) -> StageModel {
    if !valid(m, id) {
        m
    } else {
        let ch = m.objs[id].children;
        let m1 = StageModel { objs: m.objs.update(id, DisplayModel { children: seq![], ..m.objs[id] }), ..m };
        remove_all_from(m1, ch, 0)
    }
}

/// The stage after object `id` enters frames `from..=to`; only the last is shown.
pub open spec fn frames_from(movie: &Movie, m: StageModel, id: int, from: int, to: int) -> StageModel
    decreases to - from + 1,
{
    if from > to {
        m
    } else {
        frames_from(movie, enter_frame(movie, m, id, from, from == to), id, from + 1, to)
    }
}

/// The stage after a goto of object `id` to frame `f` (1-based). Going forward
/// applies the structure of each frame passed and shows only `f`; going back
/// clears the children and replays from frame 1. A goto to the current frame
/// changes nothing; one to an object or a frame that does not exist is skipped
/// with a diagnostic.
pub open spec fn goto(movie: &Movie, m: StageModel, id: int, f: int) -> StageModel {
    if !valid(m, id) {
        diagnose(m, Diagnostic::NoSuchObject(id as usize))
    } else {
        let cur = m.objs[id].current_frame as int;
        let n = frame_count(movie, m.objs[id].character as int);
        if f < 1 || f > n {
            diagnose(m, Diagnostic::NoSuchFrame { target: id as usize, frame: f as usize })
        } else if f == cur {
            m
        } else if f > cur {
            frames_from(movie, m, id, cur + 1, f)
        } else {
            frames_from(movie, clear_children(m, id), id, 1, f)
        }
    }
}

/// The stage after object `id` takes its step of a tick: a new clip queues its
/// init actions and enters frame 1; a playing clip enters its next frame, and
/// from its last frame loops back to frame 1 (a one-frame clip stays).
pub open spec fn advance(movie: &Movie, m: StageModel, id: int) -> StageModel {
    if !valid(m, id) || m.objs[id].removed {
        m
    } else {
        let o = m.objs[id];
        let n = frame_count(movie, o.character as int);
        if n == 0 {
            m
        } else if o.current_frame == 0 {
            let m1 = if o.init_pending {
                StageModel {
                    queue: m.queue.push(Job::Init { target: id as usize, character: o.character }),
                    objs: m.objs.update(id, DisplayModel { init_pending: false, ..o }),
                    ..m
                }
            } else {
                m
            };
            enter_frame(movie, m1, id, 1, true)
        } else if !o.playing {
            m
        } else if (o.current_frame as int) < n {
            enter_frame(movie, m, id, o.current_frame + 1, true)
        } else if n == 1 {
            m
        } else {
            enter_frame(movie, clear_children(m, id), id, 1, true)
        }
    }
}

/// The children of object `id`, deepest first, as a stack pops them shallowest first.
pub open spec fn children_stack(m: StageModel, id: int) -> Seq<usize> {
    if valid(m, id) && !m.objs[id].removed {
        let ch = m.objs[id].children;
        Seq::new(ch.len(), |i: int| ch[ch.len() - 1 - i].1)
    } else {
        seq![]
    }
}

/// The structural pass: objects are popped from `stack`, advanced, and their
/// children pushed, so each clip is visited before its children, depth first;
/// at most `fuel` objects are visited.
pub open spec fn structural_pass(movie: &Movie, m: StageModel, stack: Seq<usize>, fuel: nat) -> StageModel
    decreases fuel,
{
    if fuel == 0 || stack.len() == 0 {
        m
    } else {
        let id = stack.last() as int;
        let m1 = advance(movie, m, id);
        structural_pass(movie, m1, stack.drop_last() + children_stack(m1, id), (fuel - 1) as nat)
    }
}

/// The stage after the gotos queued on objects `i..n` ran, in id order.
pub open spec fn gotos_from(movie: &Movie, m: StageModel, i: int, n: int) -> StageModel
    decreases n - i,
{
    if i >= n || i < 0 {
        m
    } else if valid(m, i) && m.objs[i].pending_goto is Some {
        let f = m.objs[i].pending_goto.unwrap();
        let m1 = StageModel { objs: m.objs.update(i, DisplayModel { pending_goto: None, ..m.objs[i] }), ..m };
        gotos_from(movie, goto(movie, m1, i, f as int), i + 1, n)
    } else {
        gotos_from(movie, m, i + 1, n)
    }
}


/// The number of tags of frame `f` of character `c`.
fn tag_count(movie: &Movie, c: usize, f: usize) -> (r: usize)
    ensures
        r == frame_tags(movie, c as int, f as int).len(),
{
    if c < movie.characters.len() && 1 <= f && f <= movie.characters[c].frames.len() {
        movie.characters[c].frames[f - 1].tags.len()
    } else {
        0
    }
}

/// The number of frames of character `c`.
fn frames_of(movie: &Movie, c: usize) -> (r: usize)
    ensures
        r == frame_count(movie, c as int),
{
    if c < movie.characters.len() {
        movie.characters[c].frames.len()
    } else {
        0
    }
}

impl Stage {
    /// Apply one tag, as `apply_tag` says.
    fn apply_tag_exec(&mut self, movie: &Movie, owner: usize, c: usize, f: usize, k: usize, shown: bool)
        ensures
            final(self)@ == apply_tag(movie, old(self)@, owner as int, c as int, f as int, k as int, shown),
    {
        if c >= movie.characters.len() || f < 1 || f > movie.characters[c].frames.len() {
            return;
        }
        let tags = &movie.characters[c].frames[f - 1].tags;
        if k >= tags.len() {
            return;
        }
        match &tags[k] {
            Tag::PlaceObject { depth, character, name } => {
                self.place(movie, owner, *depth, *character, name);
            },
            Tag::RemoveObject { depth } => {
                self.remove(owner, *depth);
            },
            Tag::SetBackgroundColor(color) => {
                self.background = *color;
            },
            Tag::DoAction(_) => {
                if shown {
                    self.queue.push(Job::Frame { target: owner, character: c, frame: f, tag: k });
                }
            },
            _ => {},
        }
    }

    /// Object `id` enters frame `f`, as `enter_frame` says.
    pub fn enter_frame(&mut self, movie: &Movie, id: usize, f: usize, shown: bool)
        ensures
            final(self)@ == enter_frame(movie, old(self)@, id as int, f as int, shown),
    {
        if id >= self.objs.len() {
            return;
        }
        assert(objs_model(self.objs@)[id as int] == self.objs@[id as int]@);
        let c = self.objs[id].character;
        let ghost before = objs_model(self.objs@);
        let mut o = crate::stage::take_obj(&mut self.objs, id);
        o.current_frame = f;
        crate::stage::put_obj(&mut self.objs, id, o, Ghost(before));
        let ghost m1 = self@;
        assert(m1 == set_frame(old(self)@, id as int, f as int));
        let n = tag_count(movie, c, f);
        let mut k: usize = 0;
        while k < n
            invariant
                n == frame_tags(movie, c as int, f as int).len(),
                k <= n,
                apply_tags_from(movie, m1, id as int, c as int, f as int, 0, shown) == apply_tags_from(
                    movie,
                    self@,
                    id as int,
                    c as int,
                    f as int,
                    k as int,
                    shown,
                ),
            decreases n - k,
        {
            self.apply_tag_exec(movie, id, c, f, k, shown);
            k += 1;
        }
    }

    /// Remove every child of object `id`, as `clear_children` says.
    pub fn clear_children(&mut self, id: usize)
        ensures
            final(self)@ == clear_children(old(self)@, id as int),
    {
        if id >= self.objs.len() {
            return;
        }
        let ghost before = objs_model(self.objs@);
        let mut o = crate::stage::take_obj(&mut self.objs, id);
        let mut ch: Vec<(i32, usize)> = Vec::new();
        std::mem::swap(&mut ch, &mut o.children);
        assert(o@.children =~= Seq::<(i32, usize)>::empty());
        crate::stage::put_obj(&mut self.objs, id, o, Ghost(before));
        let ghost m1 = self@;
        let mut i: usize = 0;
        while i < ch.len()
            invariant
                i <= ch.len(),
                remove_all_from(m1, ch@, 0) == remove_all_from(self@, ch@, i as int),
            decreases ch.len() - i,
        {
            self.mark_removed_at(ch[i].1);
            i += 1;
        }
    }

    /// Object `id` enters frames `from..=to`, as `frames_from` says.
    fn frames_from_exec(&mut self, movie: &Movie, id: usize, from: usize, to: usize)
        ensures
            final(self)@ == frames_from(movie, old(self)@, id as int, from as int, to as int),
    {
        let mut i = from;
        if i > to {
            return;
        }
        while i <= to
            invariant
                from <= i <= to + 1,
                frames_from(movie, old(self)@, id as int, from as int, to as int) == frames_from(
                    movie,
                    self@,
                    id as int,
                    i as int,
                    to as int,
                ),
            decreases to - i + 1,
        {
            self.enter_frame(movie, id, i, i == to);
            if i == to {
                assert(frames_from(movie, self@, id as int, i + 1, to as int) == self@);
                return;
            }
            i += 1;
        }
    }

    /// Move object `id` to frame `f`, as `goto` says.
    pub fn goto_frame(&mut self, movie: &Movie, id: usize, f: usize)
        ensures
            final(self)@ == goto(movie, old(self)@, id as int, f as int),
    {
        if id >= self.objs.len() {
            self.diagnose(Diagnostic::NoSuchObject(id));
            return;
        }
        assert(objs_model(self.objs@)[id as int] == self.objs@[id as int]@);
        let cur = self.objs[id].current_frame;
        let n = frames_of(movie, self.objs[id].character);
        if f < 1 || f > n {
            self.diagnose(Diagnostic::NoSuchFrame { target: id, frame: f });
            return;
        }
        if f == cur {
            return;
        }
        if f > cur {
            self.frames_from_exec(movie, id, cur + 1, f);
        } else {
            self.clear_children(id);
            self.frames_from_exec(movie, id, 1, f);
        }
    }

    /// Object `id` takes its step of a tick, as `advance` says.
    pub fn advance(&mut self, movie: &Movie, id: usize)
        ensures
            final(self)@ == advance(movie, old(self)@, id as int),
    {
        if id >= self.objs.len() {
            return;
        }
        assert(objs_model(self.objs@)[id as int] == self.objs@[id as int]@);
        if self.objs[id].removed {
            return;
        }
        let c = self.objs[id].character;
        let n = frames_of(movie, c);
        let cur = self.objs[id].current_frame;
        if n == 0 {
            return;
        }
        if cur == 0 {
            if self.objs[id].init_pending {
                self.queue.push(Job::Init { target: id, character: c });
                let ghost before = objs_model(self.objs@);
                let mut o = crate::stage::take_obj(&mut self.objs, id);
                o.init_pending = false;
                crate::stage::put_obj(&mut self.objs, id, o, Ghost(before));
            }
            self.enter_frame(movie, id, 1, true);
        } else if !self.objs[id].playing {
            return;
        } else if cur < n {
            self.enter_frame(movie, id, cur + 1, true);
        } else if n == 1 {
            return;
        } else {
            self.clear_children(id);
            self.enter_frame(movie, id, 1, true);
        }
    }

    /// Run the structural pass from the root, as `structural_pass` says.
    pub fn run_structural_pass(&mut self, movie: &Movie)
        ensures
            final(self)@ == structural_pass(movie, old(self)@, seq![0usize], MAX_VISITS as nat),
    {
        let mut stack: Vec<usize> = Vec::new();
        stack.push(0);
        let mut fuel: usize = MAX_VISITS;
        assert(stack@ =~= seq![0usize]);
        while fuel > 0 && stack.len() > 0
            invariant
                structural_pass(movie, old(self)@, seq![0usize], MAX_VISITS as nat) == structural_pass(
                    movie,
                    self@,
                    stack@,
                    fuel as nat,
                ),
            decreases fuel,
        {
            let id = stack.pop().unwrap();
            self.advance(movie, id);
            if id < self.objs.len() && !self.objs[id].removed {
                assert(objs_model(self.objs@)[id as int] == self.objs@[id as int]@);
                let ghost base = stack@;
                let ch = &self.objs[id].children;
                let n = ch.len();
                let mut j: usize = 0;
                while j < n
                    invariant
                        n == ch@.len(),
                        j <= n,
                        stack@ == base + Seq::new(j as nat, |i: int| ch@[n - 1 - i].1),
                    decreases n - j,
                {
                    stack.push(ch[n - 1 - j].1);
                    assert(base + Seq::new((j + 1) as nat, |i: int| ch@[n - 1 - i].1) =~= (base
                        + Seq::new(j as nat, |i: int| ch@[n - 1 - i].1)).push(ch@[n - 1 - j].1));
                    j += 1;
                }
                assert(stack@ =~= base + children_stack(self@, id as int));
            } else {
                assert(stack@ =~= stack@ + children_stack(self@, id as int));
            }
            fuel -= 1;
        }
    }

    /// Run the gotos queued on objects, in id order, as `gotos_from` says.
    pub fn resolve_gotos(&mut self, movie: &Movie)
        ensures
            final(self)@ == gotos_from(movie, old(self)@, 0, old(self)@.objs.len() as int),
    {
        let n = self.objs.len();
        let mut i: usize = 0;
        while i < n
            invariant
                i <= n,
                n == old(self)@.objs.len(),
                gotos_from(movie, old(self)@, 0, n as int) == gotos_from(movie, self@, i as int, n as int),
            decreases n - i,
        {
            if i < self.objs.len() {
                assert(objs_model(self.objs@)[i as int] == self.objs@[i as int]@);
                match self.objs[i].pending_goto {
                    Some(f) => {
                        let ghost before = objs_model(self.objs@);
                        let mut o = crate::stage::take_obj(&mut self.objs, i);
                        o.pending_goto = None;
                        crate::stage::put_obj(&mut self.objs, i, o, Ghost(before));
                        self.goto_frame(movie, i, f);
                    },
                    None => {},
                }
            }
            i += 1;
        }
    }
}


/// Every job of `q` from position `n` on is a frame job.
pub open spec fn only_frame_jobs_from(q: Seq<Job>, n: int) -> bool {
    forall|j: int| n <= j < q.len() ==> (#[trigger] q[j]) is Frame
}

/// From `m` to `r`, object `id` keeps its init flag and character, no object
/// disappears, and the queue only gains frame jobs at its end.
pub open spec fn keeps_init(m: StageModel, r: StageModel, id: int) -> bool {
    &&& r.objs.len() >= m.objs.len()
    &&& r.objs[id].init_pending == m.objs[id].init_pending
    &&& r.objs[id].character == m.objs[id].character
    &&& r.queue.len() >= m.queue.len()
    &&& r.queue.take(m.queue.len() as int) == m.queue
    &&& only_frame_jobs_from(r.queue, m.queue.len() as int)
}

proof fn lemma_keeps_init_trans(a: StageModel, b: StageModel, c: StageModel, id: int)
    requires
        keeps_init(a, b, id),
        keeps_init(b, c, id),
    ensures
        keeps_init(a, c, id),
{
    assert(c.queue.take(a.queue.len() as int) =~= c.queue.take(b.queue.len() as int).take(a.queue.len() as int));
    assert forall|j: int| a.queue.len() <= j < c.queue.len() implies (#[trigger] c.queue[j]) is Frame by {
        if j < b.queue.len() {
            assert(c.queue.take(b.queue.len() as int)[j] == c.queue[j]);
            assert(b.queue[j] is Frame);
        }
    }
}

proof fn lemma_keeps_init_refl(m: StageModel, id: int)
    ensures
        keeps_init(m, m, id),
{
    assert(m.queue.take(m.queue.len() as int) =~= m.queue);
}

proof fn lemma_mark_removed_keeps(m: StageModel, x: int, id: int)
    requires
        valid(m, id),
    ensures
        keeps_init(m, mark_removed(m, x), id),
{
    lemma_keeps_init_refl(m, id);
}

proof fn lemma_apply_tag_keeps(movie: &Movie, m: StageModel, owner: int, c: int, f: int, k: int, shown: bool, id: int)
    requires
        valid(m, id),
    ensures
        keeps_init(m, apply_tag(movie, m, owner, c, f, k, shown), id),
{
    lemma_keeps_init_refl(m, id);
    let tags = frame_tags(movie, c, f);
    if 0 <= k < tags.len() {
        match tags[k] {
            Tag::RemoveObject { depth } => {
                if valid(m, owner) {
                    match find_depth(m.objs[owner].children, depth, 0) {
                        Some(i) => {
                            let p = m.objs[owner];
                            let m1 = StageModel {
                                objs: m.objs.update(owner, DisplayModel { children: p.children.remove(i), ..p }),
                                ..m
                            };
                            lemma_keeps_init_refl(m1, id);
                            lemma_mark_removed_keeps(m1, p.children[i].1 as int, id);
                            lemma_keeps_init_trans(m, m1, mark_removed(m1, p.children[i].1 as int), id);
                        },
                        None => {},
                    }
                }
            },
            Tag::DoAction(_) => {
                let r = apply_tag(movie, m, owner, c, f, k, shown);
                assert(r.queue.take(m.queue.len() as int) =~= m.queue);
            },
            _ => {},
        }
    }
}

proof fn lemma_apply_tags_keeps(movie: &Movie, m: StageModel, owner: int, c: int, f: int, k: int, shown: bool, id: int)
    requires
        valid(m, id),
    ensures
        keeps_init(m, apply_tags_from(movie, m, owner, c, f, k, shown), id),
    decreases frame_tags(movie, c, f).len() - k,
{
    if k < 0 || k >= frame_tags(movie, c, f).len() {
        lemma_keeps_init_refl(m, id);
    } else {
        let m1 = apply_tag(movie, m, owner, c, f, k, shown);
        lemma_apply_tag_keeps(movie, m, owner, c, f, k, shown, id);
        lemma_apply_tags_keeps(movie, m1, owner, c, f, k + 1, shown, id);
        lemma_keeps_init_trans(m, m1, apply_tags_from(movie, m1, owner, c, f, k + 1, shown), id);
    }
}

pub(crate) proof fn lemma_enter_frame_keeps(movie: &Movie, m: StageModel, x: int, f: int, shown: bool, id: int)
    requires
        valid(m, id),
    ensures
        keeps_init(m, enter_frame(movie, m, x, f, shown), id),
{
    if valid(m, x) {
        let m1 = set_frame(m, x, f);
        lemma_keeps_init_refl(m1, id);
        lemma_apply_tags_keeps(movie, m1, x, m.objs[x].character as int, f, 0, shown, id);
        lemma_keeps_init_trans(m, m1, enter_frame(movie, m, x, f, shown), id);
    } else {
        lemma_keeps_init_refl(m, id);
    }
}

proof fn lemma_remove_all_keeps(m: StageModel, ch: Seq<(i32, usize)>, i: int, id: int)
    requires
        valid(m, id),
    ensures
        keeps_init(m, remove_all_from(m, ch, i), id),
    decreases ch.len() - i,
{
    if i < 0 || i >= ch.len() {
        lemma_keeps_init_refl(m, id);
    } else {
        let m1 = mark_removed(m, ch[i].1 as int);
        lemma_mark_removed_keeps(m, ch[i].1 as int, id);
        lemma_remove_all_keeps(m1, ch, i + 1, id);
        lemma_keeps_init_trans(m, m1, remove_all_from(m1, ch, i + 1), id);
    }
}

pub(crate) proof fn lemma_clear_children_keeps(m: StageModel, x: int, id: int)
    requires
        valid(m, id),
    ensures
        keeps_init(m, clear_children(m, x), id),
{
    if valid(m, x) {
        let m1 = StageModel { objs: m.objs.update(x, DisplayModel { children: seq![], ..m.objs[x] }), ..m };
        lemma_keeps_init_refl(m1, id);
        lemma_remove_all_keeps(m1, m.objs[x].children, 0, id);
        lemma_keeps_init_trans(m, m1, clear_children(m, x), id);
    } else {
        lemma_keeps_init_refl(m, id);
    }
}

/// A new clip's first step queues its init actions once, ahead of every job its
/// first frame queues, and clears its pending init, so no later step queues them
/// again.
pub proof fn lemma_first_step_queues_init_once(movie: &Movie, m: StageModel, id: int)
    requires
        valid(m, id),
        !m.objs[id].removed,
        frame_count(movie, m.objs[id].character as int) > 0,
        m.objs[id].current_frame == 0,
        m.objs[id].init_pending,
    ensures
        ({
            let r = advance(movie, m, id);
            &&& r.queue.len() > m.queue.len()
            &&& r.queue.take(m.queue.len() as int) == m.queue
            &&& r.queue[m.queue.len() as int] == (Job::Init { target: id as usize, character: m.objs[id].character })
            &&& only_frame_jobs_from(r.queue, m.queue.len() + 1int)
            &&& !r.objs[id].init_pending
        }),
{
    let o = m.objs[id];
    let m1 = StageModel {
        queue: m.queue.push(Job::Init { target: id as usize, character: o.character }),
        objs: m.objs.update(id, DisplayModel { init_pending: false, ..o }),
        ..m
    };
    lemma_enter_frame_keeps(movie, m1, id, 1, true, id);
    let r = advance(movie, m, id);
    assert(r == enter_frame(movie, m1, id, 1, true));
    assert(r.queue.take(m1.queue.len() as int)[m.queue.len() as int] == r.queue[m.queue.len() as int]);
    assert(r.queue.take(m.queue.len() as int) =~= r.queue.take(m1.queue.len() as int).take(m.queue.len() as int));
}

/// Once a clip has entered its first frame, or has no init pending, its steps
/// queue frame jobs only and leave its init flag as it is: init actions never
/// run twice for one instance.
pub proof fn lemma_later_steps_queue_no_init(movie: &Movie, m: StageModel, id: int, x: int)
    requires
        valid(m, id),
        valid(m, x) ==> (m.objs[x].current_frame != 0 || !m.objs[x].init_pending),
    ensures
        keeps_init(m, advance(movie, m, x), id),
{
    if !valid(m, x) || m.objs[x].removed {
        lemma_keeps_init_refl(m, id);
    } else {
        let o = m.objs[x];
        let n = frame_count(movie, o.character as int);
        if n == 0 {
            lemma_keeps_init_refl(m, id);
        } else if o.current_frame == 0 {
            lemma_enter_frame_keeps(movie, m, x, 1, true, id);
        } else if !o.playing {
            lemma_keeps_init_refl(m, id);
        } else if (o.current_frame as int) < n {
            lemma_enter_frame_keeps(movie, m, x, o.current_frame + 1, true, id);
        } else if n == 1 {
            lemma_keeps_init_refl(m, id);
        } else {
            let m1 = clear_children(m, x);
            lemma_clear_children_keeps(m, x, id);
            lemma_enter_frame_keeps(movie, m1, x, 1, true, id);
            lemma_keeps_init_trans(m, m1, enter_frame(movie, m1, x, 1, true), id);
        }
    }
}


/// The draw order from a stack of objects: each object popped that exists, is
/// not removed and is visible is drawn, then its children, shallowest first; at
/// most `fuel` objects are popped.
pub open spec fn draw_walk(m: StageModel, stack: Seq<usize>, fuel: nat) -> Seq<usize>
    decreases fuel,
{
    if fuel == 0 || stack.len() == 0 {
        seq![]
    } else {
        let id = stack.last() as int;
        if valid(m, id) && !m.objs[id].removed && m.objs[id].visible {
            seq![id as usize] + draw_walk(m, stack.drop_last() + children_stack(m, id), (fuel - 1) as nat)
        } else {
            draw_walk(m, stack.drop_last(), (fuel - 1) as nat)
        }
    }
}

/// The objects to draw, in draw order: depth first from the root, each parent
/// before its children, siblings by ascending depth; a hidden object hides its
/// children too.
pub open spec fn draw_order(m: StageModel) -> Seq<usize> {
    draw_walk(m, seq![0usize], MAX_VISITS as nat)
}

impl Stage {
    /// The objects to draw, as `draw_order` says.
    pub fn display_order(&self) -> (r: Vec<usize>)
        ensures
            r@ == draw_order(self@),
    {
        let mut out: Vec<usize> = Vec::new();
        let mut stack: Vec<usize> = Vec::new();
        stack.push(0);
        let mut fuel: usize = MAX_VISITS;
        assert(stack@ =~= seq![0usize]);
        assert(out@ + draw_order(self@) =~= draw_order(self@));
        while fuel > 0 && stack.len() > 0
            invariant
                draw_order(self@) == out@ + draw_walk(self@, stack@, fuel as nat),
            decreases fuel,
        {
            let ghost before_out = out@;
            let ghost before_stack = stack@;
            let id = stack.pop().unwrap();
            if id < self.objs.len() && !self.objs[id].removed && self.objs[id].visible {
                assert(objs_model(self.objs@)[id as int] == self.objs@[id as int]@);
                out.push(id);
                let ghost base = stack@;
                let ch = &self.objs[id].children;
                let n = ch.len();
                let mut j: usize = 0;
                while j < n
                    invariant
                        n == ch@.len(),
                        j <= n,
                        stack@ == base + Seq::new(j as nat, |i: int| ch@[n - 1 - i].1),
                    decreases n - j,
                {
                    stack.push(ch[n - 1 - j].1);
                    assert(base + Seq::new((j + 1) as nat, |i: int| ch@[n - 1 - i].1) =~= (base
                        + Seq::new(j as nat, |i: int| ch@[n - 1 - i].1)).push(ch@[n - 1 - j].1));
                    j += 1;
                }
                assert(stack@ =~= base + children_stack(self@, id as int));
                assert(out@ + draw_walk(self@, stack@, (fuel - 1) as nat) =~= before_out + (seq![id] + draw_walk(
                    self@,
                    stack@,
                    (fuel - 1) as nat,
                )));
            } else {
                assert(objs_model(self.objs@).len() == self.objs@.len());
            }
            fuel -= 1;
        }
        assert(out@ + draw_walk(self@, stack@, fuel as nat) =~= out@);
        out
    }
}

} // verus!
