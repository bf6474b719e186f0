//! The stage: the display list, its timelines, and the state a tick works on.
use vstd::prelude::*;
use crate::movie::Movie;
use crate::navigator::NavigationMethod;
use crate::object::{ObjectModel, ObjectStore};

verus! {

/// The most display objects and script objects a stage holds; placements
/// beyond it are skipped.
pub const MAX_OBJECTS: usize = 1000000;

/// A queued piece of script work.
#[derive(Clone, Copy, Debug, PartialEq, Eq, Structural)]
pub enum Job {
    /// The `DoAction` tag `tag` of frame `frame` (1-based) of `character`, run on `target`.
    Frame { target: usize, character: usize, frame: usize, tag: usize },
    /// The init actions of `character`, run on the new instance `target`.
    Init { target: usize, character: usize },
    /// The code block `code`, run on `target` when a load ended.
    Callback { target: usize, code: usize, success: bool },
    /// The frame-enter handler `function` of `target`.
    Event { target: usize, function: usize },
}

/// A script-initiated load that the host carries out.
#[derive(Clone, Copy, Debug, PartialEq, Eq, Structural)]
pub struct PendingLoad {
    /// The display object the load fills.
    pub target: usize,
    /// The code block run when the load ends.
    pub callback: usize,
    /// Whether the load still has effect: false once its target was found destroyed.
    pub live: bool,
    /// Whether the load has ended.
    pub resolved: bool,
}

/// A fetch that the host is asked to make.
pub struct LoadRequest {
    /// The load it belongs to, by index.
    pub load: usize,
    /// The URL to fetch, with the variables sent in its query where they go by GET.
    pub url: Vec<char>,
    /// How variables are sent, where they are.
    pub method: Option<NavigationMethod>,
    /// The variables sent as form data, where they go by POST.
    pub body: Option<Vec<char>>,
}

/// What a fetch request holds.
pub struct RequestModel {
    /// The load it belongs to.
    pub load: usize,
    /// The URL to fetch.
    pub url: Seq<char>,
    /// How variables are sent.
    pub method: Option<NavigationMethod>,
    /// The form data sent.
    pub body: Option<Seq<char>>,
}

impl View for LoadRequest {
    type V = RequestModel;

    open spec fn view(&self) -> RequestModel {
        RequestModel {
            load: self.load,
            url: self.url@,
            method: self.method,
            body: match &self.body {
                Some(b) => Some(b@),
                None => None,
            },
        }
    }
}

/// A structural defect that was skipped.
#[derive(Clone, Copy, Debug, PartialEq, Eq, Structural)]
pub enum Diagnostic {
    /// An operation named a display object that does not exist.
    NoSuchObject(usize),
    /// A placement at a depth that a sibling holds.
    DepthTaken { parent: usize, depth: i32 },
    /// A placement of a character that does not exist.
    NoSuchCharacter(usize),
    /// A placement on a full stage.
    StageFull,
    /// A removal at a depth that holds nothing.
    NothingAtDepth { parent: usize, depth: i32 },
    /// A goto to a frame the timeline does not have.
    NoSuchFrame { target: usize, frame: usize },
}

/// A request to the audio capability.
#[derive(Clone, Copy, Debug, PartialEq, Eq, Structural)]
pub enum AudioCommand {
    /// Start streaming a sound.
    StartStream(u16),
    /// Stop streaming a sound.
    StopStream(u16),
}

/// What the input devices report.
pub struct InputState {
    /// The mouse's horizontal position.
    pub mouse_x: i32,
    /// The mouse's vertical position.
    pub mouse_y: i32,
    /// Whether the mouse button is down.
    pub mouse_down: bool,
    /// The codes of the keys that are down.
    pub keys_down: Vec<u8>,
}

/// What an input report holds.
pub struct InputModel {
    pub mouse_x: i32,
    pub mouse_y: i32,
    pub mouse_down: bool,
    pub keys_down: Seq<u8>,
}

impl View for InputState {
    type V = InputModel;

    open spec fn view(&self) -> InputModel {
        InputModel {
            mouse_x: self.mouse_x,
            mouse_y: self.mouse_y,
            mouse_down: self.mouse_down,
            keys_down: self.keys_down@,
        }
    }
}

impl InputState {
    /// No key or button down, the mouse at the origin.
    pub fn idle() -> (r: Self)
        ensures
            r@ == idle_input(),
    {
        let r = InputState { mouse_x: 0, mouse_y: 0, mouse_down: false, keys_down: Vec::new() };
        assert(r@.keys_down =~= Seq::<u8>::empty());
        r
    }

    /// A copy of this report.
    pub fn copy(&self) -> (r: Self)
        ensures
            r@ == self@,
    {
        let mut keys: Vec<u8> = Vec::new();
        let mut i: usize = 0;
        while i < self.keys_down.len()
            invariant
                i <= self.keys_down@.len(),
                keys@ == self.keys_down@.take(i as int),
            decreases self.keys_down.len() - i,
        {
            keys.push(self.keys_down[i]);
            assert(self.keys_down@.take(i + 1) =~= self.keys_down@.take(i as int).push(self.keys_down@[i as int]));
            i += 1;
        }
        assert(self.keys_down@.take(i as int) =~= self.keys_down@);
        InputState { mouse_x: self.mouse_x, mouse_y: self.mouse_y, mouse_down: self.mouse_down, keys_down: keys }
    }
}

/// No key or button down, the mouse at the origin.
pub open spec fn idle_input() -> InputModel {
    InputModel { mouse_x: 0, mouse_y: 0, mouse_down: false, keys_down: seq![] }
}

/// An object on stage: a shape or a movie clip.
pub struct DisplayObject {
    /// The character it is an instance of.
    pub character: usize,
    /// The clip it is placed in; `None` for the root and for detached objects.
    pub parent: Option<usize>,
    /// Its depth among its siblings.
    pub depth: i32,
    /// Its instance name; empty for none.
    pub name: Vec<char>,
    /// Its children as (depth, object) pairs, by ascending depth.
    pub children: Vec<(i32, usize)>,
    /// The frame shown (1-based); 0 before its first frame.
    pub current_frame: usize,
    /// Whether its timeline advances on each tick.
    pub playing: bool,
    /// Whether it was removed from the stage.
    pub removed: bool,
    /// Whether its init actions have yet to run.
    pub init_pending: bool,
    /// A goto queued for the start of the next tick.
    pub pending_goto: Option<usize>,
    /// Whether it and its children are drawn.
    pub visible: bool,
    /// Its script object, which holds its variables.
    pub vars: usize,
}

/// What a display object holds.
pub struct DisplayModel {
    pub character: usize,
    pub parent: Option<usize>,
    pub depth: i32,
    pub name: Seq<char>,
    pub children: Seq<(i32, usize)>,
    pub current_frame: usize,
    pub playing: bool,
    pub removed: bool,
    pub init_pending: bool,
    pub pending_goto: Option<usize>,
    pub visible: bool,
    pub vars: usize,
}

impl View for DisplayObject {
    type V = DisplayModel;

    open spec fn view(&self) -> DisplayModel {
        DisplayModel {
            character: self.character,
            parent: self.parent,
            depth: self.depth,
            name: self.name@,
            children: self.children@,
            current_frame: self.current_frame,
            playing: self.playing,
            removed: self.removed,
            init_pending: self.init_pending,
            pending_goto: self.pending_goto,
            visible: self.visible,
            vars: self.vars,
        }
    }
}

/// Everything a tick reads and changes.
pub struct Stage {
    /// The content version.
    pub version: u8,
    /// The display objects, by id; 0 is the root.
    pub objs: Vec<DisplayObject>,
    /// The script objects.
    pub store: ObjectStore,
    /// The trace lines emitted so far.
    pub trace: Vec<Vec<char>>,
    /// Script work of the current tick, in order.
    pub queue: Vec<Job>,
    /// Script work queued for the next tick.
    pub next_tick: Vec<Job>,
    /// Every load started, by index.
    pub loads: Vec<PendingLoad>,
    /// Fetches not yet handed to the host.
    pub requests: Vec<LoadRequest>,
    /// The background color.
    pub background: u32,
    /// The latest input report from the host.
    pub input_latest: InputState,
    /// The input report that scripts of the current tick read.
    pub input: InputState,
    /// Audio requests not yet handed to the host, in issue order.
    pub audio: Vec<AudioCommand>,
    /// The structural defects skipped so far, in order.
    pub diagnostics: Vec<Diagnostic>,
}

/// What the stage holds.
pub struct StageModel {
    pub version: u8,
    pub objs: Seq<DisplayModel>,
    pub store: Seq<ObjectModel>,
    pub trace: Seq<Seq<char>>,
    pub queue: Seq<Job>,
    pub next_tick: Seq<Job>,
    pub loads: Seq<PendingLoad>,
    pub requests: Seq<RequestModel>,
    pub background: u32,
    pub input_latest: InputModel,
    pub input: InputModel,
    pub audio: Seq<AudioCommand>,
    pub diagnostics: Seq<Diagnostic>,
}

/// The models of display objects.
pub open spec fn objs_model(v: Seq<DisplayObject>) -> Seq<DisplayModel> {
    v.map_values(|o: DisplayObject| o@)
}

impl View for Stage {
    type V = StageModel;

    open spec fn view(&self) -> StageModel {
        StageModel {
            version: self.version,
            objs: objs_model(self.objs@),
            store: self.store.model(),
            trace: self.trace@.map_values(|t: Vec<char>| t@),
            queue: self.queue@,
            next_tick: self.next_tick@,
            loads: self.loads@,
            requests: self.requests@.map_values(|r: LoadRequest| r@),
            background: self.background,
            input_latest: self.input_latest@,
            input: self.input@,
            audio: self.audio@,
            diagnostics: self.diagnostics@,
        }
    }
}

/// The first position at or after `i` of a child at `depth`.
pub open spec fn find_depth(ch: Seq<(i32, usize)>, depth: i32, i: int) -> Option<int>
    decreases ch.len() - i,
{
    if i < 0 || i >= ch.len() {
        None
    } else if ch[i].0 == depth {
        Some(i)
    } else {
        find_depth(ch, depth, i + 1)
    }
}

/// Where a child at `depth` goes: before the first child at or after `i` that
/// lies deeper, else at the end.
pub open spec fn insert_pos(ch: Seq<(i32, usize)>, depth: i32, i: int) -> int
    decreases ch.len() - i,
{
    if i < 0 || i >= ch.len() {
        ch.len() as int
    } else if ch[i].0 > depth {
        i
    } else {
        insert_pos(ch, depth, i + 1)
    }
}

/// A new, empty script object.
pub open spec fn empty_object() -> ObjectModel {
    ObjectModel { props: seq![], proto: None, elements: None }
}

/// Whether object `id` exists.
pub open spec fn valid(m: StageModel, id: int) -> bool {
    0 <= id < m.objs.len()
}

/// The stage with a skipped defect recorded.
pub open spec fn diagnose(m: StageModel, d: Diagnostic) -> StageModel {
    StageModel { diagnostics: m.diagnostics.push(d), ..m }
}

/// The stage after placing a new instance of `character` at `depth` in `parent`.
/// Where `parent` is no object, the depth is taken, the character does not
/// exist, or the stage is full, the placement is skipped with a diagnostic.
pub open spec fn place(movie: &Movie, m: StageModel, parent: int, depth: i32, character: int, name: Seq<char>) -> StageModel {
    if !valid(m, parent) {
        diagnose(m, Diagnostic::NoSuchObject(parent as usize))
    } else if find_depth(m.objs[parent].children, depth, 0) is Some {
        diagnose(m, Diagnostic::DepthTaken { parent: parent as usize, depth })
    } else if !(0 <= character < movie.characters@.len()) {
        diagnose(m, Diagnostic::NoSuchCharacter(character as usize))
    } else if m.objs.len() >= MAX_OBJECTS || m.store.len() >= MAX_OBJECTS {
        diagnose(m, Diagnostic::StageFull)
    } else {
        let id = m.objs.len() as usize;
        let p = m.objs[parent];
        let k = insert_pos(p.children, depth, 0);
        let o = DisplayModel {
            character: character as usize,
            parent: Some(parent as usize),
            depth,
            name,
            children: seq![],
            current_frame: 0,
            playing: true,
            removed: false,
            init_pending: movie.characters@[character].is_clip,
            pending_goto: None,
            visible: true,
            vars: m.store.len() as usize,
        };
        StageModel {
            objs: m.objs.update(parent, DisplayModel { children: p.children.insert(k, (depth, id)), ..p }).push(o),
            store: m.store.push(empty_object()),
            ..m
        }
    }
}

/// The stage with object `id` marked removed.
pub open spec fn mark_removed(m: StageModel, id: int) -> StageModel {
    if valid(m, id) {
        StageModel { objs: m.objs.update(id, DisplayModel { removed: true, ..m.objs[id] }), ..m }
    } else {
        m
    }
}

/// The stage after removing the child at `depth` of `parent`, which is marked
/// removed; where there is none, the removal is skipped with a diagnostic.
pub open spec fn remove(m: StageModel, parent: int, depth: i32) -> StageModel {
    if !valid(m, parent) {
        diagnose(m, Diagnostic::NoSuchObject(parent as usize))
    } else {
        match find_depth(m.objs[parent].children, depth, 0) {
            None => diagnose(m, Diagnostic::NothingAtDepth { parent: parent as usize, depth }),
            Some(k) => {
                let p = m.objs[parent];
                let id = p.children[k].1;
                mark_removed(
                    StageModel { objs: m.objs.update(parent, DisplayModel { children: p.children.remove(k), ..p }), ..m },
                    id as int,
                )
            },
        }
    }
}

/// Whether object `id` or one of its first `fuel` ancestors was removed, or the
/// chain reaches past the objects.
pub open spec fn destroyed(objs: Seq<DisplayModel>, id: int, fuel: nat) -> bool
    decreases fuel,
{
    if id < 0 || id >= objs.len() {
        true
    } else if objs[id].removed {
        true
    } else {
        match objs[id].parent {
            None => false,
            Some(p) => if fuel == 0 {
                false
            } else {
                destroyed(objs, p as int, (fuel - 1) as nat)
            },
        }
    }
}

/// Whether a display object is destroyed: it or an ancestor was removed.
pub open spec fn is_destroyed(m: StageModel, id: int) -> bool {
    destroyed(m.objs, id, m.objs.len())
}

/// The stage after detaching object `id` from its parent, keeping it alive;
/// nothing changes where it is not a child of its parent.
pub open spec fn detach(m: StageModel, id: int) -> StageModel {
    if !valid(m, id) || m.objs[id].parent is None {
        m
    } else {
        let p = m.objs[id].parent.unwrap() as int;
        if !valid(m, p) {
            m
        } else {
            match find_depth(m.objs[p].children, m.objs[id].depth, 0) {
                Some(k) => if m.objs[p].children[k].1 == id && p != id {
                    let po = m.objs[p];
                    let o = m.objs[id];
                    StageModel {
                        objs: m.objs.update(p, DisplayModel { children: po.children.remove(k), ..po }).update(
                            id,
                            DisplayModel { parent: None, ..o },
                        ),
                        ..m
                    }
                } else {
                    m
                },
                None => m,
            }
        }
    }
}

/// The stage after attaching the detached, not removed object `id` to `parent`
/// at `depth`; nothing changes where that does not apply or the depth is taken.
pub open spec fn attach(m: StageModel, id: int, parent: int, depth: i32) -> StageModel {
    if !valid(m, id) || !valid(m, parent) || id == parent || m.objs[id].parent is Some || m.objs[id].removed
        || find_depth(m.objs[parent].children, depth, 0) is Some {
        m
    } else {
        let po = m.objs[parent];
        let o = m.objs[id];
        let k = insert_pos(po.children, depth, 0);
        StageModel {
            objs: m.objs.update(parent, DisplayModel { children: po.children.insert(k, (depth, id as usize)), ..po }).update(
                id,
                DisplayModel { parent: Some(parent as usize), depth, ..o },
            ),
            ..m
        }
    }
}


/// The position of the child at `depth`, as `find_depth` says.
pub fn find_child(ch: &Vec<(i32, usize)>, depth: i32) -> (r: Option<usize>)
    ensures
        r is Some <==> find_depth(ch@, depth, 0) is Some,
        r is Some ==> r.unwrap() as int == find_depth(ch@, depth, 0).unwrap() && r.unwrap() < ch@.len()
            && ch@[r.unwrap() as int].0 == depth,
{
    let mut i: usize = 0;
    while i < ch.len()
        invariant
            i <= ch.len(),
            find_depth(ch@, depth, 0) == find_depth(ch@, depth, i as int),
        decreases ch.len() - i,
    {
        if ch[i].0 == depth {
            return Some(i);
        }
        i += 1;
    }
    None
}

/// Where a child at `depth` goes, as `insert_pos` says.
fn insert_position(ch: &Vec<(i32, usize)>, depth: i32) -> (r: usize)
    ensures
        r as int == insert_pos(ch@, depth, 0),
        r <= ch@.len(),
{
    let mut i: usize = 0;
    while i < ch.len()
        invariant
            i <= ch.len(),
            insert_pos(ch@, depth, 0) == insert_pos(ch@, depth, i as int),
        decreases ch.len() - i,
    {
        if ch[i].0 > depth {
            return i;
        }
        i += 1;
    }
    i
}

/// An empty display object, left in a slot while its occupant is worked on.
fn placeholder() -> DisplayObject {
    DisplayObject {
        character: 0,
        parent: None,
        depth: 0,
        name: Vec::new(),
        children: Vec::new(),
        current_frame: 0,
        playing: false,
        removed: false,
        init_pending: false,
        pending_goto: None,
        visible: false,
        vars: 0,
    }
}

/// Take object `id` out of `objs`, leaving a placeholder.
pub(crate) fn take_obj(objs: &mut Vec<DisplayObject>, id: usize) -> (r: DisplayObject)
    requires
        id < old(objs)@.len(),
    ensures
        r@ == objs_model(old(objs)@)[id as int],
        final(objs)@.len() == old(objs)@.len(),
        forall|j: int| 0 <= j < old(objs)@.len() && j != id ==> final(objs)@[j] == old(objs)@[j],
{
    let mut o = placeholder();
    objs.set_and_swap(id, &mut o);
    o
}

/// Put object `id` back after `take_obj`.
pub(crate) fn put_obj(objs: &mut Vec<DisplayObject>, id: usize, o: DisplayObject, before: Ghost<Seq<DisplayModel>>)
    requires
        id < old(objs)@.len(),
        old(objs)@.len() == before@.len(),
        forall|j: int| 0 <= j < before@.len() && j != id ==> old(objs)@[j]@ == before@[j],
    ensures
        objs_model(final(objs)@) == before@.update(id as int, o@),
        final(objs)@.len() == old(objs)@.len(),
{
    objs.set(id, o);
    assert(objs_model(objs@) =~= before@.update(id as int, o@));
}

impl Stage {
    /// A stage showing only the root clip, before its first frame, with its
    /// script object as object 0.
    pub fn new(version: u8) -> (r: Self)
        ensures
            r@ == initial_stage(version),
    {
        let mut store = ObjectStore::new();
        let vars = store.create_object(None);
        let root = DisplayObject {
            character: 0,
            parent: None,
            depth: 0,
            name: Vec::new(),
            children: Vec::new(),
            current_frame: 0,
            playing: true,
            removed: false,
            init_pending: false,
            pending_goto: None,
            visible: true,
            vars,
        };
        let mut objs: Vec<DisplayObject> = Vec::new();
        objs.push(root);
        let r = Stage {
            version,
            objs,
            store,
            trace: Vec::new(),
            queue: Vec::new(),
            next_tick: Vec::new(),
            loads: Vec::new(),
            requests: Vec::new(),
            background: 0,
            input_latest: InputState::idle(),
            input: InputState::idle(),
            audio: Vec::new(),
            diagnostics: Vec::new(),
        };
        assert(r@.objs =~= initial_stage(version).objs);
        assert(r@.store =~= initial_stage(version).store);
        assert(r@.trace =~= initial_stage(version).trace);
        assert(r@.requests =~= initial_stage(version).requests);
        r
    }

    /// Record a skipped defect, as `diagnose` says.
    pub(crate) fn diagnose(&mut self, d: Diagnostic)
        ensures
            final(self)@ == diagnose(old(self)@, d),
    {
        self.diagnostics.push(d);
    }

    /// Place a new instance of `character` at `depth` in `parent`, as `place` says.
    pub fn place(&mut self, movie: &Movie, parent: usize, depth: i32, character: usize, name: &Vec<char>)
        ensures
            final(self)@ == place(movie, old(self)@, parent as int, depth, character as int, name@),
    {
        if parent >= self.objs.len() {
            self.diagnose(Diagnostic::NoSuchObject(parent));
            return;
        }
        assert(objs_model(self.objs@)[parent as int] == self.objs@[parent as int]@);
        if find_child(&self.objs[parent].children, depth).is_some() {
            self.diagnose(Diagnostic::DepthTaken { parent, depth });
            return;
        }
        if character >= movie.characters.len() {
            self.diagnose(Diagnostic::NoSuchCharacter(character));
            return;
        }
        if self.objs.len() >= MAX_OBJECTS || self.store.len() >= MAX_OBJECTS {
            self.diagnose(Diagnostic::StageFull);
            return;
        }
        let id = self.objs.len();
        let ghost m = self@;
        let vars = self.store.create_object(None);
        let ghost before = objs_model(self.objs@);
        let mut p = take_obj(&mut self.objs, parent);
        let k = insert_position(&p.children, depth);
        p.children.insert(k, (depth, id));
        put_obj(&mut self.objs, parent, p, Ghost(before));
        let o = DisplayObject {
            character,
            parent: Some(parent),
            depth,
            name: crate::value::copy_chars(name),
            children: Vec::new(),
            current_frame: 0,
            playing: true,
            removed: false,
            init_pending: movie.characters[character].is_clip,
            pending_goto: None,
            visible: true,
            vars,
        };
        let ghost mid = objs_model(self.objs@);
        self.objs.push(o);
        assert(objs_model(self.objs@) =~= mid.push(o@));
        assert(o@.children =~= Seq::<(i32, usize)>::empty());
        assert(self@.objs =~= place(movie, m, parent as int, depth, character as int, name@).objs);
    }

    /// Mark object `id` removed, as `mark_removed` says.
    pub(crate) fn mark_removed_at(&mut self, id: usize)
        ensures
            final(self)@ == mark_removed(old(self)@, id as int),
    {
        if id >= self.objs.len() {
            return;
        }
        let ghost before = objs_model(self.objs@);
        let mut o = take_obj(&mut self.objs, id);
        o.removed = true;
        put_obj(&mut self.objs, id, o, Ghost(before));
    }

    /// Remove the child at `depth` of `parent`, as `remove` says.
    pub fn remove(&mut self, parent: usize, depth: i32)
        ensures
            final(self)@ == remove(old(self)@, parent as int, depth),
    {
        if parent >= self.objs.len() {
            self.diagnose(Diagnostic::NoSuchObject(parent));
            return;
        }
        assert(objs_model(self.objs@)[parent as int] == self.objs@[parent as int]@);
        let k = match find_child(&self.objs[parent].children, depth) {
            Some(k) => k,
            None => {
                self.diagnose(Diagnostic::NothingAtDepth { parent, depth });
                return;
            },
        };
        let ghost before = objs_model(self.objs@);
        let mut p = take_obj(&mut self.objs, parent);
        let (_, id) = p.children.remove(k);
        put_obj(&mut self.objs, parent, p, Ghost(before));
        self.mark_removed_at(id);
    }

    /// Whether object `id` is destroyed, as `is_destroyed` says.
    pub fn is_destroyed(&self, id: usize) -> (r: bool)
        ensures
            r == is_destroyed(self@, id as int),
    {
        let ghost om = objs_model(self.objs@);
        let mut cur = id;
        let mut fuel: usize = self.objs.len();
        loop
            invariant
                om == objs_model(self.objs@),
                destroyed(om, id as int, om.len()) == destroyed(om, cur as int, fuel as nat),
            decreases fuel,
        {
            if cur >= self.objs.len() {
                return true;
            }
            assert(om[cur as int] == self.objs@[cur as int]@);
            if self.objs[cur].removed {
                return true;
            }
            match self.objs[cur].parent {
                None => {
                    return false;
                },
                Some(p) => {
                    if fuel == 0 {
                        return false;
                    }
                    cur = p;
                    fuel = fuel - 1;
                },
            }
        }
    }

    /// Detach object `id` from its parent, keeping it alive, as `detach` says.
    pub fn detach(&mut self, id: usize)
        ensures
            final(self)@ == detach(old(self)@, id as int),
    {
        if id >= self.objs.len() {
            return;
        }
        assert(objs_model(self.objs@)[id as int] == self.objs@[id as int]@);
        let p = match self.objs[id].parent {
            Some(p) => p,
            None => {
                return;
            },
        };
        if p >= self.objs.len() || p == id {
            return;
        }
        assert(objs_model(self.objs@)[p as int] == self.objs@[p as int]@);
        let k = match find_child(&self.objs[p].children, self.objs[id].depth) {
            Some(k) => k,
            None => {
                return;
            },
        };
        if self.objs[p].children[k].1 != id {
            return;
        }
        let ghost before = objs_model(self.objs@);
        let mut po = take_obj(&mut self.objs, p);
        po.children.remove(k);
        put_obj(&mut self.objs, p, po, Ghost(before));
        let ghost mid = objs_model(self.objs@);
        let mut o = take_obj(&mut self.objs, id);
        o.parent = None;
        put_obj(&mut self.objs, id, o, Ghost(mid));
    }

    /// Attach the detached object `id` to `parent` at `depth`, as `attach` says.
    pub fn attach(&mut self, id: usize, parent: usize, depth: i32)
        ensures
            final(self)@ == attach(old(self)@, id as int, parent as int, depth),
    {
        if id >= self.objs.len() || parent >= self.objs.len() || id == parent {
            return;
        }
        assert(objs_model(self.objs@)[id as int] == self.objs@[id as int]@);
        assert(objs_model(self.objs@)[parent as int] == self.objs@[parent as int]@);
        if self.objs[id].parent.is_some() || self.objs[id].removed {
            return;
        }
        if find_child(&self.objs[parent].children, depth).is_some() {
            return;
        }
        let ghost before = objs_model(self.objs@);
        let mut po = take_obj(&mut self.objs, parent);
        let k = insert_position(&po.children, depth);
        po.children.insert(k, (depth, id));
        put_obj(&mut self.objs, parent, po, Ghost(before));
        let ghost mid = objs_model(self.objs@);
        let mut o = take_obj(&mut self.objs, id);
        o.parent = Some(parent);
        o.depth = depth;
        put_obj(&mut self.objs, id, o, Ghost(mid));
    }
}

/// The stage before the first tick: the root clip alone, before its first frame.
pub open spec fn initial_stage(version: u8) -> StageModel {
    StageModel {
        version,
        objs: seq![
            DisplayModel {
                character: 0,
                parent: None,
                depth: 0,
                name: seq![],
                children: seq![],
                current_frame: 0,
                playing: true,
                removed: false,
                init_pending: false,
                pending_goto: None,
                visible: true,
                vars: 0,
            },
        ],
        store: seq![empty_object()],
        trace: seq![],
        queue: seq![],
        next_tick: seq![],
        loads: seq![],
        requests: seq![],
        background: 0,
        input_latest: idle_input(),
        input: idle_input(),
        audio: seq![],
        diagnostics: seq![],
    }
}


/// A fresh instantiation of a clip character is a new object whose init
/// actions are pending and which has not entered its first frame.
pub proof fn lemma_fresh_instance_has_init_pending(
    movie: &Movie,
    m: StageModel,
    parent: int,
    depth: i32,
    character: int,
    name: Seq<char>,
)
    requires
        valid(m, parent),
        find_depth(m.objs[parent].children, depth, 0) is None,
        0 <= character < movie.characters@.len(),
        m.objs.len() < MAX_OBJECTS,
        m.store.len() < MAX_OBJECTS,
    ensures
        ({
            let r = place(movie, m, parent, depth, character, name);
            &&& r.objs.len() == m.objs.len() + 1
            &&& r.objs[m.objs.len() as int].init_pending == movie.characters@[character].is_clip
            &&& r.objs[m.objs.len() as int].current_frame == 0
            &&& r.objs[m.objs.len() as int].parent == Some(parent as usize)
        }),
{
}

/// Detaching a live object and attaching it again keeps its init flag: a
/// reattached instance whose init actions ran does not run them again.
pub proof fn lemma_reattach_keeps_init(m: StageModel, id: int, parent: int, depth: i32)
    requires
        valid(m, id),
    ensures
        attach(detach(m, id), id, parent, depth).objs[id].init_pending == m.objs[id].init_pending,
        attach(detach(m, id), id, parent, depth).objs.len() == m.objs.len(),
{
}

} // verus!
