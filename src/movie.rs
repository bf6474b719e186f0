//! The decoded input: characters with their timelines, tags and actions.
use vstd::prelude::*;
use crate::value::Value;
use crate::navigator::SendVarsMethod;

verus! {

/// One bytecode action.
pub enum Action {
    /// Push a value.
    Push(Value),
    /// Drop the top value.
    Pop,
    /// Pop `b`, pop `a`, push `a + b`.
    Add,
    /// Pop `b`, pop `a`, push `a - b`.
    Subtract,
    /// Pop `b`, pop `a`, push `a * b`.
    Multiply,
    /// Pop `b`, pop `a`, push `a / b`.
    Divide,
    /// Pop `b`, pop `a`, push `a == b`.
    Equals,
    /// Pop `b`, pop `a`, push `a === b`.
    StrictEquals,
    /// Pop `b`, pop `a`, push `a < b`.
    Less,
    /// Pop `a`, push its negated truth.
    Not,
    /// Pop a value and emit its text as a trace line.
    Trace,
    /// Pop a name, push the current target's variable of that name.
    GetVariable,
    /// Pop a value, pop a name, set the current target's variable.
    SetVariable,
    /// Move the current target to a frame (1-based) and stop it there.
    GotoAndStop(u16),
    /// Move the current target to a frame (1-based) and let it play on.
    GotoAndPlay(u16),
    /// Move the current target to the first frame labelled with this name,
    /// keeping whether it plays.
    GotoLabel(Vec<char>),
    /// Make the child of the list's base clip with this instance name the
    /// current target for the actions that follow; an empty name makes the base
    /// clip current again, and an unknown name leaves no current target.
    SetTarget(Vec<char>),
    /// Push the mouse's horizontal position in this tick's input report.
    MouseX,
    /// Push the mouse's vertical position in this tick's input report.
    MouseY,
    /// Push whether this tick's input report has the key with this code down.
    IsKeyDown(u8),
    /// Ask the audio capability to start streaming a sound.
    StartSound(u16),
    /// Ask the audio capability to stop streaming a sound.
    StopSound(u16),
    /// Show or hide the current target.
    SetVisible(bool),
    /// Stop the current target.
    Stop,
    /// Let the current target play.
    Play,
    /// Pop `n` values (the first pushed is element 0) and push a new array of them.
    InitArray(usize),
    /// Push a new object without properties.
    InitObject,
    /// Pop a name, pop an object, push the object's value under that name.
    GetMember,
    /// Pop a value, pop a name, pop an object, and set the object's property.
    SetMember,
    /// Pop an object and push `null`, then its `for..in` names in reverse, so
    /// that popping yields them in order until the `null`.
    Enumerate,
    /// Push the value of a register of the running activation.
    PushRegister(u8),
    /// Copy the top value into a register of the running activation.
    StoreRegister(u8),
    /// Pop `args` values (the first pushed is the first argument), call
    /// function `function` on the current target, and push what it returns.
    CallFunction {
        /// The function called, by index.
        function: usize,
        /// How many arguments are popped.
        args: usize,
    },
    /// End the running function with the top value (`undefined` on an empty stack).
    Return,
    /// Start loading variables from a URL into the current target; when the load
    /// ends, the code block `callback` runs on the target with `success` set.
    /// The target's own variables go along as `method` says.
    LoadVariables {
        /// Where to load from.
        url: Vec<char>,
        /// The code block run when the load ends.
        callback: usize,
        /// How the target's variables are sent.
        method: SendVarsMethod,
    },
}

/// One record of a timeline frame.
pub enum Tag {
    /// Place a new instance of a character at a depth of the timeline's clip.
    PlaceObject {
        /// The depth, unique among siblings.
        depth: i32,
        /// The character placed.
        character: usize,
        /// The instance name; empty for none.
        name: Vec<char>,
    },
    /// Remove the instance at a depth.
    RemoveObject {
        /// The depth.
        depth: i32,
    },
    /// Set the stage's background color.
    SetBackgroundColor(u32),
    /// Actions run when the frame is shown.
    DoAction(Vec<Action>),
    /// A label for the frame.
    FrameLabel(Vec<char>),
    /// The end of the frame.
    ShowFrame,
    /// A record of a kind this player ignores.
    Unknown(u16),
}

/// One frame of a timeline.
pub struct Frame {
    /// The frame's tags, in order.
    pub tags: Vec<Tag>,
}

/// A character that timelines place: a shape, or a clip with its own timeline.
pub struct Character {
    /// Whether instances are movie clips; otherwise they are shapes.
    pub is_clip: bool,
    /// The clip's timeline.
    pub frames: Vec<Frame>,
    /// Actions run once for each new instance, before its frame actions.
    pub init_actions: Vec<Action>,
}

/// Which values fill a function's first registers when it is called, in this
/// order from register 1 on, before its arguments. It is fixed when the function
/// is defined.
#[derive(Clone, Copy, Debug, PartialEq, Eq, Structural)]
pub struct Preload {
    /// The current target's script object.
    pub this: bool,
    /// A new array of the arguments.
    pub arguments: bool,
    /// The superclass, which this player leaves undefined.
    pub super_: bool,
    /// The root clip's script object.
    pub root: bool,
    /// The script object of the current target's parent.
    pub parent: bool,
    /// The global object, which this player leaves undefined.
    pub global: bool,
}

/// A function that actions call.
pub struct Function {
    /// The size of its register file, at most 256.
    pub registers: u16,
    /// Which values fill its first registers.
    pub preload: Preload,
    /// Its actions.
    pub body: Vec<Action>,
}

/// A decoded movie: character 0 is the root timeline.
pub struct Movie {
    /// The content version, which selects coercion and naming rules.
    pub version: u8,
    /// The characters, by id.
    pub characters: Vec<Character>,
    /// Code blocks that load callbacks run, by index.
    pub code: Vec<Vec<Action>>,
    /// Functions that actions call, by index.
    pub functions: Vec<Function>,
}

/// The number of frames of a character's timeline.
pub open spec fn frame_count(movie: &Movie, c: int) -> int {
    if 0 <= c < movie.characters@.len() {
        movie.characters@[c].frames@.len() as int
    } else {
        0
    }
}

/// The tags of frame `f` (1-based) of character `c`.
pub open spec fn frame_tags(movie: &Movie, c: int, f: int) -> Seq<Tag> {
    if 1 <= f <= frame_count(movie, c) {
        movie.characters@[c].frames@[f - 1].tags@
    } else {
        seq![]
    }
}

/// A movie with a root timeline of at least one frame.
pub open spec fn movie_wf(movie: &Movie) -> bool {
    movie.characters@.len() > 0 && movie.characters@[0].is_clip && movie.characters@[0].frames@.len() > 0
}


/// Whether tag `k..` of frame `f` of character `c` holds a label `name`.
pub open spec fn label_in_tags(movie: &Movie, c: int, f: int, name: Seq<char>, k: int) -> bool
    decreases frame_tags(movie, c, f).len() - k,
{
    if k < 0 || k >= frame_tags(movie, c, f).len() {
        false
    } else {
        match frame_tags(movie, c, f)[k] {
            Tag::FrameLabel(l) => l@ == name || label_in_tags(movie, c, f, name, k + 1),
            _ => label_in_tags(movie, c, f, name, k + 1),
        }
    }
}

/// The first frame (1-based) from `f` on of character `c` labelled `name`.
pub open spec fn label_from(movie: &Movie, c: int, name: Seq<char>, f: int) -> Option<int>
    decreases frame_count(movie, c) + 1 - f,
{
    if f < 1 || f > frame_count(movie, c) {
        None
    } else if label_in_tags(movie, c, f, name, 0) {
        Some(f)
    } else {
        label_from(movie, c, name, f + 1)
    }
}

/// The frame of character `c` labelled `name`, if any.
pub open spec fn label_frame(movie: &Movie, c: int, name: Seq<char>) -> Option<int> {
    label_from(movie, c, name, 1)
}

/// Whether frame `f` of character `c` holds a label `name`, as `label_in_tags` says.
fn frame_has_label(movie: &Movie, c: usize, f: usize, name: &Vec<char>) -> (r: bool)
    requires
        c < movie.characters@.len(),
        1 <= f <= movie.characters@[c as int].frames@.len(),
    ensures
        r == label_in_tags(movie, c as int, f as int, name@, 0),
{
    let tags = &movie.characters[c].frames[f - 1].tags;
    let mut k: usize = 0;
    while k < tags.len()
        invariant
            tags@ == frame_tags(movie, c as int, f as int),
            k <= tags@.len(),
            label_in_tags(movie, c as int, f as int, name@, 0) == label_in_tags(movie, c as int, f as int, name@, k as int),
        decreases tags.len() - k,
    {
        match &tags[k] {
            Tag::FrameLabel(l) => {
                if crate::value::chars_eq(l, name) {
                    return true;
                }
            },
            _ => {},
        }
        k += 1;
    }
    false
}

/// The frame of character `c` labelled `name`, as `label_frame` says.
pub fn find_label(movie: &Movie, c: usize, name: &Vec<char>) -> (r: Option<usize>)
    ensures
        r is Some <==> label_frame(movie, c as int, name@) is Some,
        r is Some ==> r.unwrap() as int == label_frame(movie, c as int, name@).unwrap(),
{
    if c >= movie.characters.len() {
        return None;
    }
    let n = movie.characters[c].frames.len();
    let mut i: usize = 0;
    while i < n
        invariant
            c < movie.characters@.len(),
            n == frame_count(movie, c as int),
            i <= n,
            label_frame(movie, c as int, name@) == label_from(movie, c as int, name@, i + 1),
        decreases n - i,
    {
        if frame_has_label(movie, c, i + 1, name) {
            return Some(i + 1);
        }
        i += 1;
    }
    None
}

} // verus!
