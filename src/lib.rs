//! Playback core for legacy vector-animation content: a version-aware value and
//! object model, a small bytecode interpreter, a timeline scheduler over a live
//! display list, and a bridge that turns script-initiated loads into work that
//! the host carries out between ticks.
pub mod depths;
pub mod form;
pub mod frame_range;
pub mod interp;
pub mod movie;
pub mod navigator;
pub mod object;
pub mod pipelines;
pub mod player;
pub mod replay;
pub mod stage;
pub mod timeline;
pub mod value;
