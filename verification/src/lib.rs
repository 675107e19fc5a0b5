//! Locating transport payloads in captured frames, and carrying the
//! resulting descriptors from the cores that produce them to the tasks that
//! consume them.
//!
//! - `packet_log`: the descriptor and its four-byte wire form;
//! - `walker`: the bounded pass over a frame's headers;
//! - `channel`: the bounded, lossy queue each core writes to;
//! - `emitter`: the set of channels, and the entry point of the packet path;
//! - `pipeline`: what a consumer sees of any history of emissions and drains;
//! - `buffer`: the reusable buffers records are read into;
//! - `drain`: the task that decodes what a channel hands over;
//! - `hook`: judging the answer to a request for the ingress hook.

pub mod packet_log;
pub mod walker;
pub mod buffer;
pub mod channel;
pub mod emitter;
pub mod pipeline;
pub mod drain;
pub mod hook;
