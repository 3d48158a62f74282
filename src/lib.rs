//! Message chunking and windowed display for a chat room's history.
//!
//! A room's messages are kept oldest-first, either in fixed-size chunks
//! ([`chunks::RoomMsgChunks`]) or in one flat window with a hidden prefix
//! ([`display::DisplayChunks`]).
pub mod chunks;
pub mod display;
pub mod msg;
pub mod util;

pub use msg::{
    get_username_and_avatar, Account, Datetime, MediaExt, MediaType, Member, Msg, MsgComment, MsgEdit, MsgViewData,
    QueryMsg, Reaction, Room, Text,
};
pub use chunks::ChunkLoadCase;
pub use util::{Id, Tb};
