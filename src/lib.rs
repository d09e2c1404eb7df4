pub mod active_peers;
pub mod laws;
pub mod manager;
pub mod registry;
pub mod table;
pub mod tie_break;
pub mod types;

pub use active_peers::ActivePeers;
pub use manager::{
    dial_failed, handle_connecting_result, settle_connecting_result, Completion, ConnectingOutput,
};
pub use registry::ActivePeersInner;
pub use tie_break::simultaneous_dial_tie_breaking;
pub use types::{
    ConnectError, Connection, ConnectionOrigin, DisconnectReason, NewConnection, PeerEvent, PeerId,
};
