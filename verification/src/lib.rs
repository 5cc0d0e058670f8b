pub mod behavior;
pub mod channel;
pub mod data;
pub mod filter;
pub mod frame;
pub mod ingest;
pub mod kind;
pub mod pane;
pub mod registry;
pub mod session;
pub mod tiles;

pub use session::App;
