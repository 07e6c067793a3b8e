//! The connector to an AMLL player.

pub mod amll_connector_manager;
pub mod audio_capture;
pub mod capture_step;
pub mod player_laws;
pub mod protocol;
pub mod session_laws;
pub mod smtc_handler;
pub mod translation;
pub mod types;
pub mod websocket_client;
pub mod wire;
pub mod wire_laws;
pub mod worker;

pub use types::{AMLLConnectorConfig, ConnectorCommand, NowPlayingInfo, WebsocketStatus};
