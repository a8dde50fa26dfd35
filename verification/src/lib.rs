//! Command router and addon gateway for a terminal pixel editor, together
//! with the editor's pure data types: colors with alpha compositing,
//! canvases, cursor positions and viewports, and the textual drawing
//! command language.
//!
//! The gateway consumes an already-parsed configuration value
//! ([`json::JsonValue`]), validates it into an immutable [`config::Config`]
//! (fail fast, nothing partial), and derives from it the addon launch
//! plans, the mode routing table with its dispatch URLs, and the proxy
//! route table. Incoming command text is routed by [`router::route_command`]
//! under the mode-based strategy: `:<mode>` switches the active mode,
//! `-<mode> <param>` dispatches eagerly, anything else goes to the active
//! mode's targets.

pub mod canvas;
pub mod color;
pub mod command;
pub mod config;
pub mod imvec;
pub mod json;
pub mod numtext;
pub mod position;
pub mod router;
pub mod tui;
pub mod unit;
pub mod view;
