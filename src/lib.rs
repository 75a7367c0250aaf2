//! A row of labelled buttons in a borderless window: geometry, colours,
//! command line, pixel grid, rendering, pointer tracking, the surface
//! handshake, and the decisions of the event loop.
pub mod args;
pub mod color;
pub mod input;
pub mod layout;
pub mod pixels;
pub mod registry;
pub mod render;
pub mod session;
pub mod surface;

pub use args::{parse_config, ConfigError, Flag, Setup};
pub use color::{Argb, ArgbError};
pub use input::{ButtonState, Pointer};
pub use layout::Config;
pub use pixels::{shm_layout, PixelBuffer, PixelError, ShmLayout};
pub use registry::{Capability, Incomplete, Registry, RegistryBuilder};
pub use render::{render, GlyphClip, GlyphMask};
pub use session::{Event, Session, Step};
pub use surface::{Handshake, Phase};
