//! A retained-mode user-interface layout and interaction engine.
//!
//! The engine keeps a tree of styled elements, lays them out in integer
//! pixel space against a viewport (absolute anchoring or greedy inline
//! flow with wrapping), shapes text into positioned glyph instances,
//! tracks hover/press/drag interaction state, and emits a flat, ordered
//! sequence of draw instances for an external instanced renderer.
//! Supporting modules hold the byte reader/writer, colour formats,
//! HTTP/WebSocket message framing and a few small utilities the
//! surrounding application shares with the engine.

pub mod bytes;
pub mod cipher;
pub mod cursor;
pub mod dirty;
pub mod element;
pub mod exclusive;
pub mod font;
pub mod formats;
pub mod hash;
pub mod instance;
pub mod interaction;
pub mod laws;
pub mod layout;
pub mod overflow;
pub mod px;
pub mod state;
pub mod style;
pub mod text;
pub mod unit;
pub mod ws;
pub mod vec2;

pub use bytes::ByteReader;
pub use cipher::Uncreative;
pub use hash::hash;
pub use ws::MessageDataType;
pub use bytes::ByteWriter;
pub use element::ElementType;
pub use element::UiElement;
pub use element::UiType;
pub use element::WrapMode;
pub use font::Font;
pub use formats::RGB;
pub use formats::RGBA;
pub use instance::RawUiElement;
pub use instance::UiInstance;
pub use interaction::Interaction;
pub use interaction::UiEvent;
pub use overflow::Overflow;
pub use overflow::OverflowAxis;
pub use state::UiState;
pub use style::Padding;
pub use style::Position;
pub use style::Style;
pub use style::UiBuilder;
pub use style::UiSize;
pub use unit::Align;
pub use unit::UiUnit;
pub use vec2::Vec2;
