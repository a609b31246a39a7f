//! Core of the `skip` immediate-mode UI toolkit: colours and vectors, the
//! text-box editing model, keyboard and mouse input translation, resource
//! registration and the window event dispatcher with its frame scheduler.

pub mod color;
pub mod vec2;
pub mod io;
pub mod input;
pub mod dispatch;
pub mod cn;
pub mod coption;
pub mod text;
pub mod child;
pub mod size;
pub mod op;
pub mod on;
pub mod style;
pub mod align;
pub mod apply;
pub mod resource;

pub use align::{Center, End, Start};
pub use apply::{X, XY, Y};
pub use child::Manual;
pub use cn::TextBox;
pub use color::Color;
pub use coption::{CNone, COption, CSome};
pub use io::{Key, Mouse, State};
pub use on::{Hover, Mouses};
pub use op::{Assign, Dec, Divide, Inc, Mul};
pub use size::{Inherit, Screen};
pub use style::{Image, Plain};
pub use text::{Empty, Linear, Wrap};
pub use vec2::Vec2;
