pub mod drawing;
pub mod key;
pub mod octopus;

pub use drawing::Point;
pub use key::{change_color, change_stroke_width, Color, Key, Keyboard, Stroke};
pub use octopus::{KeyEvent, KeyOutcome, Octopus};
