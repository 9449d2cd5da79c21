//! A text input viewport for terminal user interfaces: cursor, scrolling,
//! key and click dispatch, and the cell grid that a terminal backend paints.
pub mod geometry;
pub mod scroll;
pub mod content;
pub mod keys;
pub mod input_field;
pub mod render;
pub mod style;

pub use content::InputFieldContent;
pub use geometry::{Area, Pos};
pub use input_field::InputField;
pub use keys::{Event, KeyCode, KeyEvent, KeyModifiers};
pub use render::{Cell, CellStyle, ELLIPSIS, PASSWORD_MASK, scrollbar_thumb};
pub use scroll::{NARROW_WIDTH, fix_scroll};
pub use style::{ScrollBarStyle, StyledChar};
