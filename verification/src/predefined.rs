//! Predefined components, ready to be used inside a widget tree.

pub use self::basic::BasicComponent;
pub use self::button::{ButtonComponent, PressedEvent};
pub use self::counter::CounterComponent;
pub use self::input::InputComponent;
pub use self::panel::PanelComponent;
pub use self::text::TextComponent;

pub mod basic;
pub mod button;
pub mod counter;
pub mod input;
pub mod panel;
pub mod text;
