//! A retained-mode UI component toolkit.
//!
//! An application builds a tree of typed widgets; the toolkit computes
//! layout, hit-testing, mouse-state propagation and a flattened list of
//! drawable primitives ([`shape::Shape`]) each frame.  The toolkit is
//! UI-only: it owns no window, no GPU context, no font rasterizer and no
//! event loop.
//!
//! All geometry lives in a fixed-point logical coordinate space where
//! `(-LOGICAL_ONE, -LOGICAL_ONE)` is the bottom-left corner of the viewport
//! and `(LOGICAL_ONE, LOGICAL_ONE)` the top-right corner.

pub use component::RawComponent;
pub use easy_component::{Component, HoveredStatus, Layout, Node, PositionnedChild};
pub use shape::{Font, Image, Shape, Vec2};
pub use ui::{Ui, UiMainComponentMutRef};

pub mod component;
pub mod easy_component;
pub mod predefined;
pub mod shape;
pub mod ui;
