//! A retained-mode terminal widget tree: containers, text and buttons laid
//! out proportionally on a character grid, addressed by index paths, with
//! focus navigation and input triggers.

pub mod button;
pub mod container;
pub mod events;
pub mod handler;
pub mod layout;
pub mod laws;
pub mod navigation;
pub mod objects;
pub mod text;
pub mod triggers;

pub use button::{Action, ButtonObject};
pub use container::{ContainerObject, Flow, FlowDirection};
pub use handler::TuiHandler;
pub use objects::{
    Handle, HandleReturn, Object, ObjectCommand, ObjectError, Selectable, SelectionDirection,
    Widget,
};
pub use text::TextObject;
pub use triggers::{InputEvent, KeyInput, MouseAction, MouseTriggers, Trigger};
