//! The document parser: grammar specification, the zero-allocation-style
//! content types, and the entry points that turn text into a component
//! tree.

pub mod calendar;
pub mod components;
pub mod grammar;
pub mod inverse;
pub mod parameters;
pub mod parsed_string;
pub mod properties;
pub mod render;
pub mod scan;

pub use crate::folding::unfold;
pub use calendar::read_calendar;
pub use calendar::read_calendar_simple;
pub use calendar::read_components;
pub use calendar::Calendar;
pub use components::read_component;
pub use components::Component;
pub use parameters::Parameter;
pub use parsed_string::ParseString;
pub use properties::Property;
