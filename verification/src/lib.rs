//! History and tray logic of the Yeti3 cleaner.

pub mod amounts;
pub mod arguments;
pub mod choices;
pub mod clock;
pub mod convert;
pub mod history;
pub mod json;
pub mod lines;
pub mod paths;
pub mod places;
pub mod reading;
pub mod report;
pub mod selection;
pub mod settings;
pub mod text;
pub mod tray;
pub mod unambiguous;
pub mod windows;
