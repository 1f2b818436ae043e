//! Client-side applet framework: colors, a DOM node model, declarative forms
//! and their submission pipeline, and the applet mounting plan.

pub mod applet;
pub mod builder;
pub mod calendar;
pub mod data;
pub mod dom;
pub mod form;
pub mod numeral;
