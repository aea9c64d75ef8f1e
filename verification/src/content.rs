//! Game content: items, backgrounds, classes, cultures, lineages and upbringings.

pub mod background;
pub mod class;
pub mod culture;
pub mod items;
pub mod lineage;
pub mod upbringing;
