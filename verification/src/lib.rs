//! Rules and content of a Dungeons & Dragons 5th edition character sheet:
//! abilities and proficiency, conditions, items and class content,
//! hit points and rests, coin purses and ability score generation, and the
//! logic of the sheet's panels (actions, spells, inventory).

pub mod ability;
pub mod proficiency;
pub mod text;
pub mod roll;
pub mod condition;
pub mod damage;
pub mod item;
pub mod mutator;
pub mod character;
pub mod criteria;
pub mod content;
pub mod currency;
pub mod hit_points;
pub mod rest;
pub mod generation;
pub mod display;
pub mod spells;
pub mod uses;
pub mod copies;
pub mod equipment_choice;
pub mod purchase;
pub mod order;
pub mod actions;
pub mod spell_sections;
pub mod spell_text;
