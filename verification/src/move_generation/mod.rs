pub mod move_generation_abilities;
pub mod move_generation_attacks;
pub mod possible_actions;
pub mod slot_choices;

pub use possible_actions::generate_possible_actions;
