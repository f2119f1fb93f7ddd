pub mod apply_abilities_action;
pub mod apply_action;
pub mod apply_attack_action;
pub mod apply_trainer_action;
pub mod apply_action_helpers;
pub mod board_mutations;
pub mod effects;
pub mod invariants;
pub mod mutations;
pub mod shared_mutations;
pub mod types;

pub use types::Action;
pub use types::SimpleAction;
pub use apply_action::ResolutionStatus;
