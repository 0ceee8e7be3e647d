pub mod habit;
pub mod move_action;
pub mod rename_action;
