pub mod action;
pub mod jsonl;
pub mod meta;
pub mod naming;
pub mod projection;
pub mod skills;
pub mod sources;
pub mod warnings;
