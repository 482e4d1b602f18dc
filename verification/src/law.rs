//! What holds of the commands when they are run, command by command and of all of them.
pub mod closing;
pub mod editing;
pub mod force;
pub mod naming;
pub mod saving;
pub mod serving;
pub mod setting;
pub mod showing;
pub mod typing;
pub mod yanking;
