//! The decisions behind an editor's typed commands.
//!
//! A command reads a snapshot of the editor, its arguments and what happens at the prompt, and
//! says in a plan what the editor is to do, step by step. A step whose outcome decides what comes
//! next names the function that goes on from there. `prompt` turns what is typed into commands,
//! `command` lists them, and `run` runs one of them. `law` states what holds
//! of the commands, one by one and of all of them.
pub mod args;
pub mod buffers;
pub mod change;
pub mod character;
pub mod clipboard;
pub mod command;
pub mod diff;
pub mod document;
pub mod editor;
pub mod law;
pub mod number;
pub mod options;
pub mod plan;
pub mod prompt;
pub mod run;
pub mod save;
pub mod selection;
pub mod servers;
pub mod shell;
pub mod syntax;
pub mod text;
pub mod variable;
pub mod view;

