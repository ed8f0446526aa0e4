//! The interactive front end of a command shell: an editable line of text,
//! the layout of that line on a terminal that wraps, and the table that turns
//! key presses into edits, a submission or the end of the session.
//!
//! Nothing here touches a terminal. The program around this library reads the
//! keys, asks the terminal for its size and writes what the functions here hand
//! back.

pub mod event;
pub mod input;
pub mod screen;
pub mod shell;
pub mod text;
