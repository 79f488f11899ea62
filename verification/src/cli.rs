//! What the commands of the command line decide and compute. Reading the
//! arguments, loading and saving the store and drawing the table are left
//! to the program around them.

pub mod add;
pub mod list;

pub use self::add::Add;
pub use self::list::List;
