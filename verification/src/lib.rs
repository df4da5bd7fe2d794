//! Locating Android packages on a mirror site: turning its listing and release
//! pages into records, and walking the redirect chain to the file itself.
//!
//! The library reads pages and decides; it fetches nothing and writes nothing.
//! A program around it fetches the page that the library asks for and hands
//! over the page's text.
//!
//! - `apkmirror` holds the site: the session, listing pages, release pages, the
//!   walk from a variant to its file, and the plan of a transfer.
//! - `choice` reads what a person asked for on the command line.
//! - `dom` is the door to the HTML parser and the selector engine: what the
//!   library believes of them stands there, and is not proved.
//! - `errors` holds the library's errors, `text` its operations on text, where
//!   what it believes of `str::trim` stands, and `utils` the compiling of
//!   selectors.

pub mod apkmirror;
pub mod choice;
pub mod dom;
pub mod errors;
pub mod text;
pub mod utils;
