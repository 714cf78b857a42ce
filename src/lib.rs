//! A tabular data engine for a spreadsheet viewer: an in-memory cell store
//! addressed by row and column position, with positional insertion and
//! deletion, gap-filling range reads, dirty tracking, a pager over row
//! ranges, and a CSV format adapter.

pub mod error;
pub mod formats;
pub mod laws;
pub mod pager;
pub mod spreadsheet;

pub use error::SheetError;
pub use formats::{load_csv, save_csv, Format};
pub use pager::{Pager, PAGE_SIZE};
pub use spreadsheet::{InsertPosition, SheetView, Spreadsheet};
