//! Client-side logic for a railway timetable web page: encoding a typed
//! timetable query into the URL parameters the remote endpoint expects, and
//! parsing the returned HTML into an ordered list of connection records.

pub mod error;
pub mod model;
pub mod query;
pub mod scan;
pub mod parse;

pub use error::{BahnError, BahnResult};
pub use model::{Date, Line, Station, TimeOfDay};
pub use parse::{parse_block, parse_blocks, parse_timetable, ConnectionEntry};
pub use query::{query_params, BoardType, ProductSet, ProductType, TimeTableQuery};
