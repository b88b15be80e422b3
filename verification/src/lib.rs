//! Conversion of comma-separated contact records into VCard 2.1 text.

pub mod convert;
pub mod csv;
pub mod path;
pub mod session;
pub mod text;
pub mod vcard;

pub use convert::{convert_text, make_all_vcards, process_csv, Conversion};
pub use csv::read_csv_lines;
pub use path::{build_output_path, PathError};
pub use session::{status_message, VCardGenerator};
pub use vcard::{extract_vcard_data, make_vcard, Contact};
