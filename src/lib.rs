//! Table extraction and record reconstruction for knowledge-base pages that
//! publish their entities as HTML tables.
//!
//! A page is parsed into a list of plain nodes (`html`), its tables are read
//! into rows of column strings (`attack`), flat rows are regrouped into
//! parents and children, and each entity kind maps rows to typed records
//! (`attack::tactics`, `attack::techniques`, ...). Cell text is normalised by
//! `text`; lookups by id or name are in `search`.

pub mod attack;
pub mod error;
pub mod html;
pub mod search;
pub mod text;
