//! Recovery of sign text and book contents from Minecraft Java Edition saves.
//!
//! The library holds the region-file decoder, the choice of chunk layout by
//! world version, the extraction of signs and books from decoded chunks, the
//! text normalizers, the ordering of records and the rendering of the two
//! reports.

pub mod chunk;
pub mod extract;
pub mod inflate;
pub mod naming;
pub mod normalize;
pub mod order;
pub mod region;
pub mod report;
pub mod text;
pub mod version;
