pub mod header;
pub mod name;
pub mod roundtrip;

pub use header::literalize;
pub use name::symbol_name_is_legal;
