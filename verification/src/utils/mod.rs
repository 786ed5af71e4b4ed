pub mod four_bits;
pub mod text;
pub mod unicode;

pub use four_bits::FourBits;
