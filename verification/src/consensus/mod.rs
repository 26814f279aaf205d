pub mod difficulty;
pub mod pos;
pub mod pow;
