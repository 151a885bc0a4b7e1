pub mod clock;
pub mod jwt;
