pub mod beach;
pub mod color;
pub mod cookbook;
pub mod crab;
pub mod diet;
pub mod hunting;
pub mod ocean;
pub mod prey;
pub mod random;
pub mod reef;
pub mod text;
