pub mod address;
pub mod executable;
pub mod mutable;
pub mod owner;
pub mod signer;
