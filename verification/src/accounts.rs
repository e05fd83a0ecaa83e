pub mod borsh_account;
pub mod bytemuck_account;
pub mod mutable;
pub mod rest;
pub mod seeded;
pub mod program;
pub mod signer;
