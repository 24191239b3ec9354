//! An append-only registry of companies kept on a ledger.
//!
//! A registry account holds the ordered list of the locations of every
//! company record ever created. Two transitions exist: the one-time
//! initialization of a registry, and the registration of a company, which
//! fills a fresh company record and appends its location to the registry as
//! one indivisible step. Both accounts have a fixed size; a registration that
//! would outgrow either is refused and changes nothing.

pub mod error;
pub mod instructions;
pub mod laws;
pub mod state;

pub use error::ErrorCode;
pub use instructions::{
    initialize_program, initialize_registry, register_company, InitializeRegistry,
    RegisterCompany,
};
pub use state::{
    Company, CompanyRegistry, CompanyView, COMPANY_FIXED_BYTES, COMPANY_SPACE,
    LENGTH_PREFIX_BYTES, MAX_COMPANIES, PUBKEY_BYTES, REGISTRY_SPACE,
};
