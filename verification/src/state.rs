//! The two kinds of account and the space each of them is given.

use anchor_lang::prelude::Pubkey;
use vstd::prelude::*;
use vstd::utf8::encode_utf8;

verus! {

/// `anchor_lang::prelude::Pubkey`, the 32-byte address of an account or of a
/// signer. Nothing is claimed of what it holds: the registry only stores and
/// hands on such values, and two of them are the same in a contract exactly
/// when they are the same value.
#[verifier::external_type_specification]
#[verifier::external_body]
pub struct ExPubkey(anchor_lang::prelude::Pubkey);

/// Bytes of account data given to a registry.
pub const REGISTRY_SPACE: usize = 1024;

/// Bytes of account data given to a company record.
pub const COMPANY_SPACE: usize = 256;

/// Bytes that the stored form of a list or of a text spends on its length.
pub const LENGTH_PREFIX_BYTES: usize = 4;

/// Bytes that the stored form of an address takes.
pub const PUBKEY_BYTES: usize = 32;

/// The most companies that a registry can list: the largest count whose
/// stored form fits in `REGISTRY_SPACE`.
pub const MAX_COMPANIES: usize = 31;

/// Bytes of a stored company record that do not depend on its texts: two
/// length prefixes, two 64-bit numbers and two addresses.
pub const COMPANY_FIXED_BYTES: usize = 88;

/// A company: its name and ticker symbol, the share supply and price it
/// starts with, the signer that registered it, and the mint of its shares.
#[derive(Debug, PartialEq, Eq)]
pub struct Company {
    pub name: String,
    pub initial_supply: u64,
    pub initial_price: u64,
    pub symbol: String,
    pub owner: Pubkey,
    pub share_mint: Pubkey,
}

/// What a company record holds, as mathematical values.
pub ghost struct CompanyView {
    pub name: Seq<char>,
    pub initial_supply: u64,
    pub initial_price: u64,
    pub symbol: Seq<char>,
    pub owner: Pubkey,
    pub share_mint: Pubkey,
}

impl View for Company {
    type V = CompanyView;

    open spec fn view(&self) -> CompanyView {
        CompanyView {
            name: self.name@,
            initial_supply: self.initial_supply,
            initial_price: self.initial_price,
            symbol: self.symbol@,
            owner: self.owner,
            share_mint: self.share_mint,
        }
    }
}

/// The number of bytes that a company record with these texts takes when
/// stored: each text as its length prefix and its UTF-8 bytes, then the fixed
/// part.
pub open spec fn company_bytes(name: Seq<char>, symbol: Seq<char>) -> nat {
    COMPANY_FIXED_BYTES as nat + encode_utf8(name).len() + encode_utf8(symbol).len()
}

/// The number of bytes that a list of `count` locations takes when stored.
pub open spec fn registry_bytes(count: nat) -> nat {
    LENGTH_PREFIX_BYTES as nat + PUBKEY_BYTES as nat * count
}

/// The registry: the locations of all registered companies, oldest first.
#[derive(Debug, PartialEq, Eq)]
pub struct CompanyRegistry {
    pub companies: Vec<Pubkey>,
}

impl View for CompanyRegistry {
    type V = Seq<Pubkey>;

    open spec fn view(&self) -> Seq<Pubkey> {
        self.companies@
    }
}

impl CompanyRegistry {
    /// The list fits in the space of a registry account.
    pub open spec fn wf(&self) -> bool {
        registry_bytes(self@.len()) <= REGISTRY_SPACE
    }
}

} // verus!
