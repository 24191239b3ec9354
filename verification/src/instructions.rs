//! The transitions: initializing a registry and registering a company.

use crate::error::ErrorCode;
use crate::state::{
    company_bytes, registry_bytes, Company, CompanyRegistry, CompanyView, COMPANY_FIXED_BYTES,
    COMPANY_SPACE, MAX_COMPANIES, REGISTRY_SPACE,
};
use anchor_lang::prelude::Pubkey;
use vstd::prelude::*;

verus! {

/// The accounts of an initialization: the registry and the signer that pays
/// for it.
#[derive(Debug, PartialEq, Eq)]
pub struct InitializeRegistry {
    pub registry: CompanyRegistry,
    pub user: Pubkey,
}

/// The accounts of a registration: the fresh company record and the location
/// it is stored at, the registry, and the signer that registers the company.
#[derive(Debug, PartialEq, Eq)]
pub struct RegisterCompany {
    pub company: Company,
    pub company_key: Pubkey,
    pub registry: CompanyRegistry,
    pub user: Pubkey,
}

/// Whether a company with these texts can be added to a registry that lists
/// `index`: the longer list fits in a registry account and the record fits in
/// a company account.
pub open spec fn can_register(index: Seq<Pubkey>, name: Seq<char>, symbol: Seq<char>) -> bool {
    &&& registry_bytes(index.len() + 1) <= REGISTRY_SPACE
    &&& company_bytes(name, symbol) <= COMPANY_SPACE
}

/// What a registration request brings that decides its outcome: the location
/// of the fresh record and the two texts to be stored in it.
pub ghost struct Registration {
    pub location: Pubkey,
    pub name: Seq<char>,
    pub symbol: Seq<char>,
}

/// Whether a registry that lists `index` accepts the request.
pub open spec fn accepts(index: Seq<Pubkey>, request: Registration) -> bool {
    can_register(index, request.name, request.symbol)
}

/// What the registry lists after one request: the list with the new
/// location at its end where the request is accepted, the same list where it
/// is refused.
pub open spec fn index_after(index: Seq<Pubkey>, request: Registration) -> Seq<Pubkey> {
    if accepts(index, request) {
        index.push(request.location)
    } else {
        index
    }
}

/// Initializes a registry that lists nothing. One that lists a company is
/// refused with `AlreadyInitialized` and stays as it is, so that no entry is
/// ever lost. This is the guarded entry: it tests the list itself and then
/// hands on to `initialize_registry`.
pub fn initialize_program(ctx: &mut InitializeRegistry) -> (res: Result<(), ErrorCode>)
    ensures
        old(ctx).registry@.len() == 0 ==> res == Ok::<(), ErrorCode>(()),
        old(ctx).registry@.len() != 0 ==> res == Err::<(), ErrorCode>(
            ErrorCode::AlreadyInitialized,
        ),
        res is Ok ==> {
            &&& final(ctx).registry@ == Seq::<Pubkey>::empty()
            &&& final(ctx).registry.wf()
            &&& final(ctx).user == old(ctx).user
        },
        res is Err ==> *final(ctx) == *old(ctx),
        final(ctx).registry@ == old(ctx).registry@,
{
    if !ctx.registry.companies.is_empty() {
        return Err(ErrorCode::AlreadyInitialized);
    }
    initialize_registry(ctx)
}

/// Sets a registry that lists nothing to the empty list. One that lists a
/// company is refused with `AlreadyInitialized` and stays as it is.
pub fn initialize_registry(ctx: &mut InitializeRegistry) -> (res: Result<(), ErrorCode>)
    ensures
        old(ctx).registry@.len() == 0 ==> res == Ok::<(), ErrorCode>(()),
        old(ctx).registry@.len() != 0 ==> res == Err::<(), ErrorCode>(
            ErrorCode::AlreadyInitialized,
        ),
        res is Ok ==> {
            &&& final(ctx).registry@ == Seq::<Pubkey>::empty()
            &&& final(ctx).registry.wf()
            &&& final(ctx).user == old(ctx).user
        },
        res is Err ==> *final(ctx) == *old(ctx),
        final(ctx).registry@ == old(ctx).registry@,
{
    if !ctx.registry.companies.is_empty() {
        return Err(ErrorCode::AlreadyInitialized);
    }
    ctx.registry.companies = Vec::new();
    Ok(())
}

/// Registers a company: fills the record with the given values and the
/// signer as owner, appends the record's location to the registry, and
/// returns that location. Where the registry or the record has no room, it
/// changes nothing and reports `StorageExhausted`.
pub fn register_company(
    ctx: &mut RegisterCompany,
    name: String,
    initial_supply: u64,
    initial_price: u64,
    symbol: String,
) -> (res: Result<Pubkey, ErrorCode>)
    ensures
        can_register(old(ctx).registry@, name@, symbol@) ==> res == Ok::<Pubkey, ErrorCode>(
            old(ctx).company_key,
        ),
        !can_register(old(ctx).registry@, name@, symbol@) ==> res == Err::<Pubkey, ErrorCode>(
            ErrorCode::StorageExhausted,
        ),
        res is Ok ==> {
            &&& final(ctx).registry@ == old(ctx).registry@.push(old(ctx).company_key)
            &&& final(ctx).registry.wf()
            &&& final(ctx).company@ == (CompanyView {
                name: name@,
                initial_supply,
                initial_price,
                symbol: symbol@,
                owner: old(ctx).user,
                share_mint: old(ctx).company.share_mint,
            })
            &&& final(ctx).company_key == old(ctx).company_key
            &&& final(ctx).user == old(ctx).user
        },
        res is Err ==> *final(ctx) == *old(ctx),
        final(ctx).registry@ == index_after(
            old(ctx).registry@,
            (Registration { location: old(ctx).company_key, name: name@, symbol: symbol@ }),
        ),
{
    let name_len: usize = name.as_str().as_bytes().len();
    let symbol_len: usize = symbol.as_str().as_bytes().len();
    let text_room: usize = COMPANY_SPACE - COMPANY_FIXED_BYTES;
    if ctx.registry.companies.len() >= MAX_COMPANIES || name_len > text_room || symbol_len
        > text_room - name_len {
        return Err(ErrorCode::StorageExhausted);
    }
    ctx.company.name = name;
    ctx.company.initial_supply = initial_supply;
    ctx.company.initial_price = initial_price;
    ctx.company.symbol = symbol;
    ctx.company.owner = ctx.user;
    ctx.registry.companies.push(ctx.company_key);
    Ok(ctx.company_key)
}

} // verus!
