//! The boundary to the Soroban host: the host types that the treasury
//! carries, and the host calls that it makes. Nothing here is proved; each
//! item says what is taken on trust.

use soroban_sdk::address_payload::AddressPayload;
use soroban_sdk::token::TokenClient;
use soroban_sdk::xdr::{FromXdr, ToXdr};
use soroban_sdk::{Address, Bytes, InvokeError};
use vstd::prelude::*;

verus! {

/// An account or contract identity, `soroban_sdk::Address`, held as an
/// opaque value. Two addresses are equal when they name the same identity,
/// whichever host each was made on.
#[verifier::external_type_specification]
#[verifier::external_body]
pub struct ExAddress(Address);

/// What a failed call of a contract comes back with,
/// `soroban_sdk::InvokeError`, held as an opaque value: either one of the
/// contract's own error codes, such as the code for a balance that is too
/// low, or the word that the call was aborted, as it is when no contract
/// is deployed at the address, when the contract panics, or when the
/// sender has not authorized the debit.
#[verifier::external_type_specification]
#[verifier::external_body]
pub struct ExInvokeError(InvokeError);

/// Why the asset ledger did not carry out a transfer.
#[derive(Clone, Copy, Debug, PartialEq, Eq)]
pub enum LedgerRefusal {
    /// The address given as the asset ledger does not name a contract, so
    /// there is nothing that could be asked.
    NotAContract,
    /// The token contract was called and the call failed, with the error
    /// held here.
    Refused(InvokeError),
    /// The call returned, but not with the empty value a transfer returns,
    /// or an address could not be handed to the ledger's host.
    Malformed,
}

/// Whether an address is of the kind that names a contract, as opposed to
/// an account or another kind of holder. This is what `Address::to_payload`
/// gives as `AddressPayload::ContractIdHash`; it depends on the address
/// alone, not on what a host has deployed.
pub uninterp spec fn names_contract(address: Address) -> bool;

/// Tells whether an address names a contract, by taking its payload with
/// `Address::to_payload` and looking at the variant that comes back.
///
/// Trusted: the payload is `AddressPayload::ContractIdHash` for the
/// addresses that name a contract and for no others, and the same answer
/// comes back whenever it is asked of the same address.
#[verifier::external_body]
pub(crate) fn is_contract_address(address: &Address) -> (answer: bool)
    ensures
        answer == names_contract(*address),
{
    matches!(address.to_payload(), Some(AddressPayload::ContractIdHash(_)))
}

/// Asks the token contract at `asset` to move `amount` from `from` to `to`,
/// through `TokenClient::try_transfer` on the host that `asset` belongs to.
/// `from` and `to` may have been made on another host: they are handed
/// over in their serialized form (`ToXdr::to_xdr`, then `FromXdr::from_xdr`
/// on the ledger's host), which names the same identities there. The
/// answer is `Ok` when the transfer was made, `Err(Some(..))` with the
/// error of the failed call, and `Err(None)` when an address could not be
/// handed over or the call returned something other than the empty value.
///
/// The host panics when it is asked to call an address that does not name
/// a contract, so `asset` must name one. Trusted: with such an `asset` the
/// call returns instead of panicking when the contract is missing, fails or
/// refuses the transfer. Nothing is claimed about which answer comes back,
/// since that depends on the balances and authorizations that the ledger
/// holds. A host that runs out of its budget still aborts the call.
#[verifier::external_body]
pub(crate) fn ledger_transfer(
    asset: &Address,
    from: &Address,
    to: &Address,
    amount: i128,
) -> (answer: Result<(), Option<InvokeError>>)
    requires
        names_contract(*asset),
{
    let host = asset.env();
    let from =
        Address::from_xdr(host, &Bytes::from_slice(host, &from.to_xdr(from.env()).to_alloc_vec()));
    let to =
        Address::from_xdr(host, &Bytes::from_slice(host, &to.to_xdr(to.env()).to_alloc_vec()));
    let (Ok(from), Ok(to)) = (from, to) else {
        return Err(None);
    };
    match TokenClient::new(host, asset).try_transfer(&from, &to, &amount) {
        Ok(Ok(())) => Ok(()),
        Ok(Err(_)) => Err(None),
        Err(Ok(error)) => Err(Some(InvokeError::from(error))),
        Err(Err(invoke)) => Err(Some(invoke)),
    }
}

/// Compares two addresses with `Address::eq`.
///
/// Trusted: the comparison is by the identity that each address names, so
/// it agrees with equality of the opaque values.
#[verifier::external_body]
pub(crate) fn same_address(a: &Address, b: &Address) -> (same: bool)
    ensures
        same == (*a == *b),
{
    a == b
}

/// `Address::clone`, the copy that the derived `Clone` impl makes.
///
/// Trusted: the copy names the same identity as the address it was made from.
pub assume_specification[ <Address as Clone>::clone ](address: &Address) -> (copy: Address)
    ensures
        copy == *address,
;

} // verus!
