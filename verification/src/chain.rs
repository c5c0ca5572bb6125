//! What the core exchanges with the chain: the calls of a transaction, which
//! it carries without looking inside, and transaction hashes.

use vstd::prelude::*;

verus! {

/// A contract call of `starknet`. The core hands calls on as it got them.
#[verifier::external_type_specification]
#[verifier::external_body]
pub struct ExCall(starknet::core::types::Call);

/// A contract call, as the account collaborator builds and submits it.
pub type ContractCall = starknet::core::types::Call;

/// The error of `starknet` for a string that is no field element.
#[verifier::external_type_specification]
#[verifier::external_body]
pub struct ExFromStrError(starknet::core::types::FromStrError);

/// The field element that `Felt::from_hex` reads from a text, as its 32
/// big-endian bytes, or `None` where it refuses the text.
pub uninterp spec fn felt_from_hex(text: Seq<char>) -> Option<Seq<u8>>;

/// `Felt::from_hex`, followed by `Felt::to_bytes_be` on the element it read.
///
/// The result is a function of the text alone; nothing more is claimed of it.
#[verifier::external_body]
pub(crate) fn felt_bytes_from_hex(text: &str) -> (parsed: Result<
    [u8; 32],
    starknet::core::types::FromStrError,
>)
    ensures
        match parsed {
            Ok(bytes) => felt_from_hex(text@) == Some(bytes@),
            Err(_) => felt_from_hex(text@) is None,
        },
{
    match starknet::core::types::Felt::from_hex(text) {
        Ok(felt) => Ok(felt.to_bytes_be()),
        Err(error) => Err(error),
    }
}

/// The text that `Felt::to_hex_string` writes for the field element of 32
/// big-endian bytes: its hexadecimal digits behind `0x`.
pub uninterp spec fn felt_to_hex(bytes: Seq<u8>) -> Seq<char>;

/// `Felt::to_hex_string`, on the field element that `Felt::from_bytes_be`
/// makes of the bytes.
///
/// The result is a function of the bytes alone; nothing more is claimed of it.
#[verifier::external_body]
pub(crate) fn felt_hex_text(bytes: &[u8; 32]) -> (text: String)
    ensures
        text@ == felt_to_hex(bytes@),
{
    starknet::core::types::Felt::from_bytes_be(bytes).to_hex_string()
}

} // verus!
