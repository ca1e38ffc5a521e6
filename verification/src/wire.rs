//! The message that asks a token contract to hand a token over.

use vstd::prelude::*;

verus! {

/// What `cosmwasm_std::to_binary` makes of the token standard's transfer
/// message for `recipient` and `token_id`: the bytes of its JSON encoding,
/// or `None` where the message cannot be encoded.
pub uninterp spec fn transfer_nft_json(recipient: Seq<char>, token_id: Seq<char>) -> Option<
    Seq<u8>,
>;

/// `cosmwasm_std::to_binary` on `cw721::Cw721ExecuteMsg::TransferNft`: the
/// JSON encoding of the message, which depends on the two strings alone.
#[verifier::external_body]
#[allow(deprecated)]
pub(crate) fn encode_transfer_nft(recipient: &String, token_id: &String) -> (encoded: Result<
    Vec<u8>,
    cosmwasm_std::StdError,
>)
    ensures
        match encoded {
            Ok(bytes) => transfer_nft_json(recipient@, token_id@) == Some(bytes@),
            Err(_) => transfer_nft_json(recipient@, token_id@) is None,
        },
{
    let msg = cw721::Cw721ExecuteMsg::TransferNft {
        recipient: recipient.clone(),
        token_id: token_id.clone(),
    };
    match cosmwasm_std::to_binary(&msg) {
        Ok(binary) => Ok(binary.0),
        Err(e) => Err(e),
    }
}

} // verus!
