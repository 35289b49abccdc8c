use vstd::prelude::*;

use metaplex_token_metadata::state::{Key, Metadata, MAX_METADATA_LEN};
use metaplex_token_metadata::utils::try_from_slice_checked;

use crate::pubkey::Pubkey;

verus! {

/// A creator of a token, as its metadata names it.
#[derive(Clone, Copy, Debug)]
pub struct Creator {
    pub address: Pubkey,
    /// The creator's share of the royalties, in percent.
    pub share: u8,
}

/// What a sale reads of a token's metadata.
#[derive(Clone, Debug)]
pub struct TokenMetadata {
    /// The royalty on sales, in hundredths of a percent.
    pub seller_fee_basis_points: u16,
    pub creators: Option<Vec<Creator>>,
}

impl View for Creator {
    type V = (Seq<u8>, u8);

    open spec fn view(&self) -> (Seq<u8>, u8) {
        (self.address@, self.share)
    }
}

impl View for TokenMetadata {
    type V = (u16, Option<Seq<(Seq<u8>, u8)>>);

    open spec fn view(&self) -> (u16, Option<Seq<(Seq<u8>, u8)>>) {
        (
            self.seller_fee_basis_points,
            match self.creators {
                Some(cs) => Some(cs@.map_values(|c: Creator| c@)),
                None => None,
            },
        )
    }
}

/// The royalty basis points and the creators (address and share, in order)
/// of the token metadata that the account data `data` holds, or `None` where
/// it holds none.
pub uninterp spec fn metadata_fields(data: Seq<u8>) -> Option<(u16, Option<Seq<(Seq<u8>, u8)>>)>;

/// Reads the token metadata that the account data `data` holds, as
/// `metaplex_token_metadata::state::Metadata::from_account_info` reads it from
/// an account: by `metaplex_token_metadata::utils::try_from_slice_checked`
/// with the key `MetadataV1` and the length `MAX_METADATA_LEN` (679), which
/// Borsh-decodes the data after checking its first byte and its length.
/// Trusted: its result is `metadata_fields` of the data; none where the
/// length is not 679 or the first byte is neither `Uninitialized` (0) nor
/// `MetadataV1` (4). The call indexes `data[0]`, so the data must not be
/// empty.
#[verifier::external_body]
pub(crate) fn read_metadata(data: &[u8]) -> (r: Option<TokenMetadata>)
    requires
        data@.len() > 0,
    ensures
        match r {
            Some(m) => metadata_fields(data@) == Some(m@),
            None => metadata_fields(data@) is None,
        },
        data@.len() != 679 ==> r is None,
        data@[0] != 0 && data@[0] != 4 ==> r is None,
{
    let m: Metadata = try_from_slice_checked(data, Key::MetadataV1, MAX_METADATA_LEN).ok()?;
    let creators = m.data.creators.map(|cs| cs.iter().map(|c| Creator {
        address: Pubkey { bytes: c.address.to_bytes() },
        share: c.share,
    }).collect());
    Some(TokenMetadata { seller_fee_basis_points: m.data.seller_fee_basis_points, creators })
}

} // verus!
