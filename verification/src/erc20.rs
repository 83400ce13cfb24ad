//! Resolution of ERC20 metadata from the raw responses of the batched
//! `name`/`symbol`/`decimals` calls.
//!
//! Strict ABI decoding happens in the feed; this module applies the
//! fallback for non-standard responses (raw bytes decoded as UTF-8 with
//! trailing zero bytes trimmed), validates the decimal precision, and
//! builds the resolved token record. Any missing required field makes the
//! whole resolution fail: no partial token is ever produced.

use vstd::prelude::*;

use crate::block::TokenMetadataResponses;
use crate::token::{Erc20Token, TokenModel};
use crate::util::{hex_encode, hex_of};

verus! {

/// What `String::from_utf8_lossy` decodes the bytes to.
pub uninterp spec fn utf8_lossy_of(bytes: Seq<u8>) -> Seq<char>;

/// Relies on `String::from_utf8_lossy`: the UTF-8 decoding of the bytes,
/// with invalid sequences replaced; a function of the bytes alone.
#[verifier::external_body]
fn utf8_lossy(bytes: &[u8]) -> (r: String)
    ensures
        r@ == utf8_lossy_of(bytes@),
{
    String::from_utf8_lossy(bytes).to_string()
}

/// Number of zero bytes at the end of the sequence.
pub open spec fn trailing_zero_count(bytes: Seq<u8>) -> nat
    decreases bytes.len(),
{
    if bytes.len() == 0 {
        0
    } else if bytes.last() == 0 {
        1 + trailing_zero_count(bytes.drop_last())
    } else {
        0
    }
}

/// The string a raw non-standard response decodes to: absent when every
/// byte is zero (or the response is empty), otherwise the lossy UTF-8
/// decoding of the bytes with trailing zero bytes trimmed.
pub open spec fn spec_read_string(bytes: Seq<u8>) -> Option<Seq<char>> {
    if forall|i: int| 0 <= i < bytes.len() ==> bytes[i] == 0 {
        None
    } else {
        Some(
            utf8_lossy_of(bytes.take(bytes.len() - trailing_zero_count(bytes))),
        )
    }
}

proof fn lemma_trailing_zero_count(bytes: Seq<u8>, i: int)
    requires
        0 <= i <= bytes.len(),
        forall|j: int| i <= j < bytes.len() ==> bytes[j] == 0,
        i > 0 ==> bytes[i - 1] != 0,
    ensures
        trailing_zero_count(bytes) == bytes.len() - i,
    decreases bytes.len(),
{
    if i == bytes.len() {
        if bytes.len() > 0 {
            assert(bytes.last() != 0);
        }
    } else {
        assert(bytes.last() == 0);
        assert forall|j: int| i <= j < bytes.drop_last().len() implies bytes.drop_last()[j]
            == 0 by {
            assert(bytes.drop_last()[j] == bytes[j]);
        }
        if i > 0 {
            assert(bytes.drop_last()[i - 1] == bytes[i - 1]);
        }
        lemma_trailing_zero_count(bytes.drop_last(), i);
    }
}

/// Decodes a raw response as UTF-8 after trimming trailing zero bytes;
/// absent when the response holds no nonzero byte.
pub fn read_string_from_bytes(input: &[u8]) -> (r: Option<String>)
    ensures
        r is Some <==> spec_read_string(input@) is Some,
        r matches Some(s) ==> spec_read_string(input@) == Some(s@),
{
    let n = input.len();
    let mut i: usize = n;
    while i > 0
        invariant
            0 <= i <= n,
            n == input@.len(),
            forall|j: int| i <= j < n ==> input@[j] == 0,
        decreases i,
    {
        if input[i - 1] != 0 {
            proof {
                lemma_trailing_zero_count(input@, i as int);
            }
            let mut trimmed: Vec<u8> = Vec::new();
            let mut k: usize = 0;
            while k < i
                invariant
                    0 <= k <= i <= n,
                    n == input@.len(),
                    trimmed@ =~= input@.take(k as int),
                decreases i - k,
            {
                trimmed.push(input[k]);
                proof {
                    assert(input@.take(k as int + 1) =~= input@.take(k as int).push(
                        input@[k as int],
                    ));
                }
                k = k + 1;
            }
            let s = utf8_lossy(trimmed.as_slice());
            proof {
                assert(input@[i - 1] != 0);
            }
            return Some(s);
        }
        i = i - 1;
    }
    proof {
        if !(forall|j: int| 0 <= j < input@.len() ==> input@[j] == 0) {
            let j = choose|j: int| 0 <= j < input@.len() && input@[j] != 0;
            assert(false);
        }
    }
    None
}

impl TokenMetadataResponses {
    /// The resolved token name: the strict decode when it succeeded, else
    /// the raw-bytes fallback.
    pub open spec fn spec_name(&self) -> Option<Seq<char>> {
        match self.name_decoded {
            Some(s) => Some(s@),
            None => spec_read_string(self.name_raw@),
        }
    }

    /// The resolved token symbol: the strict decode when it succeeded, else
    /// the raw-bytes fallback.
    pub open spec fn spec_symbol(&self) -> Option<Seq<char>> {
        match self.symbol_decoded {
            Some(s) => Some(s@),
            None => spec_read_string(self.symbol_raw@),
        }
    }

    /// Whether the decoded decimal precision exists and lies strictly
    /// between 0 and 255.
    pub open spec fn spec_valid_decimals(&self) -> bool {
        self.decimals_decoded matches Some(d) && 0 < d < 255
    }
}

/// Whether resolution succeeds for the given batched-call outcome.
pub open spec fn spec_resolves(responses: Option<TokenMetadataResponses>) -> bool {
    &&& responses is Some
    &&& responses->Some_0.spec_name() is Some
    &&& responses->Some_0.spec_symbol() is Some
    &&& responses->Some_0.spec_valid_decimals()
}

/// The model of the token that resolution yields for `address`, if it
/// succeeds.
pub open spec fn spec_resolve_token(
    address: Seq<u8>,
    responses: Option<TokenMetadataResponses>,
) -> Option<TokenModel> {
    if spec_resolves(responses) {
        Some(
            TokenModel {
                address: hex_of(address),
                name: responses->Some_0.spec_name()->Some_0,
                symbol: responses->Some_0.spec_symbol()->Some_0,
                decimals: responses->Some_0.decimals_decoded->Some_0,
            },
        )
    } else {
        None
    }
}

/// Resolves ERC20 metadata for `address` from the raw responses of one
/// batched metadata call (absent when the whole call failed). Resolution
/// fails, yielding no token at all, when the name or symbol can be
/// recovered neither strictly nor through the raw-bytes fallback, or when
/// the decimal precision is missing or outside (0, 255).
pub fn get_erc20_token(address: &[u8], responses: &Option<TokenMetadataResponses>) -> (r: Option<
    Erc20Token,
>)
    ensures
        r is Some <==> spec_resolves(*responses),
        r matches Some(t) ==> {
            &&& t.address@ == hex_of(address@)
            &&& Some(t.name@) == responses->Some_0.spec_name()
            &&& Some(t.symbol@) == responses->Some_0.spec_symbol()
            &&& Some(t.decimals) == responses->Some_0.decimals_decoded
            &&& t.wf()
            &&& Some(t.model()) == spec_resolve_token(address@, *responses)
        },
{
    let resp = match responses {
        Some(resp) => resp,
        None => {
            return None;
        },
    };
    let name = match &resp.name_decoded {
        Some(s) => s.clone(),
        None => {
            match read_string_from_bytes(resp.name_raw.as_slice()) {
                Some(s) => s,
                None => {
                    return None;
                },
            }
        },
    };
    let symbol = match &resp.symbol_decoded {
        Some(s) => s.clone(),
        None => {
            match read_string_from_bytes(resp.symbol_raw.as_slice()) {
                Some(s) => s,
                None => {
                    return None;
                },
            }
        },
    };
    let decimals = match resp.decimals_decoded {
        Some(d) => {
            if 0 < d && d < 255 {
                d
            } else {
                return None;
            }
        },
        None => {
            return None;
        },
    };
    Some(Erc20Token { address: hex_encode(address), name, symbol, decimals })
}

} // verus!
