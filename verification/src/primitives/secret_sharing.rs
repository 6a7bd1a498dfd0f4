use vstd::prelude::*;
use sharks::{Share, Sharks};
use crate::bytes::{byte_strings, optional_bytes};

verus! {

/// The most shares that one secret can be split into.
pub const MAX_SHARES: usize = 255;

/// What `Sharks::recover` computes from shares, each given by its bytes, under
/// a threshold; nothing when it refuses them.
pub uninterp spec fn secret_recovered(threshold: u8, shares: Seq<Seq<u8>>) -> Option<Seq<u8>>;

/// `Sharks::dealer` on a secret of at least one byte, taking the first
/// `count` shares, each as its bytes.
/// Believed: there are at most 255 shares; share number `i` starts with the
/// byte `i + 1` and is one byte longer than the secret; and with threshold 2
/// any two different shares recover the secret, while one share given twice
/// recovers nothing.
#[verifier::external_body]
pub(crate) fn deal_shares(threshold: u8, secret: &[u8], count: usize) -> (shares: Vec<
    Vec<u8>,
>)
    requires
        secret@.len() >= 1,
    ensures
        shares@.len() == if count <= MAX_SHARES { count } else { MAX_SHARES },
        forall|i: int|
            0 <= i < shares@.len() ==> (#[trigger] shares@[i])@.len() == secret@.len() + 1
                && shares@[i]@[0] == i + 1,
        threshold == 2 ==> forall|i: int, j: int|
            0 <= i < shares@.len() && 0 <= j < shares@.len() && i != j ==> secret_recovered(
                threshold,
                seq![#[trigger] shares@[i]@, #[trigger] shares@[j]@],
            ) == Some(secret@),
        threshold == 2 ==> forall|i: int|
            0 <= i < shares@.len() ==> secret_recovered(
                threshold,
                seq![#[trigger] shares@[i]@, shares@[i]@],
            ).is_none(),
{
    Sharks(threshold).dealer(secret).take(count).map(|share| Vec::from(&share)).collect()
}

/// `Sharks::recover` on shares given by their bytes, each read with
/// `Share::try_from`. Believed: a share of fewer than 2 bytes is refused; two
/// shares that start with the same byte do not reach a threshold of 2; a
/// secret that comes out is one byte shorter than the first share.
#[verifier::external_body]
pub(crate) fn recover_secret(threshold: u8, shares: &Vec<Vec<u8>>) -> (secret: Option<Vec<u8>>)
    ensures
        optional_bytes(secret) == secret_recovered(threshold, byte_strings(shares@)),
        (exists|i: int| 0 <= i < shares@.len() && (#[trigger] shares@[i])@.len() < 2)
            ==> secret.is_none(),
        threshold >= 2 && shares@.len() == 2 && shares@[0]@.len() >= 1 && shares@[1]@.len() >= 1
            && shares@[0]@[0] == shares@[1]@[0] ==> secret.is_none(),
        secret.is_some() ==> shares@.len() >= 1 && secret.unwrap()@.len() + 1
            == shares@[0]@.len(),
{
    let mut parsed: Vec<Share> = Vec::new();
    for bytes in shares {
        parsed.push(Share::try_from(bytes.as_slice()).ok()?);
    }
    Sharks(threshold).recover(&parsed).ok()
}

} // verus!
