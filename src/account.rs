use vstd::prelude::*;
use vstd::utf8::encode_utf8;

verus! {

/// An identity as the host attests it: 32 opaque bytes.
#[derive(Debug, Clone, Copy, PartialEq, Eq, Hash)]
pub struct AccountId {
    pub bytes: [u8; 32],
}

impl View for AccountId {
    type V = Seq<u8>;

    open spec fn view(&self) -> Seq<u8> {
        self.bytes@
    }
}

impl AccountId {
    pub fn new(bytes: [u8; 32]) -> (r: AccountId)
        ensures
            r.bytes == bytes,
    {
        AccountId { bytes }
    }

    /// Compares two identities byte by byte.
    pub fn is(&self, other: &AccountId) -> (r: bool)
        ensures
            r == (self@ == other@),
    {
        let mut i: usize = 0;
        while i < 32
            invariant
                i <= 32,
                self@.len() == 32,
                other@.len() == 32,
                forall|j: int| 0 <= j < i ==> self@[j] == other@[j],
            decreases 32 - i,
        {
            if self.bytes[i] != other.bytes[i] {
                return false;
            }
            i += 1;
        }
        assert(self@ =~= other@);
        true
    }

    /// Reads an identity from its textual form: the UTF-8 bytes of `s`,
    /// which must be exactly 32 of them.
    pub fn from_text(s: &String) -> (r: Option<AccountId>)
        ensures
            r is Some <==> encode_utf8(s@).len() == 32,
            r matches Some(a) ==> a@ == encode_utf8(s@),
    {
        account_from_slice(s.as_str().as_bytes())
    }
}

/// Relies on `ink::primitives::AccountId::try_from(&[u8])`, which copies the
/// slice into a `[u8; 32]` and fails exactly when its length is not 32.
#[verifier::external_body]
fn account_from_slice(b: &[u8]) -> (r: Option<AccountId>)
    ensures
        r is Some <==> b@.len() == 32,
        r matches Some(a) ==> a@ == b@,
{
    match ink::primitives::AccountId::try_from(b) {
        Ok(a) => Some(AccountId { bytes: a.0 }),
        Err(_) => None,
    }
}

} // verus!
