use vstd::prelude::*;

verus! {

/// Opaque identity of the party that invokes an operation: the 32 bytes of an account.
#[derive(Clone, Copy, Debug)]
pub struct AccountId {
    pub bytes: [u8; 32],
}

impl AccountId {
    /// Builds an identity from its raw bytes.
    pub fn new(bytes: [u8; 32]) -> (r: AccountId)
        ensures
            r.bytes == bytes,
    {
        AccountId { bytes }
    }
}

/// Whether `cuenta` is one of the identities of `lista`.
pub fn contiene(lista: &Vec<AccountId>, cuenta: &AccountId) -> (r: bool)
    ensures
        r == lista@.contains(*cuenta),
{
    let mut i: usize = 0;
    while i < lista.len()
        invariant
            0 <= i <= lista@.len(),
            forall|j: int| 0 <= j < i ==> lista@[j] != *cuenta,
        decreases lista@.len() - i,
    {
        if lista[i] == *cuenta {
            assert(lista@[i as int] == *cuenta);
            return true;
        }
        i = i + 1;
    }
    false
}

impl PartialEq for AccountId {
    fn eq(&self, otra: &AccountId) -> (r: bool) {
        let mut i: usize = 0;
        while i < 32
            invariant
                0 <= i <= 32,
                forall|j: int| 0 <= j < i ==> self.bytes@[j] == otra.bytes@[j],
            decreases 32 - i,
        {
            if self.bytes[i] != otra.bytes[i] {
                return false;
            }
            i = i + 1;
        }
        assert(self.bytes =~= otra.bytes);
        true
    }
}

impl vstd::std_specs::cmp::PartialEqSpecImpl for AccountId {
    open spec fn obeys_eq_spec() -> bool {
        true
    }

    open spec fn eq_spec(&self, otra: &AccountId) -> bool {
        *self == *otra
    }
}

impl Eq for AccountId {
}

} // verus!
