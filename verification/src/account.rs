//! What the programs read of the accounts handed to an instruction.
use vstd::prelude::*;

verus! {

/// A 32-byte account address.
pub type Address = [u8; 32];

/// The part of an account that an instruction's decisions depend on: its
/// address, whether it signed, the program that owns it, its lamports and
/// its data.
pub struct AccountInput {
    pub key: Address,
    pub is_signer: bool,
    pub owner: Address,
    pub lamports: u64,
    pub data: Vec<u8>,
}

/// Whether two addresses are the same 32 bytes.
pub fn address_eq(a: &Address, b: &Address) -> (r: bool)
    ensures
        r == (a@ == b@),
{
    let mut i: usize = 0;
    while i < 32
        invariant
            i <= 32,
            forall|j: int| 0 <= j < i ==> a@[j] == b@[j],
        decreases 32 - i,
    {
        if a[i] != b[i] {
            return false;
        }
        i = i + 1;
    }
    assert(a@ =~= b@);
    true
}

/// Copies the 32 bytes at `data[off .. off + 32]` into an address.
pub fn address_at(data: &[u8], off: usize) -> (r: Address)
    requires
        off + 32 <= data@.len(),
    ensures
        r@ == data@.subrange(off as int, off + 32),
{
    let mut r: Address = [0u8; 32];
    let len = data.len();
    let mut i: usize = 0;
    while i < 32
        invariant
            i <= 32,
            len == data@.len(),
            off + 32 <= data@.len(),
            forall|j: int| 0 <= j < i ==> r@[j] == data@[off + j],
        decreases 32 - i,
    {
        r[i] = data[off + i];
        i = i + 1;
    }
    assert(r@ =~= data@.subrange(off as int, off + 32));
    r
}

/// Moves all lamports of `from` onto `to`, as the programs do when they
/// close an account: returns the new balances of `to` and `from`.
pub fn drain_lamports(to: u64, from: u64) -> (r: (u64, u64))
    requires
        to + from <= u64::MAX,
    ensures
        r == ((to + from) as u64, 0u64),
{
    (to + from, 0)
}

/// Whether the stored authority (the first 32 bytes of `data`) is `caller`,
/// compared without an early exit.
pub fn stored_authority_is(caller: &Address, data: &[u8]) -> (r: bool)
    requires
        data@.len() >= 32,
    ensures
        r == (data@.subrange(0, 32) == caller@),
{
    let mut diff: u8 = 0;
    let mut i: usize = 0;
    while i < 32
        invariant
            i <= 32,
            data@.len() >= 32,
            (diff == 0) <==> (forall|j: int| 0 <= j < i ==> data@[j] == caller@[j]),
        decreases 32 - i,
    {
        let a = data[i];
        let b = caller[i];
        let x = a ^ b;
        assert((x == 0) <==> (a == b)) by (bit_vector)
            requires
                x == a ^ b,
        ;
        let d = diff | x;
        assert((d == 0) <==> (diff == 0 && x == 0)) by (bit_vector)
            requires
                d == diff | x,
        ;
        diff = d;
        i = i + 1;
    }
    if diff == 0 {
        assert(data@.subrange(0, 32) =~= caller@);
    } else {
        let ghost j = choose|j: int| 0 <= j < 32 && data@[j] != caller@[j];
        assert(data@.subrange(0, 32)[j] != caller@[j]);
    }
    diff == 0
}

} // verus!
