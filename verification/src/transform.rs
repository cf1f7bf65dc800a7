use vstd::prelude::*;

use vstd::slice::SliceAdditionalExecFns;

use crate::error::CodecError;

verus! {

/// Every byte of `data` XOR-ed with the single key byte.
pub open spec fn xor_bytes(data: Seq<u8>, key: u8) -> Seq<u8> {
    data.map(|_i: int, b: u8| b ^ key)
}

/// Byte `i` of `data` XOR-ed with `key[i % key.len()]`: the key repeats over
/// the whole data, however the two lengths compare.
pub open spec fn cyclic_xor_bytes(data: Seq<u8>, key: Seq<u8>) -> Seq<u8>
    recommends
        key.len() > 0,
{
    data.map(|i: int, b: u8| b ^ key[i % (key.len() as int)])
}

/// XORs every byte of `data` with `key`, in place.
pub fn xor_in_place(data: &mut [u8], key: u8)
    ensures
        final(data)@ == xor_bytes(old(data)@, key),
{
    let n = data.len();
    let mut i: usize = 0;
    while i < n
        invariant
            i <= n,
            n == old(data)@.len(),
            data@ == xor_bytes(old(data)@, key).take(i as int) + old(data)@.skip(i as int),
        decreases n - i,
    {
        let b = data[i];
        data.set(i, b ^ key);
        i = i + 1;
        proof {
            assert(data@ =~= xor_bytes(old(data)@, key).take(i as int) + old(data)@.skip(
                i as int,
            ));
        }
    }
    proof {
        assert(data@ =~= xor_bytes(old(data)@, key));
    }
}

/// Returns a copy of `data` with every byte XOR-ed with `key`.
pub fn xor(data: &[u8], key: u8) -> (r: Vec<u8>)
    ensures
        r@ == xor_bytes(data@, key),
{
    let n = data.len();
    let mut out: Vec<u8> = Vec::new();
    let mut i: usize = 0;
    while i < n
        invariant
            i <= n,
            n == data@.len(),
            out@ == xor_bytes(data@, key).take(i as int),
        decreases n - i,
    {
        out.push(data[i] ^ key);
        i = i + 1;
        proof {
            assert(out@ =~= xor_bytes(data@, key).take(i as int));
        }
    }
    proof {
        assert(out@ =~= xor_bytes(data@, key));
    }
    out
}

/// XORs `data` in place with the repeating `key`. An empty key has no
/// position to cycle through, so it is rejected as `InvalidKey` and the data
/// is left untouched.
pub fn cyclic_xor_in_place(data: &mut [u8], key: &[u8]) -> (r: Result<(), CodecError>)
    ensures
        key@.len() == 0 ==> r == Err::<(), CodecError>(CodecError::InvalidKey) && final(data)@
            == old(data)@,
        key@.len() > 0 ==> r == Ok::<(), CodecError>(()) && final(data)@ == cyclic_xor_bytes(
            old(data)@,
            key@,
        ),
{
    let klen = key.len();
    if klen == 0 {
        return Err(CodecError::InvalidKey);
    }
    let n = data.len();
    let mut i: usize = 0;
    while i < n
        invariant
            i <= n,
            n == old(data)@.len(),
            klen == key@.len(),
            klen > 0,
            data@ == cyclic_xor_bytes(old(data)@, key@).take(i as int) + old(data)@.skip(
                i as int,
            ),
        decreases n - i,
    {
        let b = data[i];
        data.set(i, b ^ key[i % klen]);
        i = i + 1;
        proof {
            assert(data@ =~= cyclic_xor_bytes(old(data)@, key@).take(i as int) + old(
                data,
            )@.skip(i as int));
        }
    }
    proof {
        assert(data@ =~= cyclic_xor_bytes(old(data)@, key@));
    }
    Ok(())
}

/// Returns a copy of `data` XOR-ed with the repeating `key`; an empty key is
/// rejected as `InvalidKey`.
pub fn cyclic_xor(data: &[u8], key: &[u8]) -> (r: Result<Vec<u8>, CodecError>)
    ensures
        key@.len() == 0 ==> r == Err::<Vec<u8>, CodecError>(CodecError::InvalidKey),
        key@.len() > 0 ==> (r matches Ok(out) && out@ == cyclic_xor_bytes(data@, key@)),
{
    let klen = key.len();
    if klen == 0 {
        return Err(CodecError::InvalidKey);
    }
    let n = data.len();
    let mut out: Vec<u8> = Vec::new();
    let mut i: usize = 0;
    while i < n
        invariant
            i <= n,
            n == data@.len(),
            klen == key@.len(),
            klen > 0,
            out@ == cyclic_xor_bytes(data@, key@).take(i as int),
        decreases n - i,
    {
        out.push(data[i] ^ key[i % klen]);
        i = i + 1;
        proof {
            assert(out@ =~= cyclic_xor_bytes(data@, key@).take(i as int));
        }
    }
    proof {
        assert(out@ =~= cyclic_xor_bytes(data@, key@));
    }
    Ok(out)
}

/// Law: single-byte XOR is involutive — transforming twice with the same key
/// returns the original data, for every data and key.
pub proof fn lemma_xor_involutive(data: Seq<u8>, key: u8)
    ensures
        xor_bytes(xor_bytes(data, key), key) == data,
{
    assert forall|i: int| 0 <= i < data.len() implies xor_bytes(xor_bytes(data, key), key)[i]
        == data[i] by {
        let b = data[i];
        assert((b ^ key) ^ key == b) by (bit_vector);
    }
    assert(xor_bytes(xor_bytes(data, key), key) =~= data);
}

/// Law: cyclic XOR is involutive — transforming twice with the same
/// non-empty key returns the original data, for every data.
pub proof fn lemma_cyclic_xor_involutive(data: Seq<u8>, key: Seq<u8>)
    requires
        key.len() > 0,
    ensures
        cyclic_xor_bytes(cyclic_xor_bytes(data, key), key) == data,
{
    assert forall|i: int| 0 <= i < data.len() implies cyclic_xor_bytes(
        cyclic_xor_bytes(data, key),
        key,
    )[i] == data[i] by {
        let b = data[i];
        let k = key[i % (key.len() as int)];
        assert((b ^ k) ^ k == b) by (bit_vector);
    }
    assert(cyclic_xor_bytes(cyclic_xor_bytes(data, key), key) =~= data);
}

/// Law: cyclic XOR of empty data is empty for every non-empty key.
pub proof fn lemma_cyclic_xor_empty(key: Seq<u8>)
    requires
        key.len() > 0,
    ensures
        cyclic_xor_bytes(Seq::empty(), key) == Seq::<u8>::empty(),
{
    assert(cyclic_xor_bytes(Seq::empty(), key) =~= Seq::<u8>::empty());
}

} // verus!
