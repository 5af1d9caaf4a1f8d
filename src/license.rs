use vstd::prelude::*;
use crate::types::bytes_eq;

verus! {

/// Identifier of the license circuit: the hash that names its verifier
/// data among the built circuit keys.
pub const LICENSE_CIRCUIT_ID: [u8; 32] = [0xb4, 0x39, 0x5f, 0x9a, 0x50, 0xee, 0x37, 0x43, 0x93, 0x16, 0x6d, 0x57, 0xd8, 0xf0, 0x62, 0xe9, 0x19, 0x1f, 0x25, 0x96, 0x78, 0xdb, 0xaf, 0xca, 0x5b, 0x62, 0x79, 0xab, 0xb2, 0x15, 0xf1, 0xdb];

/// Verifier data of a circuit, named by the circuit's identifier.
#[derive(Clone, Debug, PartialEq, Eq)]
pub struct VerifierData {
    pub circuit_id: [u8; 32],
    pub data: Vec<u8>,
}

/// Verifier data for the license circuit, among the built circuit keys: the
/// first one named by `LICENSE_CIRCUIT_ID`, if any.
pub fn verifier_data_license_circuit(keys: &Vec<VerifierData>) -> (r: Option<&Vec<u8>>)
    ensures
        match r {
            Some(d) => exists|i: int|
                0 <= i < keys@.len() && keys@[i].circuit_id == LICENSE_CIRCUIT_ID && (forall|j: int|
                    0 <= j < i ==> keys@[j].circuit_id != LICENSE_CIRCUIT_ID) && *d == keys@[i].data,
            None => forall|i: int| 0 <= i < keys@.len() ==> keys@[i].circuit_id != LICENSE_CIRCUIT_ID,
        },
{
    let id = LICENSE_CIRCUIT_ID;
    let mut i: usize = 0;
    while i < keys.len()
        invariant
            0 <= i <= keys@.len(),
            id == LICENSE_CIRCUIT_ID,
            forall|j: int| 0 <= j < i ==> keys@[j].circuit_id != LICENSE_CIRCUIT_ID,
        decreases keys@.len() - i,
    {
        if bytes_eq(&keys[i].circuit_id, &id) {
            return Some(&keys[i].data);
        }
        i = i + 1;
    }
    None
}

} // verus!
