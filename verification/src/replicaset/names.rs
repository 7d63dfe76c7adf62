//! Names for the pods that a replica set creates: the set's own name, a
//! hyphen, and a serial number in decimal.

use crate::objects::{lemma_storage_key_injective, storage_key_of, ResourceKind};
use crate::text::{decimal, decimal_of, lemma_decimal_injective};
use vstd::prelude::*;
use vstd::string::StringExecFns;

verus! {

/// The name of the pod with the serial number `serial` that the replica set
/// called `owner` creates.
pub open spec fn pod_name_of(owner: Seq<char>, serial: nat) -> Seq<char> {
    owner + "-"@ + decimal_of(serial)
}

/// The storage key of that pod.
pub open spec fn pod_key_of(owner: Seq<char>, serial: nat) -> Seq<char> {
    storage_key_of(ResourceKind::Pod, pod_name_of(owner, serial))
}

/// Different serial numbers give different pod keys.
pub proof fn lemma_pod_key_injective(owner: Seq<char>, a: nat, b: nat)
    requires
        pod_key_of(owner, a) == pod_key_of(owner, b),
    ensures
        a == b,
{
    lemma_storage_key_injective(
        ResourceKind::Pod,
        pod_name_of(owner, a),
        ResourceKind::Pod,
        pod_name_of(owner, b),
    );
    let prefix = owner + "-"@;
    let x = decimal_of(a);
    let y = decimal_of(b);
    assert((prefix + x).len() == prefix.len() + x.len());
    assert((prefix + y).len() == prefix.len() + y.len());
    assert forall|i: int| 0 <= i < x.len() implies x[i] == y[i] by {
        assert((prefix + x)[prefix.len() + i] == x[i]);
        assert((prefix + y)[prefix.len() + i] == y[i]);
    }
    assert(x =~= y);
    lemma_decimal_injective(a, b);
}

/// The name of the pod with the serial number `serial` that the replica set
/// called `owner` creates.
pub fn pod_name(owner: &String, serial: u128) -> (name: String)
    ensures
        name@ == pod_name_of(owner@, serial as nat),
{
    owner.clone().concat("-").concat(decimal(serial).as_str())
}

} // verus!
