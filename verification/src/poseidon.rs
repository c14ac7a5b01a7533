use vstd::prelude::*;

use crate::field::{field_modulus, FieldElement};

verus! {

/// The Hades permutation on a width-3 state of field elements, as computed by
/// the fixed round constants and linear layer of the hash family.
pub uninterp spec fn poseidon_perm(s: Seq<int>) -> Seq<int>;

/// Addition modulo the field modulus.
pub open spec fn add_p(a: int, b: int) -> int {
    (a + b) % field_modulus()
}

/// The two-element hash: first output of the permutation of (x, y, 2).
pub open spec fn poseidon2_of(x: int, y: int) -> int {
    poseidon_perm(seq![x, y, 2])[0]
}

/// The one-element hash: first output of the permutation of (x, 0, 1).
pub open spec fn poseidon1_of(x: int) -> int {
    poseidon_perm(seq![x, 0, 1])[0]
}

/// The sponge that absorbs `msgs` two at a time into the first two state
/// slots, permuting after every full pair; the final partial pair is padded
/// with a single 1 and followed by one last permutation, whose first output
/// is the digest.
pub open spec fn sponge_of(st: Seq<int>, msgs: Seq<int>) -> int
    decreases msgs.len(),
{
    if msgs.len() >= 2 {
        let nx = poseidon_perm(seq![add_p(st[0], msgs[0]), add_p(st[1], msgs[1]), st[2]]);
        sponge_of(seq![nx[0], nx[1], nx[2]], msgs.skip(2))
    } else if msgs.len() == 1 {
        poseidon_perm(seq![add_p(st[0], msgs[0]), add_p(st[1], 1), st[2]])[0]
    } else {
        poseidon_perm(seq![add_p(st[0], 1), st[1], st[2]])[0]
    }
}

/// The variable-length hash: the sponge run from the all-zero state.
pub open spec fn poseidon_many_of(msgs: Seq<int>) -> int {
    sponge_of(seq![0, 0, 0], msgs)
}

/// Relies on starknet-crypto's poseidon_permute_comp: the Hades permutation
/// applied in place to a width-3 state.
#[verifier::external_body]
fn poseidon_permute_call(a: &FieldElement, b: &FieldElement, c: &FieldElement) -> (r: (
    FieldElement,
    FieldElement,
    FieldElement,
))
    requires
        a.wf(),
        b.wf(),
        c.wf(),
    ensures
        r.0.wf(),
        r.1.wf(),
        r.2.wf(),
        r.0.value() == poseidon_perm(seq![a.value(), b.value(), c.value()])[0],
        r.1.value() == poseidon_perm(seq![a.value(), b.value(), c.value()])[1],
        r.2.value() == poseidon_perm(seq![a.value(), b.value(), c.value()])[2],
{
    let mut state = [
        starknet_crypto::Felt::from_bytes_le(&a.bytes),
        starknet_crypto::Felt::from_bytes_le(&b.bytes),
        starknet_crypto::Felt::from_bytes_le(&c.bytes),
    ];
    starknet_crypto::poseidon_permute_comp(&mut state);
    (
        FieldElement { bytes: state[0].to_bytes_le() },
        FieldElement { bytes: state[1].to_bytes_le() },
        FieldElement { bytes: state[2].to_bytes_le() },
    )
}

/// The Poseidon hash of two field elements.
pub fn poseidon_hash(x: &FieldElement, y: &FieldElement) -> (r: FieldElement)
    requires
        x.wf(),
        y.wf(),
    ensures
        r.wf(),
        r.value() == poseidon2_of(x.value(), y.value()),
{
    let two = FieldElement::from_byte(2);
    let (r0, _r1, _r2) = poseidon_permute_call(x, y, &two);
    proof {
        assert(seq![x.value(), y.value(), two.value()] =~= seq![x.value(), y.value(), 2]);
    }
    r0
}

/// The Poseidon hash of a single field element.
pub fn poseidon_hash_single(x: &FieldElement) -> (r: FieldElement)
    requires
        x.wf(),
    ensures
        r.wf(),
        r.value() == poseidon1_of(x.value()),
{
    let zero = FieldElement::from_byte(0);
    let one = FieldElement::from_byte(1);
    let (r0, _r1, _r2) = poseidon_permute_call(x, &zero, &one);
    proof {
        assert(seq![x.value(), zero.value(), one.value()] =~= seq![x.value(), 0, 1]);
    }
    r0
}

/// The Poseidon hash of a sequence of field elements of any length.
pub fn poseidon_hash_many(inputs: &Vec<FieldElement>) -> (r: FieldElement)
    requires
        forall|j: int| 0 <= j < inputs@.len() ==> inputs@[j].wf(),
    ensures
        r.wf(),
        r.value() == poseidon_many_of(inputs@.map_values(|f: FieldElement| f.value())),
{
    let ghost vals = inputs@.map_values(|f: FieldElement| f.value());
    let mut s0 = FieldElement::from_byte(0);
    let mut s1 = FieldElement::from_byte(0);
    let mut s2 = FieldElement::from_byte(0);
    proof {
        assert(seq![s0.value(), s1.value(), s2.value()] =~= seq![0, 0, 0]);
        assert(vals.skip(0) =~= vals);
    }
    let mut i: usize = 0;
    while inputs.len() - i >= 2
        invariant
            i <= inputs@.len(),
            forall|j: int| 0 <= j < inputs@.len() ==> inputs@[j].wf(),
            vals == inputs@.map_values(|f: FieldElement| f.value()),
            s0.wf(),
            s1.wf(),
            s2.wf(),
            sponge_of(seq![s0.value(), s1.value(), s2.value()], vals.skip(i as int))
                == poseidon_many_of(vals),
        decreases inputs@.len() - i,
    {
        let ghost st = seq![s0.value(), s1.value(), s2.value()];
        let ghost rest = vals.skip(i as int);
        let a0 = s0.add(&inputs[i]);
        let b0 = s1.add(&inputs[i + 1]);
        let (t0, t1, t2) = poseidon_permute_call(&a0, &b0, &s2);
        proof {
            assert(rest[0] == vals[i as int] && rest[1] == vals[i as int + 1]);
            assert(seq![a0.value(), b0.value(), s2.value()] =~= seq![
                add_p(st[0], rest[0]),
                add_p(st[1], rest[1]),
                st[2],
            ]);
            let nx = poseidon_perm(seq![add_p(st[0], rest[0]), add_p(st[1], rest[1]), st[2]]);
            assert(seq![t0.value(), t1.value(), t2.value()] =~= seq![nx[0], nx[1], nx[2]]);
            assert(rest.skip(2) =~= vals.skip(i as int + 2));
        }
        s0 = t0;
        s1 = t1;
        s2 = t2;
        i = i + 2;
    }
    let ghost st = seq![s0.value(), s1.value(), s2.value()];
    let ghost rest = vals.skip(i as int);
    if i < inputs.len() {
        let a0 = s0.add(&inputs[i]);
        let one = FieldElement::from_byte(1);
        let b0 = s1.add(&one);
        let (r0, _r1, _r2) = poseidon_permute_call(&a0, &b0, &s2);
        proof {
            assert(rest.len() == 1 && rest[0] == vals[i as int]);
            assert(seq![a0.value(), b0.value(), s2.value()] =~= seq![
                add_p(st[0], rest[0]),
                add_p(st[1], 1),
                st[2],
            ]);
        }
        r0
    } else {
        let one = FieldElement::from_byte(1);
        let a0 = s0.add(&one);
        let (r0, _r1, _r2) = poseidon_permute_call(&a0, &s1, &s2);
        proof {
            assert(rest.len() == 0);
            assert(seq![a0.value(), s1.value(), s2.value()] =~= seq![
                add_p(st[0], 1),
                st[1],
                st[2],
            ]);
        }
        r0
    }
}

/// Law: the hash of the empty sequence is well-defined — it is the first
/// output of the permutation of the padded initial state (1, 0, 0), so every
/// run of `poseidon_hash_many` on an empty input returns this same value.
pub proof fn lemma_poseidon_many_empty()
    ensures
        poseidon_many_of(Seq::<int>::empty()) == poseidon_perm(seq![1, 0, 0])[0],
{
    crate::field::lemma_constant_order();
    vstd::arithmetic::div_mod::lemma_small_mod(1nat, field_modulus() as nat);
    assert(Seq::<int>::empty().len() == 0);
    assert(add_p(0, 1) == 1);
    assert(seq![add_p(0, 1), 0, 0] =~= seq![1, 0, 0]);
}

} // verus!
