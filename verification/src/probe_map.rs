use vstd::prelude::*;
use std::collections::BTreeMap;
use vstd::std_specs::iter::IteratorSpec;

verus! {

broadcast use vstd::std_specs::btree::group_btree_axioms;

proof fn lemma_keys_increase(s: Seq<u8>)
    requires
        vstd::std_specs::btree::increasing_seq(s),
    ensures
        forall|i: int, j: int| 0 <= i < j < s.len() ==> s[i] < s[j],
{
    broadcast use vstd::laws_cmp::group_laws_cmp;
    assert(vstd::laws_cmp::obeys_cmp::<u8>());
    assert forall|i: int, j: int| 0 <= i < j < s.len() implies s[i] < s[j] by {
        assert(vstd::std_specs::cmp::OrdSpec::cmp_spec(&s[i], &s[j]) is Less);
    }
}

proof fn lemma_u8_keys()
    ensures
        vstd::std_specs::btree::key_obeys_cmp_spec::<u8>(),
{
    broadcast use vstd::laws_cmp::group_laws_cmp;
    assert(vstd::laws_cmp::obeys_cmp::<u8>());
}

fn first_with(m: &BTreeMap<u8, u64>, x: u64) -> (r: Option<u8>)
    ensures
        r matches Some(k) ==> m@.contains_key(k) && m@[k] == x && forall|j: u8| m@.contains_key(j) && m@[j] == x ==> k <= j,
        r is None ==> forall|j: u8| m@.contains_key(j) ==> m@[j] != x,
{
    proof {
        lemma_u8_keys();
    }
    let it = m.iter();
    let ghost s = it.remaining();
    proof {
        assert(s == vstd::std_specs::btree::spec_btree_map_iter(m).remaining());
        lemma_keys_increase(s.map_values(|kv: (&u8, &u64)| *kv.0));
        assert forall|i: int, j: int| 0 <= i < j < s.len() implies *(#[trigger] s[i]).0 < *(#[trigger] s[j]).0 by {
            let ks = s.map_values(|kv: (&u8, &u64)| *kv.0);
            assert(ks[i] < ks[j]);
        }
    }
    for kv in iter: it
        invariant
            iter.seq() == s,
            s == vstd::std_specs::btree::spec_btree_map_iter(m).remaining(),
            forall|i: int, j: int| 0 <= i < j < s.len() ==> *(#[trigger] s[i]).0 < *(#[trigger] s[j]).0,
            forall|i: int| 0 <= i < iter.index() ==> *(#[trigger] s[i]).1 != x,
    {
        if *kv.1 == x {
            proof {
                let c = iter.index();
                assert forall|j: u8| m@.contains_key(j) && m@[j] == x implies *kv.0 <= j by {
                    let v = vstd::std_specs::btree::spec_btree_map_iter(m).remaining();
                    assert(m@.contains_key(j));
                    assert(v.contains((&j, &m@[j])));
                    assert(s.contains((&j, &m@[j])));
                    let i = choose|i: int| 0 <= i < s.len() && s[i] == (&j, &m@[j]);
                    assert(*s[c].0 == *kv.0);
                    if i < c {
                        assert(*s[i].1 != x);
                    }
                }
            }
            return Some(*kv.0);
        }
    }
    None
}

} // verus!
