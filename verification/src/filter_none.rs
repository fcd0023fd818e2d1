//! Keeps the present values of a sequence of optionals, in order.

use vstd::prelude::*;

verus! {

/// The values behind the `Some` entries of `s`, in order.
pub open spec fn somes<T>(s: Seq<Option<T>>) -> Seq<T>
    decreases s.len(),
{
    if s.len() == 0 {
        Seq::empty()
    } else {
        somes(s.drop_last()) + (match s.last() {
            Some(v) => seq![v],
            None => Seq::<T>::empty(),
        })
    }
}

/// Collects the values behind the `Some` entries of `v`, in order.
pub fn filter_none<T: Copy>(v: &Vec<Option<T>>) -> (r: Vec<T>)
    ensures
        r@ == somes(v@),
{
    let mut r: Vec<T> = Vec::new();
    let mut i: usize = 0;
    while i < v.len()
        invariant
            i <= v@.len(),
            r@ == somes(v@.take(i as int)),
        decreases v@.len() - i,
    {
        proof {
            assert(v@.take(i as int + 1).drop_last() =~= v@.take(i as int));
            assert(v@.take(i as int + 1).last() == v@[i as int]);
        }
        match v[i] {
            Some(val) => {
                r.push(val);
            },
            None => {},
        }
        proof {
            assert(r@ =~= somes(v@.take(i as int + 1)));
        }
        i += 1;
    }
    proof {
        assert(v@.take(v@.len() as int) =~= v@);
    }
    r
}

} // verus!
