use vstd::prelude::*;

verus! {

/// Something that is alive until it is deactivated.
pub trait Live: Copy {
    spec fn live(&self) -> bool;

    fn is_live(&self) -> (r: bool)
        ensures
            r == self.live(),
    ;
}

/// The entities of `v` that are still alive, in their order.
pub fn retain_live<T: Live>(v: &Vec<T>) -> (r: Vec<T>)
    ensures
        r@ == v@.filter(|x: T| x.live()),
{
    let mut kept: Vec<T> = Vec::new();
    let mut i: usize = 0;
    while i < v.len()
        invariant
            i <= v@.len(),
            kept@ == v@.take(i as int).filter(|x: T| x.live()),
        decreases v@.len() - i,
    {
        let x = v[i];
        proof {
            assert(v@.take(i + 1).drop_last() =~= v@.take(i as int));
            reveal(Seq::filter);
        }
        if x.is_live() {
            kept.push(x);
        }
        i += 1;
    }
    proof {
        assert(v@.take(v@.len() as int) =~= v@);
    }
    kept
}

} // verus!
