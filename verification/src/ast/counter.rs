use vstd::prelude::*;

verus! {

/// A plain cursor position used by the parser.
pub struct Counter {
    pub count: usize,
}

impl Counter {
    pub fn new() -> (r: Self)
        ensures
            r.count == 0,
    {
        Counter { count: 0 }
    }

    pub fn increment(&mut self)
        requires
            old(self).count < usize::MAX,
        ensures
            final(self).count == old(self).count + 1,
    {
        self.count = self.count + 1;
    }

    pub fn get(&self) -> (r: usize)
        ensures
            r == self.count,
    {
        self.count
    }

    /// The position a signed offset away, wrapping around the machine
    /// word as two's-complement addition does.
    pub fn wrapping_add_signed(&self, rhs: isize) -> (r: usize)
        ensures
            r as int == (self.count + rhs) % (usize::MAX as int + 1),
    {
        let ghost m = usize::MAX as int + 1;
        let ghost v = self.count + rhs;
        if rhs >= 0 {
            let u = rhs as usize;
            if self.count <= usize::MAX - u {
                let r = self.count + u;
                proof {
                    vstd::arithmetic::div_mod::lemma_small_mod(v as nat, m as nat);
                }
                r
            } else {
                let r = self.count - (usize::MAX - u) - 1;
                proof {
                    vstd::arithmetic::div_mod::lemma_mod_add_multiples_vanish(r as int, m);
                    vstd::arithmetic::div_mod::lemma_small_mod(r as nat, m as nat);
                }
                r
            }
        } else {
            let u = ((-(rhs + 1)) as usize) + 1;
            if self.count >= u {
                let r = self.count - u;
                proof {
                    vstd::arithmetic::div_mod::lemma_small_mod(r as nat, m as nat);
                }
                r
            } else {
                let r = self.count + (usize::MAX - u) + 1;
                proof {
                    vstd::arithmetic::div_mod::lemma_mod_add_multiples_vanish(v, m);
                    vstd::arithmetic::div_mod::lemma_small_mod(r as nat, m as nat);
                }
                r
            }
        }
    }
}

} // verus!
