//! A 32-bit xorshift generator.
use vstd::prelude::*;

verus! {

/// Seed of the generator that fills the benchmark input.
pub const SEED: u32 = 92;

/// One xorshift step: the state after `r`, which is also the next output.
pub open spec fn xorshift_step(r: u32) -> u32 {
    let a = r ^ (r << 13u32);
    let b = a ^ (a >> 17u32);
    b ^ (b << 5u32)
}

/// The state reached from `seed` after `n` steps.
pub open spec fn state_after(seed: u32, n: nat) -> u32
    decreases n,
{
    if n == 0 {
        seed
    } else {
        xorshift_step(state_after(seed, (n - 1) as nat))
    }
}

/// The first `n` outputs of a generator seeded with `seed`.
pub open spec fn outputs(seed: u32, n: nat) -> Seq<u32> {
    Seq::new(n, |i: int| state_after(seed, (i + 1) as nat))
}

/// An infinite stream of pseudo-random `u32` values; the state is the last
/// value produced (the seed before the first call).
pub struct XorShift32 {
    state: u32,
}

impl View for XorShift32 {
    type V = u32;

    open spec fn view(&self) -> u32 {
        self.state_spec()
    }
}

impl XorShift32 {
    pub closed spec fn state_spec(&self) -> u32 {
        self.state
    }

    /// A generator whose first output is the step after `seed`.
    pub fn new(seed: u32) -> (g: XorShift32)
        ensures
            g@ == seed,
    {
        XorShift32 { state: seed }
    }

    /// Advances the generator and returns the new state.
    pub fn next_value(&mut self) -> (r: u32)
        ensures
            r == xorshift_step(old(self)@),
            final(self)@ == r,
    {
        let mut r = self.state;
        r = r ^ (r << 13u32);
        r = r ^ (r >> 17u32);
        r = r ^ (r << 5u32);
        self.state = r;
        r
    }

    /// The next `n` outputs, in order.
    pub fn take(&mut self, n: usize) -> (v: Vec<u32>)
        ensures
            v@ == outputs(old(self)@, n as nat),
            final(self)@ == state_after(old(self)@, n as nat),
    {
        let ghost seed = self@;
        let mut v: Vec<u32> = Vec::with_capacity(n);
        for i in 0..n
            invariant
                v@ == outputs(seed, i as nat),
                self@ == state_after(seed, i as nat),
        {
            let x = self.next_value();
            v.push(x);
            assert(v@ =~= outputs(seed, (i + 1) as nat));
        }
        v
    }
}

/// The generator that fills the benchmark input.
pub fn random() -> (g: XorShift32)
    ensures
        g@ == SEED,
{
    XorShift32::new(SEED)
}

/// Two generators built from the same seed produce the same first `n`
/// values, and a longer run extends a shorter one.
pub proof fn lemma_same_seed_same_outputs(a: XorShift32, b: XorShift32, m: nat, n: nat)
    requires
        a@ == b@,
        m <= n,
    ensures
        outputs(a@, n) == outputs(b@, n),
        outputs(a@, m) == outputs(b@, n).subrange(0, m as int),
{
    assert(outputs(a@, m) =~= outputs(b@, n).subrange(0, m as int));
}

} // verus!
