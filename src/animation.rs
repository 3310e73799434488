use vstd::prelude::*;

verus! {

/// Height of the eye after one tick of a downward sweep that jumps back to
/// `top` once it has reached `bottom`.
pub open spec fn sweep_step(top: int, bottom: int, y: int) -> int {
    if y <= bottom {
        top
    } else {
        y - 1
    }
}

/// Height of the eye after `n` ticks starting from `y`.
pub open spec fn sweep_after(top: int, bottom: int, y: int, n: nat) -> int
    decreases n,
{
    if n == 0 {
        y
    } else {
        sweep_step(top, bottom, sweep_after(top, bottom, y, (n - 1) as nat))
    }
}

/// The scripted path of the eye's height: each tick lowers it by one unit,
/// and the tick after it has reached `bottom` puts it back at `top`.
#[derive(Clone, Copy, Debug, PartialEq, Eq)]
pub struct EyeSweep {
    pub top: i64,
    pub bottom: i64,
}

impl EyeSweep {
    pub open spec fn wf(&self) -> bool {
        self.bottom <= self.top
    }

    /// A sweep between two heights; `None` when `bottom` lies above `top`.
    pub fn new(top: i64, bottom: i64) -> (r: Option<EyeSweep>)
        ensures
            r is Some <==> bottom <= top,
            r matches Some(s) ==> s.top == top && s.bottom == bottom && s.wf(),
    {
        if bottom <= top {
            Some(EyeSweep { top, bottom })
        } else {
            None
        }
    }

    /// The height one tick after `y`.
    pub fn next(&self, y: i64) -> (r: i64)
        ensures
            r == sweep_step(self.top as int, self.bottom as int, y as int),
    {
        if y <= self.bottom {
            self.top
        } else {
            y - 1
        }
    }

    /// The height `n` ticks after `y`.
    pub fn advance(&self, y: i64, n: u64) -> (r: i64)
        ensures
            r == sweep_after(self.top as int, self.bottom as int, y as int, n as nat),
            self.wf() && y == self.top ==> r == self.top - (n as int) % (self.top - self.bottom
                + 1),
    {
        proof {
            if self.wf() {
                lemma_sweep_period(self.top as int, self.bottom as int, n as nat);
            }
        }
        let mut cur: i64 = y;
        let mut i: u64 = 0;
        while i < n
            invariant
                i <= n,
                cur == sweep_after(self.top as int, self.bottom as int, y as int, i as nat),
            decreases n - i,
        {
            cur = self.next(cur);
            i = i + 1;
        }
        cur
    }
}

/// Starting at the top, the height after `n` ticks is `top - n mod period`,
/// where the period `top - bottom + 1` counts every height of the sweep once:
/// the jump back to the top comes exactly after the tick that reached the
/// bottom, and never drifts however many ticks pass.
pub proof fn lemma_sweep_period(top: int, bottom: int, n: nat)
    requires
        bottom <= top,
    ensures
        sweep_after(top, bottom, top, n) == top - (n as int) % (top - bottom + 1),
    decreases n,
{
    let p = top - bottom + 1;
    if n == 0 {
        vstd::arithmetic::div_mod::lemma_fundamental_div_mod_converse(0, p, 0, 0);
    } else {
        lemma_sweep_period(top, bottom, (n - 1) as nat);
        let m = (n - 1) as int;
        let q = m / p;
        let r = m % p;
        vstd::arithmetic::div_mod::lemma_fundamental_div_mod(m, p);
        vstd::arithmetic::div_mod::lemma_mod_bound(m, p);
        if r + 1 == p {
            assert(m + 1 == (q + 1) * p + 0) by (nonlinear_arith)
                requires
                    m == p * q + r,
                    r + 1 == p,
            ;
            vstd::arithmetic::div_mod::lemma_fundamental_div_mod_converse(m + 1, p, q + 1, 0);
        } else {
            assert(m + 1 == q * p + (r + 1)) by (nonlinear_arith)
                requires
                    m == p * q + r,
            ;
            vstd::arithmetic::div_mod::lemma_fundamental_div_mod_converse(m + 1, p, q, r + 1);
        }
    }
}

} // verus!
