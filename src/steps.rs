use vstd::prelude::*;

verus! {

/// A curve parameter `t = num / den`, held exactly.
#[derive(Clone, Copy, Debug, PartialEq, Eq, Structural)]
pub struct Param {
    pub num: u32,
    pub den: u32,
}

impl Param {
    /// `0 <= t <= 1`, with a nonzero denominator.
    pub open spec fn in_unit(self) -> bool {
        0 < self.den && self.num <= self.den
    }

    /// `t == 0`.
    pub open spec fn is_start(self) -> bool {
        self.num == 0 && self.den > 0
    }

    /// `t == 1`.
    pub open spec fn is_end(self) -> bool {
        self.num == self.den && self.den > 0
    }

    /// `self < other` as rational numbers (both denominators positive).
    pub open spec fn precedes(self, other: Param) -> bool {
        (self.num as int) * (other.den as int) < (other.num as int) * (self.den as int)
    }
}

/// The parameter of sample `i` among `n` evenly spaced samples of `[0, 1]`.
/// Two or more samples sit at `i / (n - 1)`; a single sample sits at `t = 0`.
pub open spec fn param_at(n: u32, i: int) -> Param {
    if n <= 1 {
        Param { num: 0, den: 1 }
    } else {
        Param { num: i as u32, den: (n - 1) as u32 }
    }
}

/// Every parameter that `n` samples visit, in order.
pub open spec fn schedule(n: u32) -> Seq<Param> {
    Seq::new(n as nat, |i: int| param_at(n, i))
}

/// The sampling schedule of a curve: hands out, one at a time, the parameters
/// at which `n` evenly spaced samples of `[0, 1]` evaluate the curve.
pub struct Steps {
    i: u32,
    n: u32,
}

impl View for Steps {
    type V = Seq<Param>;

    /// The parameters that are still to come.
    closed spec fn view(&self) -> Seq<Param> {
        schedule(self.n).subrange(self.i as int, self.n as int)
    }
}

impl Steps {
    #[verifier::type_invariant]
    spec fn inv(self) -> bool {
        self.i <= self.n
    }

    /// A fresh schedule of `n` samples.
    pub fn new(n: u32) -> (s: Steps)
        ensures
            s@ == schedule(n),
    {
        let s = Steps { i: 0, n };
        assert(s@ =~= schedule(n));
        s
    }

    /// The number of parameters still to come.
    pub fn remaining(&self) -> (r: u32)
        ensures
            r == self@.len(),
    {
        proof {
            use_type_invariant(self);
        }
        self.n - self.i
    }

    /// The next parameter, or `None` once all `n` have been handed out.
    pub fn next(&mut self) -> (r: Option<Param>)
        ensures
            old(self)@.len() == 0 ==> r.is_none() && final(self)@ == old(self)@,
            old(self)@.len() > 0 ==> r == Some(old(self)@[0]) && final(self)@ == old(
                self,
            )@.drop_first(),
    {
        proof {
            use_type_invariant(&*self);
        }
        if self.i >= self.n {
            return None;
        }
        let p = if self.n == 1 {
            Param { num: 0, den: 1 }
        } else {
            Param { num: self.i, den: self.n - 1 }
        };
        proof {
            assert(p == schedule(self.n)[self.i as int]);
        }
        let ghost before = self@;
        self.i = self.i + 1;
        assert(self@ =~= before.drop_first());
        Some(p)
    }
}

/// `n` samples visit exactly `n` parameters, each in `[0, 1]`; the first is
/// `t = 0`, the last is `t = 1` once there are two or more, consecutive ones
/// lie one step `1 / (n - 1)` apart, and each one lies strictly after the one
/// before.
pub proof fn lemma_schedule_spans_unit(n: u32)
    ensures
        schedule(n).len() == n,
        forall|i: int| 0 <= i < n ==> #[trigger] schedule(n)[i].in_unit(),
        n >= 1 ==> schedule(n)[0].is_start(),
        n >= 2 ==> schedule(n)[n - 1].is_end(),
        forall|i: int|
            0 <= i < n - 1 ==> schedule(n)[i + 1].den == #[trigger] schedule(n)[i].den
                && schedule(n)[i + 1].num == schedule(n)[i].num + 1,
        forall|i: int, j: int|
            0 <= i < j < n ==> #[trigger] schedule(n)[i].precedes(#[trigger] schedule(n)[j]),
{
    assert forall|i: int, j: int| 0 <= i < j < n implies #[trigger] schedule(n)[i].precedes(
        #[trigger] schedule(n)[j],
    ) by {
        let d = (n - 1) as int;
        assert(i * d < j * d) by (nonlinear_arith)
            requires
                i < j,
                d > 0,
        ;
    }
}

} // verus!
