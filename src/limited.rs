use crate::body::{data_concat, Body, Frame, SizeHint};
use vstd::prelude::*;

verus! {

/// The error of a body that passed more payload bytes than it was allowed.
#[derive(Debug, Clone, Copy, PartialEq, Eq, Structural)]
pub struct LengthLimitError;

impl LengthLimitError {
    pub fn to_string(&self) -> (r: String)
        ensures
            r@ == "length limit exceeded"@,
    {
        String::from_str("length limit exceeded")
    }
}

/// What a limited body fails with: the limit, or the inner body's error.
#[derive(Debug)]
pub enum LimitedError<E> {
    LengthLimit(LengthLimitError),
    Inner(E),
}

/// How many leading frames of `fs` pass within `budget` payload bytes.
pub open spec fn fitting(fs: Seq<Frame>, budget: nat) -> nat
    decreases fs.len(),
{
    if fs.len() == 0 {
        0
    } else if fs[0].data_len() > budget {
        0
    } else {
        1 + fitting(fs.drop_first(), (budget - fs[0].data_len()) as nat)
    }
}

/// A body that fails with `LengthLimit` instead of passing a frame that
/// would take its payload past the limit.
#[derive(Debug, Clone, Copy)]
pub struct Limited<B> {
    remaining: usize,
    inner: B,
}

impl<B> Limited<B> {
    pub closed spec fn spec_remaining(&self) -> usize {
        self.remaining
    }

    pub closed spec fn spec_inner(&self) -> B {
        self.inner
    }

    pub fn new(inner: B, limit: usize) -> (r: Self)
        ensures
            r.spec_remaining() == limit,
            r.spec_inner() == inner,
    {
        Limited { remaining: limit, inner }
    }
}

/// The frames that fit within the budget carry no more payload than it.
pub proof fn lemma_fitting_within(fs: Seq<Frame>, budget: nat)
    ensures
        fitting(fs, budget) <= fs.len(),
        data_concat(fs.take(fitting(fs, budget) as int)).len() <= budget,
        fitting(fs, budget) == fs.len() ==> data_concat(fs).len() <= budget,
    decreases fs.len(),
{
    if fs.len() > 0 && fs[0].data_len() <= budget {
        let rest = fs.drop_first();
        let b2 = (budget - fs[0].data_len()) as nat;
        lemma_fitting_within(rest, b2);
        let k = fitting(fs, budget) as int;
        assert(fs.take(k).drop_first() =~= rest.take(k - 1));
        assert(fs.take(k)[0] == fs[0]);
    } else {
        assert(fs.take(0) =~= Seq::<Frame>::empty());
    }
}

/// All frames pass exactly when their payload stays within the budget.
pub proof fn lemma_fitting_all(fs: Seq<Frame>, budget: nat)
    ensures
        fitting(fs, budget) == fs.len() <==> data_concat(fs).len() <= budget,
    decreases fs.len(),
{
    if fs.len() > 0 {
        let rest = fs.drop_first();
        if fs[0].data_len() <= budget {
            lemma_fitting_all(rest, (budget - fs[0].data_len()) as nat);
        } else {
            lemma_concat_len(fs);
        }
    }
}

proof fn lemma_concat_len(fs: Seq<Frame>)
    requires
        fs.len() > 0,
    ensures
        data_concat(fs).len() == fs[0].data_len() + data_concat(fs.drop_first()).len(),
{
}

impl<B: Body> Body for Limited<B> {
    type Error = LimitedError<B::Error>;

    open spec fn frames(&self) -> Seq<Frame> {
        self.spec_inner().frames().take(
            fitting(self.spec_inner().frames(), self.spec_remaining() as nat) as int,
        )
    }

    open spec fn failure(&self) -> Option<LimitedError<B::Error>> {
        if fitting(self.spec_inner().frames(), self.spec_remaining() as nat)
            == self.spec_inner().frames().len() {
            match self.spec_inner().failure() {
                None => None,
                Some(e) => Some(LimitedError::Inner(e)),
            }
        } else {
            Some(LimitedError::LengthLimit(LengthLimitError))
        }
    }

    fn poll_frame(&mut self) -> (r: Option<Result<Frame, LimitedError<B::Error>>>)
        ensures
            old(self).spec_inner().frames().len() > 0 ==> final(self).spec_remaining() == (if old(
                self,
            ).spec_inner().frames()[0].data_len() > old(self).spec_remaining() {
                0
            } else {
                old(self).spec_remaining() - old(self).spec_inner().frames()[0].data_len()
            }),
            old(self).spec_inner().frames().len() == 0 ==> final(self).spec_remaining()
                == old(self).spec_remaining(),
    {
        let ghost fs = self.inner.frames();
        proof {
            lemma_fitting_within(fs, self.remaining as nat);
        }
        match self.inner.poll_frame() {
            None => None,
            Some(Ok(frame)) => {
                let n: usize = match frame.data_ref() {
                    Some(d) => d.len(),
                    None => 0,
                };
                if n > self.remaining {
                    self.remaining = 0;
                    Some(Err(LimitedError::LengthLimit(LengthLimitError)))
                } else {
                    self.remaining = self.remaining - n;
                    assert(self.inner.frames().take(fitting(self.inner.frames(), self.remaining as nat) as int)
                        =~= fs.take(fitting(fs, old(self).remaining as nat) as int).drop_first());
                    Some(Ok(frame))
                }
            },
            Some(Err(e)) => Some(Err(LimitedError::Inner(e))),
        }
    }

    /// The inner lower bound, clamped to the budget.
    open spec fn hint_lower(&self) -> u64 {
        let n = self.spec_remaining() as u64;
        if self.spec_inner().hint_lower() >= n {
            n
        } else {
            self.spec_inner().hint_lower()
        }
    }

    /// The budget, or the inner upper bound where that is smaller.
    open spec fn hint_upper(&self) -> Option<u64> {
        let n = self.spec_remaining() as u64;
        if self.spec_inner().hint_lower() >= n {
            Some(n)
        } else {
            match self.spec_inner().hint_upper() {
                Some(m) => Some(if n < m { n } else { m }),
                None => Some(n),
            }
        }
    }

    fn size_hint(&self) -> (r: SizeHint) {
        let n = self.remaining as u64;
        let mut hint = self.inner.size_hint();
        proof {
            lemma_fitting_all(self.inner.frames(), self.remaining as nat);
            assert(self.inner.frames().take(self.inner.frames().len() as int) =~= self.inner.frames());
        }
        if hint.lower() >= n {
            hint.set_exact(n);
        } else {
            match hint.upper() {
                Some(max) => {
                    let m = if n < max {
                        n
                    } else {
                        max
                    };
                    hint.set_upper(m);
                },
                None => {
                    hint.set_upper(n);
                },
            }
        }
        hint
    }
}

/// A limited body ends cleanly exactly when its inner body does and the
/// inner payload stays within the limit; it then passes every inner frame.
pub proof fn lemma_limited_outcome<B: Body>(body: Limited<B>)
    ensures
        body.failure() is None <==> (body.spec_inner().failure() is None && data_concat(
            body.spec_inner().frames(),
        ).len() <= body.spec_remaining()),
        data_concat(body.spec_inner().frames()).len() <= body.spec_remaining() ==> body.frames()
            == body.spec_inner().frames(),
        data_concat(body.spec_inner().frames()).len() > body.spec_remaining() ==> body.failure()
            == Some(LimitedError::<B::Error>::LengthLimit(LengthLimitError)),
{
    let fs = body.spec_inner().frames();
    lemma_fitting_all(fs, body.spec_remaining() as nat);
    assert(fs.take(fs.len() as int) =~= fs);
}

} // verus!
