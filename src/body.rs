use std::convert::Infallible;
use crate::limited::Limited;
use crate::stream::BodyStream;
use vstd::prelude::*;
use vstd::string::StringSliceAdditionalSpecFns;

verus! {

/// One unit of a body: payload bytes, or trailing headers.
#[derive(Debug)]
pub enum Frame {
    Data(Vec<u8>),
    Trailers(Vec<(String, String)>),
}

impl Frame {
    pub fn data(buf: Vec<u8>) -> (r: Self)
        ensures
            r == Frame::Data(buf),
    {
        Frame::Data(buf)
    }

    pub fn trailers(map: Vec<(String, String)>) -> (r: Self)
        ensures
            r == Frame::Trailers(map),
    {
        Frame::Trailers(map)
    }

    pub fn is_data(&self) -> (r: bool)
        ensures
            r == self is Data,
    {
        match self {
            Frame::Data(_) => true,
            Frame::Trailers(_) => false,
        }
    }

    pub fn data_ref(&self) -> (r: Option<&Vec<u8>>)
        ensures
            match self {
                Frame::Data(d) => r == Some(d),
                Frame::Trailers(_) => r is None,
            },
    {
        match self {
            Frame::Data(d) => Some(d),
            Frame::Trailers(_) => None,
        }
    }

    pub fn into_data(self) -> (r: Result<Vec<u8>, Self>)
        ensures
            match self {
                Frame::Data(d) => r == Ok::<Vec<u8>, Frame>(d),
                Frame::Trailers(_) => r == Err::<Vec<u8>, Frame>(self),
            },
    {
        match self {
            Frame::Data(d) => Ok(d),
            Frame::Trailers(_) => Err(self),
        }
    }

    /// The number of payload bytes.
    pub open spec fn data_len(&self) -> nat {
        match self {
            Frame::Data(d) => d@.len(),
            Frame::Trailers(_) => 0,
        }
    }
}

/// All payload bytes of `fs`, in order.
pub open spec fn data_concat(fs: Seq<Frame>) -> Seq<u8>
    decreases fs.len(),
{
    if fs.len() == 0 {
        Seq::empty()
    } else {
        match fs[0] {
            Frame::Data(d) => d@ + data_concat(fs.drop_first()),
            Frame::Trailers(_) => data_concat(fs.drop_first()),
        }
    }
}

/// The payload of the first data frame of `fs`, and what follows it.
pub open spec fn next_data(fs: Seq<Frame>) -> (Option<Vec<u8>>, Seq<Frame>)
    decreases fs.len(),
{
    if fs.len() == 0 {
        (None, fs)
    } else {
        match fs[0] {
            Frame::Data(d) => (Some(d), fs.drop_first()),
            Frame::Trailers(_) => next_data(fs.drop_first()),
        }
    }
}

/// Bounds on the number of payload bytes a body has left: a lower bound and
/// an optional upper bound.
#[derive(Debug, Clone, Copy, PartialEq, Eq, Structural)]
pub struct SizeHint {
    lower: u64,
    upper: Option<u64>,
}

impl SizeHint {
    pub closed spec fn spec_lower(&self) -> u64 {
        self.lower
    }

    pub closed spec fn spec_upper(&self) -> Option<u64> {
        self.upper
    }

    pub open spec fn wf(&self) -> bool {
        self.spec_upper() matches Some(u) ==> self.spec_lower() <= u
    }

    /// Whether the hint holds of `n` bytes.
    pub open spec fn admits(&self, n: nat) -> bool {
        &&& self.spec_lower() <= n
        &&& self.spec_upper() matches Some(u) ==> n <= u
    }

    /// No bound known: at least zero bytes.
    pub fn new() -> (r: Self)
        ensures
            r.wf(),
            r.spec_lower() == 0,
            r.spec_upper() is None,
    {
        SizeHint { lower: 0, upper: None }
    }

    pub fn with_exact(n: u64) -> (r: Self)
        ensures
            r.wf(),
            r.spec_lower() == n,
            r.spec_upper() == Some(n),
    {
        SizeHint { lower: n, upper: Some(n) }
    }

    /// At least `n` bytes, with no upper bound.
    pub fn with_lower(n: u64) -> (r: Self)
        ensures
            r.wf(),
            r.spec_lower() == n,
            r.spec_upper() is None,
    {
        SizeHint { lower: n, upper: None }
    }

    pub fn lower(&self) -> (r: u64)
        ensures
            r == self.spec_lower(),
    {
        self.lower
    }

    pub fn upper(&self) -> (r: Option<u64>)
        ensures
            r == self.spec_upper(),
    {
        self.upper
    }

    pub fn exact(&self) -> (r: Option<u64>)
        ensures
            r == (if self.spec_upper() == Some(self.spec_lower()) {
                Some(self.spec_lower())
            } else {
                None
            }),
    {
        match self.upper {
            Some(u) => if u == self.lower {
                Some(u)
            } else {
                None
            },
            None => None,
        }
    }

    pub fn set_lower(&mut self, value: u64)
        requires
            old(self).spec_upper() matches Some(u) ==> value <= u,
        ensures
            final(self).spec_lower() == value,
            final(self).spec_upper() == old(self).spec_upper(),
    {
        self.lower = value;
    }

    pub fn set_upper(&mut self, value: u64)
        requires
            old(self).spec_lower() <= value,
        ensures
            final(self).spec_lower() == old(self).spec_lower(),
            final(self).spec_upper() == Some(value),
    {
        self.upper = Some(value);
    }

    pub fn set_exact(&mut self, value: u64)
        ensures
            final(self).spec_lower() == value,
            final(self).spec_upper() == Some(value),
    {
        self.lower = value;
        self.upper = Some(value);
    }
}

impl Default for SizeHint {
    fn default() -> (r: Self)
        ensures
            r.spec_lower() == 0,
            r.spec_upper() is None,
    {
        SizeHint::new()
    }
}

/// A finite, single-consumer producer of frames.
///
/// `frames` are the frames still to come, and `failure` what follows them:
/// `None` for a clean end, or the error the body fails with. Once the end
/// was reported, it is reported again; after an error nothing is promised.
pub trait Body {
    type Error;

    spec fn frames(&self) -> Seq<Frame>;

    spec fn failure(&self) -> Option<Self::Error>;

    fn poll_frame(&mut self) -> (r: Option<Result<Frame, Self::Error>>)
        ensures
            old(self).frames().len() > 0 ==> {
                &&& r == Some(Ok::<Frame, Self::Error>(old(self).frames()[0]))
                &&& final(self).frames() == old(self).frames().drop_first()
                &&& final(self).failure() == old(self).failure()
            },
            old(self).frames().len() == 0 ==> match old(self).failure() {
                None => r is None && final(self).frames().len() == 0 && final(self).failure() is None,
                Some(e) => r == Some(Err::<Frame, Self::Error>(e)),
            },
    ;

    /// The lower bound that `size_hint` reports.
    spec fn hint_lower(&self) -> u64;

    /// The upper bound that `size_hint` reports.
    spec fn hint_upper(&self) -> Option<u64>;

    /// Bounds on the payload bytes left; they hold where the body ends cleanly.
    fn size_hint(&self) -> (r: SizeHint)
        ensures
            r.wf(),
            r.spec_lower() == self.hint_lower(),
            r.spec_upper() == self.hint_upper(),
            self.failure() is None ==> r.admits(data_concat(self.frames()).len()),
    ;
}

impl Body for () {
    type Error = Infallible;

    open spec fn frames(&self) -> Seq<Frame> {
        Seq::empty()
    }

    open spec fn failure(&self) -> Option<Infallible> {
        None
    }

    fn poll_frame(&mut self) -> (r: Option<Result<Frame, Infallible>>) {
        None
    }

    open spec fn hint_lower(&self) -> u64 {
        0
    }

    open spec fn hint_upper(&self) -> Option<u64> {
        Some(0)
    }

    fn size_hint(&self) -> (r: SizeHint) {
        SizeHint::with_exact(0)
    }
}

impl Body for Vec<u8> {
    type Error = Infallible;

    open spec fn frames(&self) -> Seq<Frame> {
        if self@.len() == 0 {
            Seq::empty()
        } else {
            seq![Frame::Data(*self)]
        }
    }

    open spec fn failure(&self) -> Option<Infallible> {
        None
    }

    fn poll_frame(&mut self) -> (r: Option<Result<Frame, Infallible>>) {
        if self.len() == 0 {
            None
        } else {
            let mut out: Vec<u8> = Vec::new();
            std::mem::swap(self, &mut out);
            Some(Ok(Frame::Data(out)))
        }
    }

    open spec fn hint_lower(&self) -> u64 {
        self@.len() as u64
    }

    open spec fn hint_upper(&self) -> Option<u64> {
        Some(self@.len() as u64)
    }

    fn size_hint(&self) -> (r: SizeHint) {
        proof {
            lemma_single_data(*self);
        }
        SizeHint::with_exact(self.len() as u64)
    }
}

/// A body of one buffer of bytes, given as bytes or as text; it yields
/// the buffer as one data frame, or nothing when it is empty.
#[derive(Debug)]
pub struct Full {
    data: Vec<u8>,
}

impl Full {
    pub closed spec fn bytes(&self) -> Vec<u8> {
        self.data
    }

    pub fn new(data: Vec<u8>) -> (r: Self)
        ensures
            r.bytes() == data,
    {
        Full { data }
    }

    /// A body of the UTF-8 bytes of `text`.
    pub fn from_text(text: &str) -> (r: Self)
        ensures
            r.bytes()@ == text.spec_bytes(),
    {
        Full { data: text.as_bytes_vec() }
    }
}

impl Body for Full {
    type Error = Infallible;

    open spec fn frames(&self) -> Seq<Frame> {
        if self.bytes()@.len() == 0 {
            Seq::empty()
        } else {
            seq![Frame::Data(self.bytes())]
        }
    }

    open spec fn failure(&self) -> Option<Infallible> {
        None
    }

    fn poll_frame(&mut self) -> (r: Option<Result<Frame, Infallible>>) {
        if self.data.len() == 0 {
            None
        } else {
            let mut out: Vec<u8> = Vec::new();
            std::mem::swap(&mut self.data, &mut out);
            Some(Ok(Frame::Data(out)))
        }
    }

    open spec fn hint_lower(&self) -> u64 {
        self.bytes()@.len() as u64
    }

    open spec fn hint_upper(&self) -> Option<u64> {
        Some(self.bytes()@.len() as u64)
    }

    fn size_hint(&self) -> (r: SizeHint) {
        proof {
            lemma_single_data(self.data);
        }
        SizeHint::with_exact(self.data.len() as u64)
    }
}

/// A body made of frames held in memory, produced in order.
#[derive(Debug)]
pub struct Frames {
    frames: Vec<Frame>,
}

impl Frames {
    pub fn new(frames: Vec<Frame>) -> (r: Self)
        ensures
            r.frames() == frames@,
    {
        Frames { frames }
    }

    /// A body of one data frame per chunk, in order.
    pub fn from_chunks(chunks: Vec<Vec<u8>>) -> (r: Self)
        ensures
            r.frames().len() == chunks@.len(),
            forall|i: int| 0 <= i < chunks@.len() ==> r.frames()[i] == Frame::Data(#[trigger] chunks@[i]),
    {
        let mut chunks = chunks;
        let ghost all = chunks@;
        let mut rev: Vec<Frame> = Vec::new();
        while chunks.len() > 0
            invariant
                chunks@ == all.take(chunks@.len() as int),
                chunks@.len() + rev@.len() == all.len(),
                forall|i: int| 0 <= i < rev@.len() ==> rev@[i] == Frame::Data(all[all.len() - 1 - i]),
            decreases chunks@.len(),
        {
            let c = chunks.pop().unwrap();
            rev.push(Frame::Data(c));
            assert(chunks@ =~= all.take(chunks@.len() as int));
        }
        let mut frames: Vec<Frame> = Vec::new();
        while rev.len() > 0
            invariant
                rev@.len() + frames@.len() == all.len(),
                forall|i: int| 0 <= i < rev@.len() ==> rev@[i] == Frame::Data(all[all.len() - 1 - i]),
                forall|i: int| 0 <= i < frames@.len() ==> frames@[i] == Frame::Data(all[i]),
            decreases rev@.len(),
        {
            let f = rev.pop().unwrap();
            frames.push(f);
        }
        Frames { frames }
    }
}

impl Body for Frames {
    type Error = Infallible;

    closed spec fn frames(&self) -> Seq<Frame> {
        self.frames@
    }

    open spec fn failure(&self) -> Option<Infallible> {
        None
    }

    fn poll_frame(&mut self) -> (r: Option<Result<Frame, Infallible>>) {
        if self.frames.len() == 0 {
            None
        } else {
            Some(Ok(self.frames.remove(0)))
        }
    }

    /// The total payload, or the largest `u64` where it does not fit.
    open spec fn hint_lower(&self) -> u64 {
        if data_concat(self.frames()).len() <= u64::MAX {
            data_concat(self.frames()).len() as u64
        } else {
            u64::MAX
        }
    }

    open spec fn hint_upper(&self) -> Option<u64> {
        if data_concat(self.frames()).len() <= u64::MAX {
            Some(data_concat(self.frames()).len() as u64)
        } else {
            None
        }
    }

    fn size_hint(&self) -> (r: SizeHint) {
        let mut total: u64 = 0;
        let mut i: usize = 0;
        let mut overflow = false;
        while i < self.frames.len()
            invariant
                i <= self.frames@.len(),
                !overflow ==> total as nat == data_concat(self.frames@.take(i as int)).len(),
                overflow ==> data_concat(self.frames@.take(i as int)).len() > u64::MAX,
            decreases self.frames@.len() - i,
        {
            proof {
                lemma_concat_take(self.frames@, i as int);
            }
            let n = match &self.frames[i] {
                Frame::Data(d) => d.len(),
                Frame::Trailers(_) => 0,
            };
            if !overflow {
                if n as u64 > u64::MAX - total {
                    overflow = true;
                } else {
                    total = total + n as u64;
                }
            }
            i = i + 1;
        }
        proof {
            assert(self.frames@.take(self.frames@.len() as int) =~= self.frames@);
        }
        if overflow {
            SizeHint::with_lower(u64::MAX)
        } else {
            SizeHint::with_exact(total)
        }
    }
}

/// The payload of the first `i + 1` frames is that of the first `i`, then
/// that of frame `i`.
proof fn lemma_concat_take(fs: Seq<Frame>, i: int)
    requires
        0 <= i < fs.len(),
    ensures
        data_concat(fs.take(i + 1)).len() == data_concat(fs.take(i)).len() + fs[i].data_len(),
    decreases i,
{
    if i == 0 {
        assert(fs.take(1).drop_first() =~= Seq::<Frame>::empty());
        assert(fs.take(0) =~= Seq::<Frame>::empty());
    } else {
        lemma_concat_take(fs.drop_first(), i - 1);
        assert(fs.take(i + 1).drop_first() =~= fs.drop_first().take(i));
        assert(fs.take(i).drop_first() =~= fs.drop_first().take(i - 1));
        assert(fs.take(i + 1)[0] == fs[0]);
        assert(fs.take(i)[0] == fs[0]);
    }
}

proof fn lemma_single_data(d: Vec<u8>)
    ensures
        data_concat(seq![Frame::Data(d)]) == d@,
        d@.len() == 0 ==> data_concat(Seq::<Frame>::empty()) == d@,
{
    let fs = seq![Frame::Data(d)];
    assert(fs.drop_first() =~= Seq::<Frame>::empty());
    assert(data_concat(fs.drop_first()) == Seq::<u8>::empty());
    assert(fs[0] == Frame::Data(d));
    assert(data_concat(fs) == d@ + data_concat(fs.drop_first()));
    assert(d@ + Seq::<u8>::empty() =~= d@);
    if d@.len() == 0 {
        assert(d@ =~= Seq::<u8>::empty());
    }
}

/// What a body reports once its frames are spent: nothing, or its error.
pub open spec fn end_of<E>(failure: Option<E>) -> Option<Result<Vec<u8>, E>> {
    match failure {
        None => None,
        Some(e) => Some(Err(e)),
    }
}

/// Operations every body offers.
pub trait BodyExt: Body + Sized {
    /// The next frame, as `poll_frame` gives it.
    fn next(&mut self) -> (r: Option<Result<Frame, Self::Error>>)
        ensures
            old(self).frames().len() > 0 ==> {
                &&& r == Some(Ok::<Frame, Self::Error>(old(self).frames()[0]))
                &&& final(self).frames() == old(self).frames().drop_first()
                &&& final(self).failure() == old(self).failure()
            },
            old(self).frames().len() == 0 ==> match old(self).failure() {
                None => r is None && final(self).frames().len() == 0 && final(self).failure() is None,
                Some(e) => r == Some(Err::<Frame, Self::Error>(e)),
            },
    {
        self.poll_frame()
    }

    /// The payload of the next data frame, skipping trailers.
    fn data(&mut self) -> (r: Option<Result<Vec<u8>, Self::Error>>)
        ensures
            next_data(old(self).frames()).0 matches Some(d) ==> {
                &&& r == Some(Ok::<Vec<u8>, Self::Error>(d))
                &&& final(self).frames() == next_data(old(self).frames()).1
                &&& final(self).failure() == old(self).failure()
            },
            next_data(old(self).frames()).0 is None ==> {
                &&& r == end_of(old(self).failure())
                &&& old(self).failure() is None ==> final(self).frames().len() == 0 && final(self).failure() is None
            },
    {
        loop
            invariant
                next_data(self.frames()) == next_data(old(self).frames()),
                self.failure() == old(self).failure(),
            decreases self.frames().len(),
        {
            let ghost fs = self.frames();
            match self.poll_frame() {
                None => {
                    return None;
                },
                Some(Err(e)) => {
                    return Some(Err(e));
                },
                Some(Ok(Frame::Data(d))) => {
                    return Some(Ok(d));
                },
                Some(Ok(Frame::Trailers(_))) => {
                    assert(next_data(fs) == next_data(fs.drop_first()));
                },
            }
        }
    }

    /// Fails once more than `limit` payload bytes would pass.
    fn limit(self, limit: usize) -> (r: Limited<Self>)
        ensures
            r.spec_remaining() == limit,
            r.spec_inner() == self,
    {
        Limited::new(self, limit)
    }

    /// The body as a stream of frames.
    fn stream(self) -> (r: BodyStream<Self>)
        ensures
            r.spec_body() == self,
            !r.spent(),
    {
        BodyStream::new(self)
    }

    /// Gathers the whole body.
    fn collect(self) -> (r: Collect<Self>)
        ensures
            r.body == self,
    {
        Collect::new(self)
    }
}

impl<B: Body> BodyExt for B {
}

/// A body that is gathered whole.
#[derive(Debug)]
pub struct Collect<B> {
    pub body: B,
}

impl<B: Body> Collect<B> {
    pub fn new(body: B) -> (r: Self)
        ensures
            r.body == body,
    {
        Collect { body }
    }

    /// All payload bytes of the body in order, or the body's error.
    pub fn bytes(self) -> (r: Result<Vec<u8>, B::Error>)
        ensures
            self.body.failure() is None ==> (r matches Ok(v) && v@ == data_concat(self.body.frames())),
            self.body.failure() matches Some(e) ==> r == Err::<Vec<u8>, B::Error>(e),
    {
        let ghost all = self.body.frames();
        let mut body = self.body;
        proof {
            lemma_next_data_concat(body.frames());
        }
        let mut buf1 = match body.data() {
            Some(Ok(b)) => b,
            Some(Err(e)) => {
                return Err(e);
            },
            None => {
                return Ok(Vec::new());
            },
        };
        proof {
            lemma_next_data_concat(body.frames());
        }
        let mut buf2 = match body.data() {
            Some(Ok(b)) => b,
            Some(Err(e)) => {
                return Err(e);
            },
            None => {
                assert(buf1@ + Seq::<u8>::empty() =~= buf1@);
                return Ok(buf1);
            },
        };
        let hint = body.size_hint().lower();
        let hinted: usize = if hint < 16384 {
            hint as usize
        } else {
            16384
        };
        let cap = buf1.len().saturating_add(buf2.len()).saturating_add(hinted);
        let mut vec: Vec<u8> = Vec::with_capacity(cap);
        vec.append(&mut buf1);
        vec.append(&mut buf2);
        loop
            invariant
                vec@ + data_concat(body.frames()) == data_concat(all),
                body.failure() == self.body.failure(),
                all == self.body.frames(),
            decreases body.frames().len(),
        {
            let ghost before = vec@;
            let ghost pre = body.frames();
            proof {
                lemma_next_data_concat(pre);
            }
            match body.data() {
                Some(Ok(b)) => {
                    let mut b = b;
                    let ghost bytes = b@;
                    vec.append(&mut b);
                    assert(vec@ + data_concat(body.frames()) =~= before + (bytes + data_concat(body.frames())));
                },
                Some(Err(e)) => {
                    return Err(e);
                },
                None => {
                    assert(data_concat(pre) == Seq::<u8>::empty());
                    assert(vec@ + Seq::<u8>::empty() =~= vec@);
                    return Ok(vec);
                },
            }
        }
    }
}

/// The payload of the frames is that of the first data frame, then that of
/// the rest; without a data frame there is none.
pub proof fn lemma_next_data_concat(fs: Seq<Frame>)
    ensures
        next_data(fs).0 matches Some(d) ==> data_concat(fs) == d@ + data_concat(next_data(fs).1),
        next_data(fs).0 matches Some(d) ==> next_data(fs).1.len() < fs.len(),
        next_data(fs).0 is None ==> data_concat(fs) == Seq::<u8>::empty(),
    decreases fs.len(),
{
    if fs.len() > 0 {
        lemma_next_data_concat(fs.drop_first());
    }
}

} // verus!
