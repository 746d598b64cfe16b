//! Bridges between bodies and streams of frames.
use crate::body::{Body, Frame, SizeHint};
use vstd::prelude::*;

verus! {

/// An ordered, finite source of items; once they are spent it yields `None`.
pub trait Stream {
    type Item;

    spec fn items(&self) -> Seq<Self::Item>;

    fn poll_next(&mut self) -> (r: Option<Self::Item>)
        ensures
            old(self).items().len() > 0 ==> r == Some(old(self).items()[0]) && final(self).items()
                == old(self).items().drop_first(),
            old(self).items().len() == 0 ==> r is None && final(self).items().len() == 0,
    ;
}

/// The frames before the first error of `items`.
pub open spec fn ok_prefix<E>(items: Seq<Result<Frame, E>>) -> Seq<Frame>
    decreases items.len(),
{
    if items.len() == 0 {
        Seq::empty()
    } else {
        match items[0] {
            Ok(f) => seq![f] + ok_prefix(items.drop_first()),
            Err(_) => Seq::empty(),
        }
    }
}

/// The first error of `items`, if any.
pub open spec fn first_err<E>(items: Seq<Result<Frame, E>>) -> Option<E>
    decreases items.len(),
{
    if items.len() == 0 {
        None
    } else {
        match items[0] {
            Ok(_) => first_err(items.drop_first()),
            Err(e) => Some(e),
        }
    }
}

/// A body whose frames come from a stream of results: the frames up to the
/// first error, then that error.
#[derive(Debug, Clone, Copy, Default)]
pub struct StreamBody<St> {
    stream: St,
}

impl<St> StreamBody<St> {
    pub closed spec fn spec_stream(&self) -> St {
        self.stream
    }

    pub fn new(stream: St) -> (r: Self)
        ensures
            r.spec_stream() == stream,
    {
        StreamBody { stream }
    }

    pub fn get_ref(&self) -> (r: &St)
        ensures
            *r == self.spec_stream(),
    {
        &self.stream
    }

    pub fn get_mut(&mut self) -> (r: &mut St)
        ensures
            *r == old(self).spec_stream(),
            final(self).spec_stream() == *final(r),
    {
        &mut self.stream
    }

    pub fn into_inner(self) -> (r: St)
        ensures
            r == self.spec_stream(),
    {
        self.stream
    }
}

impl<St, E> Body for StreamBody<St> where St: Stream<Item = Result<Frame, E>> {
    type Error = E;

    open spec fn frames(&self) -> Seq<Frame> {
        ok_prefix(self.spec_stream().items())
    }

    open spec fn failure(&self) -> Option<E> {
        first_err(self.spec_stream().items())
    }

    fn poll_frame(&mut self) -> (r: Option<Result<Frame, E>>) {
        self.stream.poll_next()
    }

    open spec fn hint_lower(&self) -> u64 {
        0
    }

    open spec fn hint_upper(&self) -> Option<u64> {
        None
    }

    fn size_hint(&self) -> (r: SizeHint) {
        SizeHint::new()
    }
}

impl<St: Stream> Stream for StreamBody<St> {
    type Item = St::Item;

    open spec fn items(&self) -> Seq<St::Item> {
        self.spec_stream().items()
    }

    fn poll_next(&mut self) -> (r: Option<St::Item>) {
        self.stream.poll_next()
    }
}

/// A stream of the frames of a body, each as `Ok`, then its error if it
/// fails; nothing comes after an error.
#[derive(Debug, Clone, Copy, Default)]
pub struct BodyStream<B> {
    body: B,
    done: bool,
}

impl<B> BodyStream<B> {
    pub closed spec fn spec_body(&self) -> B {
        self.body
    }

    /// Whether the body's error has been handed out.
    pub closed spec fn spent(&self) -> bool {
        self.done
    }

    pub fn new(body: B) -> (r: Self)
        ensures
            r.spec_body() == body,
            !r.spent(),
    {
        BodyStream { body, done: false }
    }

    pub fn get_ref(&self) -> (r: &B)
        ensures
            *r == self.spec_body(),
    {
        &self.body
    }

    pub fn get_mut(&mut self) -> (r: &mut B)
        ensures
            *r == old(self).spec_body(),
            final(self).spec_body() == *final(r),
            final(self).spent() == old(self).spent(),
    {
        &mut self.body
    }

    pub fn into_inner(self) -> (r: B)
        ensures
            r == self.spec_body(),
    {
        self.body
    }
}

/// The items a body becomes: each frame as `Ok`, then its error, if any.
pub open spec fn body_items<E>(frames: Seq<Frame>, failure: Option<E>) -> Seq<Result<Frame, E>> {
    frames.map_values(|f: Frame| Ok::<Frame, E>(f)) + match failure {
        Some(e) => seq![Err::<Frame, E>(e)],
        None => Seq::empty(),
    }
}

impl<B: Body> Stream for BodyStream<B> {
    type Item = Result<Frame, B::Error>;

    open spec fn items(&self) -> Seq<Result<Frame, B::Error>> {
        if self.spent() {
            Seq::empty()
        } else {
            body_items(self.spec_body().frames(), self.spec_body().failure())
        }
    }

    fn poll_next(&mut self) -> (r: Option<Result<Frame, B::Error>>) {
        if self.done {
            return None;
        }
        let ghost fs = self.body.frames();
        let ghost fail = self.body.failure();
        let r = self.body.poll_frame();
        match r {
            Some(Err(_)) => {
                self.done = true;
            },
            _ => {},
        }
        proof {
            if fs.len() > 0 {
                assert(body_items(fs, fail)[0] == Ok::<Frame, B::Error>(fs[0]));
                assert(body_items(fs, fail).drop_first() =~= body_items(fs.drop_first(), fail));
            } else {
                assert(fs.map_values(|f: Frame| Ok::<Frame, B::Error>(f)) =~= Seq::empty());
                if fail is Some {
                    assert(body_items(fs, fail) =~= seq![Err::<Frame, B::Error>(fail->Some_0)]);
                }
            }
        }
        r
    }
}

impl<B: Body> Body for BodyStream<B> {
    type Error = B::Error;

    open spec fn frames(&self) -> Seq<Frame> {
        if self.spent() {
            Seq::empty()
        } else {
            self.spec_body().frames()
        }
    }

    open spec fn failure(&self) -> Option<B::Error> {
        if self.spent() {
            None
        } else {
            self.spec_body().failure()
        }
    }

    fn poll_frame(&mut self) -> (r: Option<Result<Frame, B::Error>>) {
        if self.done {
            return None;
        }
        let r = self.body.poll_frame();
        match r {
            Some(Err(_)) => {
                self.done = true;
            },
            _ => {},
        }
        r
    }

    open spec fn hint_lower(&self) -> u64 {
        if self.spent() {
            0
        } else {
            self.spec_body().hint_lower()
        }
    }

    open spec fn hint_upper(&self) -> Option<u64> {
        if self.spent() {
            Some(0)
        } else {
            self.spec_body().hint_upper()
        }
    }

    fn size_hint(&self) -> (r: SizeHint) {
        if self.done {
            SizeHint::with_exact(0)
        } else {
            self.body.size_hint()
        }
    }
}

/// A stream of items held in memory, yielded in order.
#[derive(Debug, Clone)]
pub struct Iter<T> {
    items: Vec<T>,
}

/// A stream of `items`, in order.
pub fn iter<T>(items: Vec<T>) -> (r: Iter<T>)
    ensures
        r.items() == items@,
{
    Iter { items }
}

impl<T> Stream for Iter<T> {
    type Item = T;

    closed spec fn items(&self) -> Seq<T> {
        self.items@
    }

    fn poll_next(&mut self) -> (r: Option<T>) {
        if self.items.len() == 0 {
            None
        } else {
            Some(self.items.remove(0))
        }
    }
}

} // verus!
