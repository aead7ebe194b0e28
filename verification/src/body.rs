//! Response bodies and their unification.
//!
//! The balanced path and the fallback path each produce responses with their
//! own body type. `Body` is the tagged union presented to callers: every
//! streaming operation — data-chunk production, trailer production, the
//! end-of-stream query — forwards to whichever representation is active,
//! without buffering or copying the payload.

use vstd::prelude::*;

verus! {

/// A streaming response body: a sequence of data chunks followed by optional
/// trailers.
pub trait Payload: Sized {
    /// The data chunks not yet produced.
    spec fn chunks(&self) -> Seq<Seq<u8>>;

    /// The trailers not yet produced.
    spec fn trailers(&self) -> Option<Seq<u8>>;

    /// Produces the next data chunk, or nothing once the data is exhausted.
    fn poll_data(&mut self) -> (r: Option<Vec<u8>>)
        ensures
            old(self).chunks().len() == 0 ==> r is None && *final(self) == *old(self),
            old(self).chunks().len() > 0 ==> r is Some && (r->0)@ == old(self).chunks()[0]
                && final(self).chunks() == old(self).chunks().drop_first() && final(self).trailers() == old(self).trailers(),
    ;

    /// Produces the trailers, if the body carries any.
    fn poll_trailers(&mut self) -> (r: Option<Vec<u8>>)
        ensures
            *final(self) == *old(self),
            r is Some <==> old(self).trailers() is Some,
            r is Some ==> (r->0)@ == old(self).trailers()->0,
    ;

    /// Whether nothing remains: no data chunk and no trailers.
    fn is_end_stream(&self) -> (r: bool)
        ensures
            r == (self.chunks().len() == 0 && self.trailers() is None),
    ;
}

/// A byte source that hands out its remaining bytes and can be advanced
/// past a consumed prefix.
pub trait Buf: Sized {
    /// The bytes not yet consumed.
    spec fn rem(&self) -> Seq<u8>;

    /// How many bytes remain.
    fn remaining(&self) -> (r: usize)
        ensures
            r == self.rem().len(),
    ;

    /// The remaining bytes.
    fn bytes(&self) -> (r: &[u8])
        ensures
            r@ == self.rem(),
    ;

    /// Consumes `cnt` bytes from the front.
    fn advance(&mut self, cnt: usize)
        requires
            cnt <= old(self).rem().len(),
        ensures
            final(self).rem() == old(self).rem().skip(cnt as int),
    ;
}

/// A response from either path: a status and a body.
#[derive(Clone, Copy, PartialEq, Eq, Structural, Debug)]
pub struct Response<B> {
    pub status: u16,
    pub body: B,
}

/// The unified body: `A` carries a balanced-path body, `B` a fallback-path
/// body.
#[derive(Clone, Debug)]
pub enum Body<A, B> {
    A(A),
    B(B),
}

impl<A, B> Body<A, B> {
    /// Wraps a balanced-path response into the unified body type.
    pub fn rsp_a(rsp: Response<A>) -> (r: Response<Body<A, B>>)
        ensures
            r.status == rsp.status,
            r.body == Body::<A, B>::A(rsp.body),
    {
        Response { status: rsp.status, body: Body::A(rsp.body) }
    }

    /// Wraps a fallback-path response into the unified body type.
    pub fn rsp_b(rsp: Response<B>) -> (r: Response<Body<A, B>>)
        ensures
            r.status == rsp.status,
            r.body == Body::<A, B>::B(rsp.body),
    {
        Response { status: rsp.status, body: Body::B(rsp.body) }
    }
}

impl<A: Payload, B: Payload> Payload for Body<A, B> {
    open spec fn chunks(&self) -> Seq<Seq<u8>> {
        match self {
            Body::A(a) => a.chunks(),
            Body::B(b) => b.chunks(),
        }
    }

    open spec fn trailers(&self) -> Option<Seq<u8>> {
        match self {
            Body::A(a) => a.trailers(),
            Body::B(b) => b.trailers(),
        }
    }

    fn poll_data(&mut self) -> (r: Option<Vec<u8>>) {
        match self {
            Body::A(a) => a.poll_data(),
            Body::B(b) => b.poll_data(),
        }
    }

    fn poll_trailers(&mut self) -> (r: Option<Vec<u8>>) {
        match self {
            Body::A(a) => a.poll_trailers(),
            Body::B(b) => b.poll_trailers(),
        }
    }

    fn is_end_stream(&self) -> (r: bool) {
        match self {
            Body::A(a) => a.is_end_stream(),
            Body::B(b) => b.is_end_stream(),
        }
    }
}

impl<A: Buf, B: Buf> Buf for Body<A, B> {
    open spec fn rem(&self) -> Seq<u8> {
        match self {
            Body::A(a) => a.rem(),
            Body::B(b) => b.rem(),
        }
    }

    fn remaining(&self) -> (r: usize) {
        match self {
            Body::A(a) => a.remaining(),
            Body::B(b) => b.remaining(),
        }
    }

    fn bytes(&self) -> (r: &[u8]) {
        match self {
            Body::A(a) => a.bytes(),
            Body::B(b) => b.bytes(),
        }
    }

    fn advance(&mut self, cnt: usize) {
        match self {
            Body::A(a) => a.advance(cnt),
            Body::B(b) => b.advance(cnt),
        }
    }
}

/// The views of a sequence of byte buffers.
pub open spec fn chunk_views(cs: Seq<Vec<u8>>) -> Seq<Seq<u8>> {
    cs.map_values(|c: Vec<u8>| c@)
}

/// A concrete in-memory body: its chunks and optional trailers, produced in
/// order.
pub struct ChunkBody {
    pub chunks: Vec<Vec<u8>>,
    pub trailer: Option<Vec<u8>>,
}

impl Payload for ChunkBody {
    open spec fn chunks(&self) -> Seq<Seq<u8>> {
        chunk_views(self.chunks@)
    }

    open spec fn trailers(&self) -> Option<Seq<u8>> {
        match self.trailer {
            Some(t) => Some(t@),
            None => None,
        }
    }

    fn poll_data(&mut self) -> (r: Option<Vec<u8>>) {
        if self.chunks.len() == 0 {
            None
        } else {
            let c = self.chunks.remove(0);
            proof {
                assert(chunk_views(self.chunks@) =~= chunk_views(old(self).chunks@).drop_first());
            }
            Some(c)
        }
    }

    fn poll_trailers(&mut self) -> (r: Option<Vec<u8>>) {
        if self.trailer.is_none() {
            return None;
        }
        let n: usize = match &self.trailer {
            Some(t) => t.len(),
            None => 0,
        };
        let mut copy: Vec<u8> = Vec::new();
        let mut i: usize = 0;
        while i < n
            invariant
                self.trailer is Some,
                *self == *old(self),
                n == (self.trailer->0)@.len(),
                i <= n,
                copy@ == (self.trailer->0)@.subrange(0, i as int),
            decreases n - i,
        {
            let b: u8 = match &self.trailer {
                Some(t) => t[i],
                None => 0,
            };
            copy.push(b);
            proof {
                assert(copy@ =~= (self.trailer->0)@.subrange(0, i + 1));
            }
            i = i + 1;
        }
        proof {
            assert(copy@ =~= (self.trailer->0)@);
        }
        Some(copy)
    }

    fn is_end_stream(&self) -> (r: bool) {
        self.chunks.len() == 0 && self.trailer.is_none()
    }
}

/// A concrete in-memory byte source: a buffer and a consumed-prefix mark.
pub struct ByteCursor {
    pub data: Vec<u8>,
    pub pos: usize,
}

impl Buf for ByteCursor {
    open spec fn rem(&self) -> Seq<u8> {
        if self.pos <= self.data@.len() {
            self.data@.skip(self.pos as int)
        } else {
            Seq::empty()
        }
    }

    fn remaining(&self) -> (r: usize) {
        if self.pos <= self.data.len() {
            self.data.len() - self.pos
        } else {
            0
        }
    }

    fn bytes(&self) -> (r: &[u8]) {
        if self.pos <= self.data.len() {
            let s = vstd::slice::slice_subrange(self.data.as_slice(), self.pos, self.data.len());
            proof {
                assert(s@ =~= self.rem());
            }
            s
        } else {
            let s = vstd::slice::slice_subrange(self.data.as_slice(), 0, 0);
            proof {
                assert(s@ =~= self.rem());
            }
            s
        }
    }

    fn advance(&mut self, cnt: usize) {
        let len = self.data.len();
        proof {
            if self.pos <= self.data@.len() {
                assert(old(self).rem().len() == self.data@.len() - self.pos);
            } else {
                assert(old(self).rem().len() == 0);
            }
        }
        self.pos = self.pos + cnt;
        proof {
            assert(self.rem() =~= old(self).rem().skip(cnt as int));
        }
    }
}

} // verus!
