//! Building blocks of the second tunnel test set: a small cache of reply
//! writers keyed by the previous peer's cache id, symmetric shadowers built on
//! [`ShadowTest`], and route providers that pick test routes.
use vstd::prelude::*;

use crate::shadow::{
    ShadowTest,
    ShadowModeTest,
    header_bytes,
    header_read,
    shadow_key,
    shadowed,
    unshadowed,
    valid_header,
};
use crate::tunnel::{cache_id, push_cache_id};
use crate::peer::{LocalAdd, PeerTest};

verus! {

/// Window parameters for tunnel content.
#[derive(Clone)]
pub struct TestSizedWindows;

/// Window parameters for tunnel headers.
#[derive(Clone)]
pub struct TestSizedWindowsHead;

impl TestSizedWindowsHead {
    /// Initial window size.
    pub const INIT_SIZE: usize = 15;
    /// Whether the window size is written.
    pub const WRITE_SIZE: bool = false;
    /// Whether padding is secure.
    pub const SECURE_PAD: bool = false;

    /// Growth ratio of the window: none, the window keeps its size.
    pub fn growth_ratio() -> (res: Option<(usize, usize)>)
        ensures
            res is None,
    {
        None
    }
}

impl TestSizedWindows {
    /// Initial window size.
    pub const INIT_SIZE: usize = 15;
    /// Whether the window size is written.
    pub const WRITE_SIZE: bool = true;
    /// Whether padding is secure.
    pub const SECURE_PAD: bool = false;

    /// Growth ratio of the window: it grows by 3/2.
    pub fn growth_ratio() -> (res: Option<(usize, usize)>)
        ensures
            res == Some((3usize, 2usize)),
    {
        Some((3, 2))
    }
}

/// A cached reply writer with the cache id of the peer it replies to.
pub struct CachedInfo<W> {
    pub cached_key: Option<W>,
    pub prev_peer: Vec<u8>,
}

/// The cache: its entries in the order they were put, the next index to get
/// (starting at 0), and the index of the last cache id given out.
pub struct CachedInfoManager<W>(pub Vec<CachedInfo<W>>, pub usize, pub usize);

/// Why a lookup in the cache failed.
#[derive(Debug, Clone, Copy, PartialEq, Eq, Structural)]
pub enum TunnelCacheError {
    /// No entry has the cache id looked for.
    MissingContent,
}

/// The first index in `lo..hi` whose entry has the cache id `k`.
pub open spec fn first_match<W>(e: Seq<CachedInfo<W>>, k: Seq<u8>, lo: int, hi: int) -> Option<int>
    decreases hi - lo,
{
    if lo >= hi {
        None
    } else if e[lo].prev_peer@ == k {
        Some(lo)
    } else {
        first_match(e, k, lo + 1, hi)
    }
}

/// The entry that a lookup of the cache id `k` finds: the first match from
/// index `start` to the end, and else the first match before `start`.
pub open spec fn cache_search<W>(e: Seq<CachedInfo<W>>, start: int, k: Seq<u8>) -> Option<int> {
    if start < e.len() {
        match first_match(e, k, start, e.len() as int) {
            Some(i) => Some(i),
            None => first_match(e, k, 0, start),
        }
    } else {
        first_match(e, k, 0, e.len() as int)
    }
}

/// A lookup of `k` in a cache with entries `e` from `start` stays in bounds
/// and finds an entry that holds a writer: when nothing matches, `start` does
/// not lie past the end.
pub open spec fn cache_lookup_ok<W>(e: Seq<CachedInfo<W>>, start: int, k: Seq<u8>) -> bool {
    match cache_search(e, start, k) {
        Some(i) => e[i].cached_key is Some,
        None => start <= e.len(),
    }
}

proof fn lemma_first_match<W>(e: Seq<CachedInfo<W>>, k: Seq<u8>, lo: int, hi: int)
    ensures
        first_match(e, k, lo, hi) matches Some(i) ==> lo <= i < hi && e[i].prev_peer@ == k
            && forall|j: int| lo <= j < i ==> e[j].prev_peer@ != k,
        first_match(e, k, lo, hi) is None ==> forall|j: int|
            lo <= j < hi ==> e[j].prev_peer@ != k,
    decreases hi - lo,
{
    if lo < hi {
        lemma_first_match(e, k, lo + 1, hi);
    }
}

proof fn lemma_first_match_at<W>(e: Seq<CachedInfo<W>>, k: Seq<u8>, lo: int, hi: int, i: int)
    requires
        lo <= i < hi,
        e[i].prev_peer@ == k,
        forall|j: int| lo <= j < i ==> e[j].prev_peer@ != k,
    ensures
        first_match(e, k, lo, hi) == Some(i),
    decreases i - lo,
{
    if lo < i {
        lemma_first_match_at(e, k, lo + 1, hi, i);
    }
}

/// Byte-wise equality of two byte strings.
fn bytes_eq(a: &[u8], b: &[u8]) -> (res: bool)
    ensures
        res == (a@ == b@),
{
    if a.len() != b.len() {
        return false;
    }
    let mut i: usize = 0;
    while i < a.len()
        invariant
            i <= a@.len(),
            a@.len() == b@.len(),
            forall|j: int| 0 <= j < i ==> a@[j] == b@[j],
        decreases a@.len() - i,
    {
        if a[i] != b[i] {
            return false;
        }
        i = i + 1;
    }
    assert(a@ =~= b@);
    true
}

impl<W> CachedInfoManager<W> {
    /// Moves the next index to get one step on, back to 0 at the end.
    pub fn inc_ix(&mut self)
        requires
            old(self).1 < usize::MAX,
        ensures
            final(self).0@ == old(self).0@,
            final(self).2 == old(self).2,
            final(self).1 == (if old(self).1 + 1 == old(self).0@.len() {
                0
            } else {
                old(self).1 + 1
            }),
            old(self).1 < old(self).0@.len() ==> final(self).1 < final(self).0@.len(),
    {
        self.1 = self.1 + 1;
        if self.1 == self.0.len() {
            self.1 = 0;
        }
    }

    /// Puts the writer `ssw` for the cache id `k` at the end of the cache.
    pub fn put_symw_tunnel(&mut self, k: &[u8], ssw: W) -> (res: Result<(), TunnelCacheError>)
        ensures
            res is Ok,
            final(self).0@.len() == old(self).0@.len() + 1,
            final(self).0@.subrange(0, old(self).0@.len() as int) == old(self).0@,
            final(self).0@.last().cached_key == Some(ssw),
            final(self).0@.last().prev_peer@ == k@,
            final(self).1 == old(self).1,
            final(self).2 == old(self).2,
    {
        let mut prev_peer: Vec<u8> = Vec::new();
        let mut i: usize = 0;
        while i < k.len()
            invariant
                i <= k@.len(),
                prev_peer@ == k@.subrange(0, i as int),
            decreases k@.len() - i,
        {
            prev_peer.push(k[i]);
            i = i + 1;
        }
        assert(prev_peer@ =~= k@);
        self.0.push(CachedInfo { cached_key: Some(ssw), prev_peer });
        assert(self.0@.subrange(0, old(self).0@.len() as int) =~= old(self).0@);
        Ok(())
    }

    /// The index of the entry that a lookup of the cache id `k` finds.
    fn find_symw_tunnel(&self, k: &[u8]) -> (res: Option<usize>)
        ensures
            res matches Some(i) ==> i < self.0@.len() && cache_search(self.0@, self.1 as int, k@)
                == Some(i as int),
            res is None ==> cache_search(self.0@, self.1 as int, k@) is None,
    {
        let len = self.0.len();
        let start = self.1;
        proof {
            lemma_first_match(self.0@, k@, start as int, len as int);
            lemma_first_match(self.0@, k@, 0, start as int);
            lemma_first_match(self.0@, k@, 0, len as int);
        }
        let mut i: usize = start;
        while i < len
            invariant
                start <= i <= len || (start >= len && i == start),
                len == self.0@.len(),
                start == self.1,
                forall|j: int| start <= j < i ==> self.0@[j].prev_peer@ != k@,
            decreases len - i,
        {
            if bytes_eq(self.0[i].prev_peer.as_slice(), k) {
                proof {
                    lemma_first_match_at(self.0@, k@, start as int, len as int, i as int);
                }
                return Some(i);
            }
            i = i + 1;
        }
        let end: usize = if start < len { start } else { len };
        let mut i: usize = 0;
        while i < end
            invariant
                i <= end,
                end <= len,
                end == (if start < len { start } else { len }),
                len == self.0@.len(),
                start == self.1,
                forall|j: int| start <= j < len ==> self.0@[j].prev_peer@ != k@,
                forall|j: int| 0 <= j < i ==> self.0@[j].prev_peer@ != k@,
            decreases end - i,
        {
            if bytes_eq(self.0[i].prev_peer.as_slice(), k) {
                proof {
                    lemma_first_match_at(self.0@, k@, 0, end as int, i as int);
                    lemma_first_match(self.0@, k@, start as int, len as int);
                }
                return Some(i);
            }
            i = i + 1;
        }
        None
    }

    /// The writer cached for the cache id `k`: the first entry with that id
    /// from the next index to get to the end, and else the first one before
    /// it; `MissingContent` where no entry has that id.
    pub fn get_symw_tunnel(&mut self, k: &[u8]) -> (res: Result<&mut W, TunnelCacheError>)
        requires
            cache_lookup_ok(old(self).0@, old(self).1 as int, k@),
        ensures
            final(self).1 == old(self).1,
            final(self).2 == old(self).2,
            match cache_search(old(self).0@, old(self).1 as int, k@) {
                Some(i) => {
                    &&& res is Ok
                    &&& *res->Ok_0 == old(self).0@[i].cached_key->Some_0
                    &&& final(self).0@.len() == old(self).0@.len()
                    &&& forall|j: int|
                        0 <= j < old(self).0@.len() && j != i ==> final(self).0@[j] == old(
                            self,
                        ).0@[j]
                    &&& final(self).0@[i].prev_peer == old(self).0@[i].prev_peer
                    &&& final(self).0@[i].cached_key == Some(*final(res->Ok_0))
                },
                None => res == Err::<&mut W, TunnelCacheError>(TunnelCacheError::MissingContent)
                    && final(self).0@ == old(self).0@,
            },
    {
        match self.find_symw_tunnel(k) {
            Some(i) => {
                let entry: &mut CachedInfo<W> = &mut self.0[i];
                let w: &mut W = entry.cached_key.as_mut().unwrap();
                Ok(w)
            },
            None => Err(TunnelCacheError::MissingContent),
        }
    }

    /// Whether a writer is cached for the cache id `k`.
    pub fn has_symw_tunnel(&mut self, k: &[u8]) -> (res: bool)
        requires
            cache_lookup_ok(old(self).0@, old(self).1 as int, k@),
        ensures
            res == cache_search(old(self).0@, old(self).1 as int, k@) is Some,
            final(self).0@ == old(self).0@,
            final(self).1 == old(self).1,
            final(self).2 == old(self).2,
    {
        self.find_symw_tunnel(k).is_some()
    }

    /// A new cache id: the one of index `self.2`, which then moves one on.
    pub fn new_cache_id(&mut self) -> (res: Vec<u8>)
        requires
            old(self).2 + 3 <= usize::MAX,
        ensures
            res@ == cache_id(old(self).2 as int),
            final(self).2 == old(self).2 + 1,
            final(self).0@ == old(self).0@,
            final(self).1 == old(self).1,
    {
        let i = self.2;
        self.2 = i + 1;
        let mut res: Vec<u8> = Vec::new();
        push_cache_id(&mut res, i);
        assert(res@ =~= cache_id(i as int));
        res
    }
}

/// Provider of symmetric shadowers, built on a template shadower.
#[derive(Clone)]
pub struct SProv(pub ShadowTest);

/// Symmetric reading shadower.
#[derive(Clone)]
pub struct SRead(pub ShadowTest);

/// Symmetric writing shadower.
#[derive(Clone)]
pub struct SWrite(pub ShadowTest);

impl SWrite {
    /// The header to write (see [`ShadowTest::write_header`]).
    pub fn write_header(&mut self) -> (res: Vec<u8>)
        ensures
            final(self).0.0 == old(self).0.0,
            final(self).0.2 == old(self).0.2,
            old(self).0.2 != ShadowModeTest::SimpleShift ==> final(self).0.1 == old(self).0.1,
            res@ == header_bytes(final(self).0),
    {
        self.0.write_header()
    }

    /// The bytes to write for content `cont` (see [`ShadowTest::write_into`]).
    pub fn write_into(&mut self, cont: &[u8]) -> (res: Vec<u8>)
        ensures
            *final(self) == *old(self),
            res@ == shadowed(old(self).0.2, shadow_key(old(self).0), cont@),
    {
        self.0.write_into(cont)
    }

    /// Nothing is buffered: flushing does nothing.
    pub fn flush_into(&mut self)
        ensures
            *final(self) == *old(self),
    {
        self.0.flush_into()
    }

    /// Nothing ends a shadowed content.
    pub fn write_end(&mut self)
        ensures
            *final(self) == *old(self),
    {
        self.0.write_end()
    }
}

impl SRead {
    /// Reads a header (see [`ShadowTest::read_header`]).
    pub fn read_header(&mut self, header: &[u8]) -> (res: usize)
        requires
            valid_header(header@),
        ensures
            res == (if header@[0] == 1 { 2usize } else { 1usize }),
            final(self).0 == header_read(old(self).0, header@),
    {
        self.0.read_header(header)
    }

    /// The content carried by the received bytes `read` (see
    /// [`ShadowTest::read_from`]).
    pub fn read_from(&mut self, read: &[u8]) -> (res: Vec<u8>)
        ensures
            *final(self) == *old(self),
            res@ == unshadowed(old(self).0.2, shadow_key(old(self).0), read@),
    {
        self.0.read_from(read)
    }

    /// Nothing ends a shadowed content.
    pub fn read_end(&mut self)
        ensures
            *final(self) == *old(self),
    {
        self.0.read_end()
    }
}

impl SProv {
    /// A fresh random one-byte symmetric key for the peer `_p` (the key does
    /// not depend on the peer).
    pub fn new_sym_key<P>(&mut self, _p: &P) -> (res: Vec<u8>)
        ensures
            res@.len() == 1,
            *final(self) == *old(self),
    {
        ShadowTest::shadow_simkey()
    }

    /// A writer with the template's mode whose two keys are the first byte of
    /// `v`.
    pub fn new_sym_writer(&mut self, v: Vec<u8>) -> (res: SWrite)
        requires
            v@.len() >= 1,
        ensures
            res.0 == ShadowTest(v@[0], v@[0], old(self).0.2),
            *final(self) == *old(self),
    {
        let mut st = self.0.clone();
        st.0 = v[0];
        st.1 = v[0];
        SWrite(st)
    }

    /// A reader with the template's mode whose two keys are the first byte of
    /// `v`.
    pub fn new_sym_reader(&mut self, v: Vec<u8>) -> (res: SRead)
        requires
            v@.len() >= 1,
        ensures
            res.0 == ShadowTest(v@[0], v@[0], old(self).0.2),
            *final(self) == *old(self),
    {
        let mut st = self.0.clone();
        st.0 = v[0];
        st.1 = v[0];
        SRead(st)
    }
}

/// A writer and a reader that a provider builds from the same key bytes
/// share their state, so the reader reads back what the writer writes, header
/// included.
pub proof fn lemma_sym_pair_roundtrip(template: ShadowTest, v: Seq<u8>, cont: Seq<u8>)
    requires
        v.len() >= 1,
    ensures
        ({
            let st = ShadowTest(v[0], v[0], template.2);
            let r = header_read(st, header_bytes(st));
            &&& valid_header(header_bytes(st))
            &&& unshadowed(r.2, shadow_key(r), shadowed(st.2, shadow_key(st), cont)) == cont
        }),
{
    let st = ShadowTest(v[0], v[0], template.2);
    crate::shadow::lemma_message_roundtrip(st, st, cont);
}

/// How replies travel back, as the tests configure them.
#[derive(Clone, Copy, PartialEq, Eq, Structural)]
pub enum MultipleReplyMode {
    /// No reply.
    NoHandling,
    /// Along the query's route.
    Route,
    /// Along another route.
    OtherRoute,
    /// As a reply on a route.
    RouteReply,
}

/// How errors travel back, as the tests configure them.
#[derive(Clone, Copy, PartialEq, Eq, Structural)]
pub enum MultipleErrorMode {
    /// Errors are not reported.
    NoHandling,
}

/// A tunnel test of the second set: the sender, the destination, the number
/// of peers, the two test routes, the content length, the write and read
/// buffer lengths, the reply and error modes, and what is checked at the end.
#[derive(Clone)]
pub struct TunnelTestConfig<P> {
    pub me: P,
    pub dest: P,
    pub nbpeer: usize,
    pub route1: Vec<P>,
    pub route2: Vec<P>,
    pub input_length: usize,
    pub write_buffer_length: usize,
    pub read_buffer_length: usize,
    pub reply_mode: MultipleReplyMode,
    pub error_mode: MultipleErrorMode,
    pub test_mode: TestMode,
}

/// The tunnel modes of the second test set.
#[derive(Clone)]
pub enum TunnelMode {
    NoTunnel,
    Tunnel,
    BiTunnel,
    BiTunnelOther,
    NoRepTunnel,
}

/// What a test checks after the message has gone through.
#[derive(Clone)]
pub enum TestMode {
    /// No reply.
    NoReply,
    /// A number of replies.
    Reply(usize),
}

/// Route provider: whether the first route was used last, the two test
/// routes it alternates between, the route length, and the destinations it was
/// asked for (each route ends at, or each reply route starts from, the last of
/// them).
pub struct Rp<P>(pub bool, pub Vec<P>, pub Vec<P>, pub usize, pub Vec<P>);

/// Route provider that always gives the same route.
pub struct SingleRp<P>(pub Vec<P>);

/// The route that a provider in state `rp` takes its next route from.
pub open spec fn next_base<P>(rp: Rp<P>) -> Seq<P> {
    if !rp.0 {
        rp.1@
    } else {
        rp.2@
    }
}

/// A provider in state `rp` can give its next route: the route length is
/// positive and the route it takes the next route from is that long.
pub open spec fn route_ok<P>(rp: Rp<P>) -> bool {
    0 < rp.3 <= next_base(rp).len()
}

/// `new` is a provider in the state that `old` moves to when asked for a
/// route to `dest`: the other base route is chosen next time, and a clone of
/// `dest` is recorded.
pub open spec fn route_step<P: Clone>(old: Rp<P>, new: Rp<P>, dest: P) -> bool {
    &&& new.0 == !old.0
    &&& new.1@ == old.1@
    &&& new.2@ == old.2@
    &&& new.3 == old.3
    &&& new.4@.len() == old.4@.len() + 1
    &&& new.4@.subrange(0, old.4@.len() as int) == old.4@
    &&& cloned(dest, new.4@.last())
}

/// `res` is a reply route from `dest` over the first `l` peers of `base`: of
/// length `l`, a clone of `dest` first, then clones of `base[l - 2]` down to
/// `base[0]`.
pub open spec fn reply_route_of<P: Clone>(base: Seq<P>, l: int, dest: P, res: Seq<P>) -> bool {
    &&& res.len() == l
    &&& cloned(dest, res[0])
    &&& forall|j: int| 0 < j < l ==> cloned(base[l - 1 - j], #[trigger] res[j])
}

/// The peers that a route of references points to.
pub open spec fn deref_route<P>(r: Seq<&P>) -> Seq<P> {
    r.map_values(|p: &P| *p)
}

impl<P: Clone> Rp<P> {
    /// A provider of routes of length `s` over `pt` and `pt2`, starting with
    /// `pt`.
    pub fn new(s: usize, pt: Vec<P>, pt2: Vec<P>) -> (res: Rp<P>)
        ensures
            res.0 == false,
            res.1@ == pt@,
            res.2@ == pt2@,
            res.3 == s,
            res.4@.len() == 0,
    {
        Rp(false, pt, pt2, s, Vec::new())
    }

    /// Sets the route length.
    pub fn set_size(&mut self, s: usize)
        ensures
            final(self).0 == old(self).0,
            final(self).1@ == old(self).1@,
            final(self).2@ == old(self).2@,
            final(self).3 == s,
            final(self).4@ == old(self).4@,
    {
        self.3 = s;
    }

    /// A route to `dest`: the first `self.3` peers of the base route chosen in
    /// turn, with the last one replaced by `dest`.
    pub fn new_route(&mut self, dest: &P) -> (res: Vec<&P>)
        requires
            route_ok(*old(self)),
        ensures
            route_step(*old(self), *final(self), *dest),
            res@.len() == old(self).3,
            forall|j: int| 0 <= j < old(self).3 - 1 ==> *res@[j] == next_base(*old(self))[j],
            *res@[old(self).3 - 1] == final(self).4@.last(),
    {
        self.0 = !self.0;
        self.4.push(dest.clone());
        assert(self.4@.subrange(0, old(self).4@.len() as int) =~= old(self).4@);
        let this: &Rp<P> = self;
        let base: &Vec<P> = if this.0 { &this.1 } else { &this.2 };
        let mut r: Vec<&P> = Vec::new();
        let mut i: usize = 0;
        while i < this.3
            invariant
                i <= this.3,
                this.3 <= base@.len(),
                r@.len() == i,
                forall|j: int| 0 <= j < i ==> *r@[j] == base@[j],
            decreases this.3 - i,
        {
            r.push(&base[i]);
            i = i + 1;
        }
        let last = this.4.len() - 1;
        r.set(this.3 - 1, &this.4[last]);
        r
    }

    /// A reply route from `dest`: the first `self.3` peers of the base route
    /// chosen in turn, reversed, with the first one replaced by `dest`.
    pub fn new_reply_route(&mut self, dest: &P) -> (res: Vec<&P>)
        requires
            route_ok(*old(self)),
        ensures
            route_step(*old(self), *final(self), *dest),
            res@.len() == old(self).3,
            forall|j: int|
                0 < j < old(self).3 ==> *res@[j] == next_base(*old(self))[old(self).3 - 1 - j],
            *res@[0] == final(self).4@.last(),
            reply_route_of(next_base(*old(self)), old(self).3 as int, *dest, deref_route(res@)),
    {
        self.0 = !self.0;
        self.4.push(dest.clone());
        assert(self.4@.subrange(0, old(self).4@.len() as int) =~= old(self).4@);
        let this: &Rp<P> = self;
        let base: &Vec<P> = if this.0 { &this.1 } else { &this.2 };
        let n = this.3;
        let mut r: Vec<&P> = Vec::new();
        let mut i: usize = 0;
        while i < n
            invariant
                i <= n,
                n <= base@.len(),
                r@.len() == i,
                forall|j: int| 0 <= j < i ==> *r@[j] == base@[n - 1 - j],
            decreases n - i,
        {
            r.push(&base[n - 1 - i]);
            i = i + 1;
        }
        let last = this.4.len() - 1;
        r.set(0, &this.4[last]);
        r
    }
}

/// The first `l` peers of `base`, cloned and reversed, with the first one
/// replaced by a clone of `dest`.
pub fn new_reply_route_1<P: Clone>(base: &[P], l: usize, dest: &P) -> (res: Vec<P>)
    requires
        0 < l <= base@.len(),
    ensures
        reply_route_of(base@, l as int, *dest, res@),
{
    let mut res: Vec<P> = Vec::new();
    let mut i: usize = 0;
    while i < l
        invariant
            i <= l,
            l <= base@.len(),
            res@.len() == i,
            forall|j: int| 0 <= j < i ==> cloned(base@[l - 1 - j], #[trigger] res@[j]),
        decreases l - i,
    {
        let p = base[l - 1 - i].clone();
        res.push(p);
        i = i + 1;
    }
    res.set(0, dest.clone());
    res
}

impl<P> SingleRp<P> {
    /// The route: all the peers, in order.
    pub fn new_route(&mut self, dest: &P) -> (res: Vec<&P>)
        ensures
            final(self).0@ == old(self).0@,
            res@.len() == old(self).0@.len(),
            forall|j: int| 0 <= j < res@.len() ==> *res@[j] == old(self).0@[j],
    {
        let this: &SingleRp<P> = self;
        let mut r: Vec<&P> = Vec::new();
        let mut i: usize = 0;
        while i < this.0.len()
            invariant
                i <= this.0@.len(),
                r@.len() == i,
                forall|j: int| 0 <= j < i ==> *r@[j] == this.0@[j],
            decreases this.0@.len() - i,
        {
            r.push(&this.0[i]);
            i = i + 1;
        }
        r
    }

    /// The reply route: all the peers, in reverse order.
    pub fn new_reply_route(&mut self, dest: &P) -> (res: Vec<&P>)
        ensures
            final(self).0@ == old(self).0@,
            res@.len() == old(self).0@.len(),
            forall|j: int|
                0 <= j < res@.len() ==> *res@[j] == old(self).0@[old(self).0@.len() - 1 - j],
    {
        let this: &SingleRp<P> = self;
        let n = this.0.len();
        let mut r: Vec<&P> = Vec::new();
        let mut i: usize = 0;
        while i < n
            invariant
                i <= n,
                n == this.0@.len(),
                r@.len() == i,
                forall|j: int| 0 <= j < i ==> *r@[j] == this.0@[n - 1 - j],
            decreases n - i,
        {
            r.push(&this.0[n - 1 - i]);
            i = i + 1;
        }
        r
    }
}

/// Routes alternate: of two routes asked for in a row, one is taken from
/// each base route, and the third is taken from the same base route as the
/// first.
pub proof fn lemma_routes_alternate<P: Clone>(a: Rp<P>, b: Rp<P>, c: Rp<P>, d1: P, d2: P)
    requires
        route_step(a, b, d1),
        route_step(b, c, d2),
    ensures
        next_base(a) == (if !a.0 { a.1@ } else { a.2@ }),
        next_base(b) == (if !a.0 { a.2@ } else { a.1@ }),
        next_base(c) == next_base(a),
        c.4@.len() == a.4@.len() + 2,
        cloned(d1, c.4@[a.4@.len() as int]),
        cloned(d2, c.4@.last()),
{
    assert(c.4@[a.4@.len() as int] == c.4@.subrange(0, b.4@.len() as int)[a.4@.len() as int]);
}

/// After a writer is put for the cache id `k`, a lookup of `k` finds an entry
/// and stays in bounds; where no entry had that id before, it finds the new
/// one, which holds the writer put.
pub proof fn lemma_put_then_found<W>(
    before: Seq<CachedInfo<W>>,
    after: Seq<CachedInfo<W>>,
    start: int,
    k: Seq<u8>,
    w: W,
)
    requires
        0 <= start,
        after.len() == before.len() + 1,
        after.subrange(0, before.len() as int) == before,
        after.last().cached_key == Some(w),
        after.last().prev_peer@ == k,
    ensures
        cache_search(after, start, k) is Some,
        (forall|j: int| 0 <= j < before.len() ==> before[j].prev_peer@ != k) ==> cache_search(
            after,
            start,
            k,
        ) == Some(before.len() as int) && cache_lookup_ok(after, start, k),
{
    let n = before.len() as int;
    assert(after[n] == after.last());
    assert forall|j: int| 0 <= j < n implies after[j] == before[j] by {
        assert(after.subrange(0, n)[j] == after[j]);
    }
    lemma_first_match(after, k, start, n + 1);
    lemma_first_match(after, k, 0, start);
    lemma_first_match(after, k, 0, n + 1);
    if start <= n {
        if first_match(after, k, start, n + 1) is None {
            assert(after[n].prev_peer@ == k);
        }
    }
    if forall|j: int| 0 <= j < n ==> before[j].prev_peer@ != k {
        if start <= n {
            lemma_first_match_at(after, k, start, n + 1, n);
        } else {
            lemma_first_match_at(after, k, 0, n + 1, n);
        }
    }
}

/// A provider's reply route and `new_reply_route_1` over the same base
/// route, length and destination agree up to clones: both start with a clone
/// of the destination, and each later peer of the second is a clone of the
/// peer at the same place in the first.
pub proof fn lemma_reply_routes_agree<P: Clone>(
    base: Seq<P>,
    l: int,
    dest: P,
    from_provider: Seq<&P>,
    built: Seq<P>,
)
    requires
        0 < l,
        reply_route_of(base, l, dest, deref_route(from_provider)),
        forall|j: int| 0 < j < l ==> *#[trigger] from_provider[j] == base[l - 1 - j],
        reply_route_of(base, l, dest, built),
    ensures
        from_provider.len() == built.len(),
        cloned(dest, *from_provider[0]),
        cloned(dest, built[0]),
        forall|j: int| 0 < j < l ==> cloned(*from_provider[j], #[trigger] built[j]),
{
    assert(deref_route(from_provider)[0] == *from_provider[0]);
}

proof fn lemma_counter_steps(n: int, counters: Seq<int>, i: int)
    requires
        0 <= i <= n,
        counters.len() == n + 1,
        counters[0] == 0,
        forall|j: int| 0 <= j < n ==> #[trigger] counters[j + 1] == counters[j] + 1,
    ensures
        counters[i] == i,
    decreases i,
{
    if i > 0 {
        lemma_counter_steps(n, counters, i - 1);
        assert(counters[(i - 1) + 1] == counters[i - 1] + 1);
    }
}

/// Successive cache ids: starting from the counter 0, the ids that `n`
/// successive calls of `new_cache_id` give are those of `test_cache_ids(n)`,
/// in order, the counter ends at `n`, and up to 256 calls give pairwise
/// different ids. `counters[i]` is the counter before the `i`th call (and
/// `counters[n]` the one after the last), `ids[i]` what that call returned.
pub proof fn lemma_successive_cache_ids(n: int, counters: Seq<int>, ids: Seq<Seq<u8>>)
    requires
        0 <= n,
        counters.len() == n + 1,
        ids.len() == n,
        counters[0] == 0,
        forall|i: int| 0 <= i < n ==> #[trigger] ids[i] == cache_id(counters[i]),
        forall|i: int| 0 <= i < n ==> #[trigger] counters[i + 1] == counters[i] + 1,
    ensures
        forall|i: int| 0 <= i <= n ==> #[trigger] counters[i] == i,
        forall|i: int| 0 <= i < n ==> #[trigger] ids[i] == cache_id(i),
        n <= 256 ==> forall|i: int, j: int| 0 <= i < j < n ==> ids[i] != ids[j],
{
    assert forall|i: int| 0 <= i <= n implies #[trigger] counters[i] == i by {
        lemma_counter_steps(n, counters, i);
    }
    assert forall|i: int| 0 <= i < n implies #[trigger] ids[i] == cache_id(i) by {
        assert(counters[i] == i);
    }
    if n <= 256 {
        assert forall|i: int, j: int| 0 <= i < j < n implies ids[i] != ids[j] by {
            assert(ids[i] == cache_id(i));
            assert(ids[j] == cache_id(j));
            assert(cache_id(i)[0] == i as u8);
            assert(cache_id(j)[0] == j as u8);
        }
    }
}

/// Node id and address of the `i`th peer of the first test route.
pub open spec fn route1_peer(i: int) -> (Seq<char>, usize) {
    if i == 0 {
        ("toid1"@, 1usize)
    } else if i == 1 {
        ("toid2"@, 2usize)
    } else if i == 2 {
        ("toid3"@, 3usize)
    } else if i == 3 {
        ("toid4"@, 4usize)
    } else if i == 4 {
        ("toid5"@, 5usize)
    } else {
        ("toid6"@, 6usize)
    }
}

/// Node id and address of the `i`th peer of the second test route.
pub open spec fn route2_peer(i: int) -> (Seq<char>, usize) {
    if i == 0 {
        ("toid1"@, 1usize)
    } else if i == 1 {
        ("toid7"@, 7usize)
    } else if i == 2 {
        ("toid8"@, 8usize)
    } else if i == 3 {
        ("toid9"@, 9usize)
    } else if i == 4 {
        ("toid10"@, 10usize)
    } else {
        ("toid11"@, 11usize)
    }
}

/// `r` is a test route of six peers whose node ids and addresses are given
/// by `peer`.
pub open spec fn is_test_route(r: Seq<PeerTest>, peer: spec_fn(int) -> (Seq<char>, usize)) -> bool {
    &&& r.len() == 6
    &&& forall|i: int|
        0 <= i < 6 ==> #[trigger] r[i].nodeid@ == peer(i).0 && r[i].address == LocalAdd(peer(i).1)
}

/// The peers of the first test route: `toid1` to `toid6`, at addresses 1 to 6.
pub fn peer_tests() -> (res: Vec<PeerTest>)
    ensures
        is_test_route(res@, |i: int| route1_peer(i)),
{
    let mut res: Vec<PeerTest> = Vec::new();
    res.push(PeerTest { nodeid: "toid1".to_string(), address: LocalAdd(1) });
    res.push(PeerTest { nodeid: "toid2".to_string(), address: LocalAdd(2) });
    res.push(PeerTest { nodeid: "toid3".to_string(), address: LocalAdd(3) });
    res.push(PeerTest { nodeid: "toid4".to_string(), address: LocalAdd(4) });
    res.push(PeerTest { nodeid: "toid5".to_string(), address: LocalAdd(5) });
    res.push(PeerTest { nodeid: "toid6".to_string(), address: LocalAdd(6) });
    proof {
        assert(res@[0].nodeid@ == route1_peer(0).0);
        assert(res@[1].nodeid@ == route1_peer(1).0);
        assert(res@[2].nodeid@ == route1_peer(2).0);
        assert(res@[3].nodeid@ == route1_peer(3).0);
        assert(res@[4].nodeid@ == route1_peer(4).0);
        assert(res@[5].nodeid@ == route1_peer(5).0);
    }
    res
}

/// The peers of the second test route: `toid1`, then `toid7` to `toid11`, each
/// at the address of its number.
pub fn peer_tests_2() -> (res: Vec<PeerTest>)
    ensures
        is_test_route(res@, |i: int| route2_peer(i)),
{
    let mut res: Vec<PeerTest> = Vec::new();
    res.push(PeerTest { nodeid: "toid1".to_string(), address: LocalAdd(1) });
    res.push(PeerTest { nodeid: "toid7".to_string(), address: LocalAdd(7) });
    res.push(PeerTest { nodeid: "toid8".to_string(), address: LocalAdd(8) });
    res.push(PeerTest { nodeid: "toid9".to_string(), address: LocalAdd(9) });
    res.push(PeerTest { nodeid: "toid10".to_string(), address: LocalAdd(10) });
    res.push(PeerTest { nodeid: "toid11".to_string(), address: LocalAdd(11) });
    proof {
        assert(res@[0].nodeid@ == route2_peer(0).0);
        assert(res@[1].nodeid@ == route2_peer(1).0);
        assert(res@[2].nodeid@ == route2_peer(2).0);
        assert(res@[3].nodeid@ == route2_peer(3).0);
        assert(res@[4].nodeid@ == route2_peer(4).0);
        assert(res@[5].nodeid@ == route2_peer(5).0);
    }
    res
}

/// The configuration of a test over the first `nbpeer` test peers: sent from
/// the first peer of the first test route to its `nbpeer`th peer, with both
/// test routes, and the other fields as given.
pub fn test_config(
    nbpeer: usize,
    reply_mode: MultipleReplyMode,
    error_mode: MultipleErrorMode,
    input_length: usize,
    write_buffer_length: usize,
    read_buffer_length: usize,
    test_mode: TestMode,
) -> (res: TunnelTestConfig<PeerTest>)
    requires
        1 <= nbpeer <= 6,
    ensures
        res.me.nodeid@ == route1_peer(0).0 && res.me.address == LocalAdd(route1_peer(0).1),
        res.dest.nodeid@ == route1_peer(nbpeer - 1).0 && res.dest.address == LocalAdd(
            route1_peer(nbpeer - 1).1,
        ),
        res.nbpeer == nbpeer,
        is_test_route(res.route1@, |i: int| route1_peer(i)),
        is_test_route(res.route2@, |i: int| route2_peer(i)),
        res.input_length == input_length,
        res.write_buffer_length == write_buffer_length,
        res.read_buffer_length == read_buffer_length,
        res.reply_mode == reply_mode,
        res.error_mode == error_mode,
        res.test_mode == test_mode,
{
    let r = peer_tests();
    proof {
        assert(r@[0].nodeid@ == route1_peer(0).0);
        assert(r@[nbpeer - 1].nodeid@ == route1_peer(nbpeer - 1).0);
    }
    TunnelTestConfig {
        me: r[0].clone(),
        dest: r[nbpeer - 1].clone(),
        nbpeer: nbpeer,
        route1: peer_tests(),
        route2: peer_tests_2(),
        input_length: input_length,
        write_buffer_length: write_buffer_length,
        read_buffer_length: read_buffer_length,
        reply_mode: reply_mode,
        error_mode: error_mode,
        test_mode: test_mode,
    }
}

/// The cache lookup finds an entry exactly when some entry has the id looked
/// for, and what it finds has that id. It searches cyclically from `start`:
/// where an entry from `start` to the end has the id, it finds the first
/// such entry; otherwise it finds the first entry with the id before
/// `start`. Where ids are pairwise different, it finds the entry with the id.
pub proof fn lemma_cache_search_complete<W>(e: Seq<CachedInfo<W>>, start: int, k: Seq<u8>)
    requires
        0 <= start,
    ensures
        cache_search(e, start, k) is None <==> forall|j: int|
            0 <= j < e.len() ==> #[trigger] e[j].prev_peer@ != k,
        cache_search(e, start, k) matches Some(i) ==> 0 <= i < e.len() && e[i].prev_peer@ == k,
        (exists|j: int| start <= j < e.len() && #[trigger] e[j].prev_peer@ == k) ==> (
        cache_search(e, start, k) matches Some(i) && start <= i && forall|j: int|
            start <= j < i ==> #[trigger] e[j].prev_peer@ != k),
        (forall|j: int| start <= j < e.len() ==> #[trigger] e[j].prev_peer@ != k) ==> (
        cache_search(e, start, k) matches Some(i) ==> forall|j: int|
            0 <= j < i ==> #[trigger] e[j].prev_peer@ != k),
        forall|j: int|
            0 <= j < e.len() && #[trigger] e[j].prev_peer@ == k && (forall|a: int, b: int|
                0 <= a < b < e.len() ==> e[a].prev_peer@ != e[b].prev_peer@) ==> cache_search(
                e,
                start,
                k,
            ) == Some(j),
{
    let n = e.len() as int;
    lemma_first_match(e, k, start, n);
    lemma_first_match(e, k, 0, start);
    lemma_first_match(e, k, 0, n);
    if start < n {
        if first_match(e, k, start, n) is None {
            assert forall|j: int| 0 <= j < n && start <= j implies #[trigger] e[j].prev_peer@
                != k by {}
        }
    }
    assert forall|j: int|
        0 <= j < e.len() && #[trigger] e[j].prev_peer@ == k && (forall|a: int, b: int|
            0 <= a < b < e.len() ==> e[a].prev_peer@ != e[b].prev_peer@) implies cache_search(
        e,
        start,
        k,
    ) == Some(j) by {
        let f = cache_search(e, start, k);
        assert(f is Some);
        let i = f->Some_0;
        assert(e[i].prev_peer@ == k);
        if i < j {
            assert(e[i].prev_peer@ != e[j].prev_peer@);
        } else if j < i {
            assert(e[j].prev_peer@ != e[i].prev_peer@);
        }
    }
}

} // verus!
