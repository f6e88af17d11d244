//! Parameters and identifiers of the first tunnel test set.
use vstd::prelude::*;

verus! {

/// Window parameters for tunnel content.
#[derive(Clone)]
pub struct TestSizedWindows;

/// Window parameters for tunnel headers.
#[derive(Clone)]
pub struct TestSizedWindowsHead;

impl TestSizedWindowsHead {
    /// Initial window size.
    pub const INIT_SIZE: usize = 15;
    /// Whether the window size is written.
    pub const WRITE_SIZE: bool = false;
    /// Whether padding is secure.
    pub const SECURE_PAD: bool = false;

    /// Growth ratio of the window: none, the window keeps its size.
    pub fn growth_ratio() -> (res: Option<(usize, usize)>)
        ensures
            res is None,
    {
        None
    }
}

impl TestSizedWindows {
    /// Initial window size.
    pub const INIT_SIZE: usize = 45;
    /// Whether the window size is written.
    pub const WRITE_SIZE: bool = true;
    /// Whether padding is secure.
    pub const SECURE_PAD: bool = false;

    /// Growth ratio of the window: it grows by 3/2.
    pub fn growth_ratio() -> (res: Option<(usize, usize)>)
        ensures
            res == Some((3usize, 2usize)),
    {
        Some((3, 2))
    }
}

/// The cache id of the `i`th peer of a test route: four consecutive bytes
/// starting at `i`, each taken modulo 256.
pub open spec fn cache_id(i: int) -> Seq<u8> {
    seq![(i % 256) as u8, ((i + 1) % 256) as u8, ((i + 2) % 256) as u8, ((i + 3) % 256) as u8]
}

/// The byte `n` modulo 256.
proof fn lemma_low_byte(n: usize)
    ensures
        (n as u8) as int == n % 256,
{
    assert((n as u8) as int == n % 256) by (bit_vector);
}

/// Appends the cache id of index `i` to `out`.
pub(crate) fn push_cache_id(out: &mut Vec<u8>, i: usize)
    requires
        i <= usize::MAX - 3,
    ensures
        final(out)@ == old(out)@ + cache_id(i as int),
{
    proof {
        lemma_low_byte(i);
        lemma_low_byte((i + 1) as usize);
        lemma_low_byte((i + 2) as usize);
        lemma_low_byte((i + 3) as usize);
    }
    out.push(i as u8);
    out.push((i + 1) as u8);
    out.push((i + 2) as u8);
    out.push((i + 3) as u8);
    assert(final(out)@ =~= old(out)@ + cache_id(i as int));
}

/// The cache ids of the peers of a test route of `nbpeer` peers.
pub fn test_cache_ids(nbpeer: usize) -> (res: Vec<Vec<u8>>)
    requires
        nbpeer <= usize::MAX - 2,
    ensures
        res@.len() == nbpeer,
        forall|i: int| 0 <= i < nbpeer ==> #[trigger] res@[i]@ == cache_id(i),
{
    let mut cache_ids: Vec<Vec<u8>> = Vec::new();
    let mut i: usize = 0;
    while i < nbpeer
        invariant
            i <= nbpeer,
            nbpeer <= usize::MAX - 2,
            cache_ids@.len() == i,
            forall|j: int| 0 <= j < i ==> #[trigger] cache_ids@[j]@ == cache_id(j),
        decreases nbpeer - i,
    {
        let mut cid: Vec<u8> = Vec::new();
        push_cache_id(&mut cid, i);
        assert(cid@ =~= cache_id(i as int));
        cache_ids.push(cid);
        i = i + 1;
    }
    cache_ids
}

/// How much of a tunnel message is shadowed.
#[derive(Clone, Copy, PartialEq, Eq, Structural)]
pub enum TunnelShadowMode {
    /// Only the last layer.
    Last,
    /// Every layer.
    Full,
}

/// How errors on a tunnel are reported.
pub enum ErrorHandlingMode {
    NoHandling,
    KnownDest(Option<Box<TunnelMode>>),
    ErrorRoute,
    ErrorCachedRoute,
}

/// The tunnel modes that the tests are configured with: the number of hops
/// after the sender, the shadow mode and the error handling.
pub enum TunnelMode {
    NoTunnel,
    Tunnel(u8, TunnelShadowMode, ErrorHandlingMode),
    NoRepTunnel(u8, TunnelShadowMode, ErrorHandlingMode),
}

/// A copy of the tunnel mode `m`.
fn clone_tunnel_mode(m: &TunnelMode) -> (res: TunnelMode)
    ensures
        res == *m,
    decreases *m,
{
    match m {
        TunnelMode::NoTunnel => TunnelMode::NoTunnel,
        TunnelMode::Tunnel(n, sm, em) => TunnelMode::Tunnel(*n, *sm, clone_error_handling(em)),
        TunnelMode::NoRepTunnel(n, sm, em) => TunnelMode::NoRepTunnel(
            *n,
            *sm,
            clone_error_handling(em),
        ),
    }
}

/// A copy of the error handling mode `em`.
fn clone_error_handling(em: &ErrorHandlingMode) -> (res: ErrorHandlingMode)
    ensures
        res == *em,
    decreases *em,
{
    match em {
        ErrorHandlingMode::NoHandling => ErrorHandlingMode::NoHandling,
        ErrorHandlingMode::KnownDest(None) => ErrorHandlingMode::KnownDest(None),
        ErrorHandlingMode::KnownDest(Some(m)) => ErrorHandlingMode::KnownDest(
            Some(Box::new(clone_tunnel_mode(&**m))),
        ),
        ErrorHandlingMode::ErrorRoute => ErrorHandlingMode::ErrorRoute,
        ErrorHandlingMode::ErrorCachedRoute => ErrorHandlingMode::ErrorCachedRoute,
    }
}

impl Clone for TunnelMode {
    fn clone(&self) -> (res: Self)
        ensures
            res == *self,
    {
        clone_tunnel_mode(self)
    }
}

impl Clone for ErrorHandlingMode {
    fn clone(&self) -> (res: Self)
        ensures
            res == *self,
    {
        clone_error_handling(self)
    }
}

/// A tunnel test: the hop at which an error is raised (0 for none, else the
/// index of a proxy hop, starting at one), the number of peers, the tunnel
/// mode, the content length, the write and read buffer lengths, the header and
/// content shadow modes, and the cache ids of the peers.
#[derive(Clone)]
pub struct TunnelTestConfig<SM> {
    pub error_hop: usize,
    pub nbpeer: usize,
    pub tmode: TunnelMode,
    pub input_length: usize,
    pub write_buffer_length: usize,
    pub read_buffer_length: usize,
    pub shead: SM,
    pub scont: SM,
    pub cache_ids: Vec<Vec<u8>>,
}

/// `c` is the configuration that `TunnelTestConfig::new` builds from these
/// arguments.
pub open spec fn is_config<SM>(
    c: TunnelTestConfig<SM>,
    nbpeer: usize,
    mode: TunnelMode,
    input_length: usize,
    write_buffer_length: usize,
    read_buffer_length: usize,
    shead: SM,
    scont: SM,
) -> bool {
    &&& c.error_hop == 0
    &&& c.nbpeer == nbpeer
    &&& c.tmode == mode
    &&& c.input_length == input_length
    &&& c.write_buffer_length == write_buffer_length
    &&& c.read_buffer_length == read_buffer_length
    &&& c.shead == shead
    &&& c.scont == scont
    &&& c.cache_ids@.len() == nbpeer
    &&& forall|i: int| 0 <= i < nbpeer ==> #[trigger] c.cache_ids@[i]@ == cache_id(i)
}

impl<SM> TunnelTestConfig<SM> {
    /// A test without error over `nbpeer` peers, with the test cache ids.
    pub fn new(
        nbpeer: usize,
        mode: TunnelMode,
        input_length: usize,
        write_buffer_length: usize,
        read_buffer_length: usize,
        shead: SM,
        scont: SM,
    ) -> (res: TunnelTestConfig<SM>)
        requires
            nbpeer <= usize::MAX - 2,
        ensures
            is_config(
                res,
                nbpeer,
                mode,
                input_length,
                write_buffer_length,
                read_buffer_length,
                shead,
                scont,
            ),
            res.error_hop == 0,
            res.input_length == input_length,
            res.write_buffer_length == write_buffer_length,
            res.read_buffer_length == read_buffer_length,
            res.shead == shead,
            res.scont == scont,
    {
        TunnelTestConfig {
            error_hop: 0,
            nbpeer: nbpeer,
            tmode: mode,
            input_length: input_length,
            write_buffer_length: write_buffer_length,
            read_buffer_length: read_buffer_length,
            shead: shead,
            scont: scont,
            cache_ids: test_cache_ids(nbpeer),
        }
    }

    /// A test in mode `NoRepTunnel` whose hop count is `nbpeer - 1`, the
    /// peer count taken modulo 256.
    pub fn new_norep(
        nbpeer: usize,
        tsmode: TunnelShadowMode,
        input_length: usize,
        write_buffer_length: usize,
        read_buffer_length: usize,
        shead: SM,
        scont: SM,
        em: ErrorHandlingMode,
    ) -> (res: TunnelTestConfig<SM>)
        requires
            nbpeer <= usize::MAX - 2,
            nbpeer as u8 >= 1,
        ensures
            is_config(
                res,
                nbpeer,
                TunnelMode::NoRepTunnel((nbpeer as u8 - 1) as u8, tsmode, em),
                input_length,
                write_buffer_length,
                read_buffer_length,
                shead,
                scont,
            ),
            res.error_hop == 0,
            res.input_length == input_length,
            res.write_buffer_length == write_buffer_length,
            res.read_buffer_length == read_buffer_length,
            res.shead == shead,
            res.scont == scont,
    {
        let tmode = TunnelMode::NoRepTunnel((nbpeer as u8) - 1, tsmode, em);
        TunnelTestConfig::new(
            nbpeer,
            tmode,
            input_length,
            write_buffer_length,
            read_buffer_length,
            shead,
            scont,
        )
    }

    /// A test in mode `Tunnel` whose hop count is `nbpeer - 1`, the peer
    /// count taken modulo 256.
    pub fn new_cached(
        nbpeer: usize,
        tsmode: TunnelShadowMode,
        input_length: usize,
        write_buffer_length: usize,
        read_buffer_length: usize,
        shead: SM,
        scont: SM,
        em: ErrorHandlingMode,
    ) -> (res: TunnelTestConfig<SM>)
        requires
            nbpeer <= usize::MAX - 2,
            nbpeer as u8 >= 1,
        ensures
            is_config(
                res,
                nbpeer,
                TunnelMode::Tunnel((nbpeer as u8 - 1) as u8, tsmode, em),
                input_length,
                write_buffer_length,
                read_buffer_length,
                shead,
                scont,
            ),
            res.error_hop == 0,
            res.input_length == input_length,
            res.write_buffer_length == write_buffer_length,
            res.read_buffer_length == read_buffer_length,
            res.shead == shead,
            res.scont == scont,
    {
        let tmode = TunnelMode::Tunnel((nbpeer as u8) - 1, tsmode, em);
        TunnelTestConfig::new(
            nbpeer,
            tmode,
            input_length,
            write_buffer_length,
            read_buffer_length,
            shead,
            scont,
        )
    }

    /// A test without tunnel between two peers.
    pub fn new_notunnel(
        input_length: usize,
        write_buffer_length: usize,
        read_buffer_length: usize,
        shead: SM,
        scont: SM,
    ) -> (res: TunnelTestConfig<SM>)
        ensures
            is_config(
                res,
                2,
                TunnelMode::NoTunnel,
                input_length,
                write_buffer_length,
                read_buffer_length,
                shead,
                scont,
            ),
            res.error_hop == 0,
            res.input_length == input_length,
            res.write_buffer_length == write_buffer_length,
            res.read_buffer_length == read_buffer_length,
            res.shead == shead,
            res.scont == scont,
    {
        TunnelTestConfig::new(
            2,
            TunnelMode::NoTunnel,
            input_length,
            write_buffer_length,
            read_buffer_length,
            shead,
            scont,
        )
    }
}

/// The cache id of index `i` is the four bytes `i`, `i + 1`, `i + 2`, `i + 3`,
/// each modulo 256.
pub proof fn lemma_cache_id_bytes(i: int)
    ensures
        cache_id(i).len() == 4,
        forall|j: int| 0 <= j < 4 ==> #[trigger] cache_id(i)[j] as int == (i + j) % 256,
{
}

/// A configuration keeps what it is built from: no error hop, the peer count,
/// the mode, the content and buffer lengths as given (the write length as
/// write length, the read length as read length), both shadow modes, and the
/// cache ids of the peers, the id of peer `i` being the bytes `i` to `i + 3`
/// modulo 256.
pub proof fn lemma_config_fields<SM>(
    c: TunnelTestConfig<SM>,
    nbpeer: usize,
    mode: TunnelMode,
    input_length: usize,
    write_buffer_length: usize,
    read_buffer_length: usize,
    shead: SM,
    scont: SM,
)
    requires
        is_config(
            c,
            nbpeer,
            mode,
            input_length,
            write_buffer_length,
            read_buffer_length,
            shead,
            scont,
        ),
    ensures
        c.error_hop == 0,
        c.nbpeer == nbpeer,
        c.tmode == mode,
        c.input_length == input_length,
        c.write_buffer_length == write_buffer_length,
        c.read_buffer_length == read_buffer_length,
        c.shead == shead,
        c.scont == scont,
        c.cache_ids@.len() == nbpeer,
        forall|i: int, j: int|
            0 <= i < nbpeer && 0 <= j < 4 ==> c.cache_ids@[i]@.len() == 4
                && #[trigger] c.cache_ids@[i]@[j] as int == (i + j) % 256,
{
    assert forall|i: int, j: int| 0 <= i < nbpeer && 0 <= j < 4 implies c.cache_ids@[i]@.len()
        == 4 && #[trigger] c.cache_ids@[i]@[j] as int == (i + j) % 256 by {
        assert(c.cache_ids@[i]@ == cache_id(i));
        lemma_cache_id_bytes(i);
    }
}

/// The hop count of the tunnel modes that `new_norep` and `new_cached` build:
/// one less than the peer count taken modulo 256.
pub proof fn lemma_hop_count(nbpeer: usize)
    requires
        nbpeer as u8 >= 1,
    ensures
        ((nbpeer as u8 - 1) as u8) as int == nbpeer % 256 - 1,
{
    assert((nbpeer as u8) as int == nbpeer % 256) by (bit_vector);
}

} // verus!
