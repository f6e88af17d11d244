//! A deliberately weak "shadowing" (encryption stand-in) used to exercise
//! transports: every byte of the content is shifted up by a one-byte key when
//! written and shifted back down when read.
//!
//! The first field of [`ShadowTest`] is the peer key, the second one the
//! transaction key (used only by [`ShadowModeTest::SimpleShift`], where it is
//! sent in clear in the header).
//!
//! Byte streams are handled as values here: the writing functions return the
//! bytes to emit, the reading functions take the bytes that were received.
use vstd::prelude::*;

verus! {

/// `init + inc` modulo 256.
pub open spec fn spec_shift_up(init: u8, inc: u8) -> u8 {
    ((init as int + inc as int) % 256) as u8
}

/// `init - dec` modulo 256.
pub open spec fn spec_shift_down(init: u8, dec: u8) -> u8 {
    ((init as int - dec as int + 256) % 256) as u8
}

/// Shifts `init` up by `inc`, wrapping around at 256.
pub fn shift_up(init: u8, inc: u8) -> (res: u8)
    ensures
        res == spec_shift_up(init, inc),
{
    init.wrapping_add(inc)
}

/// Shifts `init` down by `dec`, wrapping around at 0.
pub fn shift_down(init: u8, dec: u8) -> (res: u8)
    ensures
        res == spec_shift_down(init, dec),
{
    init.wrapping_sub(dec)
}

/// Shifting down undoes shifting up, and shifting up undoes shifting down.
pub proof fn lemma_shift_roundtrip(b: u8, k: u8)
    ensures
        spec_shift_down(spec_shift_up(b, k), k) == b,
        spec_shift_up(spec_shift_down(b, k), k) == b,
{
}

/// The shadowing modes.
#[derive(Debug, Clone, Copy, PartialEq, Eq, Structural)]
pub enum ShadowModeTest {
    /// Content goes through unchanged.
    NoShadow,
    /// Content is shifted by the sum of the peer key and a fresh transaction
    /// key; the transaction key is sent in the header.
    SimpleShift,
    /// Content is shifted by the peer key only.
    SimpleShiftNoHead,
}

/// Test shadower: peer key, transaction key and mode.
/// Not to be used for anything but tests: the header carries the transaction
/// key in clear.
#[derive(Clone, Copy)]
pub struct ShadowTest(pub u8, pub u8, pub ShadowModeTest);

/// The key bytes that a shadower in state `st` shifts content with.
pub open spec fn shadow_key(st: ShadowTest) -> Seq<u8> {
    match st.2 {
        ShadowModeTest::NoShadow => seq![],
        ShadowModeTest::SimpleShift => seq![spec_shift_up(st.0, st.1)],
        ShadowModeTest::SimpleShiftNoHead => seq![st.0],
    }
}

/// Content `vals` as written in mode `mode` with key bytes `k`.
pub open spec fn shadowed(mode: ShadowModeTest, k: Seq<u8>, vals: Seq<u8>) -> Seq<u8> {
    if mode == ShadowModeTest::NoShadow {
        vals
    } else {
        Seq::new(vals.len(), |i: int| spec_shift_up(vals[i], k[0]))
    }
}

/// Received bytes `vals` as read back in mode `mode` with key bytes `k`.
pub open spec fn unshadowed(mode: ShadowModeTest, k: Seq<u8>, vals: Seq<u8>) -> Seq<u8> {
    if mode == ShadowModeTest::NoShadow {
        vals
    } else {
        Seq::new(vals.len(), |i: int| spec_shift_down(vals[i], k[0]))
    }
}

/// The number a mode is written as in a header.
pub open spec fn mode_code(mode: ShadowModeTest) -> u8 {
    match mode {
        ShadowModeTest::NoShadow => 0,
        ShadowModeTest::SimpleShift => 1,
        ShadowModeTest::SimpleShiftNoHead => 2,
    }
}

/// The header that a shadower in state `st` writes: the mode's code, followed
/// by the transaction key in mode `SimpleShift`.
pub open spec fn header_bytes(st: ShadowTest) -> Seq<u8> {
    match st.2 {
        ShadowModeTest::SimpleShift => seq![1u8, st.1],
        _ => seq![mode_code(st.2)],
    }
}

/// A header that can be read: a known mode code, followed by a transaction
/// key when the code is 1.
pub open spec fn valid_header(h: Seq<u8>) -> bool {
    &&& h.len() >= 1
    &&& h[0] <= 2
    &&& h[0] == 1 ==> h.len() >= 2
}

/// The mode that a header code stands for.
pub open spec fn mode_of_code(c: u8) -> ShadowModeTest {
    if c == 0 {
        ShadowModeTest::NoShadow
    } else if c == 1 {
        ShadowModeTest::SimpleShift
    } else {
        ShadowModeTest::SimpleShiftNoHead
    }
}

/// The state of shadower `st` after reading the valid header `h`.
pub open spec fn header_read(st: ShadowTest, h: Seq<u8>) -> ShadowTest {
    ShadowTest(st.0, if h[0] == 1 { h[1] } else { st.1 }, mode_of_code(h[0]))
}

/// The shadower built from received shared key bytes `key`.
pub open spec fn from_simkey(key: Seq<u8>) -> ShadowTest {
    let b: u8 = if key.len() > 0 { key[0] } else { 0u8 };
    ShadowTest(b, b, ShadowModeTest::SimpleShiftNoHead)
}

/// Reading back what a shadower wrote, with the same key, gives the content
/// back.
pub proof fn lemma_shadow_roundtrip(st: ShadowTest, cont: Seq<u8>)
    ensures
        unshadowed(st.2, shadow_key(st), shadowed(st.2, shadow_key(st), cont)) == cont,
{
    assert(unshadowed(st.2, shadow_key(st), shadowed(st.2, shadow_key(st), cont)) =~= cont);
}

/// A header written by a shadower can be read, and the reader then has the
/// writer's mode; when both share the peer key, they also share the content
/// key.
pub proof fn lemma_header_roundtrip(writer: ShadowTest, reader: ShadowTest)
    ensures
        valid_header(header_bytes(writer)),
        header_read(reader, header_bytes(writer)).2 == writer.2,
        reader.0 == writer.0 ==> shadow_key(header_read(reader, header_bytes(writer)))
            == shadow_key(writer),
{
}

/// A message goes through: a reader that shares the peer key with a writer,
/// and reads the writer's header, reads back the content that the writer
/// shadowed after writing that header.
pub proof fn lemma_message_roundtrip(writer: ShadowTest, reader: ShadowTest, cont: Seq<u8>)
    requires
        reader.0 == writer.0,
    ensures
        ({
            let r = header_read(reader, header_bytes(writer));
            unshadowed(r.2, shadow_key(r), shadowed(writer.2, shadow_key(writer), cont)) == cont
        }),
{
    lemma_header_roundtrip(writer, reader);
    lemma_shadow_roundtrip(writer, cont);
}

/// Sharing a key: a shadower built from the key bytes that another one sends
/// has that one's peer key as both keys, and sends the same key bytes again.
pub proof fn lemma_simkey_exchange(st: ShadowTest)
    ensures
        from_simkey(seq![st.0]) == ShadowTest(st.0, st.0, ShadowModeTest::SimpleShiftNoHead),
        seq![from_simkey(seq![st.0]).0] == seq![st.0],
{
}

/// Two shadowers built from the same key bytes read back what the other
/// writes.
pub proof fn lemma_shared_simkey_roundtrip(key: Seq<u8>, cont: Seq<u8>)
    ensures
        ({
            let st = from_simkey(key);
            unshadowed(st.2, shadow_key(st), shadowed(st.2, shadow_key(st), cont)) == cont
        }),
{
    lemma_shadow_roundtrip(from_simkey(key), cont);
}

/// Shadowing and reading back work byte by byte: doing either to two pieces
/// one after the other gives what doing it to the whole gives.
pub proof fn lemma_shadow_concat(mode: ShadowModeTest, k: Seq<u8>, a: Seq<u8>, b: Seq<u8>)
    ensures
        shadowed(mode, k, a + b) == shadowed(mode, k, a) + shadowed(mode, k, b),
        unshadowed(mode, k, a + b) == unshadowed(mode, k, a) + unshadowed(mode, k, b),
{
    assert(shadowed(mode, k, a + b) =~= shadowed(mode, k, a) + shadowed(mode, k, b));
    assert(unshadowed(mode, k, a + b) =~= unshadowed(mode, k, a) + unshadowed(mode, k, b));
}

/// The stream written for the content pieces `chunks`, one after the other.
pub open spec fn shadowed_chunks(mode: ShadowModeTest, k: Seq<u8>, chunks: Seq<Seq<u8>>) -> Seq<u8>
    decreases chunks.len(),
{
    if chunks.len() == 0 {
        seq![]
    } else {
        shadowed(mode, k, chunks.first()) + shadowed_chunks(mode, k, chunks.drop_first())
    }
}

/// The content read back from the received pieces `reads`, one after the
/// other.
pub open spec fn unshadowed_chunks(mode: ShadowModeTest, k: Seq<u8>, reads: Seq<Seq<u8>>) -> Seq<u8>
    decreases reads.len(),
{
    if reads.len() == 0 {
        seq![]
    } else {
        unshadowed(mode, k, reads.first()) + unshadowed_chunks(mode, k, reads.drop_first())
    }
}

proof fn lemma_chunks_flatten(mode: ShadowModeTest, k: Seq<u8>, chunks: Seq<Seq<u8>>)
    ensures
        shadowed_chunks(mode, k, chunks) == shadowed(mode, k, chunks.flatten()),
        unshadowed_chunks(mode, k, chunks) == unshadowed(mode, k, chunks.flatten()),
    decreases chunks.len(),
{
    if chunks.len() == 0 {
        assert(shadowed(mode, k, chunks.flatten()) =~= seq![]);
        assert(unshadowed(mode, k, chunks.flatten()) =~= seq![]);
    } else {
        lemma_chunks_flatten(mode, k, chunks.drop_first());
        lemma_shadow_concat(mode, k, chunks.first(), chunks.drop_first().flatten());
    }
}

/// A message written in pieces goes through whatever pieces it is read in:
/// a reader that shares the peer key with a writer, and reads the writer's
/// header, reads back the whole content from any cutting of the stream that
/// the writer wrote for the content pieces `chunks`.
pub proof fn lemma_chunked_roundtrip(
    writer: ShadowTest,
    reader: ShadowTest,
    chunks: Seq<Seq<u8>>,
    reads: Seq<Seq<u8>>,
)
    requires
        reader.0 == writer.0,
        reads.flatten() == shadowed_chunks(writer.2, shadow_key(writer), chunks),
    ensures
        ({
            let r = header_read(reader, header_bytes(writer));
            unshadowed_chunks(r.2, shadow_key(r), reads) == chunks.flatten()
        }),
{
    let r = header_read(reader, header_bytes(writer));
    lemma_chunks_flatten(writer.2, shadow_key(writer), chunks);
    lemma_chunks_flatten(r.2, shadow_key(r), reads);
    lemma_message_roundtrip(writer, reader, chunks.flatten());
}

/// Shadowing shifts every byte by the first key byte, modulo 256, and reading
/// back shifts every byte back; mode `NoShadow` keeps the bytes. Both keep
/// the length.
pub proof fn lemma_shadowed_bytes(mode: ShadowModeTest, k: Seq<u8>, v: Seq<u8>)
    ensures
        shadowed(mode, k, v).len() == v.len(),
        unshadowed(mode, k, v).len() == v.len(),
        forall|i: int|
            0 <= i < v.len() ==> #[trigger] shadowed(mode, k, v)[i] as int == (if mode
                == ShadowModeTest::NoShadow {
                v[i] as int
            } else {
                (v[i] + k[0]) % 256
            }),
        forall|i: int|
            0 <= i < v.len() ==> #[trigger] unshadowed(mode, k, v)[i] as int == (if mode
                == ShadowModeTest::NoShadow {
                v[i] as int
            } else {
                (v[i] - k[0]) % 256
            }),
{
}

/// What a shadower in state `st` writes for content `cont`, and what it reads
/// back from received bytes `read`, byte by byte: in mode `SimpleShift` each
/// byte is shifted by the sum of the peer key and the transaction key, in
/// mode `SimpleShiftNoHead` by the peer key alone, and in mode `NoShadow` it
/// is kept; all modulo 256.
pub proof fn lemma_shadower_bytes(st: ShadowTest, cont: Seq<u8>, read: Seq<u8>)
    ensures
        shadowed(st.2, shadow_key(st), cont).len() == cont.len(),
        unshadowed(st.2, shadow_key(st), read).len() == read.len(),
        forall|i: int|
            0 <= i < cont.len() ==> #[trigger] shadowed(st.2, shadow_key(st), cont)[i] as int
                == match st.2 {
                ShadowModeTest::NoShadow => cont[i] as int,
                ShadowModeTest::SimpleShift => (cont[i] + st.0 + st.1) % 256,
                ShadowModeTest::SimpleShiftNoHead => (cont[i] + st.0) % 256,
            },
        forall|i: int|
            0 <= i < read.len() ==> #[trigger] unshadowed(st.2, shadow_key(st), read)[i] as int
                == match st.2 {
                ShadowModeTest::NoShadow => read[i] as int,
                ShadowModeTest::SimpleShift => (read[i] - st.0 - st.1) % 256,
                ShadowModeTest::SimpleShiftNoHead => (read[i] - st.0) % 256,
            },
{
    lemma_shadowed_bytes(st.2, shadow_key(st), cont);
    lemma_shadowed_bytes(st.2, shadow_key(st), read);
    if st.2 == ShadowModeTest::SimpleShift {
        assert forall|i: int| 0 <= i < cont.len() implies #[trigger] shadowed(
            st.2,
            shadow_key(st),
            cont,
        )[i] as int == (cont[i] + st.0 + st.1) % 256 by {
            lemma_key_sum(cont[i], st.0, st.1);
        }
        assert forall|i: int| 0 <= i < read.len() implies #[trigger] unshadowed(
            st.2,
            shadow_key(st),
            read,
        )[i] as int == (read[i] - st.0 - st.1) % 256 by {
            lemma_key_sum(read[i], st.0, st.1);
        }
    }
}

/// Shifting by the key sum modulo 256 is shifting by both keys.
proof fn lemma_key_sum(b: u8, a: u8, t: u8)
    ensures
        (b + spec_shift_up(a, t)) % 256 == (b + a + t) % 256,
        (b - spec_shift_up(a, t)) % 256 == (b - a - t) % 256,
{
    lemma_mod_shift(b as int, a + t);
}

proof fn lemma_mod_shift(a: int, d: int)
    ensures
        (a + d % 256) % 256 == (a + d) % 256,
        (a - d % 256) % 256 == (a - d) % 256,
{
    let q = d / 256;
    let r = d % 256;
    assert(d == 256 * q + r);
    vstd::arithmetic::div_mod::lemma_mod_multiples_vanish(q, a + r, 256);
    vstd::arithmetic::div_mod::lemma_mod_multiples_vanish(-q, a - r, 256);
}

/// The header a shadower writes: one byte for the mode (0 for `NoShadow`, 1
/// for `SimpleShift`, 2 for `SimpleShiftNoHead`), followed in mode
/// `SimpleShift` by the transaction key.
pub proof fn lemma_header_format(st: ShadowTest)
    ensures
        header_bytes(st).len() == (if st.2 == ShadowModeTest::SimpleShift { 2int } else { 1int }),
        header_bytes(st)[0] == match st.2 {
            ShadowModeTest::NoShadow => 0u8,
            ShadowModeTest::SimpleShift => 1u8,
            ShadowModeTest::SimpleShiftNoHead => 2u8,
        },
        st.2 == ShadowModeTest::SimpleShift ==> header_bytes(st)[1] == st.1,
{
}

/// Reading a valid header keeps the peer key, sets the mode from the first
/// byte (0, 1, 2 for `NoShadow`, `SimpleShift`, `SimpleShiftNoHead`), and
/// takes the transaction key from the second byte in mode `SimpleShift` only.
pub proof fn lemma_header_read_fields(st: ShadowTest, h: Seq<u8>)
    requires
        valid_header(h),
    ensures
        header_read(st, h).0 == st.0,
        h[0] == 0 ==> header_read(st, h).2 == ShadowModeTest::NoShadow && header_read(st, h).1
            == st.1,
        h[0] == 1 ==> header_read(st, h).2 == ShadowModeTest::SimpleShift && header_read(st, h).1
            == h[1],
        h[0] == 2 ==> header_read(st, h).2 == ShadowModeTest::SimpleShiftNoHead && header_read(
            st,
            h,
        ).1 == st.1,
{
}

/// A shadower built from shared key bytes has the first byte (0 where there is
/// none) as both keys, in mode `SimpleShiftNoHead`.
pub proof fn lemma_from_simkey_fields(key: Seq<u8>)
    ensures
        key.len() > 0 ==> from_simkey(key).0 == key[0],
        key.len() == 0 ==> from_simkey(key).0 == 0,
        from_simkey(key).1 == from_simkey(key).0,
        from_simkey(key).2 == ShadowModeTest::SimpleShiftNoHead,
{
}

/// Draws one byte from the thread-local generator of the `rand` crate
/// (`rand::thread_rng` and `Rng::fill_bytes`). Nothing is stated of the byte:
/// it is random. `thread_rng` panics when the system offers no entropy at all;
/// that environment condition cannot be expressed here.
#[verifier::external_body]
fn random_byte() -> u8 {
    let mut res = [0u8; 1];
    rand::Rng::fill_bytes(&mut rand::thread_rng(), &mut res);
    res[0]
}

impl ShadowTest {
    /// Shadows `vals` with the key bytes `k`: unchanged in mode `NoShadow`,
    /// every byte shifted up by `k[0]` otherwise.
    pub fn shadow_iter_sim(&self, k: &[u8], vals: &[u8]) -> (res: Vec<u8>)
        requires
            self.2 != ShadowModeTest::NoShadow && vals@.len() > 0 ==> k@.len() >= 1,
        ensures
            res@ == shadowed(self.2, k@, vals@),
    {
        let mut res: Vec<u8> = Vec::new();
        match self.2 {
            ShadowModeTest::NoShadow => {
                let mut i: usize = 0;
                while i < vals.len()
                    invariant
                        i <= vals@.len(),
                        res@ == vals@.subrange(0, i as int),
                    decreases vals@.len() - i,
                {
                    res.push(vals[i]);
                    i = i + 1;
                }
                assert(res@ =~= vals@);
            },
            _ => {
                let mut i: usize = 0;
                while i < vals.len()
                    invariant
                        i <= vals@.len(),
                        self.2 != ShadowModeTest::NoShadow,
                        vals@.len() > 0 ==> k@.len() >= 1,
                        res@.len() == i,
                        forall|j: int| 0 <= j < i ==> res@[j] == spec_shift_up(vals@[j], k@[0]),
                    decreases vals@.len() - i,
                {
                    let b = shift_up(vals[i], k[0]);
                    res.push(b);
                    i = i + 1;
                }
                assert(res@ =~= shadowed(self.2, k@, vals@));
            },
        }
        res
    }

    /// Nothing is buffered: flushing does nothing.
    pub fn shadow_sim_flush(&mut self)
        ensures
            *final(self) == *old(self),
    {
    }

    /// Reads back the received bytes `read` with the key bytes `k`: unchanged
    /// in mode `NoShadow`, every byte shifted down by `k[0]` otherwise.
    pub fn read_shadow_iter_sim(&self, k: &[u8], read: &[u8]) -> (res: Vec<u8>)
        requires
            self.2 != ShadowModeTest::NoShadow && read@.len() > 0 ==> k@.len() >= 1,
        ensures
            res@ == unshadowed(self.2, k@, read@),
    {
        let mut res: Vec<u8> = Vec::new();
        let mut i: usize = 0;
        while i < read.len()
            invariant
                i <= read@.len(),
                self.2 != ShadowModeTest::NoShadow && read@.len() > 0 ==> k@.len() >= 1,
                res@.len() == i,
                forall|j: int|
                    0 <= j < i ==> res@[j] == (if self.2 == ShadowModeTest::NoShadow {
                        read@[j]
                    } else {
                        spec_shift_down(read@[j], k@[0])
                    }),
            decreases read@.len() - i,
        {
            let b = match self.2 {
                ShadowModeTest::NoShadow => read[i],
                _ => shift_down(read[i], k[0]),
            };
            res.push(b);
            i = i + 1;
        }
        assert(res@ =~= unshadowed(self.2, k@, read@));
        res
    }

    /// A fresh random one-byte key.
    pub fn shadow_simkey() -> (res: Vec<u8>)
        ensures
            res@.len() == 1,
    {
        let mut res: Vec<u8> = Vec::new();
        res.push(random_byte());
        res
    }

    /// The bytes that share the peer key with another party.
    pub fn send_shadow_simkey(&self) -> (res: Vec<u8>)
        ensures
            res@ == seq![self.0],
    {
        let mut res: Vec<u8> = Vec::new();
        res.push(self.0);
        res
    }

    /// A shadower built from shared key bytes as sent by
    /// [`ShadowTest::send_shadow_simkey`]: the first byte (0 where none was
    /// received) becomes both keys, in mode `SimpleShiftNoHead`.
    pub fn init_from_shadow_simkey(key: &[u8]) -> (res: ShadowTest)
        ensures
            res == from_simkey(key@),
    {
        let b: u8 = if key.len() > 0 { key[0] } else { 0 };
        ShadowTest(b, b, ShadowModeTest::SimpleShiftNoHead)
    }

    /// Sets the mode.
    pub fn set_mode(&mut self, sm: ShadowModeTest)
        ensures
            final(self).0 == old(self).0,
            final(self).1 == old(self).1,
            final(self).2 == sm,
    {
        self.2 = sm
    }

    /// The mode.
    pub fn get_mode(&self) -> (res: ShadowModeTest)
        ensures
            res == self.2,
    {
        self.2
    }

    /// A new shadower for a shared secret: a random key, used as both keys,
    /// in mode `SimpleShiftNoHead`.
    pub fn new_shadow_sim() -> (res: ShadowTest)
        ensures
            res.1 == res.0,
            res.2 == ShadowModeTest::SimpleShiftNoHead,
    {
        let shift = Self::shadow_simkey();
        ShadowTest(shift[0], shift[0], ShadowModeTest::SimpleShiftNoHead)
    }

    /// The header to write, where `tkey` is the transaction key to use in mode
    /// `SimpleShift` (it is then stored as the transaction key).
    pub fn write_header_with_key(&mut self, tkey: u8) -> (res: Vec<u8>)
        ensures
            final(self).0 == old(self).0,
            final(self).2 == old(self).2,
            final(self).1 == (if old(self).2 == ShadowModeTest::SimpleShift {
                tkey
            } else {
                old(self).1
            }),
            res@ == header_bytes(*final(self)),
    {
        let mut res: Vec<u8> = Vec::new();
        match self.2 {
            ShadowModeTest::NoShadow => {
                res.push(0);
            },
            ShadowModeTest::SimpleShift => {
                self.1 = tkey;
                res.push(1);
                res.push(self.1);
            },
            ShadowModeTest::SimpleShiftNoHead => {
                res.push(2);
            },
        }
        res
    }

    /// The header to write. In mode `SimpleShift` a fresh random transaction
    /// key is drawn and stored first.
    pub fn write_header(&mut self) -> (res: Vec<u8>)
        ensures
            final(self).0 == old(self).0,
            final(self).2 == old(self).2,
            old(self).2 != ShadowModeTest::SimpleShift ==> final(self).1 == old(self).1,
            res@ == header_bytes(*final(self)),
    {
        let tkey: u8 = match self.2 {
            ShadowModeTest::SimpleShift => {
                let k = Self::shadow_simkey();
                k[0]
            },
            _ => self.1,
        };
        self.write_header_with_key(tkey)
    }

    /// The bytes to write for content `cont`: `cont` shadowed with this
    /// shadower's key.
    pub fn write_into(&mut self, cont: &[u8]) -> (res: Vec<u8>)
        ensures
            *final(self) == *old(self),
            res@ == shadowed(old(self).2, shadow_key(*old(self)), cont@),
    {
        let mut k: Vec<u8> = Vec::new();
        match self.2 {
            ShadowModeTest::NoShadow => {},
            ShadowModeTest::SimpleShift => {
                k.push(self.0.wrapping_add(self.1));
            },
            ShadowModeTest::SimpleShiftNoHead => {
                k.push(self.0);
            },
        }
        assert(k@ =~= shadow_key(*self));
        self.shadow_iter_sim(k.as_slice(), cont)
    }

    /// Nothing is buffered: flushing does nothing.
    pub fn flush_into(&mut self)
        ensures
            *final(self) == *old(self),
    {
    }

    /// Nothing ends a shadowed content.
    pub fn write_end(&mut self)
        ensures
            *final(self) == *old(self),
    {
    }

    /// The length of the header that starts with `first`, or `None` where
    /// `first` is no mode code.
    pub fn header_len(first: u8) -> (res: Option<usize>)
        ensures
            first > 2 ==> res is None,
            first <= 2 ==> res == Some(if first == 1 { 2usize } else { 1usize }),
    {
        if first == 0 || first == 2 {
            Some(1)
        } else if first == 1 {
            Some(2)
        } else {
            None
        }
    }

    /// Reads a header: sets the mode from its code and, in mode `SimpleShift`,
    /// the transaction key from its second byte. Returns the number of header
    /// bytes used.
    pub fn read_header(&mut self, header: &[u8]) -> (res: usize)
        requires
            valid_header(header@),
        ensures
            res == (if header@[0] == 1 { 2usize } else { 1usize }),
            *final(self) == header_read(*old(self), header@),
    {
        let sm = header[0];
        if sm == 0 {
            self.2 = ShadowModeTest::NoShadow;
            1
        } else if sm == 1 {
            self.1 = header[1];
            self.2 = ShadowModeTest::SimpleShift;
            2
        } else {
            self.2 = ShadowModeTest::SimpleShiftNoHead;
            1
        }
    }

    /// The content carried by the received bytes `read`: `read` read back with
    /// this shadower's key.
    pub fn read_from(&mut self, read: &[u8]) -> (res: Vec<u8>)
        ensures
            *final(self) == *old(self),
            res@ == unshadowed(old(self).2, shadow_key(*old(self)), read@),
    {
        let mut k: Vec<u8> = Vec::new();
        match self.2 {
            ShadowModeTest::NoShadow => {},
            ShadowModeTest::SimpleShift => {
                k.push(self.0.wrapping_add(self.1));
            },
            ShadowModeTest::SimpleShiftNoHead => {
                k.push(self.0);
            },
        }
        assert(k@ =~= shadow_key(*self));
        self.read_shadow_iter_sim(k.as_slice(), read)
    }

    /// Nothing ends a shadowed content.
    pub fn read_end(&mut self)
        ensures
            *final(self) == *old(self),
    {
    }
}

} // verus!
