//! TRYX framing: a four-byte magic, a little-endian `u32` payload length,
//! then the payload.

use vstd::prelude::*;

use crate::text;

verus! {

/// The bytes that begin every frame: `TRYX`.
pub const MAGIC: [u8; 4] = [0x54, 0x52, 0x59, 0x58];

/// Magic plus length prefix.
pub const HEADER_LEN: usize = 8;

/// Largest payload accepted in either direction.
pub const MAX_PAYLOAD: usize = 1_048_576;

/// Bytes that may be dropped in search of a frame before the stream counts
/// as lost.
pub const MAX_RESYNC_BYTES: usize = 65_536;

/// Why a stream could not be framed.
#[derive(Debug, Clone, Copy, PartialEq, Eq, Structural)]
pub enum FrameError {
    /// The buffer does not begin with the frame magic.
    BadMagic,
    /// A payload length exceeds [`MAX_PAYLOAD`].
    Oversize(usize),
    /// More than [`MAX_RESYNC_BYTES`] were dropped without finding a frame.
    ResyncExhausted,
}

impl FrameError {
    /// What [`FrameError::describe`] says.
    pub open spec fn text(self) -> Seq<char> {
        match self {
            FrameError::BadMagic => "invalid frame magic"@,
            FrameError::Oversize(len) => "frame payload of "@ + text::decimal(len as nat)
                + " bytes exceeds 1048576"@,
            FrameError::ResyncExhausted => "no frame found in the received bytes"@,
        }
    }

    /// The error in words.
    pub fn describe(&self) -> (text: String)
        ensures
            text@ == self.text(),
    {
        match *self {
            FrameError::BadMagic => "invalid frame magic".to_owned(),
            FrameError::Oversize(len) => text::join3(
                "frame payload of ",
                text::number(len as u128).as_str(),
                " bytes exceeds 1048576",
            ),
            FrameError::ResyncExhausted => "no frame found in the received bytes".to_owned(),
        }
    }
}

// ---------------------------------------------------------------------------
// What a frame is, and what a stream holds.
// ---------------------------------------------------------------------------

/// The four bytes of `n`, least significant first.
pub open spec fn le_bytes(n: nat) -> Seq<u8> {
    seq![
        (n % 256) as u8,
        (n / 256 % 256) as u8,
        (n / 65_536 % 256) as u8,
        (n / 16_777_216 % 256) as u8,
    ]
}

/// The frame around `payload`.
pub open spec fn frame_of(payload: Seq<u8>) -> Seq<u8> {
    MAGIC@ + le_bytes(payload.len()) + payload
}

/// Whether a frame can begin at `at`: as far as there are bytes there, they
/// are those of the magic.
pub open spec fn frame_may_begin(stream: Seq<u8>, at: int) -> bool {
    forall|i: int| 0 <= i < 4 && at + i < stream.len() ==> #[trigger] MAGIC@[i] == stream[at + i]
}

/// What taking a frame off the front of `stream` gives, and what is left.
///
/// `Ok(None)` when more bytes are needed. A header that is not one of a frame
/// empties the stream.
pub open spec fn take_from(stream: Seq<u8>) -> (Result<Option<Seq<u8>>, FrameError>, Seq<u8>) {
    let len = crate::pb::le32(stream.skip(4));
    if stream.len() < 4 {
        (Ok(None), stream)
    } else if !frame_may_begin(stream, 0) {
        (Err(FrameError::BadMagic), Seq::empty())
    } else if stream.len() < 8 {
        (Ok(None), stream)
    } else if len > MAX_PAYLOAD {
        (Err(FrameError::Oversize(len as usize)), Seq::empty())
    } else if stream.len() < 8 + len {
        (Ok(None), stream)
    } else {
        (Ok(Some(stream.subrange(8, 8 + len))), stream.skip(8 + len))
    }
}

/// How many bytes stand before the first place where a frame can begin.
pub open spec fn stale_len(stream: Seq<u8>) -> nat
    decreases stream.len(),
{
    if stream.len() == 0 || frame_may_begin(stream, 0) {
        0
    } else {
        1 + stale_len(stream.skip(1))
    }
}

/// The count of dropped bytes after `more` of them, held at its largest value.
pub open spec fn dropped_after(discarded: nat, more: nat) -> nat {
    if discarded + more > usize::MAX {
        usize::MAX as nat
    } else {
        discarded + more
    }
}

/// What taking a frame gives once the bytes with which no frame can begin have
/// been dropped: the result, what is left, and the new count of dropped bytes.
pub open spec fn resync_from(stream: Seq<u8>, discarded: nat) -> (
    Result<Option<Seq<u8>>, FrameError>,
    Seq<u8>,
    nat,
) {
    let dropped = dropped_after(discarded, stale_len(stream));
    if dropped > MAX_RESYNC_BYTES {
        (Err(FrameError::ResyncExhausted), Seq::empty(), dropped)
    } else {
        let (result, rest) = take_from(stream.skip(stale_len(stream) as int));
        (result, rest, dropped)
    }
}

/// The payload bytes behind the result of taking a frame.
pub open spec fn payload_view(result: Result<Option<Vec<u8>>, FrameError>) -> Result<
    Option<Seq<u8>>,
    FrameError,
> {
    match result {
        Ok(Some(payload)) => Ok(Some(payload@)),
        Ok(None) => Ok(None),
        Err(error) => Err(error),
    }
}

/// Wraps `payload` in a frame.
pub fn encode(payload: &[u8]) -> (result: Result<Vec<u8>, FrameError>)
    ensures
        if payload@.len() > MAX_PAYLOAD {
            result == Err::<Vec<u8>, FrameError>(FrameError::Oversize(payload@.len() as usize))
        } else {
            result matches Ok(frame) && frame@ == frame_of(payload@)
        },
{
    if payload.len() > MAX_PAYLOAD {
        return Err(FrameError::Oversize(payload.len()));
    }
    let mut frame: Vec<u8> = Vec::with_capacity(HEADER_LEN + payload.len());
    let len: usize = payload.len();
    frame.push(MAGIC[0]);
    frame.push(MAGIC[1]);
    frame.push(MAGIC[2]);
    frame.push(MAGIC[3]);
    frame.push((len % 256) as u8);
    frame.push((len / 256 % 256) as u8);
    frame.push((len / 65_536 % 256) as u8);
    frame.push((len / 16_777_216 % 256) as u8);
    assert(frame@ == MAGIC@ + le_bytes(payload@.len()));
    frame.extend_from_slice(payload);
    assert(frame@ == frame_of(payload@));
    Ok(frame)
}

/// Accumulates bytes read from the device and splits them into frames.
#[derive(Debug)]
pub struct Decoder {
    buf: Vec<u8>,
}

impl View for Decoder {
    type V = Seq<u8>;

    /// The bytes that wait to be decoded.
    closed spec fn view(&self) -> Seq<u8> {
        self.buf@
    }
}

impl Default for Decoder {
    /// A decoder that has received nothing.
    fn default() -> (decoder: Self)
        ensures
            decoder@ == Seq::<u8>::empty(),
    {
        Decoder { buf: Vec::new() }
    }
}

impl Decoder {
    /// A decoder that has received nothing.
    pub fn new() -> (decoder: Self)
        ensures
            decoder@ == Seq::<u8>::empty(),
    {
        Decoder { buf: Vec::new() }
    }

    /// Appends bytes received from the device.
    pub fn push(&mut self, bytes: &[u8])
        ensures
            final(self)@ == old(self)@ + bytes@,
    {
        self.buf.extend_from_slice(bytes);
        assert(self@ == old(self)@ + bytes@);
    }

    /// Number of bytes waiting to be decoded.
    pub fn buffered(&self) -> (count: usize)
        ensures
            count == self@.len(),
    {
        self.buf.len()
    }

    /// Discards everything buffered.
    pub fn clear(&mut self)
        ensures
            final(self)@ == Seq::<u8>::empty(),
    {
        self.buf.clear();
    }

    /// Whether a frame can begin at `at`.
    fn may_begin(&self, at: usize) -> (may: bool)
        requires
            at <= self@.len(),
        ensures
            may == frame_may_begin(self@, at as int),
    {
        let mut i: usize = 0;
        while i < 4
            invariant
                i <= 4,
                at <= self@.len(),
                forall|j: int|
                    0 <= j < i && at + j < self@.len() ==> #[trigger] MAGIC@[j] == self@[at + j],
            decreases 4 - i,
        {
            if i >= self.buf.len() - at {
                return true;
            }
            if MAGIC[i] != self.buf[at + i] {
                assert(MAGIC@[i as int] != self@[at + i]);
                return false;
            }
            i = i + 1;
        }
        true
    }

    /// Removes and returns the next complete payload.
    ///
    /// Returns `Ok(None)` when more bytes are needed. A header that is not a
    /// valid frame empties the buffer and returns the error.
    pub fn take_frame(&mut self) -> (result: Result<Option<Vec<u8>>, FrameError>)
        ensures
            payload_view(result) == take_from(old(self)@).0,
            final(self)@ == take_from(old(self)@).1,
    {
        if self.buf.len() < 4 {
            return Ok(None);
        }
        if !self.may_begin(0) {
            self.buf.clear();
            return Err(FrameError::BadMagic);
        }
        if self.buf.len() < HEADER_LEN {
            return Ok(None);
        }
        let len: usize = payload_len(self.buf.as_slice());
        if len > MAX_PAYLOAD {
            self.buf.clear();
            return Err(FrameError::Oversize(len));
        }
        let total: usize = HEADER_LEN + len;
        if self.buf.len() < total {
            return Ok(None);
        }
        let rest = self.buf.split_off(total);
        let payload = self.buf.split_off(HEADER_LEN);
        self.buf = rest;
        assert(payload@ == old(self)@.subrange(8, 8 + len));
        Ok(Some(payload))
    }

    /// Drops the bytes with which no frame can begin, counting them into
    /// `discarded`, then removes and returns the next complete payload as
    /// [`Decoder::take_frame`] does.
    ///
    /// More than [`MAX_RESYNC_BYTES`] dropped bytes empty the buffer and end
    /// the search.
    pub fn resync_and_take_frame(&mut self, discarded: &mut usize) -> (result: Result<
        Option<Vec<u8>>,
        FrameError,
    >)
        ensures
            payload_view(result) == resync_from(old(self)@, *old(discarded) as nat).0,
            final(self)@ == resync_from(old(self)@, *old(discarded) as nat).1,
            *final(discarded) == resync_from(old(self)@, *old(discarded) as nat).2,
    {
        let ghost stream = self@;
        assert(stream.skip(0) == stream);
        let mut stale: usize = 0;
        while stale < self.buf.len() && !self.may_begin(stale)
            invariant
                stale <= self@.len(),
                self@ == stream,
                stale_len(stream) == stale + stale_len(stream.skip(stale as int)),
            decreases self@.len() - stale,
        {
            let ghost here = stream.skip(stale as int);
            assert(stream.skip(stale + 1) == here.skip(1));
            assert(frame_may_begin(here, 0) ==> frame_may_begin(stream, stale as int)) by {
                if frame_may_begin(here, 0) {
                    assert forall|i: int|
                        0 <= i < 4 && stale + i < stream.len() implies #[trigger] MAGIC@[i]
                        == stream[stale + i] by {
                        assert(MAGIC@[i] == here[0 + i]);
                    }
                }
            }
            stale = stale + 1;
        }
        proof {
            let here = stream.skip(stale as int);
            if stale < stream.len() {
                assert forall|i: int| 0 <= i < 4 && 0 + i < here.len() implies #[trigger] MAGIC@[i]
                    == here[0 + i] by {
                    assert(MAGIC@[i] == stream[stale + i]);
                }
            }
            assert(stale_len(here) == 0);
        }
        let rest = self.buf.split_off(stale);
        self.buf = rest;
        *discarded = if stale > usize::MAX - *discarded {
            usize::MAX
        } else {
            *discarded + stale
        };
        if *discarded > MAX_RESYNC_BYTES {
            self.buf.clear();
            return Err(FrameError::ResyncExhausted);
        }
        self.take_frame()
    }
}

/// Reads the payload length from a buffer that holds at least a full header.
fn payload_len(header: &[u8]) -> (len: usize)
    requires
        header@.len() >= 8,
    ensures
        len == crate::pb::le32(header@.skip(4)),
{
    (header[4] as u32 + header[5] as u32 * 0x100 + header[6] as u32 * 0x1_0000 + header[7] as u32
        * 0x100_0000) as usize
}

// ---------------------------------------------------------------------------
// Laws.
// ---------------------------------------------------------------------------

proof fn lemma_header(payload: Seq<u8>, rest: Seq<u8>)
    requires
        payload.len() <= MAX_PAYLOAD,
    ensures
        frame_of(payload).len() == 8 + payload.len(),
        frame_may_begin(frame_of(payload) + rest, 0),
        crate::pb::le32((frame_of(payload) + rest).skip(4)) == payload.len(),
{
    let n = payload.len();
    let stream = frame_of(payload) + rest;
    assert(MAGIC@.len() == 4);
    assert forall|i: int| 0 <= i < 4 && 0 + i < stream.len() implies #[trigger] MAGIC@[i]
        == stream[0 + i] by {}
    let header = stream.skip(4);
    assert(header[0] == le_bytes(n)[0]);
    assert(header[1] == le_bytes(n)[1]);
    assert(header[2] == le_bytes(n)[2]);
    assert(header[3] == le_bytes(n)[3]);
}

/// Taking a frame off a stream that begins with an encoded payload gives the
/// payload back and leaves exactly what follows it.
pub proof fn frame_round_trip(payload: Seq<u8>, rest: Seq<u8>)
    requires
        payload.len() <= MAX_PAYLOAD,
    ensures
        take_from(frame_of(payload) + rest) == (
            Ok::<Option<Seq<u8>>, FrameError>(Some(payload)),
            rest,
        ),
{
    lemma_header(payload, rest);
    let stream = frame_of(payload) + rest;
    assert(stream.subrange(8, 8 + payload.len() as int) == payload);
    assert(stream.skip(8 + payload.len() as int) == rest);
}

/// Frames come out in the order in which they were encoded.
pub proof fn frames_keep_their_order(first: Seq<u8>, second: Seq<u8>, rest: Seq<u8>)
    requires
        first.len() <= MAX_PAYLOAD,
        second.len() <= MAX_PAYLOAD,
    ensures
        take_from(frame_of(first) + frame_of(second) + rest).0 == Ok::<
            Option<Seq<u8>>,
            FrameError,
        >(Some(first)),
        take_from(take_from(frame_of(first) + frame_of(second) + rest).1) == (
            Ok::<Option<Seq<u8>>, FrameError>(Some(second)),
            rest,
        ),
{
    assert(frame_of(first) + frame_of(second) + rest == frame_of(first) + (frame_of(second)
        + rest));
    frame_round_trip(first, frame_of(second) + rest);
    frame_round_trip(second, rest);
}

/// A frame of which only a part has arrived is waited for: nothing is taken,
/// nothing is dropped, and no error is raised.
pub proof fn partial_frame_is_kept(payload: Seq<u8>, arrived: int, discarded: nat)
    requires
        payload.len() <= MAX_PAYLOAD,
        0 <= arrived < frame_of(payload).len(),
        discarded <= MAX_RESYNC_BYTES,
    ensures
        take_from(frame_of(payload).take(arrived)) == (
            Ok::<Option<Seq<u8>>, FrameError>(None),
            frame_of(payload).take(arrived),
        ),
        resync_from(frame_of(payload).take(arrived), discarded) == (
            Ok::<Option<Seq<u8>>, FrameError>(None),
            frame_of(payload).take(arrived),
            discarded,
        ),
{
    let whole = frame_of(payload);
    let part = whole.take(arrived);
    lemma_header(payload, Seq::empty());
    assert(whole + Seq::<u8>::empty() == whole);
    assert forall|i: int| 0 <= i < 4 && 0 + i < part.len() implies #[trigger] MAGIC@[i] == part[0
        + i] by {
        assert(MAGIC@[i] == whole[0 + i]);
    }
    if arrived >= 8 {
        assert(part.skip(4)[0] == whole.skip(4)[0]);
        assert(part.skip(4)[1] == whole.skip(4)[1]);
        assert(part.skip(4)[2] == whole.skip(4)[2]);
        assert(part.skip(4)[3] == whole.skip(4)[3]);
    }
    assert(stale_len(part) == 0);
    assert(part.skip(0) == part);
}

/// How a stream is cut into reads makes no difference: a frame that arrives in
/// two pieces, with a look in between, gives what it gives in one.
pub proof fn split_reads_make_no_difference(payload: Seq<u8>, arrived: int, rest: Seq<u8>)
    requires
        payload.len() <= MAX_PAYLOAD,
        0 <= arrived < frame_of(payload).len(),
    ensures
        ({
            let (early, kept) = take_from(frame_of(payload).take(arrived));
            &&& early == Ok::<Option<Seq<u8>>, FrameError>(None)
            &&& take_from(kept + frame_of(payload).skip(arrived) + rest) == take_from(
                frame_of(payload) + rest,
            )
        }),
{
    partial_frame_is_kept(payload, arrived, 0);
    assert(frame_of(payload).take(arrived) + frame_of(payload).skip(arrived) + rest == frame_of(
        payload,
    ) + rest);
}

proof fn lemma_stale_len(stream: Seq<u8>, count: nat)
    requires
        count <= stream.len(),
        frame_may_begin(stream, count as int),
        forall|k: int| 0 <= k < count ==> !frame_may_begin(stream, k),
    ensures
        stale_len(stream) == count,
    decreases count,
{
    if count > 0 {
        let tail = stream.skip(1);
        assert forall|k: int| 0 <= k <= count - 1 implies frame_may_begin(tail, k)
            == frame_may_begin(stream, k + 1) by {
            if frame_may_begin(tail, k) {
                assert forall|i: int| 0 <= i < 4 && k + 1 + i < stream.len() implies #[trigger]
                MAGIC@[i] == stream[k + 1 + i] by {
                    assert(MAGIC@[i] == tail[k + i]);
                }
            }
            if frame_may_begin(stream, k + 1) {
                assert forall|i: int| 0 <= i < 4 && k + i < tail.len() implies #[trigger] MAGIC@[i]
                    == tail[k + i] by {
                    assert(MAGIC@[i] == stream[k + 1 + i]);
                }
            }
        }
        assert(!frame_may_begin(stream, 0));
        assert forall|k: int| 0 <= k < count - 1 implies !frame_may_begin(tail, k) by {
            assert(!frame_may_begin(stream, k + 1));
        }
        lemma_stale_len(tail, (count - 1) as nat);
    }
}

/// Bytes before a frame, in which no frame can begin, are dropped and counted,
/// and the frame is found behind them.
pub proof fn garbage_before_a_frame_is_dropped(
    garbage: Seq<u8>,
    payload: Seq<u8>,
    rest: Seq<u8>,
    discarded: nat,
)
    requires
        payload.len() <= MAX_PAYLOAD,
        forall|k: int|
            0 <= k < garbage.len() ==> !frame_may_begin(garbage + frame_of(payload) + rest, k),
        discarded + garbage.len() <= MAX_RESYNC_BYTES,
    ensures
        resync_from(garbage + frame_of(payload) + rest, discarded) == (
            Ok::<Option<Seq<u8>>, FrameError>(Some(payload)),
            rest,
            discarded + garbage.len(),
        ),
{
    let stream = garbage + frame_of(payload) + rest;
    let tail = frame_of(payload) + rest;
    lemma_header(payload, rest);
    assert forall|i: int|
        0 <= i < 4 && garbage.len() + i < stream.len() implies #[trigger] MAGIC@[i]
        == stream[garbage.len() + i] by {
        assert(MAGIC@[i] == tail[0 + i]);
    }
    lemma_stale_len(stream, garbage.len());
    assert(stream.skip(garbage.len() as int) == tail);
    frame_round_trip(payload, rest);
}

proof fn lemma_aligned(stream: Seq<u8>)
    ensures
        stale_len(stream) <= stream.len(),
        frame_may_begin(stream.skip(stale_len(stream) as int), 0),
    decreases stream.len(),
{
    if stream.len() == 0 || frame_may_begin(stream, 0) {
        assert(stream.skip(0) == stream);
    } else {
        lemma_aligned(stream.skip(1));
        assert(stream.skip(1).skip(stale_len(stream.skip(1)) as int) == stream.skip(
            1 + stale_len(stream.skip(1)) as int,
        ));
    }
}

/// After the stale bytes have been dropped the magic is never wrong, and while
/// more bytes are needed nothing is lost: each byte received is either kept or
/// counted as dropped, and what is kept is shorter than the longest frame.
pub proof fn resync_accounts_for_every_byte(stream: Seq<u8>, discarded: nat)
    ensures
        ({
            let (result, rest, dropped) = resync_from(stream, discarded);
            &&& result != Err::<Option<Seq<u8>>, FrameError>(FrameError::BadMagic)
            &&& result == Ok::<Option<Seq<u8>>, FrameError>(None) ==> {
                &&& dropped + rest.len() == discarded + stream.len()
                &&& rest.len() < 8 + MAX_PAYLOAD
                &&& dropped <= MAX_RESYNC_BYTES
            }
            &&& result matches Ok(Some(payload)) ==> {
                &&& dropped + 8 + payload.len() + rest.len() == discarded + stream.len()
                &&& payload.len() <= MAX_PAYLOAD
                &&& dropped <= MAX_RESYNC_BYTES
            }
        }),
{
    lemma_aligned(stream);
}

/// Each error is told in its own words.
pub proof fn frame_errors_say_what_is_wrong(error: FrameError)
    ensures
        error is BadMagic <==> error.text() == "invalid frame magic"@,
        error is ResyncExhausted <==> error.text() == "no frame found in the received bytes"@,
        forall|len: usize|
            #![trigger text::decimal(len as nat)]
            error == FrameError::Oversize(len) <==> error.text() == "frame payload of "@
                + text::decimal(len as nat) + " bytes exceeds 1048576"@,
{
    reveal_strlit("invalid frame magic");
    reveal_strlit("no frame found in the received bytes");
    reveal_strlit("frame payload of ");
    reveal_strlit(" bytes exceeds 1048576");
    assert("invalid frame magic"@[0] == 'i' && "no frame found in the received bytes"@[0] == 'n');
    assert forall|len: usize|
        #![trigger text::decimal(len as nat)]
        error == FrameError::Oversize(len) <==> error.text() == "frame payload of "@
            + text::decimal(len as nat) + " bytes exceeds 1048576"@ by {
        let told = "frame payload of "@ + text::decimal(len as nat) + " bytes exceeds 1048576"@;
        assert(told[0] == 'f');
        if let FrameError::Oversize(own) = error {
            let said = error.text();
            text::decimal_reads_back(own as nat);
            text::decimal_reads_back(len as nat);
            assert(said.subrange(17, said.len() - 22) == text::decimal(own as nat));
            assert(told.subrange(17, told.len() - 22) == text::decimal(len as nat));
        }
    }
}

} // verus!
