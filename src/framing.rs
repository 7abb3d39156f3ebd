use vstd::prelude::*;

use crate::error::NodeError;

verus! {

/// `256` to the power `n`.
pub open spec fn pow256(n: nat) -> nat
    decreases n,
{
    if n == 0 {
        1
    } else {
        256 * pow256((n - 1) as nat)
    }
}

/// The number that the bytes `b` spell in little-endian order.
pub open spec fn le_value(b: Seq<u8>) -> nat
    decreases b.len(),
{
    if b.len() == 0 {
        0
    } else {
        b[0] as nat + 256 * le_value(b.drop_first())
    }
}

/// The `k` little-endian bytes of `n` (of `n` modulo `256^k`).
pub open spec fn le_bytes(n: nat, k: nat) -> Seq<u8>
    decreases k,
{
    if k == 0 {
        Seq::empty()
    } else {
        seq![(n % 256) as u8] + le_bytes(n / 256, (k - 1) as nat)
    }
}

/// A prefix width that the length-prefixed framing supports.
pub open spec fn valid_prefix_width(k: nat) -> bool {
    1 <= k <= 8
}

/// A payload framed with a `k`-byte little-endian length in front of it.
pub open spec fn encode_spec(k: nat, payload: Seq<u8>) -> Seq<u8> {
    le_bytes(payload.len(), k) + payload
}

/// What the length-prefixed decoder says of the buffered bytes `buf`: the length
/// of the first complete frame (prefix included), `None` while the frame is not
/// all there, and an error for a frame that announces an empty payload.
pub open spec fn decode_spec(k: nat, buf: Seq<u8>) -> Result<Option<nat>, NodeError> {
    if buf.len() < k {
        Ok(None)
    } else if le_value(buf.subrange(0, k as int)) == 0 {
        Err(NodeError::DecodeError)
    } else if buf.len() < k + le_value(buf.subrange(0, k as int)) {
        Ok(None)
    } else {
        Ok(Some(k + le_value(buf.subrange(0, k as int))))
    }
}

pub proof fn lemma_pow256_grows(a: nat, b: nat)
    requires
        a <= b,
    ensures
        1 <= pow256(a) <= pow256(b),
    decreases b,
{
    if b > a {
        lemma_pow256_grows(a, (b - 1) as nat);
    } else if b > 0 {
        lemma_pow256_grows(0, (b - 1) as nat);
    }
}

pub proof fn lemma_le_bytes_len(n: nat, k: nat)
    ensures
        le_bytes(n, k).len() == k,
    decreases k,
{
    if k > 0 {
        lemma_le_bytes_len(n / 256, (k - 1) as nat);
    }
}

/// Reading back the `k` little-endian bytes of a number below `256^k` gives the number.
pub proof fn lemma_le_bytes_value(n: nat, k: nat)
    requires
        n < pow256(k),
    ensures
        le_value(le_bytes(n, k)) == n,
    decreases k,
{
    if k > 0 {
        let s = le_bytes(n, k);
        assert(n < 256 * pow256((k - 1) as nat));
        assert(n / 256 < pow256((k - 1) as nat)) by (nonlinear_arith)
            requires
                n < 256 * pow256((k - 1) as nat),
        ;
        lemma_le_bytes_value(n / 256, (k - 1) as nat);
        assert(s.drop_first() =~= le_bytes(n / 256, (k - 1) as nat));
        assert(n == 256 * (n / 256) + n % 256) by (nonlinear_arith);
    }
}

/// Decodes the first frame of `buf`, where each frame is a `k`-byte little-endian
/// payload length followed by the payload. On success the result is the length
/// of the whole frame, prefix included.
pub fn decode_len_prefixed(k: usize, buf: &[u8]) -> (r: Result<Option<usize>, NodeError>)
    requires
        valid_prefix_width(k as nat),
    ensures
        r matches Ok(Some(n)) ==> decode_spec(k as nat, buf@) == Ok::<Option<nat>, NodeError>(
            Some(n as nat),
        ),
        r matches Ok(None) ==> decode_spec(k as nat, buf@) == Ok::<Option<nat>, NodeError>(None),
        r matches Err(e) ==> decode_spec(k as nat, buf@) == Err::<Option<nat>, NodeError>(e),
{
    if buf.len() < k {
        return Ok(None);
    }
    let ghost prefix = buf@.subrange(0, k as int);
    let mut j: usize = k;
    let mut v: u64 = 0;
    proof {
        lemma_pow256_grows(0, 8);
        reveal_with_fuel(pow256, 9);
        assert(pow256(8) == 18446744073709551616);
    }
    while j > 0
        invariant
            j <= k <= 8,
            k <= buf@.len(),
            prefix == buf@.subrange(0, k as int),
            v as nat == le_value(prefix.subrange(j as int, k as int)),
            v < pow256((k - j) as nat),
            pow256(8) == 18446744073709551616,
        decreases j,
    {
        let ghost tail = prefix.subrange(j as int, k as int);
        let ghost longer = prefix.subrange(j - 1, k as int);
        assert(longer.drop_first() =~= tail);
        proof {
            lemma_pow256_grows((k - j + 1) as nat, 8);
        }
        let byte = buf[j - 1];
        let ghost p = pow256((k - j) as nat);
        assert((v as nat) * 256 + (byte as nat) < 256 * p) by (nonlinear_arith)
            requires
                (v as nat) < p,
                byte < 256,
        ;
        assert(pow256((k - j + 1) as nat) == 256 * p);
        v = v * 256 + byte as u64;
        j = j - 1;
    }
    assert(prefix.subrange(0, k as int) =~= prefix);
    if v == 0 {
        return Err(NodeError::DecodeError);
    }
    let avail: usize = buf.len() - k;
    if (avail as u64) < v {
        Ok(None)
    } else {
        Ok(Some(k + v as usize))
    }
}

/// Frames `payload` with its length in `k` little-endian bytes.
pub fn prefix_with_len(k: usize, payload: &[u8]) -> (r: Vec<u8>)
    requires
        valid_prefix_width(k as nat),
        payload@.len() < pow256(k as nat),
    ensures
        r@ == encode_spec(k as nat, payload@),
{
    let mut r: Vec<u8> = Vec::new();
    let mut m: usize = payload.len();
    let mut i: usize = 0;
    while i < k
        invariant
            i <= k,
            r@ + le_bytes(m as nat, (k - i) as nat) == le_bytes(payload@.len(), k as nat),
        decreases k - i,
    {
        let ghost rest = le_bytes((m / 256) as nat, (k - i - 1) as nat);
        assert(le_bytes(m as nat, (k - i) as nat) == seq![(m % 256) as u8] + rest);
        assert(r@.push((m % 256) as u8) + rest =~= r@ + (seq![(m % 256) as u8] + rest));
        r.push((m % 256) as u8);
        m = m / 256;
        i = i + 1;
    }
    assert(r@ =~= r@ + le_bytes(m as nat, 0));
    let mut t: usize = 0;
    while t < payload.len()
        invariant
            t <= payload@.len(),
            r@ == le_bytes(payload@.len(), k as nat) + payload@.subrange(0, t as int),
        decreases payload@.len() - t,
    {
        r.push(payload[t]);
        t = t + 1;
        assert(r@ =~= le_bytes(payload@.len(), k as nat) + payload@.subrange(0, t as int));
    }
    assert(payload@.subrange(0, payload@.len() as int) =~= payload@);
    r
}

/// Framing then decoding gives back the payload: the decoder finds one frame
/// that spans the whole encoding and whose bytes after the prefix are the
/// payload; and every truncation of that encoding decodes to "not yet".
pub proof fn lemma_len_prefixed_round_trip(k: nat, payload: Seq<u8>)
    requires
        valid_prefix_width(k),
        payload.len() < pow256(k),
        payload.len() > 0,
    ensures
        decode_spec(k, encode_spec(k, payload)) == Ok::<Option<nat>, NodeError>(
            Some(encode_spec(k, payload).len()),
        ),
        encode_spec(k, payload).subrange(k as int, encode_spec(k, payload).len() as int)
            == payload,
        forall|m: nat|
            m < encode_spec(k, payload).len() ==> #[trigger] decode_spec(
                k,
                encode_spec(k, payload).subrange(0, m as int),
            ) == Ok::<Option<nat>, NodeError>(None),
{
    let e = encode_spec(k, payload);
    lemma_le_bytes_len(payload.len(), k);
    lemma_le_bytes_value(payload.len(), k);
    assert(e.subrange(0, k as int) =~= le_bytes(payload.len(), k));
    assert(e.subrange(k as int, e.len() as int) =~= payload);
    assert forall|m: nat| m < e.len() implies #[trigger] decode_spec(k, e.subrange(0, m as int))
        == Ok::<Option<nat>, NodeError>(None) by {
        let t = e.subrange(0, m as int);
        if m >= k {
            assert(t.subrange(0, k as int) =~= le_bytes(payload.len(), k));
        }
    }
}

/// A frame that announces an empty payload is rejected by the decoder.
pub proof fn lemma_empty_payload_rejected(k: nat)
    requires
        valid_prefix_width(k),
    ensures
        decode_spec(k, encode_spec(k, Seq::empty())) == Err::<Option<nat>, NodeError>(
            NodeError::DecodeError,
        ),
{
    let e = encode_spec(k, Seq::empty());
    lemma_le_bytes_len(0, k);
    lemma_pow256_grows(0, k);
    lemma_le_bytes_value(0, k);
    assert(e.subrange(0, k as int) =~= le_bytes(0, k));
}

/// What a connection's decoder made of the buffered bytes.
#[derive(Clone, Copy, Debug, PartialEq, Eq, Structural)]
pub enum DecodeOutcome {
    /// A message was decoded from the first `n` bytes.
    Complete(usize),
    /// The bytes do not yet hold a whole message.
    Incomplete,
    /// The bytes cannot be decoded.
    Invalid,
}

/// What the reading side of a connection does next.
#[derive(Clone, Copy, Debug, PartialEq, Eq, Structural)]
pub enum ReadAction {
    /// Hand the decoded message on; its `n` bytes have left the buffer.
    Dispatch(usize),
    /// Read up to `n` more bytes from the socket.
    ReadMore(usize),
    /// Close the connection for the given reason.
    Close(NodeError),
}

/// The step that the reading loop takes with `buffered` bytes held in a buffer
/// of `capacity` bytes, once the decoder has said `outcome`.
pub open spec fn read_action_spec(buffered: nat, capacity: nat, outcome: DecodeOutcome) -> ReadAction {
    match outcome {
        DecodeOutcome::Complete(n) => if 1 <= n <= buffered {
            ReadAction::Dispatch(n)
        } else {
            ReadAction::Close(NodeError::DecodeError)
        },
        DecodeOutcome::Incomplete => if buffered >= capacity {
            ReadAction::Close(NodeError::OversizedMessage)
        } else {
            ReadAction::ReadMore((capacity - buffered) as usize)
        },
        DecodeOutcome::Invalid => ReadAction::Close(NodeError::DecodeError),
    }
}

/// What the length-prefixed decoder's answer means to the reading loop.
pub open spec fn len_prefixed_outcome(d: Result<Option<nat>, NodeError>) -> DecodeOutcome {
    match d {
        Ok(Some(n)) => DecodeOutcome::Complete(n as usize),
        Ok(None) => DecodeOutcome::Incomplete,
        Err(_) => DecodeOutcome::Invalid,
    }
}

/// The per-connection buffer that accumulates inbound bytes until the decoder
/// finds whole messages in them. It never holds more than its capacity.
pub struct FramingBuffer {
    buf: Vec<u8>,
    capacity: usize,
}

impl FramingBuffer {
    /// The bytes held, oldest first.
    pub closed spec fn view(&self) -> Seq<u8> {
        self.buf@
    }

    pub closed spec fn capacity_spec(&self) -> nat {
        self.capacity as nat
    }

    pub open spec fn wf(&self) -> bool {
        self@.len() <= self.capacity_spec()
    }

    pub fn new(capacity: usize) -> (r: FramingBuffer)
        ensures
            r.wf(),
            r@ == Seq::<u8>::empty(),
            r.capacity_spec() == capacity,
    {
        FramingBuffer { buf: Vec::new(), capacity }
    }

    pub fn capacity(&self) -> (r: usize)
        ensures
            r == self.capacity_spec(),
    {
        self.capacity
    }

    pub fn len(&self) -> (r: usize)
        ensures
            r == self@.len(),
    {
        self.buf.len()
    }

    /// How many more bytes fit.
    pub fn free_space(&self) -> (r: usize)
        requires
            self.wf(),
        ensures
            r == self.capacity_spec() - self@.len(),
    {
        self.capacity - self.buf.len()
    }

    pub fn contents(&self) -> (r: &[u8])
        ensures
            r@ == self@,
    {
        self.buf.as_slice()
    }

    /// Appends bytes read from the socket.
    pub fn fill(&mut self, bytes: &[u8])
        requires
            old(self).wf(),
            old(self)@.len() + bytes@.len() <= old(self).capacity_spec(),
        ensures
            final(self).wf(),
            final(self)@ == old(self)@ + bytes@,
            final(self).capacity_spec() == old(self).capacity_spec(),
    {
        let mut i: usize = 0;
        while i < bytes.len()
            invariant
                i <= bytes@.len(),
                self.capacity == old(self).capacity,
                self.buf@ == old(self).buf@ + bytes@.subrange(0, i as int),
            decreases bytes@.len() - i,
        {
            self.buf.push(bytes[i]);
            i = i + 1;
            assert(self.buf@ =~= old(self).buf@ + bytes@.subrange(0, i as int));
        }
        assert(bytes@.subrange(0, bytes@.len() as int) =~= bytes@);
    }

    /// Takes the step that the decoder's `outcome` calls for; a dispatched
    /// message's bytes leave the front of the buffer.
    pub fn advance(&mut self, outcome: DecodeOutcome) -> (r: ReadAction)
        requires
            old(self).wf(),
        ensures
            r == read_action_spec(old(self)@.len(), old(self).capacity_spec(), outcome),
            final(self).wf(),
            final(self).capacity_spec() == old(self).capacity_spec(),
            final(self)@ == (match r {
                ReadAction::Dispatch(n) => old(self)@.subrange(n as int, old(self)@.len() as int),
                _ => old(self)@,
            }),
    {
        let len = self.buf.len();
        match outcome {
            DecodeOutcome::Complete(n) => {
                if 1 <= n && n <= len {
                    let rest = self.buf.split_off(n);
                    self.buf = rest;
                    ReadAction::Dispatch(n)
                } else {
                    ReadAction::Close(NodeError::DecodeError)
                }
            },
            DecodeOutcome::Incomplete => {
                if len >= self.capacity {
                    ReadAction::Close(NodeError::OversizedMessage)
                } else {
                    ReadAction::ReadMore(self.capacity - len)
                }
            },
            DecodeOutcome::Invalid => ReadAction::Close(NodeError::DecodeError),
        }
    }
}

impl FramingBuffer {
    /// Runs the length-prefixed decoder (with `k`-byte prefixes) on the
    /// buffered bytes and takes the step that its answer calls for.
    pub fn advance_len_prefixed(&mut self, k: usize) -> (r: ReadAction)
        requires
            old(self).wf(),
            valid_prefix_width(k as nat),
        ensures
            r == read_action_spec(
                old(self)@.len(),
                old(self).capacity_spec(),
                len_prefixed_outcome(decode_spec(k as nat, old(self)@)),
            ),
            final(self).wf(),
            final(self).capacity_spec() == old(self).capacity_spec(),
            final(self)@ == (match r {
                ReadAction::Dispatch(n) => old(self)@.subrange(n as int, old(self)@.len() as int),
                _ => old(self)@,
            }),
    {
        let outcome = match decode_len_prefixed(k, self.buf.as_slice()) {
            Ok(Some(n)) => DecodeOutcome::Complete(n),
            Ok(None) => DecodeOutcome::Incomplete,
            Err(_) => DecodeOutcome::Invalid,
        };
        self.advance(outcome)
    }
}

/// At the size limit: a framed message that fills the read buffer exactly is
/// decoded and dispatched whole, while one a byte longer leaves the buffer full
/// with nothing decodable, which closes the connection as oversized.
pub proof fn lemma_size_limit(k: nat, payload: Seq<u8>, capacity: nat)
    requires
        valid_prefix_width(k),
        payload.len() < pow256(k),
        payload.len() > 0,
        encode_spec(k, payload).len() == capacity || encode_spec(k, payload).len() == capacity + 1,
        capacity <= usize::MAX,
    ensures
        encode_spec(k, payload).len() == capacity ==> read_action_spec(
            capacity,
            capacity,
            len_prefixed_outcome(decode_spec(k, encode_spec(k, payload))),
        ) == ReadAction::Dispatch(capacity as usize),
        encode_spec(k, payload).len() == capacity + 1 ==> read_action_spec(
            capacity,
            capacity,
            len_prefixed_outcome(decode_spec(k, encode_spec(k, payload).subrange(0, capacity as int))),
        ) == ReadAction::Close(NodeError::OversizedMessage),
{
    lemma_len_prefixed_round_trip(k, payload);
    let e = encode_spec(k, payload);
    if e.len() == capacity + 1 {
        assert(decode_spec(k, e.subrange(0, capacity as int)) == Ok::<Option<nat>, NodeError>(None));
    }
}

/// A frame that announces an empty payload makes the reading loop close the
/// connection with a decode error.
pub proof fn lemma_empty_payload_closes(k: nat, buffered: nat, capacity: nat)
    requires
        valid_prefix_width(k),
    ensures
        read_action_spec(
            buffered,
            capacity,
            len_prefixed_outcome(decode_spec(k, encode_spec(k, Seq::empty()))),
        ) == ReadAction::Close(NodeError::DecodeError),
{
    lemma_empty_payload_rejected(k);
}

} // verus!
