//! The request buffer of the reverse echo server, held in a fixed-capacity `heapless::Vec`.
use vstd::prelude::*;

verus! {

/// Bytes the reverse echo server can hold before it reports a full buffer.
pub const ECHO_CAPACITY: usize = 32;

/// The line feed byte that ends a request.
pub const LINE_END: u8 = 10;

/// `heapless::Vec`, the fixed-capacity vector, made known to Verus as an
/// opaque type; its contents are named by `buffer_contents`.
#[verifier::external_type_specification]
#[verifier::external_body]
#[verifier::reject_recursive_types(T)]
pub struct ExHeaplessVec<T, const N: usize>(heapless::Vec<T, N>);

/// The bytes held by a fixed-capacity `heapless::Vec`, in order.
pub uninterp spec fn buffer_contents(buffer: heapless::Vec<u8, 32>) -> Seq<u8>;

/// `heapless::Vec::new`: a vector that holds no byte.
#[verifier::external_body]
fn buffer_new() -> (buffer: heapless::Vec<u8, 32>)
    ensures
        buffer_contents(buffer) == Seq::<u8>::empty(),
{
    heapless::Vec::new()
}

/// `heapless::Vec::clear`: every byte is dropped.
#[verifier::external_body]
fn buffer_clear(buffer: &mut heapless::Vec<u8, 32>)
    ensures
        buffer_contents(*final(buffer)) == Seq::<u8>::empty(),
{
    buffer.clear()
}

/// `heapless::Vec::is_empty`: whether the vector holds no byte.
#[verifier::external_body]
fn buffer_is_empty(buffer: &heapless::Vec<u8, 32>) -> (empty: bool)
    ensures
        empty == (buffer_contents(*buffer).len() == 0),
{
    buffer.is_empty()
}

/// `heapless::Vec::push`: appends the byte while fewer than the capacity
/// of 32 bytes are held, and otherwise hands the byte back unchanged.
#[verifier::external_body]
fn buffer_push(buffer: &mut heapless::Vec<u8, 32>, byte: u8) -> (pushed: Result<(), u8>)
    ensures
        buffer_contents(*old(buffer)).len() < 32 ==> {
            &&& pushed is Ok
            &&& buffer_contents(*final(buffer)) == buffer_contents(*old(buffer)).push(byte)
        },
        buffer_contents(*old(buffer)).len() >= 32 ==> {
            &&& pushed == Err::<(), u8>(byte)
            &&& buffer_contents(*final(buffer)) == buffer_contents(*old(buffer))
        },
{
    buffer.push(byte)
}

/// The slice method `reverse`, reached through the vector's `DerefMut`:
/// the held bytes in the opposite order.
#[verifier::external_body]
fn buffer_reverse(buffer: &mut heapless::Vec<u8, 32>)
    ensures
        buffer_contents(*final(buffer)) == buffer_contents(*old(buffer)).reverse(),
{
    buffer.reverse()
}

/// `heapless::Vec::as_slice`, copied into a `Vec`: the held bytes in order.
#[verifier::external_body]
fn buffer_bytes(buffer: &heapless::Vec<u8, 32>) -> (bytes: Vec<u8>)
    ensures
        bytes@ == buffer_contents(*buffer),
{
    buffer.as_slice().to_vec()
}

/// The request after one received byte is handled: a line feed after a
/// non-empty request reverses it; any other byte is appended while the
/// buffer has room; a byte that finds the buffer full is dropped.
pub open spec fn echo_next(request: Seq<u8>, c: u8) -> Seq<u8> {
    if c == LINE_END && request.len() > 0 {
        request.reverse()
    } else if request.len() < ECHO_CAPACITY {
        request.push(c)
    } else {
        request
    }
}

/// The request after the received bytes are handled in order.
pub open spec fn echo_feed(request: Seq<u8>, bytes: Seq<u8>) -> Seq<u8>
    decreases bytes.len(),
{
    if bytes.len() == 0 {
        request
    } else {
        echo_feed(echo_next(request, bytes[0]), bytes.drop_first())
    }
}

/// What the server sends back after a received byte.
pub enum EchoReply {
    /// Nothing is sent.
    Nothing,
    /// The request, reversed, is sent back.
    Reversed(Vec<u8>),
    /// The buffer is full: the error message is sent.
    BufferFull,
}

/// The request buffer of the reverse echo server.
pub struct EchoServer {
    buffer: heapless::Vec<u8, 32>,
}

impl View for EchoServer {
    type V = Seq<u8>;

    closed spec fn view(&self) -> Seq<u8> {
        buffer_contents(self.buffer)
    }
}

impl EchoServer {
    /// A server whose buffer holds nothing.
    pub fn new() -> (server: Self)
        ensures
            server@ == Seq::<u8>::empty(),
    {
        EchoServer { buffer: buffer_new() }
    }

    /// The bytes of the pending request.
    pub fn request(&self) -> (bytes: Vec<u8>)
        ensures
            bytes@ == self@,
    {
        buffer_bytes(&self.buffer)
    }

    /// Handles one received byte: a line feed after a non-empty request
    /// reverses the request and sends it back; any other byte is appended
    /// while the buffer has room, and a full buffer is reported.
    pub fn handle_byte(&mut self, c: u8) -> (reply: EchoReply)
        ensures
            c == 10 && old(self)@.len() > 0 ==> {
                &&& reply matches EchoReply::Reversed(bytes) && bytes@ == old(self)@.reverse()
                &&& final(self)@ == old(self)@.reverse()
            },
            !(c == 10 && old(self)@.len() > 0) && old(self)@.len() < 32 ==> {
                &&& reply is Nothing
                &&& final(self)@ == old(self)@.push(c)
            },
            !(c == 10 && old(self)@.len() > 0) && old(self)@.len() >= 32 ==> {
                &&& reply is BufferFull
                &&& final(self)@ == old(self)@
            },
            final(self)@ == echo_next(old(self)@, c),
    {
        if c == LINE_END && !buffer_is_empty(&self.buffer) {
            buffer_reverse(&mut self.buffer);
            return EchoReply::Reversed(buffer_bytes(&self.buffer));
        }
        match buffer_push(&mut self.buffer, c) {
            Err(_) => EchoReply::BufferFull,
            Ok(_) => EchoReply::Nothing,
        }
    }

    /// One turn of the serving loop: the buffer is cleared, then the
    /// received byte is handled. As the buffer is empty when the byte
    /// arrives, the byte is stored alone and nothing is sent back.
    pub fn serve_byte(&mut self, c: u8) -> (reply: EchoReply)
        ensures
            reply is Nothing,
            final(self)@ == seq![c],
    {
        buffer_clear(&mut self.buffer);
        let reply = self.handle_byte(c);
        assert(self@ =~= seq![c]);
        reply
    }
}

/// Bytes without a line feed, received while they fit, are appended to
/// the request in order.
pub proof fn lemma_request_accumulates(request: Seq<u8>, bytes: Seq<u8>)
    requires
        !bytes.contains(LINE_END),
        request.len() + bytes.len() <= ECHO_CAPACITY,
    ensures
        echo_feed(request, bytes) == request + bytes,
    decreases bytes.len(),
{
    if bytes.len() == 0 {
        assert(request + bytes =~= request);
    } else {
        assert(bytes[0] != LINE_END) by {
            if bytes[0] == LINE_END {
                assert(bytes.contains(LINE_END));
            }
        }
        let rest = bytes.drop_first();
        assert(!rest.contains(LINE_END)) by {
            if rest.contains(LINE_END) {
                let k = choose|k: int| 0 <= k < rest.len() && rest[k] == LINE_END;
                assert(bytes[k + 1] == LINE_END);
            }
        }
        lemma_request_accumulates(request.push(bytes[0]), rest);
        assert(request.push(bytes[0]) + rest =~= request + bytes);
    }
}

/// A line of one to thirty-two bytes without a line feed, received into
/// an empty buffer, becomes the request; the line feed that follows
/// turns it into the line reversed, which is what is sent back.
pub proof fn lemma_line_echoed_reversed(line: Seq<u8>)
    requires
        0 < line.len() <= ECHO_CAPACITY,
        !line.contains(LINE_END),
    ensures
        echo_feed(Seq::empty(), line) == line,
        echo_next(line, LINE_END) == line.reverse(),
{
    lemma_request_accumulates(Seq::empty(), line);
    assert(Seq::<u8>::empty() + line =~= line);
}

/// Once thirty-two bytes without a line feed are held, a further byte
/// other than a line feed leaves the request as it is.
pub proof fn lemma_full_request_kept(line: Seq<u8>, c: u8)
    requires
        line.len() == ECHO_CAPACITY,
        !line.contains(LINE_END),
        c != LINE_END,
    ensures
        echo_feed(Seq::empty(), line.push(c)) == line,
{
    lemma_request_accumulates(Seq::empty(), line);
    assert(Seq::<u8>::empty() + line =~= line);
    lemma_feed_push(Seq::empty(), line, c);
}

/// Feeding one more byte handles it after the others.
proof fn lemma_feed_push(request: Seq<u8>, bytes: Seq<u8>, c: u8)
    ensures
        echo_feed(request, bytes.push(c)) == echo_next(echo_feed(request, bytes), c),
    decreases bytes.len(),
{
    if bytes.len() == 0 {
        assert(bytes.push(c).drop_first() =~= Seq::<u8>::empty());
        reveal_with_fuel(echo_feed, 2);
    } else {
        assert(bytes.push(c)[0] == bytes[0]);
        assert(bytes.push(c).drop_first() =~= bytes.drop_first().push(c));
        lemma_feed_push(echo_next(request, bytes[0]), bytes.drop_first(), c);
    }
}

} // verus!
