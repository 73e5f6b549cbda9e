//! Sending and receiving bytes over the USART by polling its status flags.
use vstd::prelude::*;

verus! {

/// The word written to the transmit data register for one byte.
pub open spec fn tx_word(byte: u8) -> u16 {
    byte as u16
}

/// One status reading while sending: with bytes left and the transmit
/// data register empty, the next byte is written and counted as sent.
pub open spec fn tx_step_spec(bytes: Seq<u8>, sent: nat, tx_empty: bool) -> (nat, Option<u16>) {
    if sent < bytes.len() && tx_empty {
        ((sent + 1) as nat, Some(tx_word(bytes[sent as int])))
    } else {
        (sent, None)
    }
}

/// The count of sent bytes and the words written, in order, over a
/// series of status readings.
pub open spec fn tx_run(bytes: Seq<u8>, sent: nat, readings: Seq<bool>) -> (nat, Seq<u16>)
    decreases readings.len(),
{
    if readings.len() == 0 {
        (sent, Seq::empty())
    } else {
        let (s, w) = tx_step_spec(bytes, sent, readings[0]);
        let (s2, ws) = tx_run(bytes, s, readings.drop_first());
        (s2, match w {
            Some(word) => seq![word] + ws,
            None => ws,
        })
    }
}

/// Number of readings that found the transmit data register empty.
pub open spec fn empty_count(readings: Seq<bool>) -> nat
    decreases readings.len(),
{
    if readings.len() == 0 {
        0
    } else {
        (if readings[0] { 1nat } else { 0nat }) + empty_count(readings.drop_first())
    }
}

/// Sends a string of bytes over the USART, one byte each time the
/// transmit data register is found empty.
pub struct Transmitter {
    bytes: Vec<u8>,
    sent: usize,
}

impl Transmitter {
    /// The bytes to send.
    pub closed spec fn bytes(&self) -> Seq<u8> {
        self.bytes@
    }

    /// How many bytes were written so far.
    pub closed spec fn sent(&self) -> nat {
        self.sent as nat
    }

    /// The count of sent bytes never passes the length of the string.
    pub closed spec fn wf(&self) -> bool {
        self.sent <= self.bytes.len()
    }

    /// A transmitter that has sent nothing of `bytes`.
    pub fn new(bytes: Vec<u8>) -> (t: Transmitter)
        ensures
            t.wf(),
            t.bytes() == bytes@,
            t.sent() == 0,
    {
        Transmitter { bytes, sent: 0 }
    }

    /// Whether bytes are left to send.
    pub fn pending(&self) -> (left: bool)
        requires
            self.wf(),
        ensures
            left == (self.sent() < self.bytes().len()),
    {
        self.sent < self.bytes.len()
    }

    /// Handles one reading of the TXE status flag: when the transmit data
    /// register is empty the next byte is handed out, widened to the
    /// register's word, and counted as sent; otherwise nothing happens.
    pub fn on_status(&mut self, tx_empty: bool) -> (word: Option<u16>)
        requires
            old(self).wf(),
        ensures
            final(self).wf(),
            final(self).bytes() == old(self).bytes(),
            (final(self).sent(), word) == tx_step_spec(old(self).bytes(), old(self).sent(), tx_empty),
            word matches Some(w) ==> w as int == old(self).bytes()[old(self).sent() as int],
            (word is Some) == (old(self).sent() < old(self).bytes().len() && tx_empty),
    {
        if self.sent < self.bytes.len() && tx_empty {
            let b = self.bytes[self.sent];
            self.sent = self.sent + 1;
            Some(b as u16)
        } else {
            None
        }
    }
}

/// Over any series of status readings, the words written are the first
/// bytes of the string, widened, in their order: one more for each
/// reading that finds the register empty, until every byte is sent.
pub proof fn lemma_tx_sends_in_order(bytes: Seq<u8>, sent: nat, readings: Seq<bool>)
    requires
        sent <= bytes.len(),
    ensures
        ({
            let (s, words) = tx_run(bytes, sent, readings);
            &&& s == if sent + empty_count(readings) < bytes.len() {
                sent + empty_count(readings)
            } else {
                bytes.len()
            }
            &&& words == bytes.subrange(sent as int, s as int).map_values(|b: u8| tx_word(b))
        }),
    decreases readings.len(),
{
    if readings.len() == 0 {
        assert(bytes.subrange(sent as int, sent as int).map_values(|b: u8| tx_word(b))
            =~= Seq::<u16>::empty());
    } else {
        let (s1, w) = tx_step_spec(bytes, sent, readings[0]);
        lemma_tx_sends_in_order(bytes, s1, readings.drop_first());
        let (s, words) = tx_run(bytes, sent, readings);
        let (s2, ws) = tx_run(bytes, s1, readings.drop_first());
        if sent < bytes.len() && readings[0] {
            assert(words =~= bytes.subrange(sent as int, s as int).map_values(|b: u8| tx_word(b)));
        }
    }
}

/// Sending a string `a` to the end and then a string `b` writes the
/// words of `a` followed by `b`: the same words as sending the two
/// strings joined into one, for any readings that find the register
/// empty at least once for every byte.
pub proof fn lemma_tx_concatenation(
    a: Seq<u8>,
    b: Seq<u8>,
    readings_a: Seq<bool>,
    readings_b: Seq<bool>,
    readings_ab: Seq<bool>,
)
    requires
        empty_count(readings_a) >= a.len(),
        empty_count(readings_b) >= b.len(),
        empty_count(readings_ab) >= a.len() + b.len(),
    ensures
        tx_run(a, 0, readings_a).1 + tx_run(b, 0, readings_b).1 == (a + b).map_values(
            |x: u8| tx_word(x),
        ),
        tx_run(a + b, 0, readings_ab).1 == (a + b).map_values(|x: u8| tx_word(x)),
{
    lemma_tx_sends_in_order(a, 0, readings_a);
    lemma_tx_sends_in_order(b, 0, readings_b);
    lemma_tx_sends_in_order(a + b, 0, readings_ab);
    assert(a.subrange(0, a.len() as int) =~= a);
    assert(b.subrange(0, b.len() as int) =~= b);
    assert((a + b).subrange(0, (a + b).len() as int) =~= a + b);
    assert(a.map_values(|x: u8| tx_word(x)) + b.map_values(|x: u8| tx_word(x))
        =~= (a + b).map_values(|x: u8| tx_word(x)));
}

/// One reading of the RXNE status flag while waiting for a byte: the
/// receive data register is read when the flag is set, and the wait
/// ends. Once the byte was read, nothing more is read.
pub open spec fn rx_step_spec(received: bool, rx_not_empty: bool) -> (bool, bool) {
    if received {
        (true, false)
    } else {
        (rx_not_empty, rx_not_empty)
    }
}

/// How many times the receive data register is read over a series of
/// status readings.
pub open spec fn rx_reads(received: bool, readings: Seq<bool>) -> nat
    decreases readings.len(),
{
    if readings.len() == 0 {
        0
    } else {
        let (r, read) = rx_step_spec(received, readings[0]);
        (if read { 1nat } else { 0nat }) + rx_reads(r, readings.drop_first())
    }
}

/// Waits for one byte from the USART: the receive data register is read
/// once, after the RXNE flag is seen set.
pub struct Receiver {
    received: bool,
}

impl Receiver {
    /// Whether the byte was read.
    pub closed spec fn received(&self) -> bool {
        self.received
    }

    /// A receiver still waiting for its byte.
    pub fn new() -> (r: Receiver)
        ensures
            !r.received(),
    {
        Receiver { received: false }
    }

    /// Whether the receiver still waits for its byte.
    pub fn waiting(&self) -> (w: bool)
        ensures
            w == !self.received(),
    {
        !self.received
    }

    /// Handles one reading of the RXNE flag: returns whether the receive
    /// data register is to be read now.
    pub fn on_status(&mut self, rx_not_empty: bool) -> (read_now: bool)
        ensures
            (final(self).received(), read_now) == rx_step_spec(old(self).received(), rx_not_empty),
    {
        if self.received {
            false
        } else {
            self.received = rx_not_empty;
            rx_not_empty
        }
    }
}

/// Over any series of status readings, a waiting receiver reads the
/// receive data register once if some reading finds the flag set, and
/// never otherwise; a receiver that has its byte reads nothing more.
pub proof fn lemma_rx_reads_once(received: bool, readings: Seq<bool>)
    ensures
        rx_reads(received, readings) == if !received && readings.contains(true) { 1nat } else { 0nat },
    decreases readings.len(),
{
    if readings.len() > 0 {
        let (r, read) = rx_step_spec(received, readings[0]);
        lemma_rx_reads_once(r, readings.drop_first());
        if !received && !readings[0] {
            if readings.contains(true) {
                let k = choose|k: int| 0 <= k < readings.len() && readings[k] == true;
                assert(readings.drop_first()[k - 1] == true);
            }
            if readings.drop_first().contains(true) {
                let k = choose|k: int| 0 <= k < readings.drop_first().len() && readings.drop_first()[k] == true;
                assert(readings[k + 1] == true);
            }
        }
        if !received && readings[0] {
            assert(readings.contains(true)) by { assert(readings[0] == true); }
        }
    }
}

/// The word written for a byte is the byte itself, widened: distinct
/// bytes give distinct words, and every word stays below 256.
pub proof fn lemma_tx_word_is_byte(b: u8, c: u8)
    ensures
        tx_word(b) as int == b as int,
        tx_word(b) < 256,
        tx_word(b) == tx_word(c) ==> b == c,
{
}

/// Over readings that find the register empty at least once for every
/// byte, the words written are exactly the bytes of the string, each
/// widened to sixteen bits, in order.
pub proof fn lemma_tx_sends_whole_string(bytes: Seq<u8>, readings: Seq<bool>)
    requires
        empty_count(readings) >= bytes.len(),
    ensures
        tx_run(bytes, 0, readings).0 == bytes.len(),
        tx_run(bytes, 0, readings).1.len() == bytes.len(),
        forall|i: int| 0 <= i < bytes.len() ==> #[trigger] tx_run(bytes, 0, readings).1[i] as int == bytes[i] as int,
{
    lemma_tx_sends_in_order(bytes, 0, readings);
    assert(bytes.subrange(0, bytes.len() as int) =~= bytes);
}

/// The byte held by the receive data register: its low eight bits.
pub fn received_byte(rdr_bits: u16) -> (byte: u8)
    ensures
        byte == rdr_bits % 256,
{
    let byte = rdr_bits as u8;
    assert(byte == rdr_bits % 256) by (bit_vector)
        requires byte == rdr_bits as u8;
    byte
}

} // verus!
