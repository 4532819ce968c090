//! Transport backend model: the bidirectional block-transfer capability over
//! a chip-selected serial link.
//!
//! Two backend variants exist: a buffer-descriptor-driven engine that moves
//! the payload in descriptor-sized bursts while the caller is suspended, and
//! a polled engine that shifts the payload out one byte at a time while
//! occupying the caller. Both are modelled by the bytes they put on the wire;
//! the difference between them is scheduling, never content.

use vstd::prelude::*;

verus! {

/// Bus-level failure. Surfaced to the caller unchanged; this layer never
/// retries.
#[derive(Clone, Copy, PartialEq, Eq, Structural, Debug)]
pub enum TransportError {
    /// The transfer did not complete in time.
    Timeout,
    /// The peer rejected the command.
    Nack,
    /// The transfer or descriptor configuration was invalid.
    Config,
}

/// Which transfer engine a backend instance uses.
#[derive(Clone, Copy, PartialEq, Eq, Structural, Debug)]
pub enum BackendKind {
    /// Descriptor-chain driven engine; the calling task suspends until the
    /// transfer-complete signal fires.
    AsyncDescriptor,
    /// Byte-by-byte polled engine; the calling thread is occupied for the
    /// whole transfer.
    PolledBlocking,
}

/// Safety clock rate used until the card is initialized, in kHz.
pub const SAFE_CLOCK_KHZ: u32 = 250;

/// Operational clock rate applied after initialization, in kHz.
pub const OPERATIONAL_CLOCK_KHZ: u32 = 80_000;

/// Largest payload one transfer descriptor carries, in bytes.
pub const DESCRIPTOR_CHUNK: usize = 4000;

/// Idle level of the data line: what a receiver samples when nobody drives
/// the bus, and what is shifted out to generate bare clock pulses.
pub const IDLE_BYTE: u8 = 0xFF;

/// Fewest bare clock pulses the card protocol requires before the first
/// command is sent.
pub const MIN_PRIME_PULSES: u32 = 74;

/// Bytes shifted out to generate at least `pulses` clock pulses: eight
/// pulses per byte, rounded up.
pub open spec fn prime_byte_count(pulses: u32) -> nat {
    ((pulses + 7) / 8) as nat
}

/// Wire bytes of one exchange through the descriptor-driven engine: the
/// payload is cut into descriptor-sized bursts and the bursts go out back to
/// back, in order.
pub open spec fn descriptor_wire(tx: Seq<u8>, chunk: int) -> Seq<u8>
    decreases tx.len(),
{
    if chunk <= 0 || tx.len() <= chunk {
        tx
    } else {
        tx.subrange(0, chunk) + descriptor_wire(tx.subrange(chunk, tx.len() as int), chunk)
    }
}

/// Wire bytes of one exchange through the polled engine: the payload is
/// shifted out one byte at a time, in order.
pub open spec fn polled_wire(tx: Seq<u8>) -> Seq<u8>
    decreases tx.len(),
{
    if tx.len() == 0 {
        Seq::<u8>::empty()
    } else {
        seq![tx[0]] + polled_wire(tx.subrange(1, tx.len() as int))
    }
}

/// Wire bytes a backend of the given kind emits for one logical exchange.
pub open spec fn wire_of(kind: BackendKind, tx: Seq<u8>) -> Seq<u8> {
    match kind {
        BackendKind::AsyncDescriptor => descriptor_wire(tx, DESCRIPTOR_CHUNK as int),
        BackendKind::PolledBlocking => polled_wire(tx),
    }
}

proof fn lemma_descriptor_wire_is_payload(tx: Seq<u8>, chunk: int)
    ensures
        descriptor_wire(tx, chunk) == tx,
    decreases tx.len(),
{
    if chunk <= 0 || tx.len() <= chunk {
    } else {
        lemma_descriptor_wire_is_payload(tx.subrange(chunk, tx.len() as int), chunk);
        assert(descriptor_wire(tx, chunk) =~= tx);
    }
}

proof fn lemma_polled_wire_is_payload(tx: Seq<u8>)
    ensures
        polled_wire(tx) == tx,
    decreases tx.len(),
{
    if tx.len() == 0 {
        assert(polled_wire(tx) =~= tx);
    } else {
        lemma_polled_wire_is_payload(tx.subrange(1, tx.len() as int));
        assert(polled_wire(tx) =~= tx);
    }
}

/// Backend choice does not alter protocol-level content: for the same
/// payload, both transfer engines put exactly the payload bytes on the wire,
/// so any two backends agree byte for byte.
pub proof fn lemma_backend_wire_agreement(k1: BackendKind, k2: BackendKind, tx: Seq<u8>)
    ensures
        wire_of(k1, tx) == wire_of(k2, tx),
        wire_of(k1, tx) == tx,
{
    lemma_descriptor_wire_is_payload(tx, DESCRIPTOR_CHUNK as int);
    lemma_polled_wire_is_payload(tx);
}

/// One transport backend instance: exclusive owner of the serial bus and the
/// chip-select line for the process lifetime. It records the bytes shifted
/// out since creation, in submission order; transfers never overlap because
/// each `exchange` completes before it returns.
pub struct Transport {
    /// Which transfer engine this instance uses.
    pub kind: BackendKind,
    /// Current clock rate in kHz.
    pub clock_khz: u32,
    /// Whether the chip-select line is asserted.
    pub cs_asserted: bool,
    /// Bytes put on the wire since creation, in submission order.
    pub wire: Vec<u8>,
}

impl Transport {
    /// A fresh backend: safety clock rate, chip-select deasserted, nothing
    /// sent yet.
    pub fn new(kind: BackendKind) -> (t: Transport)
        ensures
            t.kind == kind,
            t.clock_khz == SAFE_CLOCK_KHZ,
            !t.cs_asserted,
            t.wire@ == Seq::<u8>::empty(),
    {
        Transport { kind, clock_khz: SAFE_CLOCK_KHZ, cs_asserted: false, wire: Vec::new() }
    }

    /// Change the clock rate. Only valid between transfers, which this model
    /// guarantees by construction: no transfer is in flight outside
    /// `exchange`.
    pub fn set_clock(&mut self, khz: u32)
        requires
            khz > 0,
        ensures
            final(self).clock_khz == khz,
            final(self).kind == old(self).kind,
            final(self).cs_asserted == old(self).cs_asserted,
            final(self).wire@ == old(self).wire@,
    {
        self.clock_khz = khz;
    }

    /// Assert the chip-select line for the duration of one logical command.
    pub fn assert_cs(&mut self)
        ensures
            final(self).cs_asserted,
            final(self).kind == old(self).kind,
            final(self).clock_khz == old(self).clock_khz,
            final(self).wire@ == old(self).wire@,
    {
        self.cs_asserted = true;
    }

    /// Release the chip-select line.
    pub fn deassert_cs(&mut self)
        ensures
            !final(self).cs_asserted,
            final(self).kind == old(self).kind,
            final(self).clock_khz == old(self).clock_khz,
            final(self).wire@ == old(self).wire@,
    {
        self.cs_asserted = false;
    }

    /// Send bare clock pulses by shifting out idle bytes, eight pulses per
    /// byte rounded up, with chip-select deasserted and the clock still at
    /// the safety rate: the priming the card protocol requires before any
    /// command.
    pub fn prime_pulses(&mut self, pulses: u32)
        requires
            !old(self).cs_asserted,
            old(self).clock_khz == SAFE_CLOCK_KHZ,
            pulses >= MIN_PRIME_PULSES,
        ensures
            final(self).kind == old(self).kind,
            final(self).clock_khz == old(self).clock_khz,
            !final(self).cs_asserted,
            final(self).wire@ == old(self).wire@ + Seq::new(
                prime_byte_count(pulses),
                |i: int| IDLE_BYTE,
            ),
    {
        let n: u64 = (pulses as u64 + 7) / 8;
        let ghost wire0: Seq<u8> = self.wire@;
        let ghost kind0: BackendKind = self.kind;
        let ghost clock0: u32 = self.clock_khz;
        proof {
            assert(self.wire@ =~= wire0 + Seq::new(0nat, |j: int| IDLE_BYTE));
        }
        let mut i: u64 = 0;
        while i < n
            invariant
                i <= n,
                n == prime_byte_count(pulses),
                self.wire@ == wire0 + Seq::new(i as nat, |j: int| IDLE_BYTE),
                self.kind == kind0,
                self.clock_khz == clock0,
                !self.cs_asserted,
            decreases n - i,
        {
            self.wire.push(IDLE_BYTE);
            i = i + 1;
            proof {
                assert(self.wire@ =~= wire0 + Seq::new(i as nat, |j: int| IDLE_BYTE));
            }
        }
    }

    /// Exchange `tx.len()` bytes bidirectionally at the current clock rate.
    /// The wire carries exactly the payload, whichever engine moves it, and
    /// the received buffer has the same length as the transmitted one. With
    /// no card driving the line, every received byte is the idle level.
    pub fn exchange(&mut self, tx: &Vec<u8>) -> (rx: Vec<u8>)
        ensures
            final(self).wire@ == old(self).wire@ + wire_of(old(self).kind, tx@),
            final(self).kind == old(self).kind,
            final(self).clock_khz == old(self).clock_khz,
            final(self).cs_asserted == old(self).cs_asserted,
            rx@.len() == tx@.len(),
            forall|i: int| 0 <= i < rx@.len() ==> rx@[i] == IDLE_BYTE,
    {
        proof {
            lemma_backend_wire_agreement(self.kind, self.kind, tx@);
            assert(self.wire@ =~= self.wire@ + tx@.subrange(0, 0));
        }
        let ghost wire0: Seq<u8> = self.wire@;
        let ghost kind0: BackendKind = self.kind;
        let ghost clock0: u32 = self.clock_khz;
        let ghost cs0: bool = self.cs_asserted;
        let mut rx: Vec<u8> = Vec::new();
        let mut i: usize = 0;
        while i < tx.len()
            invariant
                i <= tx.len(),
                self.wire@ == wire0 + tx@.subrange(0, i as int),
                self.kind == kind0,
                self.clock_khz == clock0,
                self.cs_asserted == cs0,
                rx@.len() == i,
                forall|j: int| 0 <= j < rx@.len() ==> rx@[j] == IDLE_BYTE,
            decreases tx.len() - i,
        {
            self.wire.push(tx[i]);
            rx.push(IDLE_BYTE);
            i = i + 1;
            proof {
                assert(self.wire@ =~= wire0 + tx@.subrange(0, i as int));
            }
        }
        proof {
            assert(wire0 + tx@.subrange(0, tx@.len() as int) =~= wire0 + wire_of(self.kind, tx@));
        }
        rx
    }
}

} // verus!
