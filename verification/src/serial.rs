use vstd::prelude::*;
use vstd::string::*;
use vstd::utf8::valid_utf8;

verus! {

/// I/O port of COM1
pub const PORT: u16 = 0x3F8;

/// Byte sent in loopback mode to test the chip
pub const LOOPBACK_TEST_BYTE: u8 = 0xAE;

/// A 16550 UART at an I/O port base.
///
/// The port accesses themselves are made by the caller; this type says which values go to
/// which registers and what the values read back mean.
pub struct SerialPort {
    port: u16,
}

impl SerialPort {
    /// The port base.
    pub closed spec fn base(&self) -> u16 {
        self.port
    }

    pub fn new(port: u16) -> (r: Self)
        ensures
            r.base() == port,
    {
        Self { port }
    }

    /// Get the port base.
    pub fn port(&self) -> (r: u16)
        ensures
            r == self.base(),
    {
        self.port
    }

    /// The register writes that set the UART up, in order, ending with the loopback test byte
    /// (38400 baud, 8N1, FIFOs on with a 14-byte threshold, loopback mode).
    pub fn init_sequence(&self) -> (r: Vec<(u16, u8)>)
        requires
            self.base() + 4 <= u16::MAX,
        ensures
            r@ == seq![
                ((self.base() + 1) as u16, 0x00u8),
                ((self.base() + 3) as u16, 0x80u8),
                (self.base(), 0x03u8),
                ((self.base() + 1) as u16, 0x00u8),
                ((self.base() + 3) as u16, 0x03u8),
                ((self.base() + 2) as u16, 0xC7u8),
                ((self.base() + 4) as u16, 0x0Bu8),
                ((self.base() + 4) as u16, 0x1Eu8),
                (self.base(), 0xAEu8),
            ],
    {
        let p = self.port;
        let mut v: Vec<(u16, u8)> = Vec::new();
        v.push((p + 1, 0x00));  // Disable all interrupts
        v.push((p + 3, 0x80));  // Enable DLAB (set baud rate divisor)
        v.push((p, 0x03));  // Set divisor to 3 (lo byte) 38400 baud
        v.push((p + 1, 0x00));  // (hi byte)
        v.push((p + 3, 0x03));  // 8 bits, no parity, one stop bit
        v.push((p + 2, 0xC7));  // Enable FIFO, clear them, with 14-byte threshold
        v.push((p + 4, 0x0B));  // IRQs enabled, RTS/DSR set
        v.push((p + 4, 0x1E));  // Set in loopback mode, test the serial chip
        v.push((p, LOOPBACK_TEST_BYTE));  // Test serial chip
        proof {
            assert(v@ =~= seq![
                ((self.base() + 1) as u16, 0x00u8),
                ((self.base() + 3) as u16, 0x80u8),
                (self.base(), 0x03u8),
                ((self.base() + 1) as u16, 0x00u8),
                ((self.base() + 3) as u16, 0x03u8),
                ((self.base() + 2) as u16, 0xC7u8),
                ((self.base() + 4) as u16, 0x0Bu8),
                ((self.base() + 4) as u16, 0x1Eu8),
                (self.base(), 0xAEu8),
            ]);
        }
        v
    }

    /// What the loopback test read back says: the chip works when it returned the test byte,
    /// and then goes to normal operation with the returned register write.
    pub fn init_result(&self, echoed: u8) -> (r: Result<(u16, u8), ()>)
        requires
            self.base() + 4 <= u16::MAX,
        ensures
            echoed == LOOPBACK_TEST_BYTE ==> r == Ok::<(u16, u8), ()>(((self.base() + 4) as u16, 0x0Fu8)),
            echoed != LOOPBACK_TEST_BYTE ==> r == Err::<(u16, u8), ()>(()),
    {
        if echoed != LOOPBACK_TEST_BYTE {
            return Err(());
        }
        // Normal operation: not loopback, IRQs enabled, OUT#1 and OUT#2 set
        Ok((self.port + 4, 0x0F))
    }

    /// The line status register to poll before sending.
    pub fn line_status_port(&self) -> (r: u16)
        requires
            self.base() + 5 <= u16::MAX,
        ensures
            r == self.base() + 5,
    {
        self.port + 5
    }

    /// The transmit holding register is empty: bit 5 of the line status.
    pub fn is_transmit_empty(line_status: u8) -> (r: bool)
        ensures
            r == (line_status & 0x20 != 0),
    {
        line_status & 0x20 != 0
    }

    /// The bytes that writing `s` sends, in order.
    pub fn write_str(&self, s: &str) -> (r: Vec<u8>)
        ensures
            r@ == s.spec_bytes(),
    {
        vstd::slice::slice_to_vec(s.as_bytes())
    }
}

/// `core::str::from_utf8` from std: the text that the bytes spell where they are valid UTF-8,
/// none where they are not.
#[verifier::external_body]
fn str_from_utf8<'a>(bytes: &'a [u8]) -> (r: Option<&'a str>)
    ensures
        valid_utf8(bytes@) <==> r is Some,
        r matches Some(s) ==> s.spec_bytes() == bytes@,
{
    core::str::from_utf8(bytes).ok()
}

/// Buffer-based snprintf equivalent using a simple buffer
///
/// Text is appended until one byte before the end, which is kept for a terminating zero.
pub struct FixedBuffer<const N: usize> {
    buf: Vec<u8>,
    pos: usize,
}

impl<const N: usize> FixedBuffer<N> {
    /// The storage has its size and the write position leaves the last byte free.
    pub closed spec fn wf(&self) -> bool {
        &&& self.buf@.len() == N
        &&& self.pos == 0 || self.pos < N
    }

    /// The text held: the bytes before the write position.
    pub closed spec fn contents(&self) -> Seq<u8> {
        self.buf@.take(self.pos as int)
    }

    /// The whole storage, terminator and stale bytes included.
    pub closed spec fn storage(&self) -> Seq<u8> {
        self.buf@
    }

    pub fn new() -> (r: Self)
        ensures
            r.wf(),
            r.contents().len() == 0,
            r.storage() == Seq::new(N as nat, |i: int| 0u8),
    {
        let mut buf: Vec<u8> = Vec::new();
        let mut i: usize = 0;
        while i < N
            invariant
                i <= N,
                buf@ == Seq::new(i as nat, |k: int| 0u8),
            decreases N - i,
        {
            buf.push(0);
            i = i + 1;
            proof {
                assert(buf@ =~= Seq::new(i as nat, |k: int| 0u8));
            }
        }
        Self { buf, pos: 0 }
    }

    /// The text held, or the empty text where the bytes held are not valid UTF-8 (as after a
    /// multi-byte character was cut off at the end of the buffer).
    pub fn as_str(&self) -> (r: &str)
        requires
            self.wf(),
        ensures
            valid_utf8(self.contents()) ==> r.spec_bytes() == self.contents(),
            !valid_utf8(self.contents()) ==> r@ == Seq::<char>::empty(),
    {
        let bytes = vstd::slice::slice_subrange(self.buf.as_slice(), 0, self.pos);
        match str_from_utf8(bytes) {
            Some(s) => s,
            None => {
                proof {
                    reveal_strlit("");
                }
                ""
            },
        }
    }

    pub fn len(&self) -> (r: usize)
        requires
            self.wf(),
        ensures
            r == self.contents().len(),
    {
        self.pos
    }

    pub fn clear(&mut self)
        requires
            old(self).wf(),
        ensures
            final(self).wf(),
            final(self).contents().len() == 0,
            N > 0 ==> final(self).storage() == old(self).storage().update(0, 0u8),
            N == 0 ==> final(self).storage() == old(self).storage(),
    {
        self.pos = 0;
        if self.buf.len() > 0 {
            self.buf.set(0, 0);
        }
    }

    /// Append as much of `s` as fits, keeping the last byte free, and put a zero after the text.
    pub fn write_str(&mut self, s: &str)
        requires
            old(self).wf(),
        ensures
            final(self).wf(),
            ({
                let bytes = s.spec_bytes();
                let avail = if old(self).contents().len() + 1 <= N { N - old(self).contents().len() - 1 } else { 0 };
                let n = if bytes.len() < avail { bytes.len() as int } else { avail };
                &&& final(self).contents() == old(self).contents() + bytes.take(n)
                &&& final(self).contents().len() < N ==> final(self).storage()[final(self).contents().len() as int] == 0
            }),
    {
        let bytes = s.as_bytes();
        let available = N.saturating_sub(self.pos).saturating_sub(1);  // Reserve space for null terminator
        let to_copy = if bytes.len() < available { bytes.len() } else { available };
        let ghost old_contents = self.buf@.take(self.pos as int);
        let mut i: usize = 0;
        while i < to_copy
            invariant
                i <= to_copy,
                to_copy <= bytes@.len(),
                to_copy == 0 || self.pos + to_copy < N,
                self.pos == old(self).pos,
                old(self).wf(),
                to_copy as int == (if bytes@.len() < (if self.pos + 1 <= N { N - self.pos - 1 } else { 0 }) {
                    bytes@.len() as int
                } else {
                    (if self.pos + 1 <= N { N - self.pos - 1 } else { 0 })
                }),
                self.buf@.len() == N,
                self.buf@.take(self.pos as int) == old_contents,
                forall|j: int| self.pos <= j < self.pos + i ==> #[trigger] self.buf@[j] == bytes@[j - self.pos],
            decreases to_copy - i,
        {
            let b = bytes[i];
            self.buf.set(self.pos + i, b);
            proof {
                assert(self.buf@.take(self.pos as int) =~= old_contents);
            }
            i = i + 1;
        }
        let ghost before = self.buf@;
        proof {
            assert(before.take(self.pos + to_copy) =~= old_contents + bytes@.take(to_copy as int));
        }
        self.pos = self.pos + to_copy;
        // Ensure null termination
        if self.pos < N {
            self.buf.set(self.pos, 0);
            proof {
                assert(self.buf@.take(self.pos as int) =~= before.take(self.pos as int));
            }
        }
    }
}

/// snprintf into a fixed buffer: the buffer is cleared, as much of the formatted text as fits
/// is written, and the number of bytes held is returned.
pub fn ksnprintf<const N: usize>(buf: &mut FixedBuffer<N>, formatted: &str) -> (r: usize)
    requires
        old(buf).wf(),
    ensures
        final(buf).wf(),
        ({
            let bytes = formatted.spec_bytes();
            let n = if bytes.len() + 1 <= N { bytes.len() as int } else if N > 0 { N - 1 } else { 0 };
            final(buf).contents() == bytes.take(n)
        }),
        r == final(buf).contents().len(),
{
    buf.clear();
    buf.write_str(formatted);
    proof {
        assert(Seq::<u8>::empty() + formatted.spec_bytes().take(final(buf).contents().len() as int)
            =~= formatted.spec_bytes().take(final(buf).contents().len() as int));
    }
    buf.len()
}

} // verus!
