//! The decoding cursor and its typed reads.
//!
//! Every read is specified against [`Cursor`], the mathematical model of a
//! decoder. A read of `n` bytes fails as `Cursor::take_error` says, and then
//! leaves the decoder unchanged; otherwise it decodes the bytes
//! `Cursor::taken` and moves the decoder to `Cursor::advance`.
use crate::address::{record, Ipv4Addr, Ipv6Addr};
use crate::cstring::CString;
use crate::cursor::Cursor;
use crate::endian::{be_nat, be_value, lemma_be_nat_bound, radix, twos_complement_32};
use crate::error::{DecodeError, DecodeResult};
use crate::text::{decode_text, find_nul, terminated_prefix};
use vstd::prelude::*;
use vstd::slice::slice_subrange;
use vstd::utf8::{decode_utf8, valid_utf8};

verus! {

/// A value that can be read from a decoder.
pub trait Decodable: Sized {
    /// Whether one decoding that starts at `before` may return `result` and
    /// leave the cursor at `after`. An implementation that does not say
    /// allows every outcome.
    open spec fn decodes(before: Cursor, result: DecodeResult<Self>, after: Cursor) -> bool {
        true
    }

    /// Reads one value at the decoder's position.
    fn decode(decoder: &mut Decoder<'_>) -> (result: DecodeResult<Self>)
        ensures
            Self::decodes(old(decoder)@, result, final(decoder)@),
    ;

    /// Decodes one value from the start of `bytes`: the result of one call of
    /// `decode` on a fresh decoder over `bytes`.
    fn from_bytes(bytes: &[u8]) -> (result: DecodeResult<Self>)
        ensures
            exists|after: Cursor| Self::decodes(Cursor::start(bytes@), result, after),
    {
        let mut decoder = Decoder::new(bytes);
        Self::decode(&mut decoder)
    }
}

/// A read position in a borrowed byte buffer.
///
/// The position never lies past the end of the buffer.
#[derive(Debug)]
pub struct Decoder<'a> {
    buffer: &'a [u8],
    index: usize,
}

impl<'a> View for Decoder<'a> {
    type V = Cursor;

    closed spec fn view(&self) -> Cursor {
        Cursor { buffer: self.buffer@, position: self.index as nat }
    }
}

/// The `N` bytes of `bytes`, as an array.
fn to_array<const N: usize>(bytes: &[u8]) -> (array: [u8; N])
    requires
        bytes@.len() == N,
    ensures
        array@ == bytes@,
{
    let mut array = [0u8; N];
    let mut i: usize = 0;
    while i < N
        invariant
            i <= N,
            bytes@.len() == N,
            forall|j: int| 0 <= j < i ==> array@[j] == bytes@[j],
        decreases N - i,
    {
        array[i] = bytes[i];
        i += 1;
    }
    array
}

impl<'a> Decoder<'a> {
    #[verifier::type_invariant]
    spec fn in_bounds(&self) -> bool {
        self.index <= self.buffer@.len() <= usize::MAX
    }

    /// A decoder at the start of `buffer`.
    pub fn new(buffer: &'a [u8]) -> (decoder: Self)
        ensures
            decoder@ == Cursor::start(buffer@),
            decoder@.wf(),
    {
        proof {
            vstd::slice::axiom_spec_len(buffer);
        }
        Decoder { buffer, index: 0 }
    }

    /// Reads one byte.
    pub fn read_u8(&mut self) -> (r: DecodeResult<u8>)
        ensures
            final(self)@.continues(old(self)@),
            match old(self)@.take_error(1) {
                Some(e) => r == Err::<u8, DecodeError>(e) && final(self)@ == old(self)@,
                None => {
                    &&& r == Ok::<u8, DecodeError>(old(self)@.taken(1)[0])
                    &&& final(self)@ == old(self)@.advance(1)
                },
            },
    {
        let bytes = self.read::<1>()?;
        Ok(bytes[0])
    }

    /// Reads a big-endian `u32`.
    pub fn read_u32(&mut self) -> (r: DecodeResult<u32>)
        ensures
            final(self)@.continues(old(self)@),
            match old(self)@.take_error(4) {
                Some(e) => r == Err::<u32, DecodeError>(e) && final(self)@ == old(self)@,
                None => {
                    &&& r matches Ok(value)
                    &&& value == be_nat(old(self)@.taken(4))
                    &&& final(self)@ == old(self)@.advance(4)
                },
            },
    {
        let bytes = self.read::<4>()?;
        let value = be_value(&bytes);
        proof {
            lemma_be_nat_bound(bytes@);
            reveal_with_fuel(radix, 5);
        }
        Ok(value as u32)
    }

    /// Reads a big-endian two's complement `i32`.
    pub fn read_i32(&mut self) -> (r: DecodeResult<i32>)
        ensures
            final(self)@.continues(old(self)@),
            match old(self)@.take_error(4) {
                Some(e) => r == Err::<i32, DecodeError>(e) && final(self)@ == old(self)@,
                None => {
                    &&& r matches Ok(value)
                    &&& value == twos_complement_32(be_nat(old(self)@.taken(4)))
                    &&& final(self)@ == old(self)@.advance(4)
                },
            },
    {
        let bits = self.read_u32()?;
        assert(bits as i32 == (if bits < 0x8000_0000u32 {
            bits as int
        } else {
            bits - 0x1_0000_0000
        })) by (bit_vector);
        Ok(bits as i32)
    }

    /// Reads a big-endian `u16`.
    pub fn read_u16(&mut self) -> (r: DecodeResult<u16>)
        ensures
            final(self)@.continues(old(self)@),
            match old(self)@.take_error(2) {
                Some(e) => r == Err::<u16, DecodeError>(e) && final(self)@ == old(self)@,
                None => {
                    &&& r matches Ok(value)
                    &&& value == be_nat(old(self)@.taken(2))
                    &&& final(self)@ == old(self)@.advance(2)
                },
            },
    {
        let bytes = self.read::<2>()?;
        let value = be_value(&bytes);
        proof {
            lemma_be_nat_bound(bytes@);
            reveal_with_fuel(radix, 3);
        }
        Ok(value as u16)
    }

    /// Reads a big-endian `u64`.
    pub fn read_u64(&mut self) -> (r: DecodeResult<u64>)
        ensures
            final(self)@.continues(old(self)@),
            match old(self)@.take_error(8) {
                Some(e) => r == Err::<u64, DecodeError>(e) && final(self)@ == old(self)@,
                None => {
                    &&& r matches Ok(value)
                    &&& value == be_nat(old(self)@.taken(8))
                    &&& final(self)@ == old(self)@.advance(8)
                },
            },
    {
        let bytes = self.read::<8>()?;
        Ok(be_value(&bytes))
    }

    /// Reads `N` bytes into an array.
    pub fn read<const N: usize>(&mut self) -> (r: DecodeResult<[u8; N]>)
        ensures
            final(self)@.continues(old(self)@),
            match old(self)@.take_error(N as nat) {
                Some(e) => r == Err::<[u8; N], DecodeError>(e) && final(self)@ == old(self)@,
                None => {
                    &&& r matches Ok(bytes)
                    &&& bytes@ == old(self)@.taken(N as nat)
                    &&& final(self)@ == old(self)@.advance(N as nat)
                },
            },
    {
        let slice = self.read_slice(N)?;
        Ok(to_array(slice))
    }

    /// Reads a zero-terminated byte string from a field of `MAX` bytes.
    ///
    /// The whole field is consumed. The string ends before the first zero
    /// byte of the field; a field that starts with a zero byte, or holds none,
    /// gives `None`.
    pub fn read_cstring<const MAX: usize>(&mut self) -> (r: DecodeResult<Option<CString>>)
        ensures
            final(self)@.continues(old(self)@),
            match old(self)@.take_error(MAX as nat) {
                Some(e) => {
                    &&& r == Err::<Option<CString>, DecodeError>(e)
                    &&& final(self)@ == old(self)@
                },
                None => {
                    &&& final(self)@ == old(self)@.advance(MAX as nat)
                    &&& match terminated_prefix(old(self)@.taken(MAX as nat)) {
                        Some(prefix) => r matches Ok(Some(string)) && string@.push(0) == prefix,
                        None => r == Ok::<Option<CString>, DecodeError>(None),
                    }
                },
            },
    {
        let bytes = self.read::<MAX>()?;
        match find_nul(bytes.as_slice()) {
            Some(n) => {
                if n == 0 {
                    Ok(None)
                } else {
                    let prefix = slice_subrange(bytes.as_slice(), 0, n + 1);
                    match CString::from_bytes_with_nul(prefix) {
                        Some(string) => Ok(Some(string)),
                        None => Err(DecodeError::InvalidEncoding),
                    }
                }
            },
            None => Ok(None),
        }
    }

    /// Reads zero-terminated UTF-8 text from a field of `MAX` bytes.
    ///
    /// The whole field is consumed, also where its text is not valid UTF-8.
    /// The text runs up to and including the first zero byte of the field; a
    /// field that starts with a zero byte, or holds none, gives `None`.
    pub fn read_const_string<const MAX: usize>(&mut self) -> (r: DecodeResult<Option<String>>)
        ensures
            final(self)@.continues(old(self)@),
            match old(self)@.take_error(MAX as nat) {
                Some(e) => {
                    &&& r == Err::<Option<String>, DecodeError>(e)
                    &&& final(self)@ == old(self)@
                },
                None => {
                    &&& final(self)@ == old(self)@.advance(MAX as nat)
                    &&& match terminated_prefix(old(self)@.taken(MAX as nat)) {
                        Some(prefix) => match r {
                            Ok(Some(text)) => valid_utf8(prefix) && text@ == decode_utf8(prefix),
                            Ok(None) => false,
                            Err(e) => !valid_utf8(prefix) && e == DecodeError::InvalidEncoding,
                        },
                        None => r == Ok::<Option<String>, DecodeError>(None),
                    }
                },
            },
    {
        let bytes = self.read::<MAX>()?;
        match find_nul(bytes.as_slice()) {
            Some(n) => {
                if n == 0 {
                    Ok(None)
                } else {
                    let text = decode_text(slice_subrange(bytes.as_slice(), 0, n + 1))?;
                    Ok(Some(text))
                }
            },
            None => Ok(None),
        }
    }

    /// Reads `len` bytes without copying them.
    pub fn read_slice(&mut self, len: usize) -> (r: DecodeResult<&'a [u8]>)
        ensures
            final(self)@.continues(old(self)@),
            match old(self)@.take_error(len as nat) {
                Some(e) => r == Err::<&[u8], DecodeError>(e) && final(self)@ == old(self)@,
                None => {
                    &&& r matches Ok(bytes)
                    &&& bytes@ == old(self)@.taken(len as nat)
                    &&& final(self)@ == old(self)@.advance(len as nat)
                },
            },
    {
        proof {
            use_type_invariant(&*self);
        }
        let end = match self.index.checked_add(len) {
            Some(end) => end,
            None => return Err(DecodeError::AddOverflow),
        };
        if end > self.buffer.len() {
            return Err(DecodeError::EndOfBuffer { index: end });
        }
        let slice = slice_subrange(self.buffer, self.index, end);
        self.index = end;
        Ok(slice)
    }

    /// Reads `len` bytes of UTF-8 text.
    ///
    /// The bytes are consumed also where they are not valid UTF-8.
    pub fn read_string(&mut self, len: usize) -> (r: DecodeResult<String>)
        ensures
            final(self)@.continues(old(self)@),
            match old(self)@.take_error(len as nat) {
                Some(e) => r == Err::<String, DecodeError>(e) && final(self)@ == old(self)@,
                None => {
                    &&& final(self)@ == old(self)@.advance(len as nat)
                    &&& match r {
                        Ok(text) => {
                            &&& valid_utf8(old(self)@.taken(len as nat))
                            &&& text@ == decode_utf8(old(self)@.taken(len as nat))
                        },
                        Err(e) => {
                            &&& !valid_utf8(old(self)@.taken(len as nat))
                            &&& e == DecodeError::InvalidEncoding
                        },
                    }
                },
            },
    {
        let slice = self.read_slice(len)?;
        decode_text(slice)
    }

    /// Reads one IPv4 address from a field whose announced length is `length`.
    ///
    /// Only the length 4 is accepted.
    pub fn read_ipv4(&mut self, length: usize) -> (r: DecodeResult<Ipv4Addr>)
        ensures
            final(self)@.continues(old(self)@),
            length != 4 ==> {
                &&& r == Err::<Ipv4Addr, DecodeError>(DecodeError::NotEnoughBytes)
                &&& final(self)@ == old(self)@
            },
            length == 4 ==> match old(self)@.take_error(4) {
                Some(e) => r == Err::<Ipv4Addr, DecodeError>(e) && final(self)@ == old(self)@,
                None => {
                    &&& r matches Ok(addr)
                    &&& addr@ == old(self)@.taken(4)
                    &&& final(self)@ == old(self)@.advance(4)
                },
            },
    {
        if length != 4 {
            proof {
                use_type_invariant(&*self);
            }
            return Err(DecodeError::NotEnoughBytes);
        }
        let bytes = self.read::<4>()?;
        Ok(Ipv4Addr::from_octets(bytes))
    }

    /// Reads the IPv4 addresses that fill a field of `length` bytes, in order.
    ///
    /// `length` must be a multiple of 4.
    pub fn read_ipv4s(&mut self, length: usize) -> (r: DecodeResult<Vec<Ipv4Addr>>)
        ensures
            final(self)@.continues(old(self)@),
            length % 4 != 0 ==> {
                &&& r == Err::<Vec<Ipv4Addr>, DecodeError>(DecodeError::NotEnoughBytes)
                &&& final(self)@ == old(self)@
            },
            length % 4 == 0 ==> match old(self)@.take_error(length as nat) {
                Some(e) => {
                    &&& r == Err::<Vec<Ipv4Addr>, DecodeError>(e)
                    &&& final(self)@ == old(self)@
                },
                None => {
                    &&& final(self)@ == old(self)@.advance(length as nat)
                    &&& r matches Ok(addrs)
                    &&& addrs@.len() == length / 4
                    &&& forall|i: int|
                        0 <= i < addrs@.len() ==> (#[trigger] addrs@[i])@ == record(
                            old(self)@.taken(length as nat),
                            4,
                            i,
                        )
                },
            },
    {
        if length % 4 != 0 {
            proof {
                use_type_invariant(&*self);
            }
            return Err(DecodeError::NotEnoughBytes);
        }
        let bytes = self.read_slice(length)?;
        let count = length / 4;
        let mut addrs: Vec<Ipv4Addr> = Vec::new();
        let mut i: usize = 0;
        while i < count
            invariant
                i <= count,
                count * 4 == length,
                bytes@.len() == length,
                addrs@.len() == i,
                forall|k: int| 0 <= k < i ==> (#[trigger] addrs@[k])@ == record(bytes@, 4, k),
            decreases count - i,
        {
            let at = i * 4;
            let addr = Ipv4Addr::from_octets(
                [bytes[at], bytes[at + 1], bytes[at + 2], bytes[at + 3]],
            );
            addrs.push(addr);
            i += 1;
        }
        Ok(addrs)
    }

    /// Reads the IPv6 addresses that fill a field of `length` bytes, in order.
    ///
    /// `length` must be a multiple of 16.
    pub fn read_ipv6s(&mut self, length: usize) -> (r: DecodeResult<Vec<Ipv6Addr>>)
        ensures
            final(self)@.continues(old(self)@),
            length % 16 != 0 ==> {
                &&& r == Err::<Vec<Ipv6Addr>, DecodeError>(DecodeError::NotEnoughBytes)
                &&& final(self)@ == old(self)@
            },
            length % 16 == 0 ==> match old(self)@.take_error(length as nat) {
                Some(e) => {
                    &&& r == Err::<Vec<Ipv6Addr>, DecodeError>(e)
                    &&& final(self)@ == old(self)@
                },
                None => {
                    &&& final(self)@ == old(self)@.advance(length as nat)
                    &&& r matches Ok(addrs)
                    &&& addrs@.len() == length / 16
                    &&& forall|i: int|
                        0 <= i < addrs@.len() ==> (#[trigger] addrs@[i])@ == record(
                            old(self)@.taken(length as nat),
                            16,
                            i,
                        )
                },
            },
    {
        if length % 16 != 0 {
            proof {
                use_type_invariant(&*self);
            }
            return Err(DecodeError::NotEnoughBytes);
        }
        let bytes = self.read_slice(length)?;
        let count = length / 16;
        let mut addrs: Vec<Ipv6Addr> = Vec::new();
        let mut i: usize = 0;
        while i < count
            invariant
                i <= count,
                count * 16 == length,
                bytes@.len() == length,
                addrs@.len() == i,
                forall|k: int| 0 <= k < i ==> (#[trigger] addrs@[k])@ == record(bytes@, 16, k),
            decreases count - i,
        {
            let at = i * 16;
            let addr = Ipv6Addr::from_octets(to_array(slice_subrange(bytes, at, at + 16)));
            addrs.push(addr);
            i += 1;
        }
        Ok(addrs)
    }

    /// Reads the pairs of IPv4 addresses that fill a field of `length` bytes,
    /// in order. A pair takes eight bytes: its first address, then its second.
    ///
    /// `length` must be a multiple of 8.
    pub fn read_pair_ipv4s(&mut self, length: usize) -> (r: DecodeResult<
        Vec<(Ipv4Addr, Ipv4Addr)>,
    >)
        ensures
            final(self)@.continues(old(self)@),
            length % 8 != 0 ==> {
                &&& r == Err::<Vec<(Ipv4Addr, Ipv4Addr)>, DecodeError>(DecodeError::NotEnoughBytes)
                &&& final(self)@ == old(self)@
            },
            length % 8 == 0 ==> match old(self)@.take_error(length as nat) {
                Some(e) => {
                    &&& r == Err::<Vec<(Ipv4Addr, Ipv4Addr)>, DecodeError>(e)
                    &&& final(self)@ == old(self)@
                },
                None => {
                    &&& final(self)@ == old(self)@.advance(length as nat)
                    &&& r matches Ok(pairs)
                    &&& pairs@.len() == length / 8
                    &&& forall|i: int|
                        0 <= i < pairs@.len() ==> {
                            &&& (#[trigger] pairs@[i]).0@ == record(
                                old(self)@.taken(length as nat),
                                4,
                                2 * i,
                            )
                            &&& pairs@[i].1@ == record(
                                old(self)@.taken(length as nat),
                                4,
                                2 * i + 1,
                            )
                        }
                },
            },
    {
        if length % 8 != 0 {
            proof {
                use_type_invariant(&*self);
            }
            return Err(DecodeError::NotEnoughBytes);
        }
        let bytes = self.read_slice(length)?;
        let count = length / 8;
        let mut pairs: Vec<(Ipv4Addr, Ipv4Addr)> = Vec::new();
        let mut i: usize = 0;
        while i < count
            invariant
                i <= count,
                count * 8 == length,
                bytes@.len() == length,
                pairs@.len() == i,
                forall|k: int|
                    0 <= k < i ==> {
                        &&& (#[trigger] pairs@[k]).0@ == record(bytes@, 4, 2 * k)
                        &&& pairs@[k].1@ == record(bytes@, 4, 2 * k + 1)
                    },
            decreases count - i,
        {
            let at = i * 8;
            let first = Ipv4Addr::from_octets(
                [bytes[at], bytes[at + 1], bytes[at + 2], bytes[at + 3]],
            );
            let second = Ipv4Addr::from_octets(
                [bytes[at + 4], bytes[at + 5], bytes[at + 6], bytes[at + 7]],
            );
            pairs.push((first, second));
            i += 1;
        }
        Ok(pairs)
    }

    /// Reads one byte as a flag: `true` for the byte 1, `false` for any other.
    pub fn read_bool(&mut self) -> (r: DecodeResult<bool>)
        ensures
            final(self)@.continues(old(self)@),
            match old(self)@.take_error(1) {
                Some(e) => r == Err::<bool, DecodeError>(e) && final(self)@ == old(self)@,
                None => {
                    &&& r == Ok::<bool, DecodeError>(old(self)@.taken(1)[0] == 1)
                    &&& final(self)@ == old(self)@.advance(1)
                },
            },
    {
        Ok(self.read_u8()? == 1)
    }

    /// The bytes that have not been read yet. The decoder stays where it is.
    pub fn buffer(&self) -> (rest: &[u8])
        ensures
            self@.wf(),
            rest@ == self@.remaining(),
    {
        proof {
            use_type_invariant(self);
        }
        slice_subrange(self.buffer, self.index, self.buffer.len())
    }
}

} // verus!
