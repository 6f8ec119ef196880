//! The RTPS message header and the identifiers it carries.
use vstd::prelude::*;

verus! {

/// The four bytes that open every RTPS message.
#[derive(Clone, Copy, Debug)]
pub struct ProtocolId {
    pub protocol_id: [u8; 4],
}

/// Major and minor version of the RTPS protocol.
#[derive(Clone, Copy, Debug)]
pub struct ProtocolVersion {
    pub major: u8,
    pub minor: u8,
}

/// The vendor that built the sending implementation.
#[derive(Clone, Copy, Debug)]
pub struct VendorId {
    pub vendor_id: [u8; 2],
}

/// The twelve bytes that a participant shares with all its entities.
#[derive(Clone, Copy, Debug)]
pub struct GuidPrefix {
    pub prefix: [u8; 12],
}

/// The fixed 20-byte header of an RTPS message.
#[derive(Clone, Copy, Debug)]
pub struct Header {
    pub protocol_id: ProtocolId,
    pub protocol_version: ProtocolVersion,
    pub vendor_id: VendorId,
    pub guid_prefix: GuidPrefix,
}

/// A 64-bit RTPS sequence number, kept as its high and low halves.
#[derive(Clone, Copy, Debug, PartialEq, Eq, Structural)]
pub struct SequenceNumber {
    pub high: i32,
    pub low: u32,
}

impl SequenceNumber {
    /// The number that the two halves denote.
    pub open spec fn value(self) -> int {
        self.high * 0x1_0000_0000 + self.low
    }
}

/// Length in bytes of the message header.
pub const HEADER_LENGTH: usize = 20;

/// The bytes of a header on the wire: protocol id, version, vendor, prefix.
pub open spec fn spec_header_bytes(header: Header) -> Seq<u8> {
    header.protocol_id.protocol_id@ + seq![header.protocol_version.major, header.protocol_version.minor]
        + header.vendor_id.vendor_id@ + header.guid_prefix.prefix@
}

impl GuidPrefix {
    /// The prefix of no known participant: all bytes zero.
    pub fn unknown() -> (prefix: GuidPrefix)
        ensures
            prefix.prefix@ == Seq::new(12, |i: int| 0u8),
    {
        let prefix = GuidPrefix { prefix: [0u8; 12] };
        assert(prefix.prefix@ =~= Seq::new(12, |i: int| 0u8));
        prefix
    }
}

impl Header {
    /// A header of this implementation ("RTPS", version 2.3, vendor 0x01 0x12)
    /// for the participant with `guid_prefix`.
    pub fn new(guid_prefix: GuidPrefix) -> (header: Header)
        ensures
            header.protocol_id.protocol_id@ == seq![0x52u8, 0x54u8, 0x50u8, 0x53u8],
            header.protocol_version == (ProtocolVersion { major: 2, minor: 3 }),
            header.vendor_id.vendor_id@ == seq![0x01u8, 0x12u8],
            header.guid_prefix == guid_prefix,
    {
        let protocol_id = ProtocolId { protocol_id: [0x52u8, 0x54u8, 0x50u8, 0x53u8] };
        let vendor_id = VendorId { vendor_id: [0x01u8, 0x12u8] };
        assert(protocol_id.protocol_id@ =~= seq![0x52u8, 0x54u8, 0x50u8, 0x53u8]);
        assert(vendor_id.vendor_id@ =~= seq![0x01u8, 0x12u8]);
        Header {
            protocol_id,
            protocol_version: ProtocolVersion { major: 2, minor: 3 },
            vendor_id,
            guid_prefix,
        }
    }

    /// Reads a header from the first 20 bytes of `buffer`.
    pub fn read_from_bytes(buffer: &[u8]) -> (header: Header)
        requires
            buffer@.len() >= HEADER_LENGTH,
        ensures
            spec_header_bytes(header) == buffer@.subrange(0, HEADER_LENGTH as int),
    {
        let header = Header {
            protocol_id: ProtocolId { protocol_id: [buffer[0], buffer[1], buffer[2], buffer[3]] },
            protocol_version: ProtocolVersion { major: buffer[4], minor: buffer[5] },
            vendor_id: VendorId { vendor_id: [buffer[6], buffer[7]] },
            guid_prefix: GuidPrefix {
                prefix: [
                    buffer[8], buffer[9], buffer[10], buffer[11], buffer[12], buffer[13],
                    buffer[14], buffer[15], buffer[16], buffer[17], buffer[18], buffer[19],
                ],
            },
        };
        assert(spec_header_bytes(header) =~= buffer@.subrange(0, HEADER_LENGTH as int));
        header
    }

    /// Appends the 20 bytes of this header to `out`.
    pub fn write_to_bytes(&self, out: &mut Vec<u8>)
        ensures
            final(out)@ == old(out)@ + spec_header_bytes(*self),
    {
        let mut i: usize = 0;
        while i < 4
            invariant
                i <= 4,
                out@ == old(out)@ + self.protocol_id.protocol_id@.take(i as int),
            decreases 4 - i,
        {
            out.push(self.protocol_id.protocol_id[i]);
            assert(self.protocol_id.protocol_id@.take(i + 1) =~= self.protocol_id.protocol_id@.take(i as int).push(self.protocol_id.protocol_id@[i as int]));
            i = i + 1;
        }
        out.push(self.protocol_version.major);
        out.push(self.protocol_version.minor);
        out.push(self.vendor_id.vendor_id[0]);
        out.push(self.vendor_id.vendor_id[1]);
        let ghost mid = out@;
        let mut j: usize = 0;
        while j < 12
            invariant
                j <= 12,
                out@ == mid + self.guid_prefix.prefix@.take(j as int),
            decreases 12 - j,
        {
            out.push(self.guid_prefix.prefix[j]);
            assert(self.guid_prefix.prefix@.take(j + 1) =~= self.guid_prefix.prefix@.take(j as int).push(self.guid_prefix.prefix@[j as int]));
            j = j + 1;
        }
        assert(self.protocol_id.protocol_id@.take(4) =~= self.protocol_id.protocol_id@);
        assert(self.guid_prefix.prefix@.take(12) =~= self.guid_prefix.prefix@);
        assert(self.vendor_id.vendor_id@ =~= seq![self.vendor_id.vendor_id@[0], self.vendor_id.vendor_id@[1]]);
        assert(out@ =~= old(out)@ + spec_header_bytes(*self));
    }
}

} // verus!
