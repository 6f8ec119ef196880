//! Submessage flags by name, and RTPS messages with their byte format.
use vstd::prelude::*;
use crate::endian::{
    lemma_u16_decode_encode, lemma_u16_encode_decode, read_i32, read_u16, read_u32, spec_i32, spec_u16, spec_u16_bytes,
    spec_u32, write_u16, Endianness,
};
use crate::structure::{spec_header_bytes, GuidPrefix, Header, SequenceNumber, HEADER_LENGTH};
use crate::submessages::{
    lemma_kind_code_round_trip, views, Data, EntitySubmessage, InterpreterSubmessage, SubMessage, SubMessageView,
    SubmessageFlag, SubmessageHeader, SubmessageKind,
};

verus! {

/// The flags of a submessage header by name. Which of them a kind uses, and
/// at which bit, depends on the kind of the submessage.
#[allow(non_snake_case)]
#[derive(Debug, Clone)]
pub struct SubmessageFlagHelper {
    pub KeyFlag: bool,
    pub DataFlag: bool,
    pub InlineQosFlag: bool,
    pub NonStandardPayloadFlag: bool,
    pub EndiannessFlag: bool,
    pub FinalFlag: bool,
    pub LivelinessFlag: bool,
    pub MulticastFlag: bool,
    pub InvalidateFlag: bool,
}

/// Whether the bits of `mask` meet the flag byte `flags`.
pub open spec fn bit_set(flags: u8, mask: u8) -> bool {
    flags & mask != 0
}

/// The mask `mask` if `on`, else no bits.
pub open spec fn mask_if(on: bool, mask: u8) -> u8 {
    if on { mask } else { 0u8 }
}

/// The helper with every flag cleared except the endianness flag, set as given.
pub open spec fn spec_cleared(endianness_flag: bool) -> SubmessageFlagHelper {
    SubmessageFlagHelper {
        KeyFlag: false,
        DataFlag: false,
        InlineQosFlag: false,
        NonStandardPayloadFlag: false,
        EndiannessFlag: endianness_flag,
        FinalFlag: false,
        LivelinessFlag: false,
        MulticastFlag: false,
        InvalidateFlag: false,
    }
}

/// The kinds whose flag byte can be read into a helper.
pub open spec fn spec_flags_readable(kind: SubmessageKind) -> bool {
    match kind {
        SubmessageKind::DATA | SubmessageKind::DATA_FRAG | SubmessageKind::ACKNACK
        | SubmessageKind::HEARTBEAT | SubmessageKind::HEARTBEAT_FRAG | SubmessageKind::INFO_DST
        | SubmessageKind::INFO_REPLY | SubmessageKind::INFO_SRC | SubmessageKind::INFO_TS
        | SubmessageKind::PAD | SubmessageKind::NACK_FRAG | SubmessageKind::INFO_REPLY_IP4
        | SubmessageKind::GAP => true,
        _ => false,
    }
}

/// The kinds whose flag byte can be written from a helper.
pub open spec fn spec_flags_writable(kind: SubmessageKind) -> bool {
    match kind {
        SubmessageKind::DATA | SubmessageKind::DATA_FRAG | SubmessageKind::INFO_TS
        | SubmessageKind::HEARTBEAT | SubmessageKind::INFO_DST => true,
        _ => false,
    }
}

/// The flags that the bits of `flags` stand for in a submessage of `kind`.
/// Bit 0 is the endianness flag in every kind; the others are:
/// DATA `|N|K|D|Q|E|`, DATA_FRAG `|N|K|Q|E|`, ACKNACK `|F|E|`,
/// HEARTBEAT `|L|F|E|`, INFO_REPLY and INFO_REPLY_IP4 `|M|E|`, INFO_TS `|I|E|`.
pub open spec fn spec_helper_from_flags(kind: SubmessageKind, flags: u8) -> SubmessageFlagHelper {
    let e = bit_set(flags, 1);
    let base = spec_cleared(e);
    match kind {
        SubmessageKind::DATA => SubmessageFlagHelper {
            InlineQosFlag: bit_set(flags, 2),
            DataFlag: bit_set(flags, 4),
            KeyFlag: bit_set(flags, 8),
            NonStandardPayloadFlag: bit_set(flags, 16),
            ..base
        },
        SubmessageKind::DATA_FRAG => SubmessageFlagHelper {
            InlineQosFlag: bit_set(flags, 2),
            KeyFlag: bit_set(flags, 4),
            NonStandardPayloadFlag: bit_set(flags, 8),
            ..base
        },
        SubmessageKind::ACKNACK => SubmessageFlagHelper { FinalFlag: bit_set(flags, 2), ..base },
        SubmessageKind::HEARTBEAT => SubmessageFlagHelper {
            FinalFlag: bit_set(flags, 2),
            LivelinessFlag: bit_set(flags, 4),
            ..base
        },
        SubmessageKind::INFO_REPLY | SubmessageKind::INFO_REPLY_IP4 => SubmessageFlagHelper {
            MulticastFlag: bit_set(flags, 2),
            ..base
        },
        SubmessageKind::INFO_TS => SubmessageFlagHelper { InvalidateFlag: bit_set(flags, 2), ..base },
        _ => base,
    }
}

/// The flag byte that a helper stands for in a submessage of `kind`: the bit
/// of each flag that `kind` uses, at its place, and no other bit.
pub open spec fn spec_flags_from_helper(kind: SubmessageKind, h: SubmessageFlagHelper) -> u8 {
    let e = mask_if(h.EndiannessFlag, 1);
    match kind {
        SubmessageKind::DATA => e | mask_if(h.InlineQosFlag, 2) | mask_if(h.DataFlag, 4)
            | mask_if(h.KeyFlag, 8) | mask_if(h.NonStandardPayloadFlag, 16),
        SubmessageKind::DATA_FRAG => e | mask_if(h.InlineQosFlag, 2) | mask_if(h.KeyFlag, 4)
            | mask_if(h.NonStandardPayloadFlag, 8),
        SubmessageKind::INFO_TS => e | mask_if(h.InvalidateFlag, 2),
        SubmessageKind::HEARTBEAT => e | mask_if(h.FinalFlag, 2) | mask_if(h.LivelinessFlag, 4),
        _ => e,
    }
}

/// The bits of the flag byte that `kind` gives a meaning to.
pub open spec fn spec_used_bits(kind: SubmessageKind) -> u8 {
    match kind {
        SubmessageKind::DATA => 0x1f,
        SubmessageKind::DATA_FRAG => 0x0f,
        SubmessageKind::INFO_TS => 0x03,
        SubmessageKind::HEARTBEAT => 0x07,
        _ => 0x01,
    }
}

/// `h` with every flag that `kind` does not use cleared.
pub open spec fn spec_restrict(kind: SubmessageKind, h: SubmessageFlagHelper) -> SubmessageFlagHelper {
    let base = spec_cleared(h.EndiannessFlag);
    match kind {
        SubmessageKind::DATA => SubmessageFlagHelper {
            InlineQosFlag: h.InlineQosFlag,
            DataFlag: h.DataFlag,
            KeyFlag: h.KeyFlag,
            NonStandardPayloadFlag: h.NonStandardPayloadFlag,
            ..base
        },
        SubmessageKind::DATA_FRAG => SubmessageFlagHelper {
            InlineQosFlag: h.InlineQosFlag,
            KeyFlag: h.KeyFlag,
            NonStandardPayloadFlag: h.NonStandardPayloadFlag,
            ..base
        },
        SubmessageKind::INFO_TS => SubmessageFlagHelper { InvalidateFlag: h.InvalidateFlag, ..base },
        SubmessageKind::HEARTBEAT => SubmessageFlagHelper {
            FinalFlag: h.FinalFlag,
            LivelinessFlag: h.LivelinessFlag,
            ..base
        },
        _ => base,
    }
}

/// Or-ing no bits changes nothing.
proof fn lemma_or_nothing()
    ensures
        forall|x: u8| #[trigger] (x | 0u8) == x,
        forall|x: u8| #[trigger] (0u8 | x) == x,
{
    assert(forall|x: u8| #[trigger] (x | 0u8) == x) by (bit_vector);
    assert(forall|x: u8| #[trigger] (0u8 | x) == x) by (bit_vector);
}

/// The byte order that the endianness flag of `h` names.
pub open spec fn spec_endianness_of(h: SubmessageFlagHelper) -> Endianness {
    if h.EndiannessFlag { Endianness::LittleEndian } else { Endianness::BigEndian }
}

/// A helper made for a byte order names that byte order.
pub proof fn lemma_new_then_get_endianness(endianness: Endianness)
    ensures
        spec_endianness_of(spec_cleared(endianness == Endianness::LittleEndian)) == endianness,
{
}

/// Reading a flag byte into a helper and writing the helper back gives the
/// bits of the byte that the kind uses, and clears the others.
pub proof fn lemma_flags_read_then_write(kind: SubmessageKind, flags: u8)
    requires
        spec_flags_writable(kind),
    ensures
        spec_flags_from_helper(kind, spec_helper_from_flags(kind, flags)) == flags & spec_used_bits(kind),
{
    match kind {
        SubmessageKind::DATA => {
            assert(mask_if(flags & 1 != 0, 1) | mask_if(flags & 2 != 0, 2) | mask_if(flags & 4 != 0, 4)
                | mask_if(flags & 8 != 0, 8) | mask_if(flags & 16 != 0, 16) == flags & 0x1f) by (bit_vector);
        },
        SubmessageKind::DATA_FRAG => {
            assert(mask_if(flags & 1 != 0, 1) | mask_if(flags & 2 != 0, 2) | mask_if(flags & 4 != 0, 4)
                | mask_if(flags & 8 != 0, 8) == flags & 0x0f) by (bit_vector);
        },
        SubmessageKind::INFO_TS => {
            assert(mask_if(flags & 1 != 0, 1) | mask_if(flags & 2 != 0, 2) == flags & 0x03) by (bit_vector);
        },
        SubmessageKind::HEARTBEAT => {
            assert(mask_if(flags & 1 != 0, 1) | mask_if(flags & 2 != 0, 2) | mask_if(flags & 4 != 0, 4)
                == flags & 0x07) by (bit_vector);
        },
        _ => {
            assert(mask_if(flags & 1 != 0, 1) == flags & 0x01) by (bit_vector);
        },
    }
}

/// Writing a helper into a flag byte and reading the byte back gives the
/// flags of the helper that the kind uses; the others come back cleared.
pub proof fn lemma_flags_write_then_read(kind: SubmessageKind, helper: SubmessageFlagHelper)
    requires
        spec_flags_writable(kind),
    ensures
        spec_helper_from_flags(kind, spec_flags_from_helper(kind, helper)) == spec_restrict(kind, helper),
{
    let e = helper.EndiannessFlag;
    let q = helper.InlineQosFlag;
    let d = helper.DataFlag;
    let k = helper.KeyFlag;
    let n = helper.NonStandardPayloadFlag;
    let f = helper.FinalFlag;
    let l = helper.LivelinessFlag;
    let i = helper.InvalidateFlag;
    match kind {
        SubmessageKind::DATA => {
            let b = mask_if(e, 1) | mask_if(q, 2) | mask_if(d, 4) | mask_if(k, 8) | mask_if(n, 16);
            assert(b == mask_if(e, 1) | mask_if(q, 2) | mask_if(d, 4) | mask_if(k, 8) | mask_if(n, 16) ==> (
                (b & 1 != 0) == e && (b & 2 != 0) == q && (b & 4 != 0) == d && (b & 8 != 0) == k
                && (b & 16 != 0) == n)) by (bit_vector);
        },
        SubmessageKind::DATA_FRAG => {
            let b = mask_if(e, 1) | mask_if(q, 2) | mask_if(k, 4) | mask_if(n, 8);
            assert(b == mask_if(e, 1) | mask_if(q, 2) | mask_if(k, 4) | mask_if(n, 8) ==> (
                (b & 1 != 0) == e && (b & 2 != 0) == q && (b & 4 != 0) == k && (b & 8 != 0) == n))
                by (bit_vector);
        },
        SubmessageKind::INFO_TS => {
            let b = mask_if(e, 1) | mask_if(i, 2);
            assert(b == mask_if(e, 1) | mask_if(i, 2) ==> ((b & 1 != 0) == e && (b & 2 != 0) == i))
                by (bit_vector);
        },
        SubmessageKind::HEARTBEAT => {
            let b = mask_if(e, 1) | mask_if(f, 2) | mask_if(l, 4);
            assert(b == mask_if(e, 1) | mask_if(f, 2) | mask_if(l, 4) ==> (
                (b & 1 != 0) == e && (b & 2 != 0) == f && (b & 4 != 0) == l)) by (bit_vector);
        },
        _ => {
            let b = mask_if(e, 1);
            assert(b == mask_if(e, 1) ==> (b & 1 != 0) == e) by (bit_vector);
        },
    }
}

/// The names of the flags a submessage header can carry.
pub enum FlagName {
    Endianness,
    InlineQos,
    Data,
    Key,
    NonStandardPayload,
    Final,
    Liveliness,
    Multicast,
    Invalidate,
}

/// The value of the named flag in a helper.
pub open spec fn spec_flag(h: SubmessageFlagHelper, name: FlagName) -> bool {
    match name {
        FlagName::Endianness => h.EndiannessFlag,
        FlagName::InlineQos => h.InlineQosFlag,
        FlagName::Data => h.DataFlag,
        FlagName::Key => h.KeyFlag,
        FlagName::NonStandardPayload => h.NonStandardPayloadFlag,
        FlagName::Final => h.FinalFlag,
        FlagName::Liveliness => h.LivelinessFlag,
        FlagName::Multicast => h.MulticastFlag,
        FlagName::Invalidate => h.InvalidateFlag,
    }
}

/// The RTPS layout of the flag byte: the bit at which a submessage of `kind`
/// carries the named flag, or 0 where the kind does not carry it.
/// E is bit 0 in every kind; DATA `|X|X|X|N|K|D|Q|E|`, DATA_FRAG
/// `|X|X|X|X|N|K|Q|E|`, ACKNACK `|X|X|X|X|X|X|F|E|`, HEARTBEAT
/// `|X|X|X|X|X|L|F|E|`, INFO_REPLY and INFO_REPLY_IP4 `|X|X|X|X|X|X|M|E|`,
/// INFO_TS `|X|X|X|X|X|X|I|E|`.
pub open spec fn spec_layout_mask(kind: SubmessageKind, name: FlagName) -> u8 {
    match (kind, name) {
        (_, FlagName::Endianness) => 0x01,
        (SubmessageKind::DATA, FlagName::InlineQos) => 0x02,
        (SubmessageKind::DATA, FlagName::Data) => 0x04,
        (SubmessageKind::DATA, FlagName::Key) => 0x08,
        (SubmessageKind::DATA, FlagName::NonStandardPayload) => 0x10,
        (SubmessageKind::DATA_FRAG, FlagName::InlineQos) => 0x02,
        (SubmessageKind::DATA_FRAG, FlagName::Key) => 0x04,
        (SubmessageKind::DATA_FRAG, FlagName::NonStandardPayload) => 0x08,
        (SubmessageKind::ACKNACK, FlagName::Final) => 0x02,
        (SubmessageKind::HEARTBEAT, FlagName::Final) => 0x02,
        (SubmessageKind::HEARTBEAT, FlagName::Liveliness) => 0x04,
        (SubmessageKind::INFO_REPLY, FlagName::Multicast) => 0x02,
        (SubmessageKind::INFO_REPLY_IP4, FlagName::Multicast) => 0x02,
        (SubmessageKind::INFO_TS, FlagName::Invalidate) => 0x02,
        _ => 0,
    }
}

/// The endianness flag is bit 0 of the flag byte in every kind, and a set
/// flag names little-endian data: a helper read from a flag byte names little
/// endian exactly when bit 0 is set, and a helper made for a byte order has
/// the flag set exactly for little endian.
pub proof fn lemma_endianness_flag(kind: SubmessageKind, flags: u8, endianness: Endianness)
    requires
        spec_flags_readable(kind),
    ensures
        spec_endianness_of(spec_helper_from_flags(kind, flags)) == (if flags & 0x01 != 0 {
            Endianness::LittleEndian
        } else {
            Endianness::BigEndian
        }),
        spec_cleared(endianness == Endianness::LittleEndian).EndiannessFlag == (endianness
            == Endianness::LittleEndian),
        spec_endianness_of(spec_cleared(true)) == Endianness::LittleEndian,
        spec_endianness_of(spec_cleared(false)) == Endianness::BigEndian,
{
}

/// Reading a flag byte sets each named flag exactly when the kind carries
/// it (per the RTPS layout) and the byte has its bit set.
pub proof fn lemma_read_flags_follow_layout(kind: SubmessageKind, flags: u8, name: FlagName)
    requires
        spec_flags_readable(kind),
    ensures
        spec_flag(spec_helper_from_flags(kind, flags), name) == (spec_layout_mask(kind, name) != 0
            && flags & spec_layout_mask(kind, name) != 0),
{
}

/// Writing a helper sets the bit of each named flag that the kind carries
/// (per the RTPS layout) exactly when that flag is set, and no bit that the
/// kind gives no meaning to.
pub proof fn lemma_written_flags_follow_layout(kind: SubmessageKind, helper: SubmessageFlagHelper, name: FlagName)
    requires
        spec_flags_writable(kind),
    ensures
        spec_layout_mask(kind, name) != 0 ==> (spec_flags_from_helper(kind, helper) & spec_layout_mask(kind, name)
            != 0) == spec_flag(helper, name),
        spec_flags_from_helper(kind, helper) & !spec_used_bits(kind) == 0,
        spec_used_bits(kind) == spec_layout_mask(kind, FlagName::Endianness) | spec_layout_mask(kind, FlagName::InlineQos)
            | spec_layout_mask(kind, FlagName::Data) | spec_layout_mask(kind, FlagName::Key)
            | spec_layout_mask(kind, FlagName::NonStandardPayload) | spec_layout_mask(kind, FlagName::Final)
            | spec_layout_mask(kind, FlagName::Liveliness) | spec_layout_mask(kind, FlagName::Multicast)
            | spec_layout_mask(kind, FlagName::Invalidate),
{
    let (eb, qb, db, kb, nb, fb, lb, ib) = (helper.EndiannessFlag, helper.InlineQosFlag, helper.DataFlag,
        helper.KeyFlag, helper.NonStandardPayloadFlag, helper.FinalFlag, helper.LivelinessFlag, helper.InvalidateFlag);
    assert((0x01u8 | 0 | 0 | 0 | 0 | 0 | 0 | 0 | 0) == 0x01u8) by (bit_vector);
    match kind {
        SubmessageKind::DATA => {
            let b = mask_if(eb, 1) | mask_if(qb, 2) | mask_if(db, 4) | mask_if(kb, 8) | mask_if(nb, 16);
            assert(b == mask_if(eb, 1) | mask_if(qb, 2) | mask_if(db, 4) | mask_if(kb, 8) | mask_if(nb, 16) ==> (
                (b & 1 != 0) == eb && (b & 2 != 0) == qb && (b & 4 != 0) == db && (b & 8 != 0) == kb
                && (b & 16 != 0) == nb && b & !0x1fu8 == 0)) by (bit_vector);
            assert((0x01u8 | 0x02 | 0x04 | 0x08 | 0x10 | 0 | 0 | 0 | 0) == 0x1fu8) by (bit_vector);
        },
        SubmessageKind::DATA_FRAG => {
            let b = mask_if(eb, 1) | mask_if(qb, 2) | mask_if(kb, 4) | mask_if(nb, 8);
            assert(b == mask_if(eb, 1) | mask_if(qb, 2) | mask_if(kb, 4) | mask_if(nb, 8) ==> (
                (b & 1 != 0) == eb && (b & 2 != 0) == qb && (b & 4 != 0) == kb && (b & 8 != 0) == nb
                && b & !0x0fu8 == 0)) by (bit_vector);
            assert((0x01u8 | 0x02 | 0 | 0x04 | 0x08 | 0 | 0 | 0 | 0) == 0x0fu8) by (bit_vector);
        },
        SubmessageKind::INFO_TS => {
            let b = mask_if(eb, 1) | mask_if(ib, 2);
            assert(b == mask_if(eb, 1) | mask_if(ib, 2) ==> ((b & 1 != 0) == eb && (b & 2 != 0) == ib
                && b & !0x03u8 == 0)) by (bit_vector);
            assert((0x01u8 | 0 | 0 | 0 | 0 | 0 | 0 | 0 | 0x02) == 0x03u8) by (bit_vector);
        },
        SubmessageKind::HEARTBEAT => {
            let b = mask_if(eb, 1) | mask_if(fb, 2) | mask_if(lb, 4);
            assert(b == mask_if(eb, 1) | mask_if(fb, 2) | mask_if(lb, 4) ==> ((b & 1 != 0) == eb
                && (b & 2 != 0) == fb && (b & 4 != 0) == lb && b & !0x07u8 == 0)) by (bit_vector);
            assert((0x01u8 | 0 | 0 | 0 | 0 | 0x02 | 0x04 | 0 | 0) == 0x07u8) by (bit_vector);
        },
        _ => {
            let b = mask_if(eb, 1);
            assert(b == mask_if(eb, 1) ==> ((b & 1 != 0) == eb && b & !0x01u8 == 0)) by (bit_vector);
        },
    }
}

impl SubmessageFlagHelper {
    /// A helper with all flags cleared but the endianness flag, which is set
    /// exactly for little-endian data.
    pub fn new(endianness: Endianness) -> (f: SubmessageFlagHelper)
        ensures
            f == spec_cleared(endianness == Endianness::LittleEndian),
    {
        let mut f = SubmessageFlagHelper {
            KeyFlag: false,
            DataFlag: false,
            InlineQosFlag: false,
            NonStandardPayloadFlag: false,
            EndiannessFlag: false,
            FinalFlag: false,
            LivelinessFlag: false,
            MulticastFlag: false,
            InvalidateFlag: false,
        };
        if endianness == Endianness::LittleEndian {
            f.EndiannessFlag = true;
        }
        return f;
    }

    /// Little endian when the endianness flag is set, else big endian.
    pub fn get_endianness(&self) -> (e: Endianness)
        ensures
            e == spec_endianness_of(*self),
    {
        if self.EndiannessFlag == true {
            return Endianness::LittleEndian;
        } else {
            return Endianness::BigEndian;
        }
    }

    /// Reads the flag byte of a submessage of kind `submessage_kind` into a
    /// helper; the flags that the kind does not use stay cleared.
    pub fn get_submessage_flags_helper_from_submessage_flag(
        submessage_kind: &SubmessageKind,
        flags: &SubmessageFlag,
    ) -> (helper: SubmessageFlagHelper)
        requires
            spec_flags_readable(*submessage_kind),
        ensures
            helper == spec_helper_from_flags(*submessage_kind, flags.flags),
    {
        let mut helper = SubmessageFlagHelper::new(Endianness::BigEndian);
        match submessage_kind {
            SubmessageKind::DATA => {
                helper.EndiannessFlag = flags.is_flag_set(1);
                helper.InlineQosFlag = flags.is_flag_set(2);
                helper.DataFlag = flags.is_flag_set(4);
                helper.KeyFlag = flags.is_flag_set(8);
                helper.NonStandardPayloadFlag = flags.is_flag_set(16);
            },
            SubmessageKind::DATA_FRAG => {
                helper.EndiannessFlag = flags.is_flag_set(1);
                helper.InlineQosFlag = flags.is_flag_set(2);
                helper.KeyFlag = flags.is_flag_set(4);
                helper.NonStandardPayloadFlag = flags.is_flag_set(8);
            },
            SubmessageKind::ACKNACK => {
                helper.EndiannessFlag = flags.is_flag_set(1);
                helper.FinalFlag = flags.is_flag_set(2);
            },
            SubmessageKind::HEARTBEAT => {
                helper.EndiannessFlag = flags.is_flag_set(1);
                helper.FinalFlag = flags.is_flag_set(2);
                helper.LivelinessFlag = flags.is_flag_set(4);
            },
            SubmessageKind::HEARTBEAT_FRAG => {
                helper.EndiannessFlag = flags.is_flag_set(1);
            },
            SubmessageKind::INFO_DST => {
                helper.EndiannessFlag = flags.is_flag_set(1);
            },
            SubmessageKind::INFO_REPLY => {
                helper.EndiannessFlag = flags.is_flag_set(1);
                helper.MulticastFlag = flags.is_flag_set(2);
            },
            SubmessageKind::INFO_SRC => {
                helper.EndiannessFlag = flags.is_flag_set(1);
            },
            SubmessageKind::INFO_TS => {
                helper.EndiannessFlag = flags.is_flag_set(1);
                helper.InvalidateFlag = flags.is_flag_set(2);
            },
            SubmessageKind::PAD => {
                helper.EndiannessFlag = flags.is_flag_set(1);
            },
            SubmessageKind::NACK_FRAG => {
                helper.EndiannessFlag = flags.is_flag_set(1);
            },
            SubmessageKind::INFO_REPLY_IP4 => {
                helper.EndiannessFlag = flags.is_flag_set(1);
                helper.MulticastFlag = flags.is_flag_set(2);
            },
            SubmessageKind::GAP => {
                helper.EndiannessFlag = flags.is_flag_set(1);
            },
            _ => {},
        }
        return helper;
    }

    /// Writes the flags of `helper` that a submessage of kind
    /// `submessage_kind` uses into a flag byte; no other bit is set.
    pub fn create_submessage_flags_from_flag_helper(
        submessage_kind: &SubmessageKind,
        helper: &SubmessageFlagHelper,
    ) -> (flags: SubmessageFlag)
        requires
            spec_flags_writable(*submessage_kind),
        ensures
            flags.flags == spec_flags_from_helper(*submessage_kind, *helper),
    {
        let mut flags = SubmessageFlag { flags: 0b00000000u8 };
        proof {
            lemma_or_nothing();
        }
        match submessage_kind {
            SubmessageKind::DATA => {
                if helper.EndiannessFlag {
                    flags.set_flag(1);
                }
                if helper.InlineQosFlag {
                    flags.set_flag(2);
                }
                if helper.DataFlag {
                    flags.set_flag(4);
                }
                if helper.KeyFlag {
                    flags.set_flag(8);
                }
                if helper.NonStandardPayloadFlag {
                    flags.set_flag(16);
                }
            },
            SubmessageKind::DATA_FRAG => {
                if helper.EndiannessFlag {
                    flags.set_flag(1);
                }
                if helper.InlineQosFlag {
                    flags.set_flag(2);
                }
                if helper.KeyFlag {
                    flags.set_flag(4);
                }
                if helper.NonStandardPayloadFlag {
                    flags.set_flag(8);
                }
            },
            SubmessageKind::INFO_TS => {
                if helper.EndiannessFlag {
                    flags.set_flag(1);
                }
                if helper.InvalidateFlag {
                    flags.set_flag(2);
                }
            },
            SubmessageKind::HEARTBEAT => {
                if helper.EndiannessFlag {
                    flags.set_flag(1);
                }
                if helper.FinalFlag {
                    flags.set_flag(2);
                }
                if helper.LivelinessFlag {
                    flags.set_flag(4);
                }
            },
            SubmessageKind::INFO_DST => {
                if helper.EndiannessFlag {
                    flags.set_flag(1);
                }
            },
            _ => {},
        }
        return flags;
    }
}


/// Length of a submessage header on the wire.
pub const SUBMESSAGE_HEADER_LENGTH: usize = 4;

/// Length of the part of a DATA body that ends with the writer's sequence number.
pub const DATA_FIXED_PART_LENGTH: usize = 20;

/// Why a message could not be read.
#[derive(Clone, Copy, Debug, PartialEq, Eq, Structural)]
pub enum MessageReadError {
    /// The buffer is shorter than a message header.
    HeaderTruncated,
    /// A submessage header announces more body bytes than remain.
    SubmessageTruncated,
}

/// The flag value that a message read from bytes attaches to the
/// submessages that carry one.
pub open spec fn spec_attached_flag() -> SubmessageFlag {
    SubmessageFlag { flags: 1 }
}

/// What the body of a DATA submessage says: the writer's sequence number at
/// bytes 12..20 (high half, then low half), and the inline-QoS and data flags
/// of the header.
pub open spec fn spec_data(body: Seq<u8>, endianness: Endianness, flags: u8) -> Data {
    let helper = spec_helper_from_flags(SubmessageKind::DATA, flags);
    Data {
        writer_sn: SequenceNumber {
            high: spec_i32(endianness, body.subrange(12, 16)) as i32,
            low: spec_u32(endianness, body.subrange(16, 20)) as u32,
        },
        inline_qos_flag: helper.InlineQosFlag,
        data_flag: helper.DataFlag,
    }
}

/// The fewest body bytes from which a submessage of `kind` can be decoded:
/// the fixed part of its body. DATA: extra flags, inline-QoS offset, reader
/// and writer ids, writer sequence number. HEARTBEAT: ids, first and last
/// sequence numbers, count. GAP: ids, gap start, base and size of the gap
/// list. ACKNACK: ids, base and size of the reader's set, count.
/// HEARTBEAT_FRAG: ids, writer sequence number, last fragment, count.
/// NACK_FRAG: ids, writer sequence number, base and size of the fragment
/// set, count. INFO_DST: a participant prefix. INFO_TS: a timestamp.
/// INFO_REPLY: the size of the unicast locator list. INFO_SRC: unused word,
/// version, vendor, participant prefix. Other kinds: none.
pub open spec fn spec_min_body_length(kind: SubmessageKind) -> nat {
    match kind {
        SubmessageKind::DATA => 20,
        SubmessageKind::HEARTBEAT => 28,
        SubmessageKind::GAP => 28,
        SubmessageKind::ACKNACK => 24,
        SubmessageKind::HEARTBEAT_FRAG => 24,
        SubmessageKind::NACK_FRAG => 28,
        SubmessageKind::INFO_DST => 12,
        SubmessageKind::INFO_TS => 8,
        SubmessageKind::INFO_REPLY => 4,
        SubmessageKind::INFO_SRC => 20,
        _ => 0,
    }
}

/// The number of 32-bit words of a bitmap of `num_bits` bits.
pub open spec fn spec_bitmap_words(num_bits: int) -> int {
    (num_bits + 31) / 32
}

/// Identifier of the parameter that ends a parameter list.
pub const PID_SENTINEL: u16 = 0x0001;

/// Whether the parameter list that starts at `pos` in `body` ends inside
/// it: each parameter is an id and a length (two `u16`s) and that many value
/// bytes, and the list ends with the sentinel parameter.
pub open spec fn spec_parameter_list_ends(body: Seq<u8>, pos: int, endianness: Endianness) -> bool
    decreases body.len() - pos,
{
    if pos < 0 || pos + 4 > body.len() {
        false
    } else if spec_u16(endianness, body[pos], body[pos + 1]) == PID_SENTINEL {
        true
    } else {
        let next = pos + 4 + spec_u16(endianness, body[pos + 2], body[pos + 3]);
        if next > body.len() {
            false
        } else {
            spec_parameter_list_ends(body, next, endianness)
        }
    }
}

/// Whether the body of a submessage decodes as its kind: it holds the fixed
/// part (`spec_min_body_length`) and the variable parts that the fixed part
/// announces. ACKNACK and GAP: the bitmap words of their sequence-number
/// set (its size at bytes 16..20 and 24..28). NACK_FRAG: the bitmap words of
/// its fragment-number set (its size at bytes 20..24). INFO_REPLY: the 24-byte
/// unicast locators whose number stands at bytes 0..4. DATA with the
/// inline-QoS flag: an inline-QoS parameter list, starting `octetsToInlineQos`
/// (bytes 2..4) after byte 4, that ends inside the body.
pub open spec fn spec_body_decodes(header: SubmessageHeader, body: Seq<u8>, endianness: Endianness) -> bool {
    let kind = header.submessage_id;
    &&& body.len() >= spec_min_body_length(kind)
    &&& match kind {
        SubmessageKind::ACKNACK =>
            body.len() >= 24 + 4 * spec_bitmap_words(spec_u32(endianness, body.subrange(16, 20))),
        SubmessageKind::GAP =>
            body.len() >= 28 + 4 * spec_bitmap_words(spec_u32(endianness, body.subrange(24, 28))),
        SubmessageKind::NACK_FRAG =>
            body.len() >= 28 + 4 * spec_bitmap_words(spec_u32(endianness, body.subrange(20, 24))),
        SubmessageKind::INFO_REPLY => body.len() >= 4 + 24 * spec_u32(endianness, body.subrange(0, 4)),
        SubmessageKind::DATA => bit_set(header.flags.flags, 2) ==> spec_parameter_list_ends(
            body,
            4 + spec_u16(endianness, body[2], body[3]),
            endianness,
        ),
        _ => true,
    }
}

/// What a submessage of the given header and body is read as: an entity or
/// an interpreter submessage. `None` for the submessages that a message
/// cannot hold when read: PAD, INFO_REPLY_IP4, DATA_FRAG, unknown kinds,
/// and bodies that do not decode as their kind (`spec_body_decodes`).
pub open spec fn spec_classify(header: SubmessageHeader, body: Seq<u8>, endianness: Endianness)
    -> Option<(Option<EntitySubmessage>, Option<InterpreterSubmessage>)>
{
    let flag = spec_attached_flag();
    if !spec_body_decodes(header, body, endianness) {
        None
    } else {
        match header.submessage_id {
            SubmessageKind::DATA => Some(
                (Some(EntitySubmessage::Data(spec_data(body, endianness, header.flags.flags), flag)), None),
            ),
            SubmessageKind::HEARTBEAT => Some((Some(EntitySubmessage::Heartbeat(flag)), None)),
            SubmessageKind::GAP => Some((Some(EntitySubmessage::Gap), None)),
            SubmessageKind::HEARTBEAT_FRAG => Some((Some(EntitySubmessage::HeartbeatFrag), None)),
            SubmessageKind::ACKNACK => Some((Some(EntitySubmessage::AckNack(flag)), None)),
            SubmessageKind::NACK_FRAG => Some((Some(EntitySubmessage::NackFrag), None)),
            SubmessageKind::INFO_DST => Some((None, Some(InterpreterSubmessage::InfoDestination))),
            SubmessageKind::INFO_TS => Some((None, Some(InterpreterSubmessage::InfoTimestamp(flag)))),
            SubmessageKind::INFO_REPLY => Some((None, Some(InterpreterSubmessage::InfoReply(flag)))),
            SubmessageKind::INFO_SRC => Some((None, Some(InterpreterSubmessage::InfoSource))),
            _ => None,
        }
    }
}

/// The header of the submessage at the start of `rest`.
pub open spec fn spec_sub_header(rest: Seq<u8>, endianness: Endianness) -> SubmessageHeader {
    SubmessageHeader {
        submessage_id: SubmessageKind::spec_from_code(rest[0]),
        flags: SubmessageFlag { flags: rest[1] },
        submessage_length: spec_u16(endianness, rest[2], rest[3]) as u16,
    }
}

/// Whether the submessage at the start of `rest` announces more body bytes than follow.
pub open spec fn spec_truncated(rest: Seq<u8>, endianness: Endianness) -> bool {
    let length = spec_sub_header(rest, endianness).submessage_length;
    length != 0 && rest.len() - 4 < length
}

/// The body of the submessage at the start of `rest`: the number of bytes
/// its header gives, or all the rest where that number is 0.
pub open spec fn spec_body(rest: Seq<u8>, endianness: Endianness) -> Seq<u8> {
    let length = spec_sub_header(rest, endianness).submessage_length;
    if length == 0 { rest.skip(4) } else { rest.skip(4).take(length as int) }
}

/// The bytes after the submessage at the start of `rest`.
pub open spec fn spec_remaining(rest: Seq<u8>, endianness: Endianness) -> Seq<u8> {
    let length = spec_sub_header(rest, endianness).submessage_length;
    if length == 0 { Seq::empty() } else { rest.skip(4 + length) }
}

/// The submessages that the bytes `rest` hold, read one after the other
/// until fewer than four bytes remain. A submessage of length 0 takes all the
/// bytes after its header. `Some(Err(..))` where a body is cut short;
/// `None` where a submessage cannot be held (see `spec_classify`).
pub open spec fn spec_read_submessages(rest: Seq<u8>, endianness: Endianness)
    -> Option<Result<Seq<SubMessageView>, MessageReadError>>
    decreases rest.len(),
{
    if rest.len() < 4 {
        Some(Ok(Seq::empty()))
    } else if spec_truncated(rest, endianness) {
        Some(Err(MessageReadError::SubmessageTruncated))
    } else {
        let header = spec_sub_header(rest, endianness);
        let body = spec_body(rest, endianness);
        match spec_classify(header, body, endianness) {
            None => None,
            Some((entity, interpreter)) => {
                let sub = SubMessageView {
                    header,
                    body,
                    submessage: entity,
                    intepreterSubmessage: interpreter,
                };
                spec_prepend(seq![sub], spec_read_submessages(spec_remaining(rest, endianness), endianness))
            },
        }
    }
}

/// `r` with `acc` put before the submessages it holds, if it holds any.
pub open spec fn spec_prepend(
    acc: Seq<SubMessageView>,
    r: Option<Result<Seq<SubMessageView>, MessageReadError>>,
) -> Option<Result<Seq<SubMessageView>, MessageReadError>> {
    match r {
        Some(Ok(tail)) => Some(Ok(acc + tail)),
        _ => r,
    }
}

/// The submessages that the message in `buffer` holds: those after the
/// 20-byte header, or `HeaderTruncated` if there is no room for it.
pub open spec fn spec_read_message(buffer: Seq<u8>, endianness: Endianness)
    -> Option<Result<Seq<SubMessageView>, MessageReadError>>
{
    if buffer.len() < HEADER_LENGTH {
        Some(Err(MessageReadError::HeaderTruncated))
    } else {
        spec_read_submessages(buffer.skip(HEADER_LENGTH as int), endianness)
    }
}

/// The bytes of a submessage: kind, flags, length, body.
pub open spec fn spec_submessage_bytes(sub: SubMessageView, endianness: Endianness) -> Seq<u8> {
    seq![sub.header.submessage_id.spec_code(), sub.header.flags.flags]
        + spec_u16_bytes(endianness, sub.header.submessage_length) + sub.body
}

/// The bytes of a sequence of submessages, one after the other.
pub open spec fn spec_write_submessages(subs: Seq<SubMessageView>, endianness: Endianness) -> Seq<u8>
    decreases subs.len(),
{
    if subs.len() == 0 {
        Seq::empty()
    } else {
        spec_submessage_bytes(subs[0], endianness) + spec_write_submessages(subs.drop_first(), endianness)
    }
}

/// Writing one more submessage appends its bytes.
proof fn lemma_write_submessages_push(subs: Seq<SubMessageView>, sub: SubMessageView, endianness: Endianness)
    ensures
        spec_write_submessages(subs.push(sub), endianness)
            == spec_write_submessages(subs, endianness) + spec_submessage_bytes(sub, endianness),
    decreases subs.len(),
{
    if subs.len() == 0 {
        assert(subs.push(sub).drop_first() =~= Seq::<SubMessageView>::empty());
        assert(subs.push(sub)[0] == sub);
        assert(spec_write_submessages(Seq::<SubMessageView>::empty(), endianness) =~= Seq::<u8>::empty());
        assert(spec_write_submessages(subs, endianness) =~= Seq::<u8>::empty());
        assert(spec_write_submessages(subs.push(sub), endianness)
            =~= spec_submessage_bytes(sub, endianness));
    } else {
        lemma_write_submessages_push(subs.drop_first(), sub, endianness);
        assert(subs.push(sub).drop_first() =~= subs.drop_first().push(sub));
        assert(spec_write_submessages(subs.push(sub), endianness) =~= spec_write_submessages(subs, endianness)
            + spec_submessage_bytes(sub, endianness));
    }
}

/// Reading the submessages of `rest` and writing them again gives `rest`
/// but for the fewer than four bytes that are left over after the last one.
#[verifier::rlimit(40)]
pub proof fn lemma_submessages_read_then_write(rest: Seq<u8>, endianness: Endianness, subs: Seq<SubMessageView>)
    requires
        spec_read_submessages(rest, endianness) == Some(Ok::<Seq<SubMessageView>, MessageReadError>(subs)),
    ensures
        spec_write_submessages(subs, endianness).len() <= rest.len(),
        rest.len() - spec_write_submessages(subs, endianness).len() < 4,
        rest.take(spec_write_submessages(subs, endianness).len() as int) == spec_write_submessages(subs, endianness),
    decreases rest.len(),
{
    if rest.len() < 4 {
        assert(subs =~= Seq::<SubMessageView>::empty());
        assert(rest.take(0) =~= Seq::<u8>::empty());
    } else {
        let body = spec_body(rest, endianness);
        let remaining = spec_remaining(rest, endianness);
        lemma_u16_decode_encode(endianness, rest[2], rest[3]);
        let tail = spec_read_submessages(remaining, endianness);
        assert(tail matches Some(Ok(_)));
        let tail_subs = tail->0->Ok_0;
        assert(subs.drop_first() =~= tail_subs);
        let first = subs[0];
        assert(spec_submessage_bytes(first, endianness) =~= rest.take(4) + body);
        lemma_submessages_read_then_write(remaining, endianness, tail_subs);
        let w = spec_write_submessages(tail_subs, endianness);
        assert(rest =~= rest.take(4) + body + remaining);
        assert(rest.take((4 + body.len() + w.len()) as int) =~= rest.take(4) + body + w);
    }
}


/// The bytes of `buffer` from `from` up to `to`.
fn copy_bytes(buffer: &[u8], from: usize, to: usize) -> (out: Vec<u8>)
    requires
        from <= to <= buffer@.len(),
    ensures
        out@ == buffer@.subrange(from as int, to as int),
{
    let mut out: Vec<u8> = Vec::new();
    let mut i: usize = from;
    while i < to
        invariant
            from <= i <= to <= buffer@.len(),
            out@ == buffer@.subrange(from as int, i as int),
        decreases to - i,
    {
        out.push(buffer[i]);
        assert(buffer@.subrange(from as int, i + 1) =~= buffer@.subrange(from as int, i as int).push(buffer@[i as int]));
        i = i + 1;
    }
    out
}

/// The fewest body bytes from which a submessage of `kind` can be decoded.
fn min_body_length(kind: &SubmessageKind) -> (n: usize)
    ensures
        n == spec_min_body_length(*kind),
{
    match kind {
        SubmessageKind::DATA => DATA_FIXED_PART_LENGTH,
        SubmessageKind::HEARTBEAT => 28,
        SubmessageKind::GAP => 28,
        SubmessageKind::ACKNACK => 24,
        SubmessageKind::HEARTBEAT_FRAG => 24,
        SubmessageKind::NACK_FRAG => 28,
        SubmessageKind::INFO_DST => 12,
        SubmessageKind::INFO_TS => 8,
        SubmessageKind::INFO_REPLY => 4,
        SubmessageKind::INFO_SRC => 20,
        _ => 0,
    }
}

/// Reads the `u32` at `pos` in `body`.
fn body_u32(body: &Vec<u8>, pos: usize, endianness: Endianness) -> (v: u32)
    requires
        pos + 4 <= body.len(),
    ensures
        v == spec_u32(endianness, body@.subrange(pos as int, pos + 4)),
{
    let bytes = [body[pos], body[pos + 1], body[pos + 2], body[pos + 3]];
    assert(bytes@ =~= body@.subrange(pos as int, pos + 4));
    read_u32(endianness, bytes)
}

/// Whether `body` holds, from `fixed` on, the bitmap words of a set whose
/// size in bits is the `u32` at `size_at`.
fn holds_bitmap(body: &Vec<u8>, size_at: usize, fixed: u64, endianness: Endianness) -> (r: bool)
    requires
        size_at + 4 <= body.len(),
        fixed <= 28,
    ensures
        r == (body@.len() >= fixed + 4 * spec_bitmap_words(
            spec_u32(endianness, body@.subrange(size_at as int, size_at + 4)),
        )),
{
    let num_bits = body_u32(body, size_at, endianness);
    let words: u64 = (num_bits as u64 + 31) / 32;
    body.len() as u64 >= fixed + 4 * words
}

/// Whether the parameter list that starts at `start` in `body` ends inside it.
fn parameter_list_ends(body: &Vec<u8>, start: usize, endianness: Endianness) -> (r: bool)
    ensures
        r == spec_parameter_list_ends(body@, start as int, endianness),
{
    let mut pos: usize = start;
    loop
        invariant
            spec_parameter_list_ends(body@, start as int, endianness)
                == spec_parameter_list_ends(body@, pos as int, endianness),
        decreases body@.len() - pos,
    {
        if pos > body.len() || body.len() - pos < 4 {
            return false;
        }
        let pid = read_u16(endianness, [body[pos], body[pos + 1]]);
        if pid == PID_SENTINEL {
            return true;
        }
        let length = read_u16(endianness, [body[pos + 2], body[pos + 3]]);
        if length as usize > body.len() - pos - 4 {
            return false;
        }
        pos = pos + 4 + length as usize;
    }
}

/// Whether the body of a submessage decodes as its kind.
fn body_decodes(header: &SubmessageHeader, body: &Vec<u8>, endianness: Endianness) -> (r: bool)
    ensures
        r == spec_body_decodes(*header, body@, endianness),
{
    if body.len() < min_body_length(&header.submessage_id) {
        return false;
    }
    match header.submessage_id {
        SubmessageKind::ACKNACK => holds_bitmap(body, 16, 24, endianness),
        SubmessageKind::GAP => holds_bitmap(body, 24, 28, endianness),
        SubmessageKind::NACK_FRAG => holds_bitmap(body, 20, 28, endianness),
        SubmessageKind::INFO_REPLY => {
            let count = body_u32(body, 0, endianness);
            body.len() as u64 >= 4 + 24 * (count as u64)
        },
        SubmessageKind::DATA => {
            if header.flags.is_flag_set(2) {
                let offset = read_u16(endianness, [body[2], body[3]]);
                parameter_list_ends(body, 4 + offset as usize, endianness)
            } else {
                true
            }
        },
        _ => true,
    }
}

/// Reads the DATA part of a DATA body.
fn read_data(body: &Vec<u8>, endianness: Endianness, flags: &SubmessageFlag) -> (data: Data)
    requires
        body@.len() >= DATA_FIXED_PART_LENGTH,
    ensures
        data == spec_data(body@, endianness, flags.flags),
{
    let helper = SubmessageFlagHelper::get_submessage_flags_helper_from_submessage_flag(&SubmessageKind::DATA, flags);
    let high_bytes = [body[12], body[13], body[14], body[15]];
    let low_bytes = [body[16], body[17], body[18], body[19]];
    assert(high_bytes@ =~= body@.subrange(12, 16));
    assert(low_bytes@ =~= body@.subrange(16, 20));
    let high = read_i32(endianness, high_bytes);
    let low = read_u32(endianness, low_bytes);
    Data {
        writer_sn: SequenceNumber { high, low },
        inline_qos_flag: helper.InlineQosFlag,
        data_flag: helper.DataFlag,
    }
}

/// Reads a submessage of the given header and body as an entity or an
/// interpreter submessage, or `None` where a message cannot hold it.
fn classify(header: &SubmessageHeader, body: &Vec<u8>, endianness: Endianness)
    -> (r: Option<(Option<EntitySubmessage>, Option<InterpreterSubmessage>)>)
    ensures
        r == spec_classify(*header, body@, endianness),
{
    let flag = SubmessageFlag { flags: 1 };
    if !body_decodes(header, body, endianness) {
        return None;
    }
    match header.submessage_id {
        SubmessageKind::DATA => {
            let data = read_data(body, endianness, &header.flags);
            Some((Some(EntitySubmessage::Data(data, flag)), None))
        },
        SubmessageKind::HEARTBEAT => Some((Some(EntitySubmessage::Heartbeat(flag)), None)),
        SubmessageKind::GAP => Some((Some(EntitySubmessage::Gap), None)),
        SubmessageKind::HEARTBEAT_FRAG => Some((Some(EntitySubmessage::HeartbeatFrag), None)),
        SubmessageKind::ACKNACK => Some((Some(EntitySubmessage::AckNack(flag)), None)),
        SubmessageKind::NACK_FRAG => Some((Some(EntitySubmessage::NackFrag), None)),
        SubmessageKind::INFO_DST => Some((None, Some(InterpreterSubmessage::InfoDestination))),
        SubmessageKind::INFO_TS => Some((None, Some(InterpreterSubmessage::InfoTimestamp(flag)))),
        SubmessageKind::INFO_REPLY => Some((None, Some(InterpreterSubmessage::InfoReply(flag)))),
        SubmessageKind::INFO_SRC => Some((None, Some(InterpreterSubmessage::InfoSource))),
        _ => None,
    }
}

/// One step of reading submessages: a submessage read from the start of
/// `rest` goes after those read before it.
proof fn lemma_read_step(rest: Seq<u8>, endianness: Endianness, sub: SubMessageView, acc: Seq<SubMessageView>)
    requires
        rest.len() >= 4,
        !spec_truncated(rest, endianness),
        sub.header == spec_sub_header(rest, endianness),
        sub.body == spec_body(rest, endianness),
        spec_classify(sub.header, sub.body, endianness) == Some((sub.submessage, sub.intepreterSubmessage)),
    ensures
        spec_prepend(acc, spec_read_submessages(rest, endianness)) == spec_prepend(
            acc.push(sub),
            spec_read_submessages(spec_remaining(rest, endianness), endianness),
        ),
{
    let tail = spec_read_submessages(spec_remaining(rest, endianness), endianness);
    assert(spec_read_submessages(rest, endianness) == spec_prepend(seq![sub], tail));
    match tail {
        Some(Ok(t)) => {
            assert(acc + (seq![sub] + t) =~= acc.push(sub) + t);
        },
        _ => {},
    }
}

/// Reads the submessages that follow the header of the message in `buffer`.
#[verifier::rlimit(40)]
fn read_submessages(buffer: &[u8], endianness: Endianness)
    -> (r: Option<Result<Vec<SubMessage>, MessageReadError>>)
    requires
        buffer@.len() >= HEADER_LENGTH,
    ensures
        match r {
            Some(Ok(subs)) => spec_read_message(buffer@, endianness) == Some(
                Ok::<Seq<SubMessageView>, MessageReadError>(views(subs@)),
            ),
            Some(Err(e)) => spec_read_message(buffer@, endianness) == Some(
                Err::<Seq<SubMessageView>, MessageReadError>(e),
            ),
            None => spec_read_message(buffer@, endianness) is None,
        },
{
    let mut subs: Vec<SubMessage> = Vec::new();
    let mut pos: usize = HEADER_LENGTH;
    assert(views(subs@) =~= Seq::<SubMessageView>::empty());
    loop
        invariant
            HEADER_LENGTH <= pos <= buffer@.len(),
            spec_read_message(buffer@, endianness) == spec_prepend(
                views(subs@),
                spec_read_submessages(buffer@.skip(pos as int), endianness),
            ),
        decreases buffer@.len() - pos,
    {
        let ghost rest = buffer@.skip(pos as int);
        if buffer.len() - pos < SUBMESSAGE_HEADER_LENGTH {
            assert(views(subs@) + Seq::<SubMessageView>::empty() =~= views(subs@));
            return Some(Ok(subs));
        }
        let kind = SubmessageKind::from_code(buffer[pos]);
        let flags = SubmessageFlag { flags: buffer[pos + 1] };
        let length = read_u16(endianness, [buffer[pos + 2], buffer[pos + 3]]);
        assert(rest[0] == buffer@[pos as int] && rest[1] == buffer@[pos + 1] && rest[2] == buffer@[pos + 2]
            && rest[3] == buffer@[pos + 3]);
        let header = SubmessageHeader { submessage_id: kind, flags, submessage_length: length };
        assert(header == spec_sub_header(rest, endianness));
        let body_start = pos + SUBMESSAGE_HEADER_LENGTH;
        let body_end: usize;
        if length == 0 {
            body_end = buffer.len();
            assert(spec_body(rest, endianness) =~= buffer@.subrange(body_start as int, body_end as int));
            assert(spec_remaining(rest, endianness) =~= buffer@.skip(body_end as int));
        } else {
            if buffer.len() - body_start < length as usize {
                return Some(Err(MessageReadError::SubmessageTruncated));
            }
            body_end = body_start + length as usize;
            assert(spec_body(rest, endianness) =~= buffer@.subrange(body_start as int, body_end as int));
            assert(spec_remaining(rest, endianness) =~= buffer@.skip(body_end as int));
        }
        assert(!spec_truncated(rest, endianness));
        let body = copy_bytes(buffer, body_start, body_end);
        match classify(&header, &body, endianness) {
            None => {
                return None;
            },
            Some((entity, interpreter)) => {
                let sub = SubMessage { header, body, submessage: entity, intepreterSubmessage: interpreter };
                let ghost old_views = views(subs@);
                proof {
                    lemma_read_step(rest, endianness, sub@, old_views);
                }
                subs.push(sub);
                assert(views(subs@) =~= old_views.push(sub@));
                pos = body_end;
            },
        }
    }
}


/// An RTPS message: a header and the submessages that follow it.
#[derive(Debug)]
pub struct Message {
    header: Header,
    submessages: Vec<SubMessage>,
}

/// The mathematical value of a message.
pub struct MessageView {
    pub header: Header,
    pub submessages: Seq<SubMessageView>,
}

impl View for Message {
    type V = MessageView;

    closed spec fn view(&self) -> MessageView {
        MessageView { header: self.header, submessages: views(self.submessages@) }
    }
}

/// The header bytes of a new message: "RTPS", version 2.3, vendor 0x01 0x12,
/// and the unknown (all-zero) participant prefix.
pub open spec fn spec_new_header_bytes() -> Seq<u8> {
    seq![0x52u8, 0x54u8, 0x50u8, 0x53u8, 2u8, 3u8, 0x01u8, 0x12u8] + Seq::new(12, |i: int| 0u8)
}

/// The sequence numbers of the DATA submessages among `subs`, in order.
pub open spec fn spec_data_sequence_numbers(subs: Seq<SubMessageView>) -> Seq<SequenceNumber>
    decreases subs.len(),
{
    if subs.len() == 0 {
        Seq::empty()
    } else {
        let earlier = spec_data_sequence_numbers(subs.drop_last());
        match subs.last().submessage {
            Some(EntitySubmessage::Data(data, _)) => earlier.push(data.writer_sn),
            _ => earlier,
        }
    }
}

impl Message {
    /// A message with this implementation's header, the unknown participant
    /// prefix and no submessages.
    pub fn new() -> (m: Message)
        ensures
            spec_header_bytes(m@.header) == spec_new_header_bytes(),
            m@.submessages.len() == 0,
    {
        let m = Message { header: Header::new(GuidPrefix::unknown()), submessages: Vec::new() };
        assert(spec_header_bytes(m.header) =~= spec_new_header_bytes());
        assert(views(m.submessages@) =~= Seq::<SubMessageView>::empty());
        m
    }

    /// Reads a message header from the first 20 bytes of `buffer`; the header
    /// holds no multi-byte integer, so `context` does not change the result.
    pub fn deserialize_header(context: Endianness, buffer: &[u8]) -> (header: Header)
        requires
            buffer@.len() >= HEADER_LENGTH,
        ensures
            spec_header_bytes(header) == buffer@.subrange(0, HEADER_LENGTH as int),
    {
        Header::read_from_bytes(buffer)
    }

    /// The 20 bytes of this message's header.
    pub fn serialize_header(self) -> (bytes: Vec<u8>)
        ensures
            bytes@ == spec_header_bytes(self@.header),
    {
        let mut bytes: Vec<u8> = Vec::new();
        self.header.write_to_bytes(&mut bytes);
        bytes
    }

    /// Appends a submessage.
    pub fn add_submessage(&mut self, submessage: SubMessage)
        ensures
            final(self)@.header == old(self)@.header,
            final(self)@.submessages == old(self)@.submessages.push(submessage@),
    {
        self.submessages.push(submessage);
        assert(views(self.submessages@) =~= views(old(self).submessages@).push(submessage@));
    }

    /// Removes the submessage at `index` from this message, which it consumes.
    pub fn remove_submessage(self, index: usize)
        requires
            index < self@.submessages.len(),
    {
        let mut message = self;
        message.submessages.remove(index);
    }

    /// The submessages of this message, which it consumes.
    pub fn submessages(self) -> (subs: Vec<SubMessage>)
        ensures
            views(subs@) == self@.submessages,
    {
        self.submessages
    }

    /// The submessages of this message.
    pub fn submessages_borrow(&self) -> (subs: &Vec<SubMessage>)
        ensures
            views(subs@) == self@.submessages,
    {
        &self.submessages
    }

    /// Replaces the header.
    pub fn set_header(&mut self, header: Header)
        ensures
            final(self)@.header == header,
            final(self)@.submessages == old(self)@.submessages,
    {
        self.header = header;
    }

    /// The writer sequence numbers of the DATA submessages, in order.
    pub fn get_data_sub_message_sequence_numbers(&self) -> (sequence_numbers: Vec<SequenceNumber>)
        ensures
            sequence_numbers@ == spec_data_sequence_numbers(self@.submessages),
    {
        let mut sequence_numbers: Vec<SequenceNumber> = Vec::new();
        let subs = self.submessages_borrow();
        let mut i: usize = 0;
        while i < subs.len()
            invariant
                i <= subs@.len(),
                views(subs@) == self@.submessages,
                sequence_numbers@ == spec_data_sequence_numbers(views(subs@).take(i as int)),
            decreases subs@.len() - i,
        {
            let mes = &subs[i];
            assert(views(subs@).take(i + 1).drop_last() =~= views(subs@).take(i as int));
            assert(views(subs@).take(i + 1).last() == mes@);
            if mes.submessage.is_some() {
                let entity_sub_message = mes.submessage.as_ref().unwrap();
                let maybe_data_message = entity_sub_message.get_data_submessage();
                if maybe_data_message.is_some() {
                    let sequence_number = maybe_data_message.unwrap().writer_sn;
                    sequence_numbers.push(sequence_number);
                }
            }
            i = i + 1;
        }
        assert(views(subs@).take(subs@.len() as int) =~= views(subs@));
        return sequence_numbers;
    }

    /// Whether a message can be read from `buffer`: whether each submessage
    /// before the first cut-short one is one that a message can hold.
    pub fn is_readable(endianness: Endianness, buffer: &[u8]) -> (readable: bool)
        ensures
            readable == spec_read_message(buffer@, endianness) is Some,
    {
        if buffer.len() < HEADER_LENGTH {
            true
        } else {
            read_submessages(buffer, endianness).is_some()
        }
    }

    /// Reads a message from `buffer`: the 20-byte header, then submessages
    /// until fewer than four bytes are left.
    pub fn read_from_buffer_with_ctx(endianness: Endianness, buffer: &[u8]) -> (r: Result<Message, MessageReadError>)
        requires
            spec_read_message(buffer@, endianness) is Some,
        ensures
            match r {
                Ok(m) => {
                    &&& spec_read_message(buffer@, endianness) == Some(
                        Ok::<Seq<SubMessageView>, MessageReadError>(m@.submessages),
                    )
                    &&& spec_header_bytes(m@.header) == buffer@.subrange(0, HEADER_LENGTH as int)
                },
                Err(e) => spec_read_message(buffer@, endianness) == Some(
                    Err::<Seq<SubMessageView>, MessageReadError>(e),
                ),
            },
    {
        if buffer.len() < HEADER_LENGTH {
            return Err(MessageReadError::HeaderTruncated);
        }
        let header = Header::read_from_bytes(buffer);
        match read_submessages(buffer, endianness) {
            Some(Ok(submessages)) => Ok(Message { header, submessages }),
            Some(Err(e)) => Err(e),
            None => {
                proof {
                    assert(false);
                }
                Err(MessageReadError::SubmessageTruncated)
            },
        }
    }

    /// The bytes of this message: its header, then each submessage's header
    /// (with the length in `endianness`) and body.
    pub fn write_to_vec_with_ctx(&self, endianness: Endianness) -> (bytes: Vec<u8>)
        ensures
            bytes@ == spec_header_bytes(self@.header) + spec_write_submessages(self@.submessages, endianness),
    {
        let mut bytes: Vec<u8> = Vec::new();
        self.header.write_to_bytes(&mut bytes);
        let subs = self.submessages_borrow();
        let mut i: usize = 0;
        assert(views(subs@).take(0) =~= Seq::<SubMessageView>::empty());
        while i < subs.len()
            invariant
                i <= subs@.len(),
                views(subs@) == self@.submessages,
                bytes@ == spec_header_bytes(self@.header) + spec_write_submessages(views(subs@).take(i as int), endianness),
            decreases subs@.len() - i,
        {
            let sub = &subs[i];
            let ghost before = bytes@;
            bytes.push(sub.header.submessage_id.code());
            bytes.push(sub.header.flags.flags);
            match write_u16(endianness, sub.header.submessage_length) {
                Ok(length_bytes) => {
                    bytes.push(length_bytes[0]);
                    bytes.push(length_bytes[1]);
                },
                Err(_) => {},
            }
            let mut j: usize = 0;
            let ghost mid = bytes@;
            while j < sub.body.len()
                invariant
                    j <= sub.body@.len(),
                    bytes@ == mid + sub.body@.take(j as int),
                decreases sub.body@.len() - j,
            {
                bytes.push(sub.body[j]);
                assert(sub.body@.take(j + 1) =~= sub.body@.take(j as int).push(sub.body@[j as int]));
                j = j + 1;
            }
            proof {
                assert(sub.body@.take(sub.body@.len() as int) =~= sub.body@);
                let lb = spec_u16_bytes(endianness, sub.header.submessage_length);
                assert(lb =~= seq![lb[0], lb[1]]);
                assert(bytes@ =~= before + spec_submessage_bytes(sub@, endianness));
                lemma_write_submessages_push(views(subs@).take(i as int), sub@, endianness);
                assert(views(subs@).take(i + 1) =~= views(subs@).take(i as int).push(sub@));
            }
            i = i + 1;
        }
        assert(views(subs@).take(subs@.len() as int) =~= views(subs@));
        bytes
    }
}

impl Default for Message {
    fn default() -> (m: Message)
        ensures
            spec_header_bytes(m@.header) == spec_new_header_bytes(),
            m@.submessages.len() == 0,
    {
        Message::new()
    }
}

/// Adding submessages one after another to a message that holds none leaves
/// it holding exactly those submessages, in the order they were added:
/// `states[i]` is the message before the `i`-th addition, as `new` and
/// `add_submessage` leave it.
pub proof fn lemma_added_submessages_in_order(states: Seq<MessageView>, added: Seq<SubMessageView>)
    requires
        states.len() == added.len() + 1,
        states[0].submessages.len() == 0,
        forall|i: int| 0 <= i < added.len() ==>
            #[trigger] states[i + 1].submessages == states[i].submessages.push(added[i]),
    ensures
        states[added.len() as int].submessages == added,
    decreases added.len(),
{
    if added.len() == 0 {
        assert(states[0].submessages =~= added);
    } else {
        let n = added.len() - 1;
        lemma_added_submessages_in_order(states.take(n + 1), added.take(n));
        assert(states.take(n + 1)[n] == states[n]);
        assert(states[n + 1].submessages == states[n].submessages.push(added[n]));
        assert(added.take(n).push(added[n]) =~= added);
    }
}

/// Each submessage read from bytes is read as what its header and body
/// make of it: `spec_classify` accepts it with the parts it holds.
pub proof fn lemma_read_submessages_classified(rest: Seq<u8>, endianness: Endianness, subs: Seq<SubMessageView>)
    requires
        spec_read_submessages(rest, endianness) == Some(Ok::<Seq<SubMessageView>, MessageReadError>(subs)),
    ensures
        forall|i: int| 0 <= i < subs.len() ==> spec_classify(#[trigger] subs[i].header, subs[i].body, endianness)
            == Some((subs[i].submessage, subs[i].intepreterSubmessage)),
    decreases rest.len(),
{
    if rest.len() >= 4 {
        let remaining = spec_remaining(rest, endianness);
        let tail = spec_read_submessages(remaining, endianness);
        assert(tail matches Some(Ok(_)));
        let tail_subs = tail->0->Ok_0;
        assert(subs.drop_first() =~= tail_subs);
        lemma_read_submessages_classified(remaining, endianness, tail_subs);
        assert forall|i: int| 0 <= i < subs.len() implies spec_classify(#[trigger] subs[i].header, subs[i].body, endianness)
            == Some((subs[i].submessage, subs[i].intepreterSubmessage)) by {
            if i > 0 {
                assert(subs[i] == tail_subs[i - 1]);
            }
        }
    }
}

/// A DATA part is read only from a DATA submessage, and what it says comes
/// from the header's flag byte and the body's bytes: the inline-QoS flag is
/// bit 1 of the flag byte, the data flag bit 2, and the writer sequence
/// number is the `i32` at bytes 12..16 (high half) and the `u32` at bytes
/// 16..20 (low half) of the body, in the message's byte order.
pub proof fn lemma_classified_data(header: SubmessageHeader, body: Seq<u8>, endianness: Endianness)
    requires
        spec_classify(header, body, endianness) matches Some((Some(EntitySubmessage::Data(_, _)), _)),
    ensures
        ({
            let (entity, _) = spec_classify(header, body, endianness)->0;
            let data = entity->Some_0->Data_0;
            &&& header.submessage_id == SubmessageKind::DATA
            &&& body.len() >= 20
            &&& data.inline_qos_flag == (header.flags.flags & 0x02 != 0)
            &&& data.data_flag == (header.flags.flags & 0x04 != 0)
            &&& data.writer_sn.high as int == spec_i32(endianness, body.subrange(12, 16))
            &&& data.writer_sn.low as int == spec_u32(endianness, body.subrange(16, 20))
        }),
{
    let b = body.subrange(12, 16);
    let c = body.subrange(16, 20);
    assert(0 <= spec_u32(endianness, b) < 0x1_0000_0000) by (nonlinear_arith)
        requires 0 <= b[0] < 256, 0 <= b[1] < 256, 0 <= b[2] < 256, 0 <= b[3] < 256;
    assert(0 <= spec_u32(endianness, c) < 0x1_0000_0000) by (nonlinear_arith)
        requires 0 <= c[0] < 256, 0 <= c[1] < 256, 0 <= c[2] < 256, 0 <= c[3] < 256;
}

/// Every DATA submessage of a message read from bytes carries the flags and
/// writer sequence number that its own header and body give
/// (see `lemma_classified_data`).
pub proof fn lemma_read_data_parts(buffer: Seq<u8>, endianness: Endianness, subs: Seq<SubMessageView>, i: int)
    requires
        spec_read_message(buffer, endianness) == Some(Ok::<Seq<SubMessageView>, MessageReadError>(subs)),
        0 <= i < subs.len(),
        subs[i].submessage matches Some(EntitySubmessage::Data(_, _)),
    ensures
        ({
            let sub = subs[i];
            let data = sub.submessage->Some_0->Data_0;
            &&& sub.header.submessage_id == SubmessageKind::DATA
            &&& sub.body.len() >= 20
            &&& data.inline_qos_flag == (sub.header.flags.flags & 0x02 != 0)
            &&& data.data_flag == (sub.header.flags.flags & 0x04 != 0)
            &&& data.writer_sn.high as int == spec_i32(endianness, sub.body.subrange(12, 16))
            &&& data.writer_sn.low as int == spec_u32(endianness, sub.body.subrange(16, 20))
        }),
{
    lemma_read_submessages_classified(buffer.skip(HEADER_LENGTH as int), endianness, subs);
    let sub = subs[i];
    assert(spec_classify(sub.header, sub.body, endianness) == Some((sub.submessage, sub.intepreterSubmessage)));
    lemma_classified_data(sub.header, sub.body, endianness);
}

/// The sequence numbers of DATA submessages, one after the other: those of a
/// concatenation are those of each part, and a single submessage has its
/// writer sequence number if it is a DATA submessage and none otherwise.
pub proof fn lemma_data_sequence_numbers_concat(a: Seq<SubMessageView>, b: Seq<SubMessageView>)
    ensures
        spec_data_sequence_numbers(a + b) == spec_data_sequence_numbers(a) + spec_data_sequence_numbers(b),
    decreases b.len(),
{
    if b.len() == 0 {
        assert(a + b =~= a);
        assert(spec_data_sequence_numbers(a) + Seq::<SequenceNumber>::empty() =~= spec_data_sequence_numbers(a));
    } else {
        lemma_data_sequence_numbers_concat(a, b.drop_last());
        assert((a + b).drop_last() =~= a + b.drop_last());
        assert((a + b).last() == b.last());
        match b.last().submessage {
            Some(EntitySubmessage::Data(data, _)) => {
                assert(spec_data_sequence_numbers(a) + spec_data_sequence_numbers(b.drop_last()).push(data.writer_sn)
                    =~= (spec_data_sequence_numbers(a) + spec_data_sequence_numbers(b.drop_last())).push(data.writer_sn));
            },
            _ => {},
        }
    }
}

/// A single submessage contributes its writer sequence number if it is a
/// DATA submessage, and nothing otherwise; none come from no submessages.
pub proof fn lemma_data_sequence_numbers_single(sub: SubMessageView)
    ensures
        spec_data_sequence_numbers(Seq::empty()) == Seq::<SequenceNumber>::empty(),
        spec_data_sequence_numbers(seq![sub]) == match sub.submessage {
            Some(EntitySubmessage::Data(data, _)) => seq![data.writer_sn],
            _ => Seq::<SequenceNumber>::empty(),
        },
{
    assert(seq![sub].drop_last() =~= Seq::<SubMessageView>::empty());
    assert(seq![sub].last() == sub);
    assert(Seq::<SequenceNumber>::empty().push(sub.submessage->Some_0->Data_0.writer_sn) =~= seq![sub.submessage->Some_0->Data_0.writer_sn]);
}

/// Reading a message from bytes and writing it again, in the same byte
/// order, gives the bytes back, but for the fewer than four bytes left over
/// after the last submessage.
pub proof fn lemma_message_read_then_write(
    buffer: Seq<u8>,
    endianness: Endianness,
    header: Header,
    subs: Seq<SubMessageView>,
)
    requires
        spec_read_message(buffer, endianness) == Some(Ok::<Seq<SubMessageView>, MessageReadError>(subs)),
        spec_header_bytes(header) == buffer.subrange(0, HEADER_LENGTH as int),
    ensures
        ({
            let written = spec_header_bytes(header) + spec_write_submessages(subs, endianness);
            &&& written.len() <= buffer.len()
            &&& buffer.len() - written.len() < 4
            &&& buffer.take(written.len() as int) == written
        }),
{
    let rest = buffer.skip(HEADER_LENGTH as int);
    lemma_submessages_read_then_write(rest, endianness, subs);
    let w = spec_write_submessages(subs, endianness);
    assert(buffer =~= buffer.subrange(0, HEADER_LENGTH as int) + rest);
    assert(buffer.take(HEADER_LENGTH + w.len()) =~= spec_header_bytes(header) + w);
}


/// Submessages that can be written and read back as they are: each has a
/// well-formed kind, is read as what it holds, and announces the length of
/// its body; only the last may instead announce 0 (a body that runs to the end).
pub open spec fn spec_well_formed_submessages(subs: Seq<SubMessageView>, endianness: Endianness) -> bool {
    forall|i: int|
        0 <= i < subs.len() ==> {
            let s = #[trigger] subs[i];
            &&& s.header.submessage_id.wf()
            &&& spec_classify(s.header, s.body, endianness) == Some((s.submessage, s.intepreterSubmessage))
            &&& ((s.body.len() > 0 && s.header.submessage_length == s.body.len())
                || (i == subs.len() - 1 && s.header.submessage_length == 0))
        }
}

/// The bytes of a submessage followed by `tail_bytes` read back as its
/// header and body, with `tail_bytes` left after it.
proof fn lemma_submessage_bytes_read(s: SubMessageView, tail_bytes: Seq<u8>, endianness: Endianness)
    requires
        s.header.submessage_id.wf(),
        (s.body.len() > 0 && s.header.submessage_length == s.body.len())
            || (s.header.submessage_length == 0 && tail_bytes.len() == 0),
    ensures
        ({
            let bytes = spec_submessage_bytes(s, endianness) + tail_bytes;
            &&& bytes.len() >= 4
            &&& !spec_truncated(bytes, endianness)
            &&& spec_sub_header(bytes, endianness) == s.header
            &&& spec_body(bytes, endianness) == s.body
            &&& spec_remaining(bytes, endianness) == tail_bytes
        }),
{
    let bytes = spec_submessage_bytes(s, endianness) + tail_bytes;
    let length = s.header.submessage_length;
    lemma_u16_encode_decode(endianness, length);
    let lb = spec_u16_bytes(endianness, length);
    assert(bytes =~= seq![s.header.submessage_id.spec_code(), s.header.flags.flags, lb[0], lb[1]] + s.body + tail_bytes);
    lemma_kind_code_round_trip(s.header.submessage_id.spec_code(), s.header.submessage_id);
    assert(spec_sub_header(bytes, endianness) == s.header);
    if length == 0 {
        assert(spec_body(bytes, endianness) =~= s.body);
        assert(spec_remaining(bytes, endianness) =~= tail_bytes);
    } else {
        assert(spec_body(bytes, endianness) =~= s.body);
        assert(spec_remaining(bytes, endianness) =~= tail_bytes);
    }
}

/// Writing well-formed submessages and reading the bytes gives them back.
pub proof fn lemma_submessages_write_then_read(subs: Seq<SubMessageView>, endianness: Endianness)
    requires
        spec_well_formed_submessages(subs, endianness),
    ensures
        spec_read_submessages(spec_write_submessages(subs, endianness), endianness) == Some(
            Ok::<Seq<SubMessageView>, MessageReadError>(subs),
        ),
    decreases subs.len(),
{
    let bytes = spec_write_submessages(subs, endianness);
    if subs.len() == 0 {
        assert(bytes.len() == 0);
        assert(subs =~= Seq::<SubMessageView>::empty());
    } else {
        let s = subs[0];
        let tail = subs.drop_first();
        assert(spec_well_formed_submessages(tail, endianness)) by {
            assert forall|i: int| 0 <= i < tail.len() implies {
                let t = #[trigger] tail[i];
                &&& t.header.submessage_id.wf()
                &&& spec_classify(t.header, t.body, endianness) == Some((t.submessage, t.intepreterSubmessage))
                &&& ((t.body.len() > 0 && t.header.submessage_length == t.body.len())
                    || (i == tail.len() - 1 && t.header.submessage_length == 0))
            } by {
                assert(tail[i] == subs[i + 1]);
            }
        }
        lemma_submessages_write_then_read(tail, endianness);
        let tail_bytes = spec_write_submessages(tail, endianness);
        if s.header.submessage_length == 0 && !(s.body.len() > 0 && s.header.submessage_length == s.body.len()) {
            assert(tail.len() == 0);
            assert(tail_bytes =~= Seq::<u8>::empty());
        }
        lemma_submessage_bytes_read(s, tail_bytes, endianness);
        lemma_read_step(bytes, endianness, s, Seq::empty());
        let r = spec_read_submessages(bytes, endianness);
        assert(seq![s] + tail =~= subs);
        assert(Seq::<SubMessageView>::empty().push(s) =~= seq![s]);
        match r {
            Some(Ok(x)) => {
                assert(Seq::<SubMessageView>::empty() + x =~= x);
            },
            _ => {},
        }
    }
}

/// Writing a message whose submessages are well formed and reading the
/// bytes, in the same byte order, gives back its header and submessages.
pub proof fn lemma_message_write_then_read(header: Header, subs: Seq<SubMessageView>, endianness: Endianness)
    requires
        spec_well_formed_submessages(subs, endianness),
    ensures
        ({
            let written = spec_header_bytes(header) + spec_write_submessages(subs, endianness);
            &&& spec_read_message(written, endianness) == Some(Ok::<Seq<SubMessageView>, MessageReadError>(subs))
            &&& written.subrange(0, HEADER_LENGTH as int) == spec_header_bytes(header)
        }),
{
    let written = spec_header_bytes(header) + spec_write_submessages(subs, endianness);
    lemma_submessages_write_then_read(subs, endianness);
    assert(written.skip(HEADER_LENGTH as int) =~= spec_write_submessages(subs, endianness));
    assert(written.subrange(0, HEADER_LENGTH as int) =~= spec_header_bytes(header));
}

} // verus!
