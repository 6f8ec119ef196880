//! Submessage kinds, flags and headers, and the submessages a message holds.
use vstd::prelude::*;
use crate::structure::SequenceNumber;

verus! {

/// The kind of an RTPS submessage, as named by its one-byte identifier.
/// `Unknown` carries any identifier that names none of the others.
#[allow(non_camel_case_types)]
#[derive(Clone, Copy, Debug, PartialEq, Eq, Structural)]
pub enum SubmessageKind {
    PAD,
    ACKNACK,
    HEARTBEAT,
    GAP,
    INFO_TS,
    INFO_SRC,
    INFO_REPLY_IP4,
    INFO_DST,
    INFO_REPLY,
    NACK_FRAG,
    HEARTBEAT_FRAG,
    DATA,
    DATA_FRAG,
    Unknown(u8),
}

impl SubmessageKind {
    /// The identifier byte of this kind.
    pub open spec fn spec_code(self) -> u8 {
        match self {
            SubmessageKind::PAD => 0x01,
            SubmessageKind::ACKNACK => 0x06,
            SubmessageKind::HEARTBEAT => 0x07,
            SubmessageKind::GAP => 0x08,
            SubmessageKind::INFO_TS => 0x09,
            SubmessageKind::INFO_SRC => 0x0c,
            SubmessageKind::INFO_REPLY_IP4 => 0x0d,
            SubmessageKind::INFO_DST => 0x0e,
            SubmessageKind::INFO_REPLY => 0x0f,
            SubmessageKind::NACK_FRAG => 0x12,
            SubmessageKind::HEARTBEAT_FRAG => 0x13,
            SubmessageKind::DATA => 0x15,
            SubmessageKind::DATA_FRAG => 0x16,
            SubmessageKind::Unknown(code) => code,
        }
    }

    /// The kind that an identifier byte names.
    pub open spec fn spec_from_code(code: u8) -> SubmessageKind {
        if code == 0x01 {
            SubmessageKind::PAD
        } else if code == 0x06 {
            SubmessageKind::ACKNACK
        } else if code == 0x07 {
            SubmessageKind::HEARTBEAT
        } else if code == 0x08 {
            SubmessageKind::GAP
        } else if code == 0x09 {
            SubmessageKind::INFO_TS
        } else if code == 0x0c {
            SubmessageKind::INFO_SRC
        } else if code == 0x0d {
            SubmessageKind::INFO_REPLY_IP4
        } else if code == 0x0e {
            SubmessageKind::INFO_DST
        } else if code == 0x0f {
            SubmessageKind::INFO_REPLY
        } else if code == 0x12 {
            SubmessageKind::NACK_FRAG
        } else if code == 0x13 {
            SubmessageKind::HEARTBEAT_FRAG
        } else if code == 0x15 {
            SubmessageKind::DATA
        } else if code == 0x16 {
            SubmessageKind::DATA_FRAG
        } else {
            SubmessageKind::Unknown(code)
        }
    }

    /// A kind is well formed when an `Unknown` one carries no known identifier.
    pub open spec fn wf(self) -> bool {
        self matches SubmessageKind::Unknown(code) ==> Self::spec_from_code(code) == self
    }

    /// The kind that `code` names.
    pub fn from_code(code: u8) -> (kind: SubmessageKind)
        ensures
            kind == Self::spec_from_code(code),
            kind.wf(),
    {
        if code == 0x01 {
            SubmessageKind::PAD
        } else if code == 0x06 {
            SubmessageKind::ACKNACK
        } else if code == 0x07 {
            SubmessageKind::HEARTBEAT
        } else if code == 0x08 {
            SubmessageKind::GAP
        } else if code == 0x09 {
            SubmessageKind::INFO_TS
        } else if code == 0x0c {
            SubmessageKind::INFO_SRC
        } else if code == 0x0d {
            SubmessageKind::INFO_REPLY_IP4
        } else if code == 0x0e {
            SubmessageKind::INFO_DST
        } else if code == 0x0f {
            SubmessageKind::INFO_REPLY
        } else if code == 0x12 {
            SubmessageKind::NACK_FRAG
        } else if code == 0x13 {
            SubmessageKind::HEARTBEAT_FRAG
        } else if code == 0x15 {
            SubmessageKind::DATA
        } else if code == 0x16 {
            SubmessageKind::DATA_FRAG
        } else {
            SubmessageKind::Unknown(code)
        }
    }

    /// The identifier byte of this kind.
    pub fn code(&self) -> (code: u8)
        ensures
            code == self.spec_code(),
    {
        match self {
            SubmessageKind::PAD => 0x01,
            SubmessageKind::ACKNACK => 0x06,
            SubmessageKind::HEARTBEAT => 0x07,
            SubmessageKind::GAP => 0x08,
            SubmessageKind::INFO_TS => 0x09,
            SubmessageKind::INFO_SRC => 0x0c,
            SubmessageKind::INFO_REPLY_IP4 => 0x0d,
            SubmessageKind::INFO_DST => 0x0e,
            SubmessageKind::INFO_REPLY => 0x0f,
            SubmessageKind::NACK_FRAG => 0x12,
            SubmessageKind::HEARTBEAT_FRAG => 0x13,
            SubmessageKind::DATA => 0x15,
            SubmessageKind::DATA_FRAG => 0x16,
            SubmessageKind::Unknown(code) => *code,
        }
    }
}

/// Reading a kind from its byte and writing it back gives the byte; a well
/// formed kind written and read back is the same kind.
pub proof fn lemma_kind_code_round_trip(code: u8, kind: SubmessageKind)
    ensures
        SubmessageKind::spec_from_code(code).spec_code() == code,
        kind.wf() ==> SubmessageKind::spec_from_code(kind.spec_code()) == kind,
{
}

/// The flag byte of a submessage header; what each bit means depends on the kind.
#[derive(Clone, Copy, Debug, PartialEq, Eq, Structural)]
pub struct SubmessageFlag {
    pub flags: u8,
}

impl SubmessageFlag {
    /// Whether any bit of `mask` is set.
    pub fn is_flag_set(&self, mask: u8) -> (set: bool)
        ensures
            set == (self.flags & mask != 0),
    {
        self.flags & mask != 0
    }

    /// Sets the bits of `mask`.
    pub fn set_flag(&mut self, mask: u8)
        ensures
            final(self).flags == old(self).flags | mask,
    {
        self.flags = self.flags | mask;
    }
}

/// The four bytes that open each submessage: kind, flags and the length of
/// the body that follows (0: the body runs to the end of the message).
#[derive(Clone, Copy, Debug, PartialEq, Eq, Structural)]
pub struct SubmessageHeader {
    pub submessage_id: SubmessageKind,
    pub flags: SubmessageFlag,
    pub submessage_length: u16,
}

/// What a DATA submessage says of the change it carries.
#[derive(Clone, Copy, Debug, PartialEq, Eq, Structural)]
pub struct Data {
    /// Sequence number of the change in the writer's history.
    pub writer_sn: SequenceNumber,
    /// Whether the body holds inline QoS parameters.
    pub inline_qos_flag: bool,
    /// Whether the body holds serialized data.
    pub data_flag: bool,
}

/// Submessages that carry information about a reader or writer entity.
#[derive(Clone, Copy, Debug, PartialEq, Eq, Structural)]
pub enum EntitySubmessage {
    AckNack(SubmessageFlag),
    Data(Data, SubmessageFlag),
    Gap,
    Heartbeat(SubmessageFlag),
    HeartbeatFrag,
    NackFrag,
}

impl EntitySubmessage {
    /// The DATA part of this submessage, if it is a DATA submessage.
    pub fn get_data_submessage(&self) -> (data: Option<&Data>)
        ensures
            data == (match *self {
                EntitySubmessage::Data(d, _) => Some(&d),
                _ => None::<&Data>,
            }),
    {
        match self {
            EntitySubmessage::Data(d, _) => Some(d),
            _ => None,
        }
    }
}

/// Submessages that change how the following submessages are interpreted.
#[derive(Clone, Copy, Debug, PartialEq, Eq, Structural)]
pub enum InterpreterSubmessage {
    InfoSource,
    InfoDestination,
    InfoReply(SubmessageFlag),
    InfoTimestamp(SubmessageFlag),
}

/// One submessage of a message: its header, the bytes of its body, and what
/// was read from it.
#[allow(non_snake_case)]
#[derive(Clone, Debug)]
pub struct SubMessage {
    pub header: SubmessageHeader,
    pub body: Vec<u8>,
    pub submessage: Option<EntitySubmessage>,
    pub intepreterSubmessage: Option<InterpreterSubmessage>,
}

/// The mathematical value of a submessage.
#[allow(non_snake_case)]
pub struct SubMessageView {
    pub header: SubmessageHeader,
    pub body: Seq<u8>,
    pub submessage: Option<EntitySubmessage>,
    pub intepreterSubmessage: Option<InterpreterSubmessage>,
}

impl View for SubMessage {
    type V = SubMessageView;

    open spec fn view(&self) -> SubMessageView {
        SubMessageView {
            header: self.header,
            body: self.body@,
            submessage: self.submessage,
            intepreterSubmessage: self.intepreterSubmessage,
        }
    }
}

/// The values of a sequence of submessages.
pub open spec fn views(subs: Seq<SubMessage>) -> Seq<SubMessageView> {
    subs.map_values(|s: SubMessage| s@)
}

} // verus!
