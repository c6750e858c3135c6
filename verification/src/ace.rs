//! Access control entry (ACE) decoding.
//!
//! On-disk layout: `type:u8, flags:u8, size:u16 LE`, followed by `size - 4`
//! bytes of type-specific body. Known SID-bearing bodies are decoded into
//! structured fields; every other body is kept as an opaque payload of the
//! declared length, so that the cursor always advances by exactly `size`
//! bytes and the entries that follow stay synchronised.
use vstd::prelude::*;

use crate::bytes::{copy_range, le16, le32, read_le16, read_le32};
use crate::errors::DecodeError;
use crate::sid::{decode_sid, sid_at, sid_ok, sid_wf, Sid, SidModel};

verus! {

/// The type tag of an access control entry.
#[derive(Clone, Copy, Debug, PartialEq, Eq)]
pub enum AceType {
    AccessAllowed,
    AccessDenied,
    SystemAudit,
    SystemAlarm,
    AccessAllowedCompound,
    AccessAllowedObject,
    AccessDeniedObject,
    SystemAuditObject,
    SystemAlarmObject,
    AccessAllowedCallback,
    AccessDeniedCallback,
    AccessAllowedCallbackObject,
    AccessDeniedCallbackObject,
    SystemAuditCallback,
    SystemAlarmCallback,
    SystemAuditCallbackObject,
    SystemAlarmCallbackObject,
    SystemMandatoryLabel,
    SystemResourceAttribute,
    SystemScopedPolicyId,
    SystemProcessTrustLabel,
    SystemAccessFilter,
    /// A tag this decoder does not recognise; the payload is kept opaque.
    Unknown(u8),
}

/// The tag value `t` stands for.
pub open spec fn ace_type_of(t: u8) -> AceType {
    if t == 0x00 {
        AceType::AccessAllowed
    } else if t == 0x01 {
        AceType::AccessDenied
    } else if t == 0x02 {
        AceType::SystemAudit
    } else if t == 0x03 {
        AceType::SystemAlarm
    } else if t == 0x04 {
        AceType::AccessAllowedCompound
    } else if t == 0x05 {
        AceType::AccessAllowedObject
    } else if t == 0x06 {
        AceType::AccessDeniedObject
    } else if t == 0x07 {
        AceType::SystemAuditObject
    } else if t == 0x08 {
        AceType::SystemAlarmObject
    } else if t == 0x09 {
        AceType::AccessAllowedCallback
    } else if t == 0x0a {
        AceType::AccessDeniedCallback
    } else if t == 0x0b {
        AceType::AccessAllowedCallbackObject
    } else if t == 0x0c {
        AceType::AccessDeniedCallbackObject
    } else if t == 0x0d {
        AceType::SystemAuditCallback
    } else if t == 0x0e {
        AceType::SystemAlarmCallback
    } else if t == 0x0f {
        AceType::SystemAuditCallbackObject
    } else if t == 0x10 {
        AceType::SystemAlarmCallbackObject
    } else if t == 0x11 {
        AceType::SystemMandatoryLabel
    } else if t == 0x12 {
        AceType::SystemResourceAttribute
    } else if t == 0x13 {
        AceType::SystemScopedPolicyId
    } else if t == 0x14 {
        AceType::SystemProcessTrustLabel
    } else if t == 0x15 {
        AceType::SystemAccessFilter
    } else {
        AceType::Unknown(t)
    }
}

/// Tags whose body is an access mask followed by a security identifier.
pub open spec fn is_basic_tag(t: u8) -> bool {
    ||| t == 0x00
    ||| t == 0x01
    ||| t == 0x02
    ||| t == 0x03
    ||| t == 0x09
    ||| t == 0x0a
    ||| t == 0x0d
    ||| t == 0x0e
    ||| t == 0x11
    ||| t == 0x12
    ||| t == 0x13
    ||| t == 0x14
    ||| t == 0x15
}

/// Tags whose body is an access mask, object flags, two sixteen-byte object
/// identifiers, and a security identifier.
pub open spec fn is_object_tag(t: u8) -> bool {
    ||| t == 0x05
    ||| t == 0x06
    ||| t == 0x07
    ||| t == 0x08
    ||| t == 0x0b
    ||| t == 0x0c
    ||| t == 0x0f
    ||| t == 0x10
}

/// The type-specific body of an access control entry.
#[derive(Clone, Debug, PartialEq, Eq)]
pub enum AceData {
    /// An access mask and the identifier it applies to.
    Basic { access_mask: u32, sid: Sid },
    /// An access mask, object flags, two sixteen-byte object identifiers,
    /// and the identifier the entry applies to.
    Object {
        access_mask: u32,
        object_flags: u32,
        object_type: Vec<u8>,
        inherited_object_type: Vec<u8>,
        sid: Sid,
    },
    /// The raw body of an entry whose type this decoder does not interpret;
    /// exactly `size - 4` bytes.
    Opaque { bytes: Vec<u8> },
}

/// Mathematical model of [`AceData`].
#[verifier::ext_equal]
pub enum AceDataModel {
    Basic { access_mask: u32, sid: SidModel },
    Object {
        access_mask: u32,
        object_flags: u32,
        object_type: Seq<u8>,
        inherited_object_type: Seq<u8>,
        sid: SidModel,
    },
    Opaque { bytes: Seq<u8> },
}

impl View for AceData {
    type V = AceDataModel;

    open spec fn view(&self) -> AceDataModel {
        match self {
            AceData::Basic { access_mask, sid } => AceDataModel::Basic {
                access_mask: *access_mask,
                sid: sid@,
            },
            AceData::Object {
                access_mask,
                object_flags,
                object_type,
                inherited_object_type,
                sid,
            } => AceDataModel::Object {
                access_mask: *access_mask,
                object_flags: *object_flags,
                object_type: object_type@,
                inherited_object_type: inherited_object_type@,
                sid: sid@,
            },
            AceData::Opaque { bytes } => AceDataModel::Opaque { bytes: bytes@ },
        }
    }
}

/// One access control entry.
#[derive(Clone, Debug, PartialEq, Eq)]
pub struct Ace {
    pub ace_type: AceType,
    /// The raw flag bitset byte.
    pub ace_flags: u8,
    pub data: AceData,
}

/// Mathematical model of an [`Ace`].
#[verifier::ext_equal]
pub struct AceModel {
    pub ace_type: AceType,
    pub ace_flags: u8,
    pub data: AceDataModel,
}

impl View for Ace {
    type V = AceModel;

    open spec fn view(&self) -> AceModel {
        AceModel { ace_type: self.ace_type, ace_flags: self.ace_flags, data: self.data@ }
    }
}

/// Every identifier inside the entry holds its six authority bytes.
pub open spec fn ace_wf(a: AceModel) -> bool {
    match a.data {
        AceDataModel::Basic { sid, .. } => sid_wf(sid),
        AceDataModel::Object { sid, .. } => sid_wf(sid),
        AceDataModel::Opaque { .. } => true,
    }
}

/// The entry starting at `pos` lies wholly within `d[..end]`, its declared
/// size is at least the four header bytes, and a typed body fits inside it.
pub open spec fn ace_ok(d: Seq<u8>, pos: int, end: int) -> bool {
    let size = le16(d, pos + 2);
    &&& 0 <= pos
    &&& pos + 4 <= end
    &&& size >= 4
    &&& pos + size <= end
    &&& (is_basic_tag(d[pos]) ==> sid_ok(d, pos + 8, pos + size))
    &&& (is_object_tag(d[pos]) ==> pos + 44 <= pos + size && sid_ok(d, pos + 44, pos + size))
}

/// First position after the entry starting at `pos`: always `pos` plus the
/// declared size, whatever the type tag.
pub open spec fn ace_end(d: Seq<u8>, pos: int) -> int {
    pos + le16(d, pos + 2)
}

/// The entry encoded at `pos` in `d`.
pub open spec fn ace_at(d: Seq<u8>, pos: int) -> AceModel {
    let tag = d[pos];
    let size = le16(d, pos + 2);
    AceModel {
        ace_type: ace_type_of(tag),
        ace_flags: d[pos + 1],
        data: if is_basic_tag(tag) {
            AceDataModel::Basic { access_mask: le32(d, pos + 4) as u32, sid: sid_at(d, pos + 8) }
        } else if is_object_tag(tag) {
            AceDataModel::Object {
                access_mask: le32(d, pos + 4) as u32,
                object_flags: le32(d, pos + 8) as u32,
                object_type: d.subrange(pos + 12, pos + 28),
                inherited_object_type: d.subrange(pos + 28, pos + 44),
                sid: sid_at(d, pos + 44),
            }
        } else {
            AceDataModel::Opaque { bytes: d.subrange(pos + 4, pos + size) }
        },
    }
}

/// Decodes the access control entry starting at `pos`, bounded by `d[..end]`.
/// On success the returned position is exactly `pos` plus the declared size,
/// for recognised and unrecognised type tags alike. Fails with `MalformedAce`
/// if the size is under four, overruns `end`, or a typed body does not fit.
pub fn decode_ace(d: &[u8], pos: usize, end: usize) -> (r: Result<(Ace, usize), DecodeError>)
    requires
        end <= d@.len(),
    ensures
        r.is_ok() <==> ace_ok(d@, pos as int, end as int),
        r matches Ok(p) ==> {
            &&& p.0@ == ace_at(d@, pos as int)
            &&& ace_wf(p.0@)
            &&& p.1 == ace_end(d@, pos as int)
            &&& pos + 4 <= p.1 <= end
        },
        r matches Err(e) ==> e == DecodeError::MalformedAce,
{
    if end < 4 || pos > end - 4 {
        return Err(DecodeError::MalformedAce);
    }
    let size = read_le16(d, pos + 2) as usize;
    if size < 4 || size > end - pos {
        return Err(DecodeError::MalformedAce);
    }
    let tag = d[pos];
    let flags = d[pos + 1];
    let ace_type = ace_type_from_tag(tag);
    let data = if is_basic_tag_exec(tag) {
        if size < 8 {
            return Err(DecodeError::MalformedAce);
        }
        let mask = read_le32(d, pos + 4);
        let sid = match decode_sid(d, pos + 8, pos + size) {
            Ok((sid, _)) => sid,
            Err(_) => {
                return Err(DecodeError::MalformedAce);
            },
        };
        AceData::Basic { access_mask: mask, sid }
    } else if is_object_tag_exec(tag) {
        if size < 44 {
            return Err(DecodeError::MalformedAce);
        }
        let mask = read_le32(d, pos + 4);
        let object_flags = read_le32(d, pos + 8);
        let object_type = copy_range(d, pos + 12, pos + 28);
        let inherited_object_type = copy_range(d, pos + 28, pos + 44);
        let sid = match decode_sid(d, pos + 44, pos + size) {
            Ok((sid, _)) => sid,
            Err(_) => {
                return Err(DecodeError::MalformedAce);
            },
        };
        AceData::Object { access_mask: mask, object_flags, object_type, inherited_object_type, sid }
    } else {
        AceData::Opaque { bytes: copy_range(d, pos + 4, pos + size) }
    };
    let ace = Ace { ace_type, ace_flags: flags, data };
    proof {
        assert(ace@ =~= ace_at(d@, pos as int));
    }
    Ok((ace, pos + size))
}

/// The [`AceType`] a raw tag byte stands for.
pub fn ace_type_from_tag(t: u8) -> (r: AceType)
    ensures
        r == ace_type_of(t),
{
    if t == 0x00 {
        AceType::AccessAllowed
    } else if t == 0x01 {
        AceType::AccessDenied
    } else if t == 0x02 {
        AceType::SystemAudit
    } else if t == 0x03 {
        AceType::SystemAlarm
    } else if t == 0x04 {
        AceType::AccessAllowedCompound
    } else if t == 0x05 {
        AceType::AccessAllowedObject
    } else if t == 0x06 {
        AceType::AccessDeniedObject
    } else if t == 0x07 {
        AceType::SystemAuditObject
    } else if t == 0x08 {
        AceType::SystemAlarmObject
    } else if t == 0x09 {
        AceType::AccessAllowedCallback
    } else if t == 0x0a {
        AceType::AccessDeniedCallback
    } else if t == 0x0b {
        AceType::AccessAllowedCallbackObject
    } else if t == 0x0c {
        AceType::AccessDeniedCallbackObject
    } else if t == 0x0d {
        AceType::SystemAuditCallback
    } else if t == 0x0e {
        AceType::SystemAlarmCallback
    } else if t == 0x0f {
        AceType::SystemAuditCallbackObject
    } else if t == 0x10 {
        AceType::SystemAlarmCallbackObject
    } else if t == 0x11 {
        AceType::SystemMandatoryLabel
    } else if t == 0x12 {
        AceType::SystemResourceAttribute
    } else if t == 0x13 {
        AceType::SystemScopedPolicyId
    } else if t == 0x14 {
        AceType::SystemProcessTrustLabel
    } else if t == 0x15 {
        AceType::SystemAccessFilter
    } else {
        AceType::Unknown(t)
    }
}

/// Whether the tag's body is an access mask followed by an identifier.
pub fn is_basic_tag_exec(t: u8) -> (r: bool)
    ensures
        r == is_basic_tag(t),
{
    t == 0x00 || t == 0x01 || t == 0x02 || t == 0x03 || t == 0x09 || t == 0x0a || t == 0x0d || t
        == 0x0e || t == 0x11 || t == 0x12 || t == 0x13 || t == 0x14 || t == 0x15
}

/// Whether the tag's body carries object identifiers before its identifier.
pub fn is_object_tag_exec(t: u8) -> (r: bool)
    ensures
        r == is_object_tag(t),
{
    t == 0x05 || t == 0x06 || t == 0x07 || t == 0x08 || t == 0x0b || t == 0x0c || t == 0x0f || t
        == 0x10
}

} // verus!
