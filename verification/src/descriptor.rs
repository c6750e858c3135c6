//! Self-relative security descriptor decoding.
//!
//! On-disk layout of the twenty-byte header: `revision:u8, reserved:u8,
//! controlFlags:u16, ownerOffset:u32, groupOffset:u32, saclOffset:u32,
//! daclOffset:u32`, all little-endian. Each offset is relative to the start
//! of the descriptor blob itself. Owner and group identifiers are mandatory;
//! the two lists are present exactly where their offset is non-zero.
use vstd::prelude::*;

use crate::acl::{acl_at, acl_fail_index, acl_ok, acl_wf, decode_acl, Acl, AclModel};
use crate::bytes::{le16, le32, read_le16, read_le32};
use crate::errors::{DecodeError, SdDetail, SdField};
use crate::sid::{decode_sid, sid_at, sid_ok, sid_wf, Sid, SidModel};

verus! {

/// A decoded self-relative security descriptor.
#[derive(Clone, Debug, PartialEq, Eq)]
pub struct SecurityDescriptor {
    pub revision: u8,
    /// The raw control-flags word.
    pub control_flags: u16,
    pub owner_sid: Sid,
    pub group_sid: Sid,
    /// The discretionary access control list, where its offset is non-zero.
    pub dacl: Option<Acl>,
    /// The system access control list, where its offset is non-zero.
    pub sacl: Option<Acl>,
}

/// Mathematical model of a [`SecurityDescriptor`].
#[verifier::ext_equal]
pub struct SdModel {
    pub revision: u8,
    pub control_flags: u16,
    pub owner: SidModel,
    pub group: SidModel,
    pub dacl: Option<AclModel>,
    pub sacl: Option<AclModel>,
}

impl View for SecurityDescriptor {
    type V = SdModel;

    open spec fn view(&self) -> SdModel {
        SdModel {
            revision: self.revision,
            control_flags: self.control_flags,
            owner: self.owner_sid@,
            group: self.group_sid@,
            dacl: match self.dacl {
                Some(ref a) => Some(a@),
                None => None,
            },
            sacl: match self.sacl {
                Some(ref a) => Some(a@),
                None => None,
            },
        }
    }
}

/// Both identifiers and every list entry of the descriptor are well formed.
pub open spec fn sd_wf(s: SdModel) -> bool {
    &&& sid_wf(s.owner)
    &&& sid_wf(s.group)
    &&& (s.dacl matches Some(a) ==> acl_wf(a))
    &&& (s.sacl matches Some(a) ==> acl_wf(a))
}

/// The descriptor encoded in the whole blob `d`, or the detail of the first
/// failure. Fields are checked in the order owner, group, discretionary
/// list, system list; an offset of zero for one of the two mandatory
/// identifiers, or any referenced offset at or past the end of the blob, is
/// out of bounds.
pub open spec fn sd_parse(d: Seq<u8>) -> Result<SdModel, SdDetail> {
    let len = d.len() as int;
    let oo = le32(d, 4);
    let go = le32(d, 8);
    let so = le32(d, 12);
    let dao = le32(d, 16);
    if len < 20 {
        Err(SdDetail::TruncatedHeader)
    } else if oo == 0 || oo >= len {
        Err(SdDetail::OutOfBounds { field: SdField::Owner })
    } else if !sid_ok(d, oo, len) {
        Err(SdDetail::MalformedFieldSid { field: SdField::Owner })
    } else if go == 0 || go >= len {
        Err(SdDetail::OutOfBounds { field: SdField::Group })
    } else if !sid_ok(d, go, len) {
        Err(SdDetail::MalformedFieldSid { field: SdField::Group })
    } else if dao != 0 && dao >= len {
        Err(SdDetail::OutOfBounds { field: SdField::Dacl })
    } else if dao != 0 && !acl_ok(d, dao, len) {
        Err(
            SdDetail::MalformedFieldAcl {
                field: SdField::Dacl,
                index: acl_fail_index(d, dao, len) as u16,
            },
        )
    } else if so != 0 && so >= len {
        Err(SdDetail::OutOfBounds { field: SdField::Sacl })
    } else if so != 0 && !acl_ok(d, so, len) {
        Err(
            SdDetail::MalformedFieldAcl {
                field: SdField::Sacl,
                index: acl_fail_index(d, so, len) as u16,
            },
        )
    } else {
        Ok(
            SdModel {
                revision: d[0],
                control_flags: le16(d, 2) as u16,
                owner: sid_at(d, oo),
                group: sid_at(d, go),
                dacl: if dao == 0 {
                    None
                } else {
                    Some(acl_at(d, dao, len))
                },
                sacl: if so == 0 {
                    None
                } else {
                    Some(acl_at(d, so, len))
                },
            },
        )
    }
}

/// Decodes the security descriptor filling the whole blob `d`. Reads the
/// fixed twenty-byte header, then dereferences each offset into the blob:
/// identifier decoding for owner and group, list decoding for each non-zero
/// list offset. Fails with `MalformedSecurityDescriptor` if the blob is
/// shorter than the header, a referenced offset lies outside the blob, or a
/// sub-structure fails to decode; the detail names the field that failed.
pub fn decode_descriptor(d: &[u8]) -> (r: Result<SecurityDescriptor, DecodeError>)
    ensures
        r.is_ok() <==> sd_parse(d@).is_ok(),
        r matches Ok(sd) ==> {
            &&& sd@ == sd_parse(d@)->Ok_0
            &&& sd_wf(sd@)
        },
        r matches Err(e) ==> e == (DecodeError::MalformedSecurityDescriptor {
            detail: sd_parse(d@)->Err_0,
        }),
{
    let len = d.len();
    if len < 20 {
        return Err(
            DecodeError::MalformedSecurityDescriptor { detail: SdDetail::TruncatedHeader },
        );
    }
    let revision = d[0];
    let control_flags = read_le16(d, 2);
    let oo = read_le32(d, 4) as usize;
    let go = read_le32(d, 8) as usize;
    let so = read_le32(d, 12) as usize;
    let dao = read_le32(d, 16) as usize;
    if oo == 0 || oo >= len {
        return Err(
            DecodeError::MalformedSecurityDescriptor {
                detail: SdDetail::OutOfBounds { field: SdField::Owner },
            },
        );
    }
    let owner_sid = match decode_sid(d, oo, len) {
        Ok((sid, _)) => sid,
        Err(_) => {
            return Err(
                DecodeError::MalformedSecurityDescriptor {
                    detail: SdDetail::MalformedFieldSid { field: SdField::Owner },
                },
            );
        },
    };
    if go == 0 || go >= len {
        return Err(
            DecodeError::MalformedSecurityDescriptor {
                detail: SdDetail::OutOfBounds { field: SdField::Group },
            },
        );
    }
    let group_sid = match decode_sid(d, go, len) {
        Ok((sid, _)) => sid,
        Err(_) => {
            return Err(
                DecodeError::MalformedSecurityDescriptor {
                    detail: SdDetail::MalformedFieldSid { field: SdField::Group },
                },
            );
        },
    };
    let dacl = if dao == 0 {
        None
    } else {
        if dao >= len {
            return Err(
                DecodeError::MalformedSecurityDescriptor {
                    detail: SdDetail::OutOfBounds { field: SdField::Dacl },
                },
            );
        }
        match decode_acl(d, dao, len) {
            Ok(acl) => Some(acl),
            Err(e) => {
                let index = match e {
                    DecodeError::MalformedAcl { index } => index,
                    _ => 0,
                };
                return Err(
                    DecodeError::MalformedSecurityDescriptor {
                        detail: SdDetail::MalformedFieldAcl { field: SdField::Dacl, index },
                    },
                );
            },
        }
    };
    let sacl = if so == 0 {
        None
    } else {
        if so >= len {
            return Err(
                DecodeError::MalformedSecurityDescriptor {
                    detail: SdDetail::OutOfBounds { field: SdField::Sacl },
                },
            );
        }
        match decode_acl(d, so, len) {
            Ok(acl) => Some(acl),
            Err(e) => {
                let index = match e {
                    DecodeError::MalformedAcl { index } => index,
                    _ => 0,
                };
                return Err(
                    DecodeError::MalformedSecurityDescriptor {
                        detail: SdDetail::MalformedFieldAcl { field: SdField::Sacl, index },
                    },
                );
            },
        }
    };
    let sd = SecurityDescriptor { revision, control_flags, owner_sid, group_sid, dacl, sacl };
    proof {
        assert(sd@ =~= sd_parse(d@)->Ok_0);
    }
    Ok(sd)
}

} // verus!
