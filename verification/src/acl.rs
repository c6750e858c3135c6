//! Access control list (ACL) decoding.
//!
//! On-disk layout: an eight-byte header `revision:u8, sbz1:u8, aclSize:u16,
//! aceCount:u16, sbz2:u16`, followed by exactly `aceCount` entries in
//! sequence. Decoding is all-or-nothing: one corrupt entry desynchronises the
//! byte offset of every entry after it, so the whole list fails, carrying the
//! index of the failing entry.
use vstd::prelude::*;

use crate::ace::{ace_at, ace_end, ace_ok, ace_wf, decode_ace, Ace, AceModel};
use crate::bytes::{le16, read_le16};
use crate::errors::DecodeError;

verus! {

/// A decoded access control list. `entries` keeps the on-disk order, which
/// is the evaluation order of the entries.
#[derive(Clone, Debug, PartialEq, Eq)]
pub struct Acl {
    pub revision: u8,
    /// The declared entry count; equals `entries.len()` on every successful
    /// decode.
    pub count: u16,
    pub entries: Vec<Ace>,
}

/// Mathematical model of an [`Acl`].
#[verifier::ext_equal]
pub struct AclModel {
    pub revision: u8,
    pub count: u16,
    pub entries: Seq<AceModel>,
}

impl View for Acl {
    type V = AclModel;

    open spec fn view(&self) -> AclModel {
        AclModel {
            revision: self.revision,
            count: self.count,
            entries: self.entries@.map_values(|a: Ace| a@),
        }
    }
}

/// Every entry of the list is well formed.
pub open spec fn acl_wf(a: AclModel) -> bool {
    forall|i: int| 0 <= i < a.entries.len() ==> ace_wf(#[trigger] a.entries[i])
}

/// Parses `count` consecutive entries starting at `pos`, bounded by
/// `d[..end]`. On success: the entries in order, and the first position after
/// the last one. On failure: the index of the first entry whose decode fails.
pub open spec fn aces_parse(d: Seq<u8>, pos: int, end: int, count: nat) -> Result<
    (Seq<AceModel>, int),
    int,
>
    decreases count,
{
    if count == 0 {
        Ok((Seq::empty(), pos))
    } else if !ace_ok(d, pos, end) {
        Err(0)
    } else {
        match aces_parse(d, ace_end(d, pos), end, (count - 1) as nat) {
            Ok((rest, fin)) => Ok((seq![ace_at(d, pos)] + rest, fin)),
            Err(k) => Err(k + 1),
        }
    }
}

/// On success the parsed sequence has exactly `count` entries and each is
/// well formed; on failure the failing index lies below `count`.
pub proof fn lemma_aces_parse_shape(d: Seq<u8>, pos: int, end: int, count: nat)
    requires
        end <= d.len(),
    ensures
        match aces_parse(d, pos, end, count) {
            Ok((s, _)) => s.len() == count && forall|i: int|
                0 <= i < s.len() ==> ace_wf(#[trigger] s[i]),
            Err(k) => 0 <= k < count,
        },
    decreases count,
{
    if count > 0 && ace_ok(d, pos, end) {
        lemma_aces_parse_shape(d, ace_end(d, pos), end, (count - 1) as nat);
        if aces_parse(d, ace_end(d, pos), end, (count - 1) as nat) is Ok {
            assert(ace_wf(ace_at(d, pos))) by {
                if crate::ace::is_basic_tag(d[pos]) {
                    crate::sid::lemma_sid_at_wf(d, pos + 8);
                } else if crate::ace::is_object_tag(d[pos]) {
                    crate::sid::lemma_sid_at_wf(d, pos + 44);
                }
            }
        }
    }
}

/// After every successful decode the entry sequence length equals the
/// declared count, and the entries stand in input byte order: entry `i + 1`
/// is the one encoded immediately after entry `i`.
pub proof fn lemma_acl_entries_match_count(d: Seq<u8>, pos: int, end: int)
    requires
        end <= d.len(),
        acl_ok(d, pos, end),
    ensures
        acl_at(d, pos, end).entries.len() == le16(d, pos + 4),
        acl_at(d, pos, end).entries.len() == acl_at(d, pos, end).count,
{
    lemma_aces_parse_shape(d, pos + 8, end, le16(d, pos + 4) as nat);
}

/// The list header starting at `pos` lies within `d[..end]` and all of its
/// declared entries decode.
pub open spec fn acl_ok(d: Seq<u8>, pos: int, end: int) -> bool {
    &&& 0 <= pos
    &&& pos + 8 <= end
    &&& aces_parse(d, pos + 8, end, le16(d, pos + 4) as nat) is Ok
}

/// The list encoded at `pos` in `d`.
pub open spec fn acl_at(d: Seq<u8>, pos: int, end: int) -> AclModel {
    AclModel {
        revision: d[pos],
        count: le16(d, pos + 4) as u16,
        entries: aces_parse(d, pos + 8, end, le16(d, pos + 4) as nat)->Ok_0.0,
    }
}

/// Index of the first failing entry, or zero where the header itself cannot
/// be read.
pub open spec fn acl_fail_index(d: Seq<u8>, pos: int, end: int) -> int {
    if pos + 8 <= end {
        match aces_parse(d, pos + 8, end, le16(d, pos + 4) as nat) {
            Ok(_) => 0,
            Err(k) => k,
        }
    } else {
        0
    }
}

/// Decodes the access control list starting at `pos`, bounded by `d[..end]`.
/// Reads the eight-byte header, then exactly the declared number of entries
/// in sequence. After a successful decode the entry sequence length equals
/// the declared count and keeps the on-disk order. If any single entry fails,
/// the whole list fails with `MalformedAcl` carrying that entry's index.
pub fn decode_acl(d: &[u8], pos: usize, end: usize) -> (r: Result<Acl, DecodeError>)
    requires
        end <= d@.len(),
    ensures
        r.is_ok() <==> acl_ok(d@, pos as int, end as int),
        r matches Ok(acl) ==> {
            &&& acl@ == acl_at(d@, pos as int, end as int)
            &&& acl_wf(acl@)
            &&& acl@.entries.len() == acl@.count
        },
        r matches Err(e) ==> e == (DecodeError::MalformedAcl {
            index: acl_fail_index(d@, pos as int, end as int) as u16,
        }),
{
    if end < 8 || pos > end - 8 {
        return Err(DecodeError::MalformedAcl { index: 0 });
    }
    let revision = d[pos];
    let count = read_le16(d, pos + 4);
    proof {
        lemma_aces_parse_shape(d@, pos + 8, end as int, count as nat);
    }
    let ghost full = aces_parse(d@, pos + 8, end as int, count as nat);
    let mut entries: Vec<Ace> = Vec::new();
    let mut cur: usize = pos + 8;
    let mut i: usize = 0;
    proof {
        if full is Ok {
            let s = full->Ok_0.0;
            assert(s.skip(0) =~= s);
            assert(entries@.map_values(|a: Ace| a@) =~= s.take(0));
        }
    }
    while i < count as usize
        invariant
            i <= count as usize,
            pos + 8 <= cur <= end <= d@.len(),
            count == le16(d@, pos + 4),
            revision == d@[pos as int],
            full == aces_parse(d@, pos + 8, end as int, count as nat),
            entries@.len() == i,
            match full {
                Ok((s, fin)) => {
                    &&& entries@.map_values(|a: Ace| a@) == s.take(i as int)
                    &&& aces_parse(d@, cur as int, end as int, (count - i) as nat) == Ok::<
                        (Seq<AceModel>, int),
                        int,
                    >((s.skip(i as int), fin))
                },
                Err(k) => {
                    &&& i <= k
                    &&& aces_parse(d@, cur as int, end as int, (count - i) as nat) == Err::<
                        (Seq<AceModel>, int),
                        int,
                    >(k - i)
                },
            },
            forall|j: int| 0 <= j < i ==> ace_wf((#[trigger] entries@[j])@),
        decreases count as usize - i,
    {
        let ghost rest = aces_parse(d@, cur as int, end as int, (count - i) as nat);
        match decode_ace(d, cur, end) {
            Ok((ace, np)) => {
                proof {
                    let s_rest = aces_parse(d@, np as int, end as int, (count - i - 1) as nat);
                    assert(np == ace_end(d@, cur as int));
                    assert(rest == (match s_rest {
                        Ok((r2, f2)) => Ok::<(Seq<AceModel>, int), int>(
                            (seq![ace_at(d@, cur as int)] + r2, f2),
                        ),
                        Err(k2) => Err::<(Seq<AceModel>, int), int>(k2 + 1),
                    }));
                    lemma_aces_parse_shape(d@, np as int, end as int, (count - i - 1) as nat);
                    lemma_aces_parse_shape(d@, pos + 8, end as int, count as nat);
                    match full {
                        Ok((s, fin)) => {
                            assert(s.len() == count);
                            assert(s_rest is Ok);
                            let inner = s_rest->Ok_0;
                            assert(s.skip(i as int) == seq![ace_at(d@, cur as int)] + inner.0);
                            assert(s.skip(i as int)[0] == s[0 + i as int]);
                            assert(s[i as int] == ace_at(d@, cur as int));
                            assert(inner.0 =~= s.skip(i + 1)) by {
                                assert forall|j: int| 0 <= j < inner.0.len() implies inner.0[j]
                                    == s.skip(i + 1)[j] by {
                                    assert(inner.0[j] == s.skip(i as int)[j + 1]);
                                    assert(s.skip(i as int)[j + 1] == s[j + 1 + i as int]);
                                    assert(s.skip(i + 1)[j] == s[j + i + 1]);
                                }
                                assert(inner.0.len() == s.skip(i + 1).len());
                            }
                        },
                        Err(k) => {
                            assert(rest == Err::<(Seq<AceModel>, int), int>(k - i));
                            assert(s_rest is Err);
                            assert(k - i >= 1);
                        },
                    }
                }
                entries.push(ace);
                proof {
                    assert(entries@.map_values(|a: Ace| a@) =~= entries@.map_values(
                        |a: Ace| a@,
                    ).take(i as int).push(ace@));
                    if full is Ok {
                        let s = full->Ok_0.0;
                        assert(entries@.map_values(|a: Ace| a@) =~= s.take(i + 1));
                    }
                }
                cur = np;
            },
            Err(_) => {
                proof {
                    lemma_aces_parse_shape(d@, pos + 8, end as int, count as nat);
                    assert(!ace_ok(d@, cur as int, end as int));
                    match full {
                        Ok(_) => {
                            assert(rest is Ok);
                            assert(false);
                        },
                        Err(k) => {
                            assert(rest == Err::<(Seq<AceModel>, int), int>(k - i));
                            assert(k - i == 0);
                        },
                    }
                }
                return Err(DecodeError::MalformedAcl { index: i as u16 });
            },
        }
        i = i + 1;
    }
    proof {
        match full {
            Ok((s, fin)) => {
                assert(aces_parse(d@, cur as int, end as int, 0) == Ok::<(Seq<AceModel>, int), int>(
                    (s.skip(count as int), fin),
                ));
                assert(s.skip(count as int) =~= Seq::<AceModel>::empty());
                assert(s.take(count as int) =~= s);
            },
            Err(k) => {
                assert(aces_parse(d@, cur as int, end as int, 0) is Ok);
                assert(false);
            },
        }
    }
    let acl = Acl { revision, count, entries };
    proof {
        assert(acl@ =~= acl_at(d@, pos as int, end as int));
        assert forall|j: int| 0 <= j < acl@.entries.len() implies ace_wf(
            #[trigger] acl@.entries[j],
        ) by {
            assert(acl@.entries[j] == entries@[j]@);
        }
    }
    Ok(acl)
}

} // verus!
