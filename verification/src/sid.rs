//! Security identifier (SID) decoding and its canonical string form
//! `S-<revision>-<authority>-<sub1>-...`.
//!
//! On-disk layout: `revision:u8, subAuthorityCount:u8,
//! identifierAuthority:[u8;6] (48-bit big-endian), subAuthorities:[u32 LE;
//! subAuthorityCount]`, eight plus four times the count bytes in all.
use vstd::prelude::*;

use crate::bytes::{be48, le32, read_be48, read_le32};
use crate::errors::DecodeError;

verus! {

/// A decoded security identifier.
#[derive(Clone, Debug, PartialEq, Eq)]
pub struct Sid {
    pub revision: u8,
    /// The six identifier-authority bytes, most significant first.
    pub identifier_authority: Vec<u8>,
    /// The sub-authorities, in on-disk order.
    pub sub_authorities: Vec<u32>,
}

/// Mathematical model of a [`Sid`].
#[verifier::ext_equal]
pub struct SidModel {
    pub revision: u8,
    pub authority: Seq<u8>,
    pub subs: Seq<u32>,
}

impl View for Sid {
    type V = SidModel;

    open spec fn view(&self) -> SidModel {
        SidModel {
            revision: self.revision,
            authority: self.identifier_authority@,
            subs: self.sub_authorities@,
        }
    }
}

/// A well-formed identifier holds exactly six authority bytes.
pub open spec fn sid_wf(s: SidModel) -> bool {
    s.authority.len() == 6
}

/// A security identifier structure starting at `pos` lies wholly within
/// `d[..end]`.
pub open spec fn sid_ok(d: Seq<u8>, pos: int, end: int) -> bool {
    &&& 0 <= pos
    &&& pos + 8 <= end
    &&& pos + 8 + 4 * (d[pos + 1] as int) <= end
}

/// First position after the structure starting at `pos`.
pub open spec fn sid_end(d: Seq<u8>, pos: int) -> int {
    pos + 8 + 4 * (d[pos + 1] as int)
}

/// The identifier encoded at `pos` in `d`.
pub open spec fn sid_at(d: Seq<u8>, pos: int) -> SidModel {
    SidModel {
        revision: d[pos],
        authority: d.subrange(pos + 2, pos + 8),
        subs: Seq::new(d[pos + 1] as nat, |k: int| le32(d, pos + 8 + 4 * k) as u32),
    }
}

/// An identifier read from anywhere inside the bytes is well formed: its
/// authority field always holds exactly six bytes.
pub proof fn lemma_sid_at_wf(d: Seq<u8>, pos: int)
    requires
        0 <= pos,
        pos + 8 <= d.len(),
    ensures
        sid_wf(sid_at(d, pos)),
{
    assert(d.subrange(pos + 2, pos + 8).len() == 6);
}

/// Decodes the security identifier starting at `pos`, bounded by `d[..end]`.
/// Consumes exactly `8 + 4 * subAuthorityCount` bytes; fails with
/// `MalformedSid` if the declared count would read past `end`.
pub fn decode_sid(d: &[u8], pos: usize, end: usize) -> (r: Result<(Sid, usize), DecodeError>)
    requires
        end <= d@.len(),
    ensures
        r.is_ok() <==> sid_ok(d@, pos as int, end as int),
        r matches Ok(p) ==> {
            &&& p.0@ == sid_at(d@, pos as int)
            &&& sid_wf(p.0@)
            &&& p.1 == sid_end(d@, pos as int)
            &&& pos + 8 <= p.1 <= end
        },
        r matches Err(e) ==> e == DecodeError::MalformedSid,
{
    if end < 8 || pos > end - 8 {
        return Err(DecodeError::MalformedSid);
    }
    let count = d[pos + 1];
    if 4 * (count as usize) > end - (pos + 8) {
        return Err(DecodeError::MalformedSid);
    }
    let mut authority: Vec<u8> = Vec::new();
    authority.push(d[pos + 2]);
    authority.push(d[pos + 3]);
    authority.push(d[pos + 4]);
    authority.push(d[pos + 5]);
    authority.push(d[pos + 6]);
    authority.push(d[pos + 7]);
    let mut subs: Vec<u32> = Vec::new();
    let mut k: usize = 0;
    while k < count as usize
        invariant
            k <= count as usize,
            pos + 8 + 4 * (count as int) <= end <= d@.len(),
            subs@.len() == k,
            forall|j: int| 0 <= j < k ==> subs@[j] == le32(d@, pos + 8 + 4 * j) as u32,
        decreases count as usize - k,
    {
        let v = read_le32(d, pos + 8 + 4 * k);
        subs.push(v);
        k = k + 1;
    }
    let sid = Sid { revision: d[pos], identifier_authority: authority, sub_authorities: subs };
    proof {
        assert(sid@.authority =~= d@.subrange(pos + 2, pos + 8));
        assert(sid@.subs =~= sid_at(d@, pos as int).subs);
        assert(sid@ =~= sid_at(d@, pos as int));
    }
    Ok((sid, pos + 8 + 4 * (count as usize)))
}

/// Decimal digit character for a value under ten.
pub open spec fn digit_char(v: int) -> char {
    ((48 + v) as u8) as char
}

/// Decimal string of a nonnegative number, most significant digit first.
pub open spec fn dec_str(n: nat) -> Seq<char>
    decreases n,
{
    if n < 10 {
        seq![digit_char(n as int)]
    } else {
        dec_str(n / 10).push(digit_char((n % 10) as int))
    }
}

/// String form of the sub-authority list: `-<sub1>-<sub2>-...`.
pub open spec fn subs_string(subs: Seq<u32>) -> Seq<char>
    decreases subs.len(),
{
    if subs.len() == 0 {
        Seq::empty()
    } else {
        subs_string(subs.drop_last()) + seq!['-'] + dec_str(subs.last() as nat)
    }
}

/// The 48-bit identifier-authority value of a well-formed identifier.
pub open spec fn authority_value(a: Seq<u8>) -> int {
    be48(a, 0)
}

/// Canonical string form `S-<revision>-<authority>-<sub1>-...`.
pub open spec fn sid_string(s: SidModel) -> Seq<char> {
    seq!['S', '-'] + dec_str(s.revision as nat) + seq!['-'] + dec_str(
        authority_value(s.authority) as nat,
    ) + subs_string(s.subs)
}

/// Relies on String::push: appends the one character to the end of the
/// string and changes nothing else.
#[verifier::external_body]
fn string_push(s: &mut String, c: char)
    ensures
        final(s)@ == old(s)@.push(c),
{
    s.push(c)
}

/// Appends the decimal form of `n` to `s`.
fn push_dec(s: &mut String, n: u64)
    ensures
        final(s)@ == old(s)@ + dec_str(n as nat),
    decreases n,
{
    if n >= 10 {
        push_dec(s, n / 10);
    }
    let d: u8 = (n % 10) as u8;
    string_push(s, (48 + d) as char);
    proof {
        if n < 10 {
            assert(final(s)@ =~= old(s)@ + dec_str(n as nat));
        } else {
            assert(dec_str(n as nat) == dec_str((n as nat) / 10).push(
                digit_char(((n as nat) % 10) as int),
            ));
            assert(final(s)@ =~= old(s)@ + dec_str(n as nat));
        }
    }
}

impl Sid {
    /// The canonical string form of this identifier.
    pub fn to_string(&self) -> (r: String)
        requires
            sid_wf(self@),
        ensures
            r@ == sid_string(self@),
    {
        let mut s = String::new();
        string_push(&mut s, 'S');
        string_push(&mut s, '-');
        push_dec(&mut s, self.revision as u64);
        string_push(&mut s, '-');
        let auth = read_be48(self.identifier_authority.as_slice(), 0);
        push_dec(&mut s, auth);
        proof {
            assert(s@ =~= seq!['S', '-'] + dec_str(self@.revision as nat) + seq!['-'] + dec_str(
                authority_value(self@.authority) as nat,
            ));
        }
        let ghost prefix = s@;
        let n = self.sub_authorities.len();
        let mut k: usize = 0;
        while k < n
            invariant
                k <= n,
                n == self@.subs.len(),
                sid_wf(self@),
                s@ == prefix + subs_string(self@.subs.take(k as int)),
            decreases n - k,
        {
            string_push(&mut s, '-');
            push_dec(&mut s, self.sub_authorities[k] as u64);
            proof {
                let subs = self@.subs;
                assert(subs.take(k + 1).drop_last() =~= subs.take(k as int));
                assert(subs.take(k + 1).last() == subs[k as int]);
                assert(subs_string(subs.take(k + 1)) == subs_string(subs.take(k as int)) + seq![
                    '-',
                ] + dec_str(subs[k as int] as nat));
                assert(s@ =~= prefix + subs_string(subs.take(k + 1)));
            }
            k = k + 1;
        }
        proof {
            assert(self@.subs.take(n as int) =~= self@.subs);
            assert(s@ =~= sid_string(self@));
        }
        s
    }
}

} // verus!
