//! The alias resolver: the two-step lookup protocol that finds a
//! terminal's capability record. The caller owns the database handle
//! and performs the lookups; this module makes every decision. A
//! resolution issues at most two lookups: `resolve_begin` names the
//! first key, `on_alias_reply` either finishes or names the second, and
//! `on_data_reply` always finishes — the types allow no other order.

use vstd::prelude::*;
use vstd::utf8::{decode_utf8, encode_utf8, valid_utf8};
use crate::caps::TermCaps;
use crate::errors::ResolveError;
use crate::names::NameTable;
use crate::parser::{parse_with, spec_parse};

verus! {

/// What one database lookup came back with: the record's bytes, a
/// distinguished "entry absent", or another operating-system failure
/// with its error code.
pub enum LookupReply {
    Found(Vec<u8>),
    Absent,
    Failed(i32),
}

/// How a resolution ends: the decoded capability set, "unknown
/// terminal" (no entry, or an alias record of an unexpected shape), or
/// a failure.
pub enum Outcome {
    Resolved(TermCaps),
    Unknown,
    Failed(ResolveError),
}

/// What the caller must do next: look up a key, or stop.
pub enum Step {
    FetchAlias(Vec<u8>),
    FetchData(Vec<u8>),
    Done(Outcome),
}

/// Starts resolving `name`: the first lookup's key is the terminal
/// name's bytes.
pub fn resolve_begin(name: &str) -> (s: Step)
    ensures
        s matches Step::FetchAlias(k) && k@ == encode_utf8(name@),
{
    Step::FetchAlias(name.as_bytes_vec())
}

/// Decides on the first lookup's reply. An absent entry means the
/// terminal is unknown, not an error. A present record must carry the
/// alias-list marker 2 as its first byte; any other shape also yields
/// "unknown". A well-shaped record's remaining bytes are the second
/// lookup's key.
pub fn on_alias_reply(reply: LookupReply) -> (s: Step)
    ensures
        match reply {
            LookupReply::Absent => s == Step::Done(Outcome::Unknown),
            LookupReply::Failed(e) => s == Step::Done(Outcome::Failed(ResolveError::Io(e))),
            LookupReply::Found(rec) => if rec@.len() > 0 && rec@[0] == 2 {
                s matches Step::FetchData(k) && k@ == rec@.skip(1)
            } else {
                s == Step::Done(Outcome::Unknown)
            },
        },
{
    match reply {
        LookupReply::Absent => Step::Done(Outcome::Unknown),
        LookupReply::Failed(e) => Step::Done(Outcome::Failed(ResolveError::Io(e))),
        LookupReply::Found(rec) => {
            if rec.len() > 0 && rec[0] == 2 {
                let mut key: Vec<u8> = Vec::new();
                let mut i: usize = 1;
                while i < rec.len()
                    invariant
                        1 <= i <= rec.len(),
                        key@ == rec@.subrange(1, i as int),
                    decreases rec.len() - i,
                {
                    key.push(rec[i]);
                    proof {
                        assert(key@ =~= rec@.subrange(1, i + 1));
                    }
                    i += 1;
                }
                proof {
                    assert(key@ =~= rec@.skip(1));
                }
                Step::FetchData(key)
            } else {
                Step::Done(Outcome::Unknown)
            }
        },
    }
}

/// Relies on std::str::from_utf8: it succeeds exactly on valid UTF-8
/// input, and then yields the bytes' decoded character sequence.
#[verifier::external_body]
fn utf8_to_string(bytes: &Vec<u8>) -> (r: Option<String>)
    ensures
        r is Some <==> valid_utf8(bytes@),
        r matches Some(s) ==> s@ == decode_utf8(bytes@),
{
    match std::str::from_utf8(bytes.as_slice()) {
        Ok(s) => Some(s.to_owned()),
        Err(_) => None,
    }
}

/// Decides on the second lookup's reply and always finishes. Here an
/// absent entry is an error: the alias record pointed at it. A present
/// record must carry the data marker 0 as its first byte, or the entry
/// is structurally invalid; its remaining bytes must be UTF-8 text,
/// which is parsed into the capability set.
pub fn on_data_reply(table: &NameTable, reply: LookupReply) -> (o: Outcome)
    requires
        table.wf(),
    ensures
        match reply {
            LookupReply::Absent => o == Outcome::Failed(ResolveError::MissingData),
            LookupReply::Failed(e) => o == Outcome::Failed(ResolveError::Io(e)),
            LookupReply::Found(rec) => if !(rec@.len() > 0 && rec@[0] == 0) {
                o == Outcome::Failed(ResolveError::Invalid)
            } else if !valid_utf8(rec@.skip(1)) {
                o == Outcome::Failed(ResolveError::Decoding)
            } else {
                match spec_parse(decode_utf8(rec@.skip(1))) {
                    Some(model) => o matches Outcome::Resolved(caps) && caps@ == model,
                    None => o == Outcome::Failed(ResolveError::UnparsableNumeric),
                }
            },
        },
{
    match reply {
        LookupReply::Absent => Outcome::Failed(ResolveError::MissingData),
        LookupReply::Failed(e) => Outcome::Failed(ResolveError::Io(e)),
        LookupReply::Found(rec) => {
            if !(rec.len() > 0 && rec[0] == 0) {
                return Outcome::Failed(ResolveError::Invalid);
            }
            let mut payload: Vec<u8> = Vec::new();
            let mut i: usize = 1;
            while i < rec.len()
                invariant
                    1 <= i <= rec.len(),
                    payload@ == rec@.subrange(1, i as int),
                decreases rec.len() - i,
            {
                payload.push(rec[i]);
                proof {
                    assert(payload@ =~= rec@.subrange(1, i + 1));
                }
                i += 1;
            }
            proof {
                assert(payload@ =~= rec@.skip(1));
            }
            match utf8_to_string(&payload) {
                None => Outcome::Failed(ResolveError::Decoding),
                Some(text) => match parse_with(table, text.as_str()) {
                    Ok(caps) => Outcome::Resolved(caps),
                    Err(_) => Outcome::Failed(ResolveError::UnparsableNumeric),
                },
            }
        },
    }
}

} // verus!
