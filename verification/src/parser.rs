//! The capability record parser: classifies each colon-delimited field
//! of a textual record by its content and decodes it into the typed
//! capability set, consulting the name table for membership.

use vstd::prelude::*;
use vstd::utf8::encode_utf8;
use crate::caps::{AbsCaps, CapMap, TermCaps};
use crate::errors::ResolveError;
use crate::names::{bool_caps, has_code, numeric_caps, string_caps, NameTable};
use crate::text::{
    all_digits, dec_val, find_char, find_from, lemma_find_from, parse_u32, replace_esc,
    replace_esc_bytes, split_on, split_str,
};

verus! {

/// A padding field: a lone tab or a lone null character, not a
/// capability.
pub open spec fn is_padding(f: Seq<char>) -> bool {
    f.len() == 1 && (f[0] == '\t' || f[0] == '\u{0}')
}

pub open spec fn starts_hash(f: Seq<char>) -> bool {
    f.len() > 0 && f[0] == '#'
}

/// A string field: it does not begin with `#` and carries an `=`.
pub open spec fn is_string_field(f: Seq<char>) -> bool {
    !starts_hash(f) && find_from(f, '=', 0) < f.len()
}

/// A numeric field: neither padding nor a string field, it does not
/// begin with `#`, and it carries a `#` after its first character.
pub open spec fn is_numeric_field(f: Seq<char>) -> bool {
    !starts_hash(f) && !is_string_field(f) && f.len() >= 1 && find_from(f, '#', 1) < f.len()
}

/// A numeric field whose value is no unsigned base-10 integer that fits
/// in a `u32`: the one field shape that aborts a record.
pub open spec fn field_fatal(f: Seq<char>) -> bool {
    &&& !is_padding(f)
    &&& is_numeric_field(f)
    &&& {
        let value = f.skip(find_from(f, '#', 1) + 1);
        !(value.len() > 0 && all_digits(value) && dec_val(value) <= u32::MAX)
    }
}

/// The three capability maps a record is folded into.
pub struct AbsMaps {
    pub booleans: Map<Seq<char>, bool>,
    pub numbers: Map<Seq<char>, u32>,
    pub strings: Map<Seq<char>, Seq<u8>>,
}

pub open spec fn empty_maps() -> AbsMaps {
    AbsMaps { booleans: Map::empty(), numbers: Map::empty(), strings: Map::empty() }
}

pub open spec fn abs_maps(
    booleans: Map<Seq<char>, bool>,
    numbers: Map<Seq<char>, u32>,
    strings: Map<Seq<char>, Seq<u8>>,
) -> AbsMaps {
    AbsMaps { booleans, numbers, strings }
}

/// One field applied to the maps. Padding is skipped; a string field's
/// value gets the `\E` substitution on its UTF-8 bytes; a numeric
/// field's value must be a `u32` or the record is fatal; any other
/// field is a boolean capability. A code outside its category's catalog
/// is dropped.
pub open spec fn apply_field(f: Seq<char>, m: AbsMaps) -> Option<AbsMaps> {
    if is_padding(f) {
        Some(m)
    } else if is_string_field(f) {
        let j = find_from(f, '=', 0);
        let code = f.take(j);
        let value = f.skip(j + 1);
        if has_code(string_caps(), code) {
            Some(abs_maps(m.booleans, m.numbers, m.strings.insert(code, replace_esc(encode_utf8(value)))))
        } else {
            Some(m)
        }
    } else if is_numeric_field(f) {
        let j = find_from(f, '#', 1);
        let code = f.take(j);
        let value = f.skip(j + 1);
        if value.len() > 0 && all_digits(value) && dec_val(value) <= u32::MAX {
            if has_code(numeric_caps(), code) {
                Some(abs_maps(m.booleans, m.numbers.insert(code, dec_val(value) as u32), m.strings))
            } else {
                Some(m)
            }
        } else {
            None
        }
    } else {
        if has_code(bool_caps(), f) {
            Some(abs_maps(m.booleans.insert(f, true), m.numbers, m.strings))
        } else {
            Some(m)
        }
    }
}

/// The fields applied in order; the first fatal field aborts the fold.
pub open spec fn apply_fields(fs: Seq<Seq<char>>, m: AbsMaps) -> Option<AbsMaps>
    decreases fs.len(),
{
    if fs.len() == 0 {
        Some(m)
    } else {
        match apply_field(fs[0], m) {
            None => None,
            Some(m2) => apply_fields(fs.skip(1), m2),
        }
    }
}

/// What parsing a record text yields: the first colon-delimited field,
/// split on `|`, gives the alias names; every later field is a
/// capability, folded into the maps. `None` is the one fatal outcome, a
/// malformed numeric value.
pub open spec fn spec_parse(text: Seq<char>) -> Option<AbsCaps> {
    let fields = split_on(text, ':');
    match apply_fields(fields.skip(1), empty_maps()) {
        None => None,
        Some(m) => Some(
            AbsCaps {
                names: split_on(fields[0], '|'),
                booleans: m.booleans,
                numbers: m.numbers,
                strings: m.strings,
            },
        ),
    }
}

proof fn lemma_apply_fields_fatal(fs: Seq<Seq<char>>, m: AbsMaps)
    ensures
        (apply_fields(fs, m) is None) <==> exists|i: int| 0 <= i < fs.len() && field_fatal(fs[i]),
    decreases fs.len(),
{
    if fs.len() > 0 {
        match apply_field(fs[0], m) {
            None => {
                assert(field_fatal(fs[0]));
            },
            Some(m2) => {
                lemma_apply_fields_fatal(fs.skip(1), m2);
                assert(!field_fatal(fs[0]));
                if apply_fields(fs, m) is None {
                    let i = choose|i: int|
                        0 <= i < fs.skip(1).len() && field_fatal(fs.skip(1)[i]);
                    assert(fs.skip(1)[i] == fs[i + 1]);
                    assert(field_fatal(fs[i + 1]));
                }
                if exists|i: int| 0 <= i < fs.len() && field_fatal(fs[i]) {
                    let i = choose|i: int| 0 <= i < fs.len() && field_fatal(fs[i]);
                    if i >= 1 {
                        assert(fs.skip(1)[i - 1] == fs[i]);
                        assert(apply_fields(fs.skip(1), m2) is None);
                    }
                }
            },
        }
    }
}

/// Parsing is total: the one fatal outcome is a capability field of
/// numeric shape whose value is no unsigned base-10 `u32`; every other
/// record, unknown codes included, parses.
pub proof fn lemma_parse_fatal_only_numeric(text: Seq<char>)
    ensures
        (spec_parse(text) is None) <==> exists|k: int|
            1 <= k < split_on(text, ':').len() && field_fatal(split_on(text, ':')[k]),
{
    let fields = split_on(text, ':');
    lemma_apply_fields_fatal(fields.skip(1), empty_maps());
    if apply_fields(fields.skip(1), empty_maps()) is None {
        let i = choose|i: int| 0 <= i < fields.skip(1).len() && field_fatal(fields.skip(1)[i]);
        assert(fields.skip(1)[i] == fields[i + 1]);
        assert(field_fatal(fields[i + 1]));
    }
    if exists|k: int| 1 <= k < fields.len() && field_fatal(fields[k]) {
        let k = choose|k: int| 1 <= k < fields.len() && field_fatal(fields[k]);
        assert(fields.skip(1)[k - 1] == fields[k]);
    }
}

/// The alias names of a parsed record are the record's first field
/// split on `|`, in order, and there is always at least one.
pub proof fn lemma_parse_names(text: Seq<char>)
    ensures
        spec_parse(text) matches Some(c) ==> c.names == split_on(
            split_on(text, ':')[0],
            '|',
        ) && c.names.len() >= 1,
{
    if spec_parse(text) is Some {
        crate::text::lemma_split_on_len(split_on(text, ':')[0], '|');
    }
}

proof fn lemma_apply_fields_keys(fs: Seq<Seq<char>>, m: AbsMaps)
    ensures
        apply_fields(fs, m) matches Some(m2) ==> {
            &&& forall|k: Seq<char>| #[trigger]
                m2.booleans.contains_key(k) ==> m.booleans.contains_key(k) || (has_code(
                    bool_caps(),
                    k,
                ) && m2.booleans[k] == true)
            &&& forall|k: Seq<char>| #[trigger]
                m2.numbers.contains_key(k) ==> m.numbers.contains_key(k) || has_code(
                    numeric_caps(),
                    k,
                )
            &&& forall|k: Seq<char>| #[trigger]
                m2.strings.contains_key(k) ==> m.strings.contains_key(k) || has_code(
                    string_caps(),
                    k,
                )
            &&& forall|k: Seq<char>| #[trigger]
                m2.booleans.contains_key(k) && m.booleans.contains_key(k)
                    && !(has_code(bool_caps(), k) && m2.booleans[k] == true)
                    ==> m2.booleans[k] == m.booleans[k]
        },
    decreases fs.len(),
{
    if fs.len() > 0 {
        match apply_field(fs[0], m) {
            None => {},
            Some(m2) => {
                lemma_apply_fields_keys(fs.skip(1), m2);
            },
        }
    }
}

/// The maps of a parsed record draw their keys from the name table
/// alone — an unrecognized code leaves no entry — and every boolean
/// capability that is present is asserted `true`.
pub proof fn lemma_parse_keys_from_table(text: Seq<char>)
    ensures
        spec_parse(text) matches Some(c) ==> {
            &&& forall|k: Seq<char>| #[trigger]
                c.booleans.contains_key(k) ==> has_code(bool_caps(), k) && c.booleans[k] == true
            &&& forall|k: Seq<char>| #[trigger]
                c.numbers.contains_key(k) ==> has_code(numeric_caps(), k)
            &&& forall|k: Seq<char>| #[trigger]
                c.strings.contains_key(k) ==> has_code(string_caps(), k)
        },
{
    let fields = split_on(text, ':');
    lemma_apply_fields_keys(fields.skip(1), empty_maps());
}

/// Parses one textual capability record against the fixed name table.
/// Total but for a malformed numeric value, which is the only error.
pub fn parse(entry: &str) -> (r: Result<TermCaps, ResolveError>)
    ensures
        match r {
            Ok(caps) => spec_parse(entry@) == Some(caps@),
            Err(e) => spec_parse(entry@) is None && e == ResolveError::UnparsableNumeric,
        },
{
    let table = NameTable::new();
    parse_with(&table, entry)
}

/// `parse`, against a caller-held name table, so that one table serves
/// many records.
pub fn parse_with(table: &NameTable, entry: &str) -> (r: Result<TermCaps, ResolveError>)
    requires
        table.wf(),
    ensures
        match r {
            Ok(caps) => spec_parse(entry@) == Some(caps@),
            Err(e) => spec_parse(entry@) is None && e == ResolveError::UnparsableNumeric,
        },
{
    let fields = split_str(entry, ':');
    let names = split_str(fields[0].as_str(), '|');
    let mut booleans = CapMap::<bool>::new();
    let mut numbers = CapMap::<u32>::new();
    let mut strings = CapMap::<Vec<u8>>::new();
    let ghost all_fields = fields.deep_view();
    let mut k: usize = 1;
    while k < fields.len()
        invariant
            1 <= k <= fields.len(),
            all_fields == fields.deep_view(),
            all_fields == split_on(entry@, ':'),
            table.wf(),
            apply_fields(all_fields.skip(1), empty_maps()) == apply_fields(
                all_fields.skip(k as int),
                abs_maps(booleans@, numbers@, strings@),
            ),
        decreases fields.len() - k,
    {
        let ghost m0 = abs_maps(booleans@, numbers@, strings@);
        let ghost fs = all_fields.skip(k as int);
        let f: &str = fields[k].as_str();
        proof {
            assert(fs[0] == all_fields[k as int]);
            assert(f@ == all_fields[k as int]);
            assert(fs.skip(1) =~= all_fields.skip(k + 1));
        }
        let flen = f.unicode_len();
        let is_pad = flen == 1 && {
            let c = f.get_char(0);
            c == '\t' || c == '\u{0}'
        };
        if is_pad {
            // record padding, not a capability
        } else {
            let hash_start = flen > 0 && f.get_char(0) == '#';
            let eq_pos = find_char(f, '=', 0, flen);
            proof {
                lemma_find_from(f@, '=', 0);
            }
            if !hash_start && eq_pos < flen {
                let code_s = f.substring_char(0, eq_pos);
                let value_s = f.substring_char(eq_pos + 1, flen);
                proof {
                    assert(code_s@ =~= f@.take(eq_pos as int));
                    assert(value_s@ =~= f@.skip(eq_pos + 1));
                }
                if table.is_string(code_s) {
                    let raw = value_s.as_bytes_vec();
                    let cooked = replace_esc_bytes(&raw);
                    strings.insert(String::from_str(code_s), cooked);
                }
            } else {
                let hash_pos = if flen >= 1 {
                    find_char(f, '#', 1, flen)
                } else {
                    flen
                };
                proof {
                    if flen >= 1 {
                        lemma_find_from(f@, '#', 1);
                    }
                }
                if !hash_start && flen >= 1 && hash_pos < flen {
                    let value_s = f.substring_char(hash_pos + 1, flen);
                    proof {
                        assert(value_s@ =~= f@.skip(hash_pos + 1));
                    }
                    match parse_u32(value_s) {
                        None => {
                            proof {
                                assert(apply_field(fs[0], m0) is None);
                                assert(apply_fields(all_fields.skip(1), empty_maps()) is None);
                            }
                            return Err(ResolveError::UnparsableNumeric);
                        },
                        Some(v) => {
                            let code_s = f.substring_char(0, hash_pos);
                            proof {
                                assert(code_s@ =~= f@.take(hash_pos as int));
                            }
                            if table.is_numeric(code_s) {
                                numbers.insert(String::from_str(code_s), v);
                            }
                        },
                    }
                } else {
                    if table.is_bool(f) {
                        booleans.insert(String::from_str(f), true);
                    }
                }
            }
        }
        proof {
            assert(apply_field(fs[0], m0) == Some(abs_maps(booleans@, numbers@, strings@)));
            assert(apply_fields(fs, m0) == apply_fields(
                all_fields.skip(k + 1),
                abs_maps(booleans@, numbers@, strings@),
            ));
        }
        k += 1;
    }
    proof {
        assert(all_fields.skip(fields.len() as int) =~= Seq::<Seq<char>>::empty());
    }
    let caps = TermCaps { names, booleans, numbers, strings };
    proof {
        assert(caps@.names == split_on(all_fields[0], '|'));
        assert(all_fields[0] == split_on(entry@, ':')[0]);
    }
    Ok(caps)
}

} // verus!
