//! Character-level scanning primitives: finding a separator, splitting a
//! string into fields, reading a decimal number, and the `\E` escape
//! substitution used by string capability values.

use vstd::prelude::*;

verus! {

/// Position of the first occurrence of `c` in `s` at or after `i`, or
/// `s.len()` if there is none.
pub open spec fn find_from(s: Seq<char>, c: char, i: int) -> int
    decreases s.len() - i when 0 <= i <= s.len()
{
    if i >= s.len() {
        s.len() as int
    } else if s[i] == c {
        i
    } else {
        find_from(s, c, i + 1)
    }
}

pub proof fn lemma_find_from(s: Seq<char>, c: char, i: int)
    requires
        0 <= i <= s.len(),
    ensures
        i <= find_from(s, c, i) <= s.len(),
        find_from(s, c, i) < s.len() ==> s[find_from(s, c, i)] == c,
        forall|j: int| i <= j < find_from(s, c, i) ==> s[j] != c,
    decreases s.len() - i,
{
    if i < s.len() && s[i] != c {
        lemma_find_from(s, c, i + 1);
    }
}

/// A scan that saw no `c` in `[i, j)` pins `find_from` down: it is `j`
/// itself if `s[j] == c` or `j` is the end.
pub proof fn lemma_find_from_scan(s: Seq<char>, c: char, i: int, j: int)
    requires
        0 <= i <= j <= s.len(),
        forall|l: int| i <= l < j ==> s[l] != c,
    ensures
        j < s.len() && s[j] == c ==> find_from(s, c, i) == j,
        j == s.len() ==> find_from(s, c, i) == s.len(),
    decreases j - i,
{
    if i < j {
        lemma_find_from_scan(s, c, i + 1, j);
    }
}

/// First position of `c` in `s` at or after `from`, or the length if
/// `c` does not occur there. `len` must be the character length of `s`.
pub fn find_char(s: &str, c: char, from: usize, len: usize) -> (r: usize)
    requires
        from <= len,
        len == s@.len(),
    ensures
        r == find_from(s@, c, from as int),
{
    let mut i = from;
    while i < len
        invariant
            from <= i <= len,
            len == s@.len(),
            forall|j: int| from <= j < i ==> s@[j] != c,
        decreases len - i,
    {
        if s.get_char(i) == c {
            proof {
                lemma_find_from_scan(s@, c, from as int, i as int);
            }
            return i;
        }
        i += 1;
    }
    proof {
        lemma_find_from_scan(s@, c, from as int, len as int);
    }
    len
}

/// The fields of `s` separated by `sep`, in order. The empty sequence
/// splits into one empty field, and each separator opens a new field, so
/// the result always has one more field than there are separators.
pub open spec fn split_on(s: Seq<char>, sep: char) -> Seq<Seq<char>>
    decreases s.len(),
{
    if s.len() == 0 {
        seq![Seq::<char>::empty()]
    } else if s[0] == sep {
        seq![Seq::<char>::empty()] + split_on(s.skip(1), sep)
    } else {
        let rest = split_on(s.skip(1), sep);
        seq![seq![s[0]] + rest[0]] + rest.skip(1)
    }
}

pub proof fn lemma_split_on_len(s: Seq<char>, sep: char)
    ensures
        split_on(s, sep).len() >= 1,
    decreases s.len(),
{
    if s.len() > 0 {
        lemma_split_on_len(s.skip(1), sep);
    }
}

/// A separator-free prefix of length `k` fixes the head of the split:
/// if `k` reaches the end the whole of `s` is the only field, and if
/// `s[k]` is the separator the first field is `s.take(k)` and the rest
/// splits `s` after position `k`.
pub proof fn lemma_split_on_head(s: Seq<char>, sep: char, k: int)
    requires
        0 <= k <= s.len(),
        forall|j: int| 0 <= j < k ==> s[j] != sep,
    ensures
        k == s.len() ==> split_on(s, sep) == seq![s],
        k < s.len() && s[k] == sep ==> split_on(s, sep) == seq![s.take(k)] + split_on(
            s.skip(k + 1),
            sep,
        ),
    decreases k,
{
    lemma_split_on_len(s, sep);
    if k == 0 {
        if s.len() == 0 {
            assert(s =~= Seq::<char>::empty());
            assert(split_on(s, sep) =~= seq![s]);
        } else if s[0] == sep {
            assert(s.take(0) =~= Seq::<char>::empty());
            assert(split_on(s, sep) =~= seq![s.take(0)] + split_on(s.skip(1), sep));
        }
    } else {
        lemma_split_on_len(s.skip(1), sep);
        lemma_split_on_head(s.skip(1), sep, k - 1);
        let rest = split_on(s.skip(1), sep);
        if k == s.len() {
            assert(rest == seq![s.skip(1)]);
            assert(seq![s[0]] + s.skip(1) =~= s);
            assert(rest.skip(1) =~= Seq::<Seq<char>>::empty());
            assert(split_on(s, sep) =~= seq![s]);
        } else if s[k] == sep {
            assert(s.skip(1).take(k - 1) =~= s.take(k).skip(1));
            assert(rest == seq![s.skip(1).take(k - 1)] + split_on(s.skip(1).skip(k), sep));
            assert(s.skip(1).skip(k) =~= s.skip(k + 1));
            assert(seq![s[0]] + s.skip(1).take(k - 1) =~= s.take(k));
            assert(rest.skip(1) =~= split_on(s.skip(k + 1), sep));
            assert(split_on(s, sep) =~= seq![s.take(k)] + split_on(s.skip(k + 1), sep));
        }
    }
}

/// Splits `s` on `sep`; the returned parts, viewed as character
/// sequences, are exactly `split_on(s@, sep)`.
pub fn split_str(s: &str, sep: char) -> (parts: Vec<String>)
    ensures
        parts.deep_view() == split_on(s@, sep),
        parts.len() >= 1,
{
    let len = s.unicode_len();
    let mut parts: Vec<String> = Vec::new();
    let mut start: usize = 0;
    proof {
        assert(parts.deep_view() =~= Seq::<Seq<char>>::empty());
        assert(s@.skip(0) =~= s@);
        assert(parts.deep_view() + split_on(s@, sep) =~= split_on(s@, sep));
    }
    loop
        invariant_except_break
            start <= len,
            len == s@.len(),
            split_on(s@, sep) == parts.deep_view() + split_on(s@.skip(start as int), sep),
        ensures
            split_on(s@, sep) == parts.deep_view(),
        decreases len - start,
    {
        let end = find_char(s, sep, start, len);
        proof {
            lemma_find_from(s@, sep, start as int);
        }
        let piece = String::from_str(s.substring_char(start, end));
        proof {
            let tail = s@.skip(start as int);
            let k = end - start;
            assert(forall|j: int| 0 <= j < k ==> tail[j] == s@[j + start] && tail[j] != sep);
            lemma_split_on_head(tail, sep, k);
            assert(tail.take(k) =~= s@.subrange(start as int, end as int));
        }
        let ghost old_parts = parts.deep_view();
        parts.push(piece);
        proof {
            assert(parts.deep_view() =~= old_parts.push(piece@));
        }
        if end == len {
            proof {
                let tail = s@.skip(start as int);
                assert(tail.len() == end - start);
                assert(tail.take((end - start) as int) =~= tail);
                assert(parts.deep_view() =~= old_parts + seq![tail]);
                assert(split_on(s@, sep) == parts.deep_view());
            }
            break;
        }
        proof {
            let tail = s@.skip(start as int);
            assert(tail[end - start] == s@[end as int]);
            assert(tail.skip(end - start + 1) =~= s@.skip(end + 1));
            assert(parts.deep_view() + split_on(s@.skip(end + 1), sep) =~= old_parts + (seq![
                tail.take(end - start),
            ] + split_on(tail.skip(end - start + 1), sep)));
        }
        start = end + 1;
    }
    proof {
        lemma_split_on_len(s@, sep);
    }
    parts
}

/// Character-by-character string equality, specified over the views.
pub fn str_eq(a: &str, b: &str) -> (r: bool)
    ensures
        r == (a@ == b@),
{
    let la = a.unicode_len();
    let lb = b.unicode_len();
    if la != lb {
        return false;
    }
    let mut i: usize = 0;
    while i < la
        invariant
            i <= la,
            la == a@.len(),
            la == b@.len(),
            forall|j: int| 0 <= j < i ==> a@[j] == b@[j],
        decreases la - i,
    {
        if a.get_char(i) != b.get_char(i) {
            return false;
        }
        i += 1;
    }
    proof {
        assert(a@ =~= b@);
    }
    true
}

pub open spec fn is_digit(c: char) -> bool {
    48 <= c as u32 <= 57
}

pub open spec fn all_digits(s: Seq<char>) -> bool {
    forall|i: int| 0 <= i < s.len() ==> is_digit(s[i])
}

/// The value of a digit sequence read in base 10.
pub open spec fn dec_val(s: Seq<char>) -> nat
    decreases s.len(),
{
    if s.len() == 0 {
        0
    } else {
        dec_val(s.drop_last()) * 10 + (s.last() as u32 - 48) as nat
    }
}

pub proof fn lemma_dec_val_prefix(s: Seq<char>, j: int)
    requires
        0 <= j <= s.len(),
    ensures
        dec_val(s.take(j)) <= dec_val(s),
    decreases s.len(),
{
    if j < s.len() {
        lemma_dec_val_prefix(s.drop_last(), j);
        assert(s.drop_last().take(j) =~= s.take(j));
    } else {
        assert(s.take(j) =~= s);
    }
}

/// Reads `s` as an unsigned base-10 integer: `Some` exactly when `s` is
/// a non-empty digit sequence whose value fits in a `u32`.
pub fn parse_u32(s: &str) -> (r: Option<u32>)
    ensures
        match r {
            Some(v) => s@.len() > 0 && all_digits(s@) && v == dec_val(s@),
            None => !(s@.len() > 0 && all_digits(s@) && dec_val(s@) <= u32::MAX),
        },
{
    let len = s.unicode_len();
    if len == 0 {
        return None;
    }
    let mut acc: u32 = 0;
    let mut i: usize = 0;
    while i < len
        invariant
            i <= len,
            len == s@.len(),
            all_digits(s@.take(i as int)),
            acc == dec_val(s@.take(i as int)),
        decreases len - i,
    {
        let c = s.get_char(i);
        let cv = c as u32;
        if cv < 48 || cv > 57 {
            assert(!is_digit(s@[i as int]));
            return None;
        }
        let d = cv - 48;
        proof {
            assert(s@.take(i + 1).drop_last() =~= s@.take(i as int));
        }
        if acc > 429496729 || (acc == 429496729 && d > 5) {
            proof {
                assert(dec_val(s@.take(i + 1)) > u32::MAX);
                lemma_dec_val_prefix(s@, i + 1);
            }
            return None;
        }
        acc = acc * 10 + d;
        i += 1;
    }
    proof {
        assert(s@.take(len as int) =~= s@);
    }
    Some(acc)
}

/// `b` with every two-byte sequence `\E` replaced, left to right and
/// without overlap, by the single escape byte 0x1b.
pub open spec fn replace_esc(b: Seq<u8>) -> Seq<u8>
    decreases b.len(),
{
    if b.len() >= 2 && b[0] == 0x5c && b[1] == 0x45 {
        seq![0x1bu8] + replace_esc(b.skip(2))
    } else if b.len() >= 1 {
        seq![b[0]] + replace_esc(b.skip(1))
    } else {
        Seq::<u8>::empty()
    }
}

/// Performs the `\E` substitution on a byte string.
pub fn replace_esc_bytes(v: &Vec<u8>) -> (r: Vec<u8>)
    ensures
        r@ == replace_esc(v@),
{
    let mut out: Vec<u8> = Vec::new();
    let mut i: usize = 0;
    proof {
        assert(v@.skip(0) =~= v@);
        assert(out@ + replace_esc(v@) =~= replace_esc(v@));
    }
    while i < v.len()
        invariant
            i <= v.len(),
            replace_esc(v@) == out@ + replace_esc(v@.skip(i as int)),
        decreases v.len() - i,
    {
        let ghost old_out = out@;
        let ghost tail = v@.skip(i as int);
        if i + 1 < v.len() && v[i] == 0x5c && v[i + 1] == 0x45 {
            out.push(0x1b);
            proof {
                assert(tail[0] == v@[i as int]);
                assert(tail[1] == v@[i + 1]);
                assert(tail.skip(2) =~= v@.skip(i + 2));
                assert(out@ + replace_esc(v@.skip(i + 2)) =~= old_out + (seq![0x1bu8]
                    + replace_esc(tail.skip(2))));
            }
            i += 2;
        } else {
            out.push(v[i]);
            proof {
                assert(tail[0] == v@[i as int]);
                if tail.len() >= 2 && tail[0] == 0x5c && tail[1] == 0x45 {
                    assert(v@[i + 1] == 0x45 && i + 1 < v.len());
                    assert(false);
                }
                assert(tail.skip(1) =~= v@.skip(i + 1));
                assert(out@ + replace_esc(v@.skip(i + 1)) =~= old_out + (seq![v@[i as int]]
                    + replace_esc(tail.skip(1))));
            }
            i += 1;
        }
    }
    proof {
        assert(v@.skip(v@.len() as int) =~= Seq::<u8>::empty());
        assert(replace_esc(v@) =~= out@);
    }
    out
}

} // verus!
