use vstd::prelude::*;
use vstd::string::StrSliceExecFns;
use vstd::string::StringExecFns;
use crate::errors::KvError;
use crate::keys::push_char;

verus! {

// ---------------------------------------------------------------------------
// Decimal digits
// ---------------------------------------------------------------------------

/// The numeric value of a decimal digit character, `-1` for anything else.
pub open spec fn digit_value(c: char) -> int {
    if c == '0' {
        0
    } else if c == '1' {
        1
    } else if c == '2' {
        2
    } else if c == '3' {
        3
    } else if c == '4' {
        4
    } else if c == '5' {
        5
    } else if c == '6' {
        6
    } else if c == '7' {
        7
    } else if c == '8' {
        8
    } else if c == '9' {
        9
    } else {
        -1
    }
}

pub open spec fn is_digit(c: char) -> bool {
    digit_value(c) >= 0
}

/// The decimal digit character for `d` in `0 ..= 9`.
pub open spec fn digit_char(d: int) -> char {
    if d == 0 {
        '0'
    } else if d == 1 {
        '1'
    } else if d == 2 {
        '2'
    } else if d == 3 {
        '3'
    } else if d == 4 {
        '4'
    } else if d == 5 {
        '5'
    } else if d == 6 {
        '6'
    } else if d == 7 {
        '7'
    } else if d == 8 {
        '8'
    } else {
        '9'
    }
}

/// The canonical (no leading zero) decimal digit string of `n`.
pub open spec fn dec_digits(n: nat) -> Seq<char>
    decreases n,
{
    if n < 10 {
        seq![digit_char(n as int)]
    } else {
        dec_digits(n / 10).push(digit_char((n % 10) as int))
    }
}

/// The number denoted by a digit string (most significant digit first).
pub open spec fn digits_val(s: Seq<char>) -> int
    decreases s.len(),
{
    if s.len() == 0 {
        0
    } else {
        digits_val(s.drop_last()) * 10 + digit_value(s.last())
    }
}

pub open spec fn all_digits(s: Seq<char>) -> bool {
    forall|i: int| 0 <= i < s.len() ==> is_digit(#[trigger] s[i])
}

pub proof fn lemma_dec_digits_props(n: nat)
    ensures
        dec_digits(n).len() >= 1,
        all_digits(dec_digits(n)),
        digits_val(dec_digits(n)) == n,
    decreases n,
{
    if n < 10 {
        let s = dec_digits(n);
        assert(s =~= seq![digit_char(n as int)]);
        assert(s.len() == 1);
        assert(s.last() == digit_char(n as int));
        assert(s.drop_last() =~= Seq::<char>::empty());
        assert(digits_val(Seq::<char>::empty()) == 0);
        assert(digits_val(s) == digit_value(digit_char(n as int)));
    } else {
        lemma_dec_digits_props(n / 10);
        let p = dec_digits(n / 10);
        let c = digit_char((n % 10) as int);
        let s = dec_digits(n);
        assert(s == p.push(c));
        assert(s.drop_last() =~= p);
        assert(s.last() == c);
        assert(digit_value(c) == n % 10);
        assert(digits_val(s) == (n / 10) * 10 + n % 10);
    }
}

pub proof fn lemma_digits_val_nonneg(s: Seq<char>)
    requires
        all_digits(s),
    ensures
        digits_val(s) >= 0,
    decreases s.len(),
{
    if s.len() > 0 {
        assert(all_digits(s.drop_last()));
        lemma_digits_val_nonneg(s.drop_last());
    }
}

/// A digit string is worth at least any of its prefixes.
pub proof fn lemma_digits_val_prefix_le(s: Seq<char>, k: int)
    requires
        all_digits(s),
        0 <= k <= s.len(),
    ensures
        digits_val(s.subrange(0, k)) <= digits_val(s),
    decreases s.len() - k,
{
    if k == s.len() {
        assert(s.subrange(0, k) =~= s);
    } else {
        let t = s.subrange(0, k + 1);
        assert(all_digits(t));
        assert(t.drop_last() =~= s.subrange(0, k));
        lemma_digits_val_nonneg(s.subrange(0, k));
        assert(digits_val(t) == digits_val(s.subrange(0, k)) * 10 + digit_value(t.last()));
        assert(digits_val(s.subrange(0, k)) <= digits_val(t));
        lemma_digits_val_prefix_le(s, k + 1);
        assert(s.subrange(0, k + 1) == t);
    }
}

/// Exec counterpart of [`digit_value`], as an option.
fn digit_value_exec(c: char) -> (r: Option<u64>)
    ensures
        r is Some <==> is_digit(c),
        r is Some ==> r->0 == digit_value(c),
{
    if c == '0' {
        Some(0)
    } else if c == '1' {
        Some(1)
    } else if c == '2' {
        Some(2)
    } else if c == '3' {
        Some(3)
    } else if c == '4' {
        Some(4)
    } else if c == '5' {
        Some(5)
    } else if c == '6' {
        Some(6)
    } else if c == '7' {
        Some(7)
    } else if c == '8' {
        Some(8)
    } else if c == '9' {
        Some(9)
    } else {
        None
    }
}

/// Exec counterpart of [`digit_char`].
fn digit_char_exec(d: u64) -> (r: char)
    requires
        d < 10,
    ensures
        r == digit_char(d as int),
{
    if d == 0 {
        '0'
    } else if d == 1 {
        '1'
    } else if d == 2 {
        '2'
    } else if d == 3 {
        '3'
    } else if d == 4 {
        '4'
    } else if d == 5 {
        '5'
    } else if d == 6 {
        '6'
    } else if d == 7 {
        '7'
    } else if d == 8 {
        '8'
    } else {
        '9'
    }
}

/// The canonical decimal digit string of `n`, as a `String`.
pub fn u64_digits(n: u64) -> (r: String)
    ensures
        r@ == dec_digits(n as nat),
    decreases n,
{
    if n < 10 {
        let mut s = String::new();
        push_char(&mut s, digit_char_exec(n));
        proof {
            assert(s@ =~= seq![digit_char(n as int)]);
        }
        s
    } else {
        let mut s = u64_digits(n / 10);
        push_char(&mut s, digit_char_exec(n % 10));
        s
    }
}

/// Parses `s[from .. to]` as a decimal number.
///
/// Returns `Some(v)` exactly when that range is one or more decimal digits
/// whose value fits in a `u64`.
fn parse_digits(s: &str, from: usize, to: usize) -> (r: Option<u64>)
    requires
        from <= to <= s@.len(),
    ensures
        r is Some ==> all_digits(s@.subrange(from as int, to as int)) && digits_val(
            s@.subrange(from as int, to as int),
        ) == r->0,
        r is None ==> !(all_digits(s@.subrange(from as int, to as int)) && digits_val(
            s@.subrange(from as int, to as int),
        ) <= u64::MAX),
{
    let ghost whole = s@.subrange(from as int, to as int);
    let mut acc: u64 = 0;
    let mut i: usize = from;
    while i < to
        invariant
            from <= i <= to <= s@.len(),
            whole == s@.subrange(from as int, to as int),
            all_digits(s@.subrange(from as int, i as int)),
            acc == digits_val(s@.subrange(from as int, i as int)),
        decreases to - i,
    {
        let c = s.get_char(i);
        proof {
            assert(s@.subrange(from as int, i + 1 as int).drop_last() =~= s@.subrange(
                from as int,
                i as int,
            ));
            assert(s@.subrange(from as int, i + 1 as int).last() == s@[i as int]);
        }
        match digit_value_exec(c) {
            None => {
                proof {
                    assert(whole[i - from] == s@[i as int]);
                    assert(!all_digits(whole));
                }
                return None;
            },
            Some(d) => {
                let shifted = match acc.checked_mul(10) {
                    Some(x) => x,
                    None => {
                        proof {
                            lemma_overflow_means_too_big(s@, from as int, i as int, to as int);
                        }
                        return None;
                    },
                };
                acc = match shifted.checked_add(d) {
                    Some(x) => x,
                    None => {
                        proof {
                            lemma_overflow_means_too_big(s@, from as int, i as int, to as int);
                        }
                        return None;
                    },
                };
            },
        }
        i = i + 1;
    }
    proof {
        assert(s@.subrange(from as int, i as int) == whole);
    }
    Some(acc)
}

/// If the digits read so far already exceed `u64::MAX` once extended by the
/// digit at `i`, the whole range cannot denote a `u64`.
proof fn lemma_overflow_means_too_big(s: Seq<char>, from: int, i: int, to: int)
    requires
        0 <= from <= i < to <= s.len(),
        all_digits(s.subrange(from, i)),
        is_digit(s[i]),
        digits_val(s.subrange(from, i)) * 10 + digit_value(s[i]) > u64::MAX,
    ensures
        !(all_digits(s.subrange(from, to)) && digits_val(s.subrange(from, to)) <= u64::MAX),
{
    let whole = s.subrange(from, to);
    if all_digits(whole) {
        let ext = s.subrange(from, i + 1);
        assert(ext.drop_last() =~= s.subrange(from, i));
        assert(ext.last() == s[i]);
        assert(digits_val(ext) > u64::MAX);
        assert(ext =~= whole.subrange(0, i + 1 - from));
        lemma_digits_val_prefix_le(whole, i + 1 - from);
    }
}

// ---------------------------------------------------------------------------
// The entry format: `{"data":` <value> `,"expire":` <digits> `}`
// ---------------------------------------------------------------------------

/// The eight characters every entry opens with.
pub open spec fn data_prefix() -> Seq<char> {
    seq!['{', '"', 'd', 'a', 't', 'a', '"', ':']
}

/// The ten characters between the value and the expiration digits.
pub open spec fn expire_marker() -> Seq<char> {
    seq![',', '"', 'e', 'x', 'p', 'i', 'r', 'e', '"', ':']
}

/// An entry text assembled from a value text and an expiration digit string.
pub open spec fn entry_seq(d: Seq<char>, digs: Seq<char>) -> Seq<char> {
    data_prefix() + d + expire_marker() + digs + seq!['}']
}

/// The canonical entry text for value `data` expiring at `expire`.
pub open spec fn entry_text(data: Seq<char>, expire: nat) -> Seq<char> {
    entry_seq(data, dec_digits(expire))
}

/// `s` splits as an entry around value `d` and digit string `digs`.
pub open spec fn valid_split(s: Seq<char>, d: Seq<char>, digs: Seq<char>) -> bool {
    &&& s == entry_seq(d, digs)
    &&& digs.len() >= 1
    &&& all_digits(digs)
    &&& digits_val(digs) <= u64::MAX
}

/// What decoding an entry text yields: the value text and the expiration
/// second, or nothing if the text is not an entry.
pub open spec fn spec_decode(s: Seq<char>) -> Option<(Seq<char>, nat)> {
    if exists|d: Seq<char>, digs: Seq<char>| valid_split(s, d, digs) {
        let p = choose|d: Seq<char>, digs: Seq<char>| valid_split(s, d, digs);
        Some((p.0, digits_val(p.1) as nat))
    } else {
        None
    }
}

/// Where each region of an entry stands in the whole text.
proof fn lemma_split_frame(s: Seq<char>, d: Seq<char>, digs: Seq<char>)
    requires
        s == entry_seq(d, digs),
    ensures
        s.len() == 19 + d.len() + digs.len(),
        forall|i: int| 0 <= i < 8 ==> s[i] == data_prefix()[i],
        forall|i: int| 0 <= i < d.len() ==> s[8 + i] == d[i],
        forall|i: int| 0 <= i < 10 ==> s[8 + d.len() + i] == expire_marker()[i],
        forall|i: int| 0 <= i < digs.len() ==> s[18 + d.len() + i] == digs[i],
        s[s.len() - 1] == '}',
{
    let pd = data_prefix() + d;
    let pdm = pd + expire_marker();
    let pdmg = pdm + digs;
    assert(s == pdmg + seq!['}']);
    assert(data_prefix().len() == 8);
    assert(expire_marker().len() == 10);
    assert forall|i: int| 0 <= i < 8 implies s[i] == data_prefix()[i] by {
        assert(s[i] == pdmg[i]);
        assert(pdmg[i] == pdm[i]);
        assert(pdm[i] == pd[i]);
        assert(pd[i] == data_prefix()[i]);
    }
    assert forall|i: int| 0 <= i < d.len() implies s[8 + i] == d[i] by {
        assert(s[8 + i] == pdmg[8 + i]);
        assert(pdmg[8 + i] == pdm[8 + i]);
        assert(pdm[8 + i] == pd[8 + i]);
        assert(pd[8 + i] == d[i]);
    }
    assert forall|i: int| 0 <= i < 10 implies s[8 + d.len() + i] == expire_marker()[i] by {
        assert(s[8 + d.len() + i] == pdmg[8 + d.len() + i]);
        assert(pdmg[8 + d.len() + i] == pdm[8 + d.len() + i]);
        assert(pdm[8 + d.len() + i] == expire_marker()[i]);
    }
    assert forall|i: int| 0 <= i < digs.len() implies s[18 + d.len() + i] == digs[i] by {
        assert(s[18 + d.len() + i] == pdmg[18 + d.len() + i]);
        assert(pdmg[18 + d.len() + i] == digs[i]);
    }
    assert(s[s.len() - 1] == '}');
}

/// No entry text splits two ways: the digit run before the closing brace is
/// bounded on its left by the `:` of the expiration marker.
pub proof fn lemma_split_unique(
    s: Seq<char>,
    d1: Seq<char>,
    digs1: Seq<char>,
    d2: Seq<char>,
    digs2: Seq<char>,
)
    requires
        valid_split(s, d1, digs1),
        valid_split(s, d2, digs2),
    ensures
        d1 == d2,
        digs1 == digs2,
{
    lemma_split_len_le(s, d1, digs1, d2, digs2);
    lemma_split_len_le(s, d2, digs2, d1, digs1);
    lemma_split_frame(s, d1, digs1);
    lemma_split_frame(s, d2, digs2);
    assert(digs1.len() == digs2.len());
    assert(d1.len() == d2.len());
    assert forall|i: int| 0 <= i < d1.len() implies d1[i] == d2[i] by {
        assert(d1[i] == s[8 + i]);
        assert(d2[i] == s[8 + i]);
    }
    assert(d1 =~= d2);
    assert forall|i: int| 0 <= i < digs1.len() implies digs1[i] == digs2[i] by {
        assert(digs1[i] == s[18 + d1.len() + i]);
        assert(digs2[i] == s[18 + d2.len() + i]);
    }
    assert(digs1 =~= digs2);
}

/// Helper for uniqueness: the first split's digit run is at least as long as
/// the second's.
#[verifier::rlimit(50)]
proof fn lemma_split_len_le(
    s: Seq<char>,
    d1: Seq<char>,
    digs1: Seq<char>,
    d2: Seq<char>,
    digs2: Seq<char>,
)
    requires
        valid_split(s, d1, digs1),
        valid_split(s, d2, digs2),
    ensures
        digs2.len() <= digs1.len(),
{
    if digs1.len() < digs2.len() {
        // The `:` closing the first split's marker falls inside the second
        // split's digit run, but `:` is no digit.
        let a = digs1.len() as int;
        let b = digs2.len() as int;
        let p = s.len() - 2 - a;
        let pd1 = data_prefix() + d1;
        let pdm1 = pd1 + expire_marker();
        let pdmg1 = pdm1 + digs1;
        assert(s == pdmg1 + seq!['}']);
        assert(s.len() == 19 + d1.len() + a);
        assert(p == 8 + d1.len() + 9);
        assert(s[p] == pdmg1[p]);
        assert(pdmg1[p] == pdm1[p]);
        assert(pdm1[p] == expire_marker()[9]);
        assert(s[p] == ':');
        let pd2 = data_prefix() + d2;
        let pdm2 = pd2 + expire_marker();
        let pdmg2 = pdm2 + digs2;
        assert(s == pdmg2 + seq!['}']);
        assert(s.len() == 19 + d2.len() + b);
        assert(p == 18 + d2.len() + (b - 1 - a));
        assert(s[p] == pdmg2[p]);
        assert(pdmg2[p] == digs2[b - 1 - a]);
        assert(is_digit(':'));
        assert(false);
    }
}

/// In any split of `s`, the digit run is exactly the maximal digit run that
/// ends just before the closing brace.
proof fn lemma_split_matches_scan(s: Seq<char>, d: Seq<char>, digs: Seq<char>, j: int)
    requires
        valid_split(s, d, digs),
        0 <= j <= s.len() - 1,
        forall|i: int| j <= i < s.len() - 1 ==> is_digit(#[trigger] s[i]),
        j > 0 ==> !is_digit(s[j - 1]),
    ensures
        j == 18 + d.len(),
        digs == s.subrange(j, s.len() - 1),
        d == s.subrange(8, j - 10),
{
    lemma_split_frame(s, d, digs);
    let dstart = 18 + d.len() as int;
    if j < dstart {
        assert(s[dstart - 1] == expire_marker()[9]);
        assert(s[dstart - 1] == ':');
        assert(j <= dstart - 1 < s.len() - 1);
        assert(is_digit(s[dstart - 1]));
        assert(false);
    }
    if j > dstart {
        assert(s[j - 1] == digs[j - 1 - dstart]);
        assert(is_digit(digs[j - 1 - dstart]));
        assert(false);
    }
    assert(j == dstart);
    assert forall|i: int| 0 <= i < digs.len() implies s.subrange(j, s.len() - 1)[i] == digs[i] by {
        assert(s[j + i] == digs[i]);
    }
    assert(digs =~= s.subrange(j, s.len() - 1));
    assert forall|i: int| 0 <= i < d.len() implies s.subrange(8, j - 10)[i] == d[i] by {
        assert(s[8 + i] == d[i]);
    }
    assert(d =~= s.subrange(8, j - 10));
}

/// A text with the layout of an entry is exactly the entry built from its
/// own pieces: prefix, value, marker, digit run, closing brace.
proof fn lemma_assemble_split(s: Seq<char>, j: int)
    requires
        20 <= s.len(),
        18 <= j <= s.len() - 2,
        forall|k: int| 0 <= k < 8 ==> s[k] == data_prefix()[k],
        forall|i: int| 0 <= i < 10 ==> s[j - 10 + i] == expire_marker()[i],
        s[s.len() - 1] == '}',
    ensures
        s == entry_seq(s.subrange(8, j - 10), s.subrange(j, s.len() - 1)),
{
    let d = s.subrange(8, j - 10);
    let g = s.subrange(j, s.len() - 1);
    let t = entry_seq(d, g);
    lemma_split_frame(t, d, g);
    assert(t.len() == s.len());
    assert forall|idx: int| 0 <= idx < s.len() implies t[idx] == s[idx] by {
        if idx < 8 {
            assert(t[idx] == data_prefix()[idx]);
        } else if idx < j - 10 {
            assert(t[idx] == d[idx - 8]);
            assert(d[idx - 8] == s[idx]);
        } else if idx < j {
            assert(t[idx] == expire_marker()[idx - (j - 10)]);
            assert(s[j - 10 + (idx - (j - 10))] == expire_marker()[idx - (j - 10)]);
        } else if idx < s.len() - 1 {
            assert(t[idx] == g[idx - j]);
            assert(g[idx - j] == s[idx]);
        } else {
            assert(t[idx] == '}');
        }
    }
    assert(t =~= s);
}

/// Decoding the canonical entry text for `(data, expire)` yields exactly
/// `(data, expire)` back, for every value text and every expiration second:
/// the store's round trip loses nothing.
pub proof fn lemma_entry_round_trip(data: Seq<char>, expire: u64)
    ensures
        spec_decode(entry_text(data, expire as nat)) == Some((data, expire as nat)),
{
    lemma_dec_digits_props(expire as nat);
    let digs = dec_digits(expire as nat);
    let s = entry_seq(data, digs);
    assert(valid_split(s, data, digs));
    let p = choose|d0: Seq<char>, digs0: Seq<char>| valid_split(s, d0, digs0);
    lemma_split_unique(s, p.0, p.1, data, digs);
}

// ---------------------------------------------------------------------------
// The executable codec
// ---------------------------------------------------------------------------

/// One decoded filesystem entry: the value's own JSON text, and the absolute
/// expiration epoch second (`0` meaning "never expires").
#[derive(Debug, Clone)]
pub struct KVFilesystemJsonData {
    pub data: String,
    pub expire: u64,
}

/// The character the entry prefix holds at position `i`.
fn prefix_char(i: usize) -> (r: char)
    requires
        i < 8,
    ensures
        r == data_prefix()[i as int],
{
    if i == 0 {
        '{'
    } else if i == 1 {
        '"'
    } else if i == 2 {
        'd'
    } else if i == 3 {
        'a'
    } else if i == 4 {
        't'
    } else if i == 5 {
        'a'
    } else if i == 6 {
        '"'
    } else {
        ':'
    }
}

/// The character the expiration marker holds at position `i`.
fn marker_char(i: usize) -> (r: char)
    requires
        i < 10,
    ensures
        r == expire_marker()[i as int],
{
    if i == 0 {
        ','
    } else if i == 1 {
        '"'
    } else if i == 2 {
        'e'
    } else if i == 3 {
        'x'
    } else if i == 4 {
        'p'
    } else if i == 5 {
        'i'
    } else if i == 6 {
        'r'
    } else if i == 7 {
        'e'
    } else if i == 8 {
        '"'
    } else {
        ':'
    }
}

/// Writes the entry for a value text and an absolute expiration second.
pub fn encode_entry(data: &str, expire: u64) -> (r: String)
    ensures
        r@ == entry_text(data@, expire as nat),
{
    let mut out = String::new();
    push_char(&mut out, '{');
    push_char(&mut out, '"');
    push_char(&mut out, 'd');
    push_char(&mut out, 'a');
    push_char(&mut out, 't');
    push_char(&mut out, 'a');
    push_char(&mut out, '"');
    push_char(&mut out, ':');
    proof {
        assert(out@ =~= data_prefix());
    }
    out.append(data);
    push_char(&mut out, ',');
    push_char(&mut out, '"');
    push_char(&mut out, 'e');
    push_char(&mut out, 'x');
    push_char(&mut out, 'p');
    push_char(&mut out, 'i');
    push_char(&mut out, 'r');
    push_char(&mut out, 'e');
    push_char(&mut out, '"');
    push_char(&mut out, ':');
    proof {
        assert(out@ =~= data_prefix() + data@ + expire_marker());
    }
    let digits = u64_digits(expire);
    out.append(digits.as_str());
    push_char(&mut out, '}');
    proof {
        assert(out@ =~= entry_text(data@, expire as nat));
    }
    out
}

/// Reads an entry back: the value text and the expiration second, or
/// `Decode` exactly when the text has no entry layout at all.
pub fn decode_entry(s: &str) -> (r: Result<KVFilesystemJsonData, KvError>)
    ensures
        match r {
            Ok(e) => spec_decode(s@) == Some((e.data@, e.expire as nat)),
            Err(err) => err == KvError::Decode && spec_decode(s@) is None,
        },
{
    let n = s.unicode_len();
    if n < 20 {
        proof {
            if exists|d: Seq<char>, digs: Seq<char>| valid_split(s@, d, digs) {
                let p = choose|d: Seq<char>, digs: Seq<char>| valid_split(s@, d, digs);
                lemma_split_frame(s@, p.0, p.1);
            }
        }
        return Err(KvError::Decode);
    }
    if s.get_char(n - 1) != '}' {
        proof {
            if exists|d: Seq<char>, digs: Seq<char>| valid_split(s@, d, digs) {
                let p = choose|d: Seq<char>, digs: Seq<char>| valid_split(s@, d, digs);
                lemma_split_frame(s@, p.0, p.1);
            }
        }
        return Err(KvError::Decode);
    }
    let mut i: usize = 0;
    while i < 8
        invariant
            i <= 8,
            n == s@.len(),
            n >= 20,
            forall|k: int| 0 <= k < i ==> s@[k] == data_prefix()[k],
        decreases 8 - i,
    {
        if s.get_char(i) != prefix_char(i) {
            proof {
                if exists|d: Seq<char>, digs: Seq<char>| valid_split(s@, d, digs) {
                    let p = choose|d: Seq<char>, digs: Seq<char>| valid_split(s@, d, digs);
                    lemma_split_frame(s@, p.0, p.1);
                }
            }
            return Err(KvError::Decode);
        }
        i = i + 1;
    }
    let mut j: usize = n - 1;
    while j > 0 && digit_value_exec(s.get_char(j - 1)).is_some()
        invariant
            j <= n - 1,
            n == s@.len(),
            forall|k: int| j <= k < n - 1 ==> is_digit(#[trigger] s@[k]),
        decreases j,
    {
        j = j - 1;
    }
    if j == n - 1 {
        proof {
            if exists|d: Seq<char>, digs: Seq<char>| valid_split(s@, d, digs) {
                let p = choose|d: Seq<char>, digs: Seq<char>| valid_split(s@, d, digs);
                lemma_split_matches_scan(s@, p.0, p.1, j as int);
            }
        }
        return Err(KvError::Decode);
    }
    if j < 18 {
        proof {
            if exists|d: Seq<char>, digs: Seq<char>| valid_split(s@, d, digs) {
                let p = choose|d: Seq<char>, digs: Seq<char>| valid_split(s@, d, digs);
                lemma_split_matches_scan(s@, p.0, p.1, j as int);
            }
        }
        return Err(KvError::Decode);
    }
    let mut m: usize = 0;
    while m < 10
        invariant
            m <= 10,
            n == s@.len(),
            n >= 20,
            18 <= j <= n - 2,
            forall|k: int| 0 <= k < m ==> s@[j - 10 + k] == expire_marker()[k],
            forall|k: int| 0 <= k < 8 ==> s@[k] == data_prefix()[k],
            forall|k: int| j <= k < n - 1 ==> is_digit(#[trigger] s@[k]),
            j > 0 ==> !is_digit(s@[j - 1]),
        decreases 10 - m,
    {
        if s.get_char(j - 10 + m) != marker_char(m) {
            proof {
                if exists|d: Seq<char>, digs: Seq<char>| valid_split(s@, d, digs) {
                    let p = choose|d: Seq<char>, digs: Seq<char>| valid_split(s@, d, digs);
                    lemma_split_matches_scan(s@, p.0, p.1, j as int);
                    lemma_split_frame(s@, p.0, p.1);
                    assert(s@[j - 10 + m] == expire_marker()[m as int]);
                }
            }
            return Err(KvError::Decode);
        }
        m = m + 1;
    }
    let ghost run = s@.subrange(j as int, n - 1 as int);
    proof {
        assert forall|k: int| 0 <= k < run.len() implies is_digit(#[trigger] run[k]) by {
            assert(run[k] == s@[j + k]);
        }
        assert(all_digits(run));
    }
    let expire = match parse_digits(s, j, n - 1) {
        Some(v) => v,
        None => {
            proof {
                if exists|d: Seq<char>, digs: Seq<char>| valid_split(s@, d, digs) {
                    let p = choose|d: Seq<char>, digs: Seq<char>| valid_split(s@, d, digs);
                    lemma_split_matches_scan(s@, p.0, p.1, j as int);
                    lemma_digits_val_nonneg(run);
                }
            }
            return Err(KvError::Decode);
        },
    };
    let data = s.substring_char(8, j - 10).to_owned();
    proof {
        lemma_assemble_split(s@, j as int);
        assert(valid_split(s@, data@, run));
        let p = choose|d: Seq<char>, digs: Seq<char>| valid_split(s@, d, digs);
        lemma_split_unique(s@, p.0, p.1, data@, run);
    }
    Ok(KVFilesystemJsonData { data, expire })
}

} // verus!
