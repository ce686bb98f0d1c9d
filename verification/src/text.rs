//! Text helpers shared by the screens: building strings character by
//! character, trimming, truncating with an ellipsis, and hex dumps.
use vstd::prelude::*;
use vstd::string::StringSliceAdditionalSpecFns;
use vstd::utf8::{encode_utf8, is_char_boundary};

verus! {

/// Appends one character to a string.
#[verifier::external_body]
pub(crate) fn push_char(s: &mut String, c: char)
    ensures
        final(s)@ == old(s)@.push(c),
{
    s.push(c);
}

/// The characters of a string slice, in order.
pub fn chars_of(s: &str) -> (v: Vec<char>)
    ensures
        v@ == s@,
{
    let mut v: Vec<char> = Vec::new();
    for c in it: s.chars()
        invariant
            v@ == it.seq().take(it.index() as int),
    {
        v.push(c);
    }
    v
}

/// The string holding exactly the characters `v`.
pub fn string_of(v: &Vec<char>) -> (s: String)
    ensures
        s@ == v@,
{
    let mut s = String::new();
    for i in 0..v.len()
        invariant
            s@ == v@.take(i as int),
    {
        push_char(&mut s, v[i]);
        assert(v@.take(i + 1) =~= v@.take(i as int).push(v@[i as int]));
    }
    assert(v@.take(v@.len() as int) =~= v@);
    s
}

/// `a` followed by `b`.
pub fn concat(a: &str, b: &str) -> (r: String)
    ensures
        r@ == a@ + b@,
{
    let mut r = a.to_owned();
    let cs = chars_of(b);
    for i in 0..cs.len()
        invariant
            cs@ == b@,
            r@ == a@ + b@.take(i as int),
    {
        push_char(&mut r, cs[i]);
        assert(b@.take(i + 1) =~= b@.take(i as int).push(b@[i as int]));
    }
    assert(b@.take(b@.len() as int) =~= b@);
    r
}

/// Whether `s` begins with `p`.
pub open spec fn has_prefix(s: Seq<char>, p: Seq<char>) -> bool {
    p.len() <= s.len() && s.take(p.len() as int) == p
}

/// Whether `s` begins with `p`.
pub fn starts_with(s: &str, p: &str) -> (r: bool)
    ensures
        r == has_prefix(s@, p@),
{
    let sc = chars_of(s);
    let pc = chars_of(p);
    if pc.len() > sc.len() {
        return false;
    }
    let mut i: usize = 0;
    while i < pc.len()
        invariant
            sc@ == s@,
            pc@ == p@,
            pc@.len() <= sc@.len(),
            i <= pc@.len(),
            forall|j: int| 0 <= j < i ==> sc@[j] == pc@[j],
        decreases pc@.len() - i,
    {
        if sc[i] != pc[i] {
            assert(s@.take(p@.len() as int)[i as int] != p@[i as int]);
            return false;
        }
        i += 1;
    }
    assert(s@.take(p@.len() as int) =~= p@);
    true
}

/// Unicode `White_Space`: the characters `char::is_whitespace` accepts.
pub open spec fn is_white_space(c: char) -> bool {
    ('\t' <= c <= '\r') || c == ' ' || c == '\u{85}' || c == '\u{a0}' || c == '\u{1680}' || (
    '\u{2000}' <= c <= '\u{200a}') || c == '\u{2028}' || c == '\u{2029}' || c == '\u{202f}' || c
        == '\u{205f}' || c == '\u{3000}'
}

/// `s` without its leading white space.
pub open spec fn trim_start_seq(s: Seq<char>) -> Seq<char>
    decreases s.len(),
{
    if s.len() > 0 && is_white_space(s[0]) {
        trim_start_seq(s.drop_first())
    } else {
        s
    }
}

/// `s` without its trailing white space.
pub open spec fn trim_end_seq(s: Seq<char>) -> Seq<char>
    decreases s.len(),
{
    if s.len() > 0 && is_white_space(s.last()) {
        trim_end_seq(s.drop_last())
    } else {
        s
    }
}

/// `s` without leading and trailing white space.
pub open spec fn trim_seq(s: Seq<char>) -> Seq<char> {
    trim_end_seq(trim_start_seq(s))
}

/// Whether `c` is white space (see `is_white_space`).
pub fn is_white(c: char) -> (r: bool)
    ensures
        r == is_white_space(c),
{
    ('\t' <= c && c <= '\r') || c == ' ' || c == '\u{85}' || c == '\u{a0}' || c == '\u{1680}' || (
    '\u{2000}' <= c && c <= '\u{200a}') || c == '\u{2028}' || c == '\u{2029}' || c == '\u{202f}'
        || c == '\u{205f}' || c == '\u{3000}'
}

/// The characters `cs[a..b]` as a string.
fn slice_string(cs: &Vec<char>, a: usize, b: usize) -> (r: String)
    requires
        a <= b <= cs@.len(),
    ensures
        r@ == cs@.subrange(a as int, b as int),
{
    let mut r = String::new();
    let mut i = a;
    while i < b
        invariant
            a <= i <= b <= cs@.len(),
            r@ == cs@.subrange(a as int, i as int),
        decreases b - i,
    {
        push_char(&mut r, cs[i]);
        assert(cs@.subrange(a as int, i + 1) =~= cs@.subrange(a as int, i as int).push(cs@[i as int]));
        i += 1;
    }
    r
}

proof fn lemma_trim_start_at(s: Seq<char>, a: int)
    requires
        0 <= a <= s.len(),
        forall|j: int| 0 <= j < a ==> is_white_space(#[trigger] s[j]),
        a < s.len() ==> !is_white_space(s[a]),
    ensures
        trim_start_seq(s) == s.skip(a),
    decreases a,
{
    if a == 0 {
        assert(s.skip(0) =~= s);
    } else {
        assert forall|j: int| 0 <= j < a - 1 implies is_white_space(#[trigger] s.drop_first()[j]) by {
            assert(s.drop_first()[j] == s[j + 1]);
        }
        lemma_trim_start_at(s.drop_first(), a - 1);
        assert(s.drop_first().skip(a - 1) =~= s.skip(a));
    }
}

proof fn lemma_trim_end_at(s: Seq<char>, b: int)
    requires
        0 <= b <= s.len(),
        forall|j: int| b <= j < s.len() ==> is_white_space(#[trigger] s[j]),
        b > 0 ==> !is_white_space(s[b - 1]),
    ensures
        trim_end_seq(s) == s.take(b),
    decreases s.len() - b,
{
    if b == s.len() {
        assert(s.take(b) =~= s);
    } else {
        assert forall|j: int| b <= j < s.drop_last().len() implies is_white_space(
            #[trigger] s.drop_last()[j],
        ) by {
            assert(s.drop_last()[j] == s[j]);
        }
        lemma_trim_end_at(s.drop_last(), b);
        assert(s.drop_last().take(b) =~= s.take(b));
    }
}

/// `s` without leading and trailing white space, as `str::trim` cuts it.
pub(crate) fn str_trim(s: &str) -> (r: String)
    ensures
        r@ == trim_seq(s@),
{
    let cs = chars_of(s);
    let mut a: usize = 0;
    while a < cs.len() && is_white(cs[a])
        invariant
            cs@ == s@,
            a <= cs@.len(),
            forall|j: int| 0 <= j < a ==> is_white_space(#[trigger] cs@[j]),
        decreases cs@.len() - a,
    {
        a += 1;
    }
    let mut b: usize = cs.len();
    while b > a && is_white(cs[b - 1])
        invariant
            cs@ == s@,
            a <= b <= cs@.len(),
            forall|j: int| b <= j < cs@.len() ==> is_white_space(#[trigger] cs@[j]),
        decreases b - a,
    {
        b -= 1;
    }
    proof {
        lemma_trim_start_at(s@, a as int);
        let t = s@.skip(a as int);
        assert forall|j: int| b - a <= j < t.len() implies is_white_space(#[trigger] t[j]) by {
            assert(t[j] == s@[j + a]);
        }
        if b > a {
            assert(t[b - a - 1] == s@[b - 1]);
        }
        lemma_trim_end_at(t, b - a);
        assert(t.take(b - a) =~= s@.subrange(a as int, b as int));
    }
    slice_string(&cs, a, b)
}

/// `s` without leading white space, as `str::trim_start` cuts it.
pub(crate) fn str_trim_start(s: &str) -> (r: String)
    ensures
        r@ == trim_start_seq(s@),
{
    let cs = chars_of(s);
    let mut a: usize = 0;
    while a < cs.len() && is_white(cs[a])
        invariant
            cs@ == s@,
            a <= cs@.len(),
            forall|j: int| 0 <= j < a ==> is_white_space(#[trigger] cs@[j]),
        decreases cs@.len() - a,
    {
        a += 1;
    }
    proof {
        lemma_trim_start_at(s@, a as int);
        assert(s@.skip(a as int) =~= s@.subrange(a as int, s@.len() as int));
    }
    slice_string(&cs, a, cs.len())
}

/// The rest of `s` after a leading `!`, as `str::strip_prefix('!')` gives
/// it; `None` when `s` does not start with `!`.
pub(crate) fn str_strip_bang(s: &str) -> (r: Option<String>)
    ensures
        r matches Some(t) ==> s@.len() > 0 && s@[0] == '!' && t@ == s@.drop_first(),
        r is None ==> !(s@.len() > 0 && s@[0] == '!'),
{
    let cs = chars_of(s);
    if cs.len() > 0 && cs[0] == '!' {
        assert(s@.drop_first() =~= s@.subrange(1, s@.len() as int));
        Some(slice_string(&cs, 1, cs.len()))
    } else {
        None
    }
}

/// A hexadecimal digit, either case.
pub open spec fn is_hex_digit(c: char) -> bool {
    ('0' <= c <= '9') || ('a' <= c <= 'f') || ('A' <= c <= 'F')
}

/// Value of a hexadecimal digit.
pub open spec fn hex_digit_value(c: char) -> int {
    if '0' <= c <= '9' {
        c as int - '0' as int
    } else if 'a' <= c <= 'f' {
        c as int - 'a' as int + 10
    } else {
        c as int - 'A' as int + 10
    }
}

/// Value of a string of hexadecimal digits, most significant first.
pub open spec fn hex_value(d: Seq<char>) -> int
    decreases d.len(),
{
    if d.len() == 0 {
        0
    } else {
        hex_value(d.drop_last()) * 16 + hex_digit_value(d.last())
    }
}

/// `s` without one leading `+`.
pub open spec fn unsigned_digits(s: Seq<char>) -> Seq<char> {
    if s.len() > 0 && s[0] == '+' {
        s.drop_first()
    } else {
        s
    }
}

/// What `u32::from_str_radix(s, 16)` accepts and yields: an optional `+`
/// followed by one or more hexadecimal digits whose value fits in a `u32`.
pub open spec fn hex_u32(s: Seq<char>) -> Option<u32> {
    let d = unsigned_digits(s);
    if d.len() == 0 || exists|i: int| 0 <= i < d.len() && !is_hex_digit(#[trigger] d[i]) {
        None
    } else if hex_value(d) > u32::MAX {
        None
    } else {
        Some(hex_value(d) as u32)
    }
}

/// Value of a hexadecimal digit, `None` for any other character.
fn hex_digit_of(c: char) -> (r: Option<u32>)
    ensures
        r is Some <==> is_hex_digit(c),
        r matches Some(v) ==> v == hex_digit_value(c) && v < 16,
{
    if '0' <= c && c <= '9' {
        Some((c as u32) - ('0' as u32))
    } else if 'a' <= c && c <= 'f' {
        Some((c as u32) - ('a' as u32) + 10)
    } else if 'A' <= c && c <= 'F' {
        Some((c as u32) - ('A' as u32) + 10)
    } else {
        None
    }
}

proof fn lemma_hex_value_grows(d: Seq<char>, k: int)
    requires
        0 <= k <= d.len(),
        forall|i: int| 0 <= i < d.len() ==> is_hex_digit(#[trigger] d[i]),
    ensures
        0 <= hex_value(d.take(k)) <= hex_value(d),
    decreases d.len(),
{
    if d.len() > 0 {
        assert forall|i: int| 0 <= i < d.drop_last().len() implies is_hex_digit(#[trigger] d.drop_last()[i]) by {
            assert(d.drop_last()[i] == d[i]);
        }
        assert(is_hex_digit(d[d.len() - 1]));
        if k < d.len() {
            lemma_hex_value_grows(d.drop_last(), k);
            assert(d.drop_last().take(k) =~= d.take(k));
        } else {
            lemma_hex_value_grows(d.drop_last(), k - 1);
            assert(d.take(k) =~= d);
        }
    } else {
        assert(d.take(k) =~= d);
    }
}

proof fn lemma_hex_u32_bad_digit(s: Seq<char>, j: int)
    requires
        0 <= j < unsigned_digits(s).len(),
        !is_hex_digit(unsigned_digits(s)[j]),
    ensures
        hex_u32(s) is None,
{
}

/// What `u32::from_str_radix(s, 16)` gives, its error dropped (see
/// `hex_u32`).
pub(crate) fn u32_from_hex(s: &str) -> (r: Option<u32>)
    ensures
        r == hex_u32(s@),
{
    let cs = chars_of(s);
    let start: usize = if cs.len() > 0 && cs[0] == '+' {
        1
    } else {
        0
    };
    let ghost d = s@.skip(start as int);
    proof {
        assert(d =~= unsigned_digits(s@));
    }
    if start == cs.len() {
        return None;
    }
    let mut v: u32 = 0;
    let mut i = start;
    proof {
        assert(d.take(0) =~= Seq::<char>::empty());
    }
    while i < cs.len()
        invariant
            cs@ == s@,
            start <= i <= cs@.len(),
            d == s@.skip(start as int),
            d == unsigned_digits(s@),
            d.len() > 0,
            forall|j: int| 0 <= j < i - start ==> is_hex_digit(#[trigger] d[j]),
            v == hex_value(d.take(i - start)),
        decreases cs@.len() - i,
    {
        let k = i - start;
        assert(d[k as int] == cs@[i as int]);
        match hex_digit_of(cs[i]) {
            None => {
                proof {
                    assert(!is_hex_digit(d[k as int]));
                    lemma_hex_u32_bad_digit(s@, k as int);
                }
                return None;
            },
            Some(x) => {
                assert(d.take(k + 1).drop_last() =~= d.take(k as int));
                if v > (u32::MAX - x) / 16 {
                    proof {
                        assert(hex_value(d.take(k + 1)) > u32::MAX) by (nonlinear_arith)
                            requires
                                hex_value(d.take(k + 1)) == v * 16 + x,
                                v > (u32::MAX - x) / 16,
                                x < 16,
                        ;
                        if forall|j: int| 0 <= j < d.len() ==> is_hex_digit(#[trigger] d[j]) {
                            lemma_hex_value_grows(d, k + 1);
                            assert(hex_value(d) > u32::MAX);
                        } else {
                            let j = choose|j: int| 0 <= j < d.len() && !is_hex_digit(#[trigger] d[j]);
                            lemma_hex_u32_bad_digit(s@, j);
                        }
                    }
                    return None;
                }
                v = v * 16 + x;
            },
        }
        i += 1;
    }
    proof {
        assert(d.take(d.len() as int) =~= d);
    }
    Some(v)
}

/// A decimal digit.
pub open spec fn is_dec_digit(c: char) -> bool {
    '0' <= c <= '9'
}

/// Value of a string of decimal digits, most significant first.
pub open spec fn dec_value(d: Seq<char>) -> int
    decreases d.len(),
{
    if d.len() == 0 {
        0
    } else {
        dec_value(d.drop_last()) * 10 + (d.last() as int - '0' as int)
    }
}

/// `s` without one leading `+` or `-`.
pub open spec fn signed_digits(s: Seq<char>) -> Seq<char> {
    if s.len() > 0 && (s[0] == '+' || s[0] == '-') {
        s.drop_first()
    } else {
        s
    }
}

/// What `i64::from_str` accepts and yields: an optional `+` or `-`
/// followed by one or more decimal digits whose signed value fits in an
/// `i64`.
pub open spec fn dec_i64(s: Seq<char>) -> Option<i64> {
    let neg = s.len() > 0 && s[0] == '-';
    let d = signed_digits(s);
    let v = if neg {
        -dec_value(d)
    } else {
        dec_value(d)
    };
    if d.len() == 0 || exists|i: int| 0 <= i < d.len() && !is_dec_digit(#[trigger] d[i]) {
        None
    } else if v < i64::MIN || v > i64::MAX {
        None
    } else {
        Some(v as i64)
    }
}

proof fn lemma_dec_value_grows(d: Seq<char>, k: int)
    requires
        0 <= k <= d.len(),
        forall|i: int| 0 <= i < d.len() ==> is_dec_digit(#[trigger] d[i]),
    ensures
        0 <= dec_value(d.take(k)) <= dec_value(d),
    decreases d.len(),
{
    if d.len() > 0 {
        assert forall|i: int| 0 <= i < d.drop_last().len() implies is_dec_digit(#[trigger] d.drop_last()[i]) by {
            assert(d.drop_last()[i] == d[i]);
        }
        assert(is_dec_digit(d[d.len() - 1]));
        if k < d.len() {
            lemma_dec_value_grows(d.drop_last(), k);
            assert(d.drop_last().take(k) =~= d.take(k));
        } else {
            lemma_dec_value_grows(d.drop_last(), k - 1);
            assert(d.take(k) =~= d);
        }
    } else {
        assert(d.take(k) =~= d);
    }
}

proof fn lemma_dec_i64_bad_digit(s: Seq<char>, j: int)
    requires
        0 <= j < signed_digits(s).len(),
        !is_dec_digit(signed_digits(s)[j]),
    ensures
        dec_i64(s) is None,
{
}

/// What `s.parse::<i64>()` gives, its error dropped (see `dec_i64`).
pub(crate) fn i64_from_dec(s: &str) -> (r: Option<i64>)
    ensures
        r == dec_i64(s@),
{
    let cs = chars_of(s);
    let neg = cs.len() > 0 && cs[0] == '-';
    let start: usize = if cs.len() > 0 && (cs[0] == '+' || cs[0] == '-') {
        1
    } else {
        0
    };
    let ghost d = s@.skip(start as int);
    proof {
        assert(d =~= signed_digits(s@));
    }
    if start == cs.len() {
        return None;
    }
    let limit: u64 = if neg {
        0x8000_0000_0000_0000
    } else {
        0x7FFF_FFFF_FFFF_FFFF
    };
    let mut v: u64 = 0;
    let mut i = start;
    proof {
        assert(d.take(0) =~= Seq::<char>::empty());
    }
    while i < cs.len()
        invariant
            cs@ == s@,
            start <= i <= cs@.len(),
            d == s@.skip(start as int),
            d == signed_digits(s@),
            d.len() > 0,
            neg == (s@.len() > 0 && s@[0] == '-'),
            limit == if neg {
                0x8000_0000_0000_0000u64
            } else {
                0x7FFF_FFFF_FFFF_FFFFu64
            },
            forall|j: int| 0 <= j < i - start ==> is_dec_digit(#[trigger] d[j]),
            v == dec_value(d.take(i - start)),
            v <= limit,
        decreases cs@.len() - i,
    {
        let k = i - start;
        let c = cs[i];
        assert(d[k as int] == cs@[i as int]);
        if !('0' <= c && c <= '9') {
            proof {
                lemma_dec_i64_bad_digit(s@, k as int);
            }
            return None;
        }
        let x = (c as u64) - ('0' as u64);
        assert(d.take(k + 1).drop_last() =~= d.take(k as int));
        if v > (limit - x) / 10 {
            proof {
                assert(dec_value(d.take(k + 1)) > limit) by (nonlinear_arith)
                    requires
                        dec_value(d.take(k + 1)) == v * 10 + x,
                        v > (limit - x) / 10,
                        x < 10,
                        x <= limit,
                ;
                if forall|j: int| 0 <= j < d.len() ==> is_dec_digit(#[trigger] d[j]) {
                    lemma_dec_value_grows(d, k + 1);
                } else {
                    let j = choose|j: int| 0 <= j < d.len() && !is_dec_digit(#[trigger] d[j]);
                    lemma_dec_i64_bad_digit(s@, j);
                }
            }
            return None;
        }
        assert(v * 10 + x <= limit) by (nonlinear_arith)
            requires
                v <= (limit - x) / 10,
                x <= limit,
        ;
        v = v * 10 + x;
        i += 1;
    }
    proof {
        assert(d.take(d.len() as int) =~= d);
    }
    if neg {
        if v == 0x8000_0000_0000_0000 {
            Some(i64::MIN)
        } else {
            Some(-(v as i64))
        }
    } else {
        Some(v as i64)
    }
}

/// `s` when it has at most `n` characters; otherwise its first `n - 1`
/// characters (none when `n` is zero) followed by `…`.
pub open spec fn truncated(s: Seq<char>, n: nat) -> Seq<char> {
    if s.len() <= n {
        s
    } else {
        s.take(if n == 0 {
            0
        } else {
            n - 1
        }) + seq!['…']
    }
}

/// Cut `s` to at most `n` characters, marking the cut with `…`.
pub fn truncate_chars(s: &str, n: usize) -> (r: String)
    ensures
        r@ == truncated(s@, n as nat),
{
    let cs = chars_of(s);
    if cs.len() <= n {
        return s.to_owned();
    }
    let keep = if n == 0 {
        0
    } else {
        n - 1
    };
    let mut r = String::new();
    for i in 0..keep
        invariant
            keep < cs@.len(),
            cs@ == s@,
            r@ == s@.take(i as int),
    {
        push_char(&mut r, cs[i]);
        assert(s@.take(i + 1) =~= s@.take(i as int).push(s@[i as int]));
    }
    push_char(&mut r, '…');
    r
}

/// Where a byte-length truncation to `max` bytes cuts: one byte before
/// `max`, to leave room for the ellipsis.
pub open spec fn cut_point(max: nat) -> int {
    if max == 0 {
        0
    } else {
        max - 1
    }
}

/// Byte-length truncation: `s` when its UTF-8 encoding has at most `max`
/// bytes; otherwise the characters encoded by its first `max - 1` bytes
/// (none when `max` is zero) followed by `…`. Cutting inside a character
/// is left out by the precondition.
pub fn truncate_bytes(s: &str, max: usize) -> (r: String)
    requires
        s.spec_bytes().len() > max ==> is_char_boundary(s.spec_bytes(), cut_point(max as nat)),
    ensures
        s.spec_bytes().len() <= max ==> r@ == s@,
        s.spec_bytes().len() > max ==> exists|head: Seq<char>|
            encode_utf8(head) == s.spec_bytes().take(cut_point(max as nat)) && r@ == head + seq!['…'],
{
    let n = s.as_bytes().len();
    if n <= max {
        return s.to_owned();
    }
    let cut = if max == 0 {
        0
    } else {
        max - 1
    };
    let (head, _rest) = s.split_at(cut);
    let mut r = head.to_owned();
    push_char(&mut r, '…');
    assert(head.spec_bytes() =~= s.spec_bytes().take(cut as int));
    assert(encode_utf8(head@) == s.spec_bytes().take(cut_point(max as nat)));
    r
}

const HEX_LOWER: [char; 16] = ['0', '1', '2', '3', '4', '5', '6', '7', '8', '9', 'a', 'b', 'c', 'd', 'e', 'f'];

/// Lowercase hexadecimal digit of `d` (below 16).
pub open spec fn hex_char(d: int) -> char {
    if d < 10 {
        ('0' as int + d) as char
    } else {
        ('a' as int + d - 10) as char
    }
}

/// Lowercase hexadecimal digit for a value below 16.
pub fn hex_digit(d: u8) -> (c: char)
    requires
        d < 16,
    ensures
        c == hex_char(d as int),
{
    HEX_LOWER[d as usize]
}

/// Two lowercase hex digits per byte, no separators.
pub open spec fn hex_text(bytes: Seq<u8>) -> Seq<char>
    decreases bytes.len(),
{
    if bytes.len() == 0 {
        Seq::empty()
    } else {
        hex_text(bytes.drop_last()) + seq![
            hex_char((bytes.last() / 16) as int),
            hex_char((bytes.last() % 16) as int),
        ]
    }
}

/// Lowercase hex encoding of `bytes`, no separators.
pub fn hex_encode(bytes: &[u8]) -> (out: String)
    ensures
        out@ == hex_text(bytes@),
{
    let mut out = String::new();
    for i in 0..bytes.len()
        invariant
            out@ == hex_text(bytes@.take(i as int)),
    {
        let b = bytes[i];
        assert(b >> 4 == b / 16 && b & 0x0f == b % 16) by (bit_vector);
        push_char(&mut out, hex_digit(b >> 4));
        push_char(&mut out, hex_digit(b & 0x0f));
        assert(bytes@.take(i + 1).drop_last() =~= bytes@.take(i as int));
    }
    assert(bytes@.take(bytes@.len() as int) =~= bytes@);
    out
}

/// The decimal digit for `d` (below 10).
pub open spec fn digit_char(d: int) -> char {
    ('0' as int + d) as char
}

/// Decimal representation of `n`, without sign or leading zeros.
pub open spec fn dec_text(n: nat) -> Seq<char>
    decreases n,
{
    if n < 10 {
        seq![digit_char(n as int)]
    } else {
        dec_text(n / 10).push(digit_char((n % 10) as int))
    }
}

/// `n` in decimal, as `format!("{}", n)` writes it.
pub fn decimal(n: u64) -> (s: String)
    ensures
        s@ == dec_text(n as nat),
{
    let mut digits: Vec<char> = Vec::new();
    let mut m = n;
    while m >= 10
        invariant
            dec_text(n as nat) == dec_text(m as nat) + digits@,
        decreases m,
    {
        let c = hex_digit((m % 10) as u8);
        assert(c == digit_char((m % 10) as int));
        let ghost old_digits = digits@;
        digits.insert(0, c);
        assert(dec_text(m as nat) == dec_text((m / 10) as nat).push(c));
        assert(digits@ =~= seq![c] + old_digits);
        assert(dec_text((m / 10) as nat).push(c) + old_digits =~= dec_text((m / 10) as nat)
            + digits@);
        m = m / 10;
    }
    let c = hex_digit(m as u8);
    let ghost old_digits = digits@;
    digits.insert(0, c);
    assert(digits@ =~= seq![c] + old_digits);
    assert(dec_text(m as nat) =~= seq![c]);
    string_of(&digits)
}

/// `n` spaces.
pub open spec fn spaces(n: nat) -> Seq<char> {
    Seq::new(n, |i: int| ' ')
}

/// `s` left-aligned in a field of `w` characters (`{:<w}`).
pub open spec fn padded_right(s: Seq<char>, w: nat) -> Seq<char> {
    if s.len() < w {
        s + spaces((w - s.len()) as nat)
    } else {
        s
    }
}

/// `s` right-aligned in a field of `w` characters (`{:>w}`).
pub open spec fn padded_left(s: Seq<char>, w: nat) -> Seq<char> {
    if s.len() < w {
        spaces((w - s.len()) as nat) + s
    } else {
        s
    }
}

fn space_string(n: usize) -> (r: String)
    ensures
        r@ == spaces(n as nat),
{
    let mut r = String::new();
    for i in 0..n
        invariant
            r@ == spaces(i as nat),
    {
        push_char(&mut r, ' ');
        assert(r@ =~= spaces((i + 1) as nat));
    }
    r
}

/// `s` left-aligned in a field of `w` characters.
pub fn pad_right(s: &str, w: usize) -> (r: String)
    ensures
        r@ == padded_right(s@, w as nat),
{
    let n = chars_of(s).len();
    if n < w {
        let sp = space_string(w - n);
        concat(s, sp.as_str())
    } else {
        s.to_owned()
    }
}

/// `s` right-aligned in a field of `w` characters.
pub fn pad_left(s: &str, w: usize) -> (r: String)
    ensures
        r@ == padded_left(s@, w as nat),
{
    let n = chars_of(s).len();
    if n < w {
        let sp = space_string(w - n);
        concat(sp.as_str(), s)
    } else {
        s.to_owned()
    }
}

/// Whether two strings hold the same characters.
pub fn same_str(a: &str, b: &str) -> (r: bool)
    ensures
        r == (a@ == b@),
{
    let ac = chars_of(a);
    let bc = chars_of(b);
    if ac.len() != bc.len() {
        return false;
    }
    let mut i: usize = 0;
    while i < ac.len()
        invariant
            ac@ == a@,
            bc@ == b@,
            ac@.len() == bc@.len(),
            i <= ac@.len(),
            forall|k: int| 0 <= k < i ==> ac@[k] == bc@[k],
        decreases ac@.len() - i,
    {
        if ac[i] != bc[i] {
            return false;
        }
        i += 1;
    }
    assert(a@ =~= b@);
    true
}

/// The decimal digits of `n`, with a leading `-` when it is negative.
pub open spec fn signed_dec_text(n: int) -> Seq<char> {
    if n < 0 {
        seq!['-'] + dec_text((-n) as nat)
    } else {
        dec_text(n as nat)
    }
}

/// `n` in decimal (see `signed_dec_text`).
pub fn decimal_signed(n: i64) -> (s: String)
    ensures
        s@ == signed_dec_text(n as int),
{
    if n < 0 {
        let m: u64 = (0 - (n as i128)) as u64;
        let d = decimal(m);
        let mut r = String::new();
        push_char(&mut r, '-');
        let r2 = concat(r.as_str(), d.as_str());
        proof {
            assert(r@ =~= seq!['-']);
        }
        r2
    } else {
        decimal(n as u64)
    }
}

/// A truncation fits its width (from width 1 up) and leaves a text that
/// already fits as it is.
pub proof fn lemma_truncated_fits(s: Seq<char>, n: nat)
    ensures
        n >= 1 ==> truncated(s, n).len() <= n,
        s.len() <= n ==> truncated(s, n) == s,
{
}

/// Padding gives a field exactly as wide as asked, or the text itself when
/// it is wider.
pub proof fn lemma_padded_width(s: Seq<char>, w: nat)
    ensures
        padded_right(s, w).len() == if s.len() < w {
            w
        } else {
            s.len()
        },
        padded_left(s, w).len() == if s.len() < w {
            w
        } else {
            s.len()
        },
        padded_right(s, w).take(s.len() as int) == s,
        padded_left(s, w).skip(padded_left(s, w).len() - s.len()) == s,
{
    if s.len() < w {
        assert((s + spaces((w - s.len()) as nat)).take(s.len() as int) =~= s);
        assert((spaces((w - s.len()) as nat) + s).skip(w - s.len()) =~= s);
    } else {
        assert(s.take(s.len() as int) =~= s);
        assert(s.skip(0) =~= s);
    }
}

} // verus!
