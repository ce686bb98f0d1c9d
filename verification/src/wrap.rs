//! Word wrapping for the chat transcript: lines are broken at spaces to
//! fit a width counted in bytes, and a word too wide for a line is cut
//! into byte chunks.
use vstd::prelude::*;
use vstd::utf8::encode_utf8;
use crate::proto::{lossy_text, string_from_utf8_lossy};
use crate::text::{chars_of, concat, string_of};

verus! {

/// The UTF-8 length of `s`.
pub open spec fn blen(s: Seq<char>) -> nat {
    encode_utf8(s).len()
}

/// Index of the first space in `s`, or its length when there is none.
pub open spec fn sp_index(s: Seq<char>) -> int
    decreases s.len(),
{
    if s.len() == 0 {
        0
    } else if s[0] == ' ' {
        0
    } else {
        1 + sp_index(s.drop_first())
    }
}

proof fn lemma_sp_index_bounds(s: Seq<char>)
    ensures
        0 <= sp_index(s) <= s.len(),
        sp_index(s) < s.len() ==> s[sp_index(s)] == ' ',
    decreases s.len(),
{
    if s.len() > 0 && s[0] != ' ' {
        lemma_sp_index_bounds(s.drop_first());
    }
}

proof fn lemma_sp_index_prefix(cur: Seq<char>, rest: Seq<char>)
    requires
        forall|j: int| 0 <= j < cur.len() ==> cur[j] != ' ',
    ensures
        sp_index(cur + rest) == cur.len() + sp_index(rest),
    decreases cur.len(),
{
    if cur.len() > 0 {
        assert((cur + rest).drop_first() =~= cur.drop_first() + rest);
        lemma_sp_index_prefix(cur.drop_first(), rest);
    } else {
        assert(cur + rest =~= rest);
    }
}

/// The words of `s`: the pieces between single spaces (empty pieces
/// where spaces meet).
pub open spec fn words_of(s: Seq<char>) -> Seq<Seq<char>>
    decreases s.len(),
{
    let k = sp_index(s);
    if k >= s.len() || k < 0 {
        seq![s]
    } else {
        seq![s.take(k)] + words_of(s.skip(k + 1))
    }
}

/// The views of a list of strings.
pub open spec fn string_views(v: Seq<String>) -> Seq<Seq<char>> {
    v.map_values(|s: String| s@)
}

fn words(s: &str) -> (r: Vec<String>)
    ensures
        string_views(r@) == words_of(s@),
{
    let cs = chars_of(s);
    let mut out: Vec<String> = Vec::new();
    let mut cur: Vec<char> = Vec::new();
    let mut i: usize = 0;
    proof {
        assert(string_views(out@) =~= Seq::<Seq<char>>::empty());
        assert(cur@ + s@.skip(0) =~= s@);
        assert(string_views(out@) + words_of(s@) =~= words_of(s@));
    }
    while i < cs.len()
        invariant
            cs@ == s@,
            i <= cs@.len(),
            forall|j: int| 0 <= j < cur@.len() ==> cur@[j] != ' ',
            string_views(out@) + words_of(cur@ + s@.skip(i as int)) == words_of(s@),
        decreases cs@.len() - i,
    {
        let c = cs[i];
        if c == ' ' {
            let ghost rest = s@.skip(i as int);
            let ghost whole = cur@ + rest;
            proof {
                lemma_sp_index_prefix(cur@, rest);
                lemma_sp_index_bounds(rest);
                assert(rest[0] == ' ');
                assert(sp_index(whole) == cur@.len());
                assert(whole.take(cur@.len() as int) =~= cur@);
                assert(whole.skip(cur@.len() as int + 1) =~= s@.skip(i + 1));
            }
            let piece = string_of(&cur);
            let ghost prev = out@;
            out.push(piece);
            cur = Vec::new();
            proof {
                assert(string_views(out@) =~= string_views(prev).push(whole.take(sp_index(whole))));
                assert(cur@ + s@.skip(i + 1) =~= s@.skip(i + 1));
                assert(string_views(prev) + words_of(whole) =~= string_views(out@) + words_of(
                    s@.skip(i + 1),
                ));
            }
        } else {
            let ghost before = cur@;
            cur.push(c);
            proof {
                assert(cur@ + s@.skip(i + 1) =~= before + s@.skip(i as int));
            }
        }
        i += 1;
    }
    proof {
        assert(cur@ + s@.skip(i as int) =~= cur@);
        lemma_sp_index_prefix(cur@, Seq::<char>::empty());
        assert(cur@ + Seq::<char>::empty() =~= cur@);
        assert(words_of(cur@) == seq![cur@]);
    }
    let last = string_of(&cur);
    let ghost prev = out@;
    out.push(last);
    proof {
        assert(string_views(out@) =~= string_views(prev) + seq![cur@]);
    }
    out
}

/// Whether every character of `s` is ASCII (one byte in UTF-8).
pub open spec fn is_ascii_text(s: Seq<char>) -> bool {
    forall|i: int| 0 <= i < s.len() ==> (#[trigger] s[i] as u32) < 128
}

/// The bytes of an ASCII text: one per character.
pub open spec fn ascii_bytes(s: Seq<char>) -> Seq<u8> {
    s.map_values(|c: char| (c as u32) as u8)
}

proof fn lemma_ascii_encode(s: Seq<char>)
    requires
        is_ascii_text(s),
    ensures
        encode_utf8(s) == ascii_bytes(s),
        blen(s) == s.len(),
    decreases s.len(),
{
    if s.len() == 0 {
        assert(encode_utf8(s) =~= ascii_bytes(s));
    } else {
        let x = s[0] as u32;
        assert(x < 128);
        assert((x & 0x7F) == x) by (bit_vector)
            requires
                x < 128,
        ;
        let rest = s.drop_first();
        assert(is_ascii_text(rest)) by {
            assert forall|i: int| 0 <= i < rest.len() implies (#[trigger] rest[i] as u32) < 128 by {
                assert(rest[i] == s[i + 1]);
            }
        }
        lemma_ascii_encode(rest);
        assert(encode_utf8(s) =~= ascii_bytes(s));
    }
}

proof fn lemma_ascii_subrange(s: Seq<char>, a: int, b: int)
    requires
        is_ascii_text(s),
        0 <= a <= b <= s.len(),
    ensures
        is_ascii_text(s.subrange(a, b)),
        encode_utf8(s).subrange(a, b) == encode_utf8(s.subrange(a, b)),
{
    let t = s.subrange(a, b);
    assert(is_ascii_text(t)) by {
        assert forall|i: int| 0 <= i < t.len() implies (#[trigger] t[i] as u32) < 128 by {
            assert(t[i] == s[a + i]);
        }
    }
    lemma_ascii_encode(s);
    lemma_ascii_encode(t);
    assert(encode_utf8(s).subrange(a, b) =~= encode_utf8(t));
}

proof fn lemma_ascii_words(s: Seq<char>)
    requires
        is_ascii_text(s),
    ensures
        forall|k: int| 0 <= k < words_of(s).len() ==> is_ascii_text(#[trigger] words_of(s)[k]),
    decreases s.len(),
{
    let k = sp_index(s);
    lemma_sp_index_bounds(s);
    if k < s.len() {
        lemma_ascii_subrange(s, 0, k);
        assert(s.take(k) =~= s.subrange(0, k));
        lemma_ascii_subrange(s, k + 1, s.len() as int);
        assert(s.skip(k + 1) =~= s.subrange(k + 1, s.len() as int));
        lemma_ascii_words(s.skip(k + 1));
        let ws = words_of(s);
        assert forall|j: int| 0 <= j < ws.len() implies is_ascii_text(#[trigger] ws[j]) by {
            if j > 0 {
                assert(ws[j] == words_of(s.skip(k + 1))[j - 1]);
            }
        }
    }
}

/// Whether every line is ASCII and at most `m` characters long.
pub open spec fn lines_fit(v: Seq<String>, m: nat) -> bool {
    forall|k: int| 0 <= k < v.len() ==> is_ascii_text(#[trigger] v[k]@) && v[k]@.len() <= m
}

proof fn lemma_fit_append(a: Seq<String>, b: Seq<String>, c: Seq<String>, m: nat)
    requires
        string_views(c) == string_views(a) + string_views(b),
        lines_fit(a, m),
        lines_fit(b, m),
    ensures
        lines_fit(c, m),
{
    assert(c.len() == string_views(c).len());
    assert forall|k: int| 0 <= k < c.len() implies is_ascii_text(#[trigger] c[k]@) && c[k]@.len() <= m by {
        assert(c[k]@ == string_views(c)[k]);
        if k < a.len() {
            assert(string_views(c)[k] == string_views(a)[k]);
        } else {
            assert(string_views(c)[k] == string_views(b)[k - a.len()]);
        }
    }
}

proof fn lemma_ascii_join(a: Seq<char>, w: Seq<char>)
    requires
        is_ascii_text(a),
        is_ascii_text(w),
    ensures
        is_ascii_text(a + seq![' '] + w),
{
    let t = a + seq![' '] + w;
    assert forall|i: int| 0 <= i < t.len() implies (#[trigger] t[i] as u32) < 128 by {
        if i < a.len() {
            assert(t[i] == a[i]);
        } else if i == a.len() {
            assert(t[i] == ' ');
        } else {
            assert(t[i] == w[i - a.len() - 1]);
        }
    }
}

/// `b` cut into pieces of `n` bytes (the last may be shorter).
pub open spec fn byte_chunks(b: Seq<u8>, n: nat) -> Seq<Seq<u8>>
    decreases b.len(),
{
    if b.len() == 0 || n == 0 {
        Seq::empty()
    } else {
        let k = if n < b.len() {
            n as int
        } else {
            b.len() as int
        };
        seq![b.take(k)] + byte_chunks(b.skip(k), n)
    }
}

/// A word too wide for a line, cut into lines of `n` bytes, each read as
/// UTF-8 with invalid sequences replaced.
pub open spec fn hard_break(w: Seq<char>, n: nat) -> Seq<Seq<char>> {
    byte_chunks(encode_utf8(w), n).map_values(|c: Seq<u8>| lossy_text(c))
}

fn chunk_lines(w: &str, n: usize) -> (r: Vec<String>)
    requires
        n > 0,
    ensures
        string_views(r@) == hard_break(w@, n as nat),
        is_ascii_text(w@) ==> forall|k: int|
            0 <= k < r@.len() ==> is_ascii_text(#[trigger] r@[k]@) && r@[k]@.len() <= n,
{
    let bytes = w.as_bytes();
    let len = bytes.len();
    let ghost b = encode_utf8(w@);
    let mut out: Vec<String> = Vec::new();
    let mut start: usize = 0;
    proof {
        if is_ascii_text(w@) {
            lemma_ascii_encode(w@);
        }
        assert(b.skip(0) =~= b);
        assert(string_views(out@) + hard_break_of(b.skip(0), n as nat) =~= hard_break_of(b, n as nat));
    }
    while start < len
        invariant
            n > 0,
            bytes@ == b,
            len == b.len(),
            start <= len,
            string_views(out@) + hard_break_of(b.skip(start as int), n as nat) == hard_break_of(
                b,
                n as nat,
            ),
            b == encode_utf8(w@),
            is_ascii_text(w@) ==> b.len() == w@.len(),
            is_ascii_text(w@) ==> forall|k: int|
                0 <= k < out@.len() ==> is_ascii_text(#[trigger] out@[k]@) && out@[k]@.len() <= n,
        decreases len - start,
    {
        let end = if n < len - start {
            start + n
        } else {
            len
        };
        let mut chunk: Vec<u8> = Vec::new();
        let mut j = start;
        while j < end
            invariant
                start <= j <= end <= len,
                bytes@ == b,
                len == b.len(),
                chunk@ == b.subrange(start as int, j as int),
            decreases end - j,
        {
            chunk.push(bytes[j]);
            proof {
                assert(b.subrange(start as int, j + 1) =~= b.subrange(start as int, j as int).push(
                    b[j as int],
                ));
            }
            j += 1;
        }
        let line = string_from_utf8_lossy(chunk.as_slice());
        proof {
            if is_ascii_text(w@) {
                lemma_ascii_subrange(w@, start as int, end as int);
                let sub = w@.subrange(start as int, end as int);
                vstd::utf8::encode_utf8_valid_utf8(sub);
                vstd::utf8::encode_utf8_decode_utf8(sub);
                assert(line@ == sub);
            }
        }
        let ghost rest = b.skip(start as int);
        let ghost prev = out@;
        out.push(line);
        proof {
            let k = (end - start) as int;
            assert(rest.take(k) =~= chunk@);
            assert(rest.skip(k) =~= b.skip(end as int));
            assert(byte_chunks(rest, n as nat) == seq![rest.take(k)] + byte_chunks(
                rest.skip(k),
                n as nat,
            ));
            assert(hard_break_of(rest, n as nat) =~= seq![lossy_text(chunk@)] + hard_break_of(
                b.skip(end as int),
                n as nat,
            ));
            assert(string_views(out@) =~= string_views(prev).push(lossy_text(chunk@)));
            assert(string_views(out@) + hard_break_of(b.skip(end as int), n as nat) =~= string_views(
                prev,
            ) + hard_break_of(rest, n as nat));
        }
        start = end;
    }
    proof {
        assert(b.skip(len as int) =~= Seq::<u8>::empty());
        assert(string_views(out@) + Seq::<Seq<char>>::empty() =~= string_views(out@));
    }
    out
}

/// `byte_chunks` read back as text.
pub open spec fn hard_break_of(b: Seq<u8>, n: nat) -> Seq<Seq<char>> {
    byte_chunks(b, n).map_values(|c: Seq<u8>| lossy_text(c))
}

/// One word's turn at the wrapping state (finished lines, line being
/// built): a word that fits joins the line after a space; one that does
/// not closes the line first; a word wider than a whole line is cut into
/// chunk lines on its own.
pub open spec fn wrap_step(
    st: (Seq<Seq<char>>, Seq<char>),
    w: Seq<char>,
    m: nat,
) -> (Seq<Seq<char>>, Seq<char>) {
    let (out, cur) = st;
    if cur.len() == 0 {
        if blen(w) > m {
            (out + hard_break(w, m), cur)
        } else {
            (out, w)
        }
    } else if blen(cur) + 1 + blen(w) <= m {
        (out, cur + seq![' '] + w)
    } else {
        let closed = out.push(cur);
        if blen(w) > m {
            (closed + hard_break(w, m), Seq::empty())
        } else {
            (closed, w)
        }
    }
}

/// The wrapping state after the words `ws`.
pub open spec fn wrap_fold(ws: Seq<Seq<char>>, m: nat) -> (Seq<Seq<char>>, Seq<char>)
    decreases ws.len(),
{
    if ws.len() == 0 {
        (Seq::empty(), Seq::empty())
    } else {
        wrap_step(wrap_fold(ws.drop_last(), m), ws.last(), m)
    }
}

/// `text` wrapped to `m` bytes: one empty line for width 0, the text
/// itself when it fits, else its words wrapped (see `wrap_step`) with the
/// last line closed; never no line at all.
pub open spec fn wrapped(text: Seq<char>, m: nat) -> Seq<Seq<char>> {
    if m == 0 {
        seq![Seq::empty()]
    } else if blen(text) <= m {
        seq![text]
    } else {
        let (out, cur) = wrap_fold(words_of(text), m);
        let all = if cur.len() > 0 {
            out.push(cur)
        } else {
            out
        };
        if all.len() == 0 {
            seq![Seq::empty()]
        } else {
            all
        }
    }
}

fn append_all(out: &mut Vec<String>, more: Vec<String>)
    ensures
        string_views(final(out)@) == string_views(old(out)@) + string_views(more@),
{
    let mut m = more;
    let ghost a = out@;
    let ghost b = m@;
    out.append(&mut m);
    proof {
        assert(string_views(out@) =~= string_views(a) + string_views(b));
    }
}

/// Wrap `text` to `max_w` bytes (see `wrapped`). Every line of an ASCII
/// text fits in the width.
pub fn wrap_line(text: &str, max_w: usize) -> (r: Vec<String>)
    ensures
        string_views(r@) == wrapped(text@, max_w as nat),
        is_ascii_text(text@) ==> lines_fit(r@, max_w as nat),
{
    if max_w == 0 {
        let v = vec![String::new()];
        proof {
            assert(string_views(v@) =~= seq![Seq::<char>::empty()]);
        }
        return v;
    }
    proof {
        if is_ascii_text(text@) {
            lemma_ascii_encode(text@);
            lemma_ascii_words(text@);
        }
    }
    if text.as_bytes().len() <= max_w {
        let v = vec![text.to_owned()];
        proof {
            assert(string_views(v@) =~= seq![text@]);
        }
        return v;
    }
    let ws = words(text);
    let ghost wv = string_views(ws@);
    let mut out: Vec<String> = Vec::new();
    let mut cur = String::new();
    let mut i: usize = 0;
    proof {
        assert(wv.take(0) =~= Seq::<Seq<char>>::empty());
        assert(string_views(out@) =~= Seq::<Seq<char>>::empty());
    }
    while i < ws.len()
        invariant
            max_w > 0,
            wv == string_views(ws@),
            i <= ws@.len(),
            (string_views(out@), cur@) == wrap_fold(wv.take(i as int), max_w as nat),
            wv == words_of(text@),
            is_ascii_text(text@) ==> forall|k: int|
                0 <= k < words_of(text@).len() ==> is_ascii_text(#[trigger] words_of(text@)[k]),
            is_ascii_text(text@) ==> lines_fit(out@, max_w as nat) && is_ascii_text(cur@) && cur@.len()
                <= max_w,
        decreases ws@.len() - i,
    {
        let ghost st = (string_views(out@), cur@);
        let w = &ws[i];
        let wlen = w.as_str().as_bytes().len();
        proof {
            assert(wv.take(i + 1).drop_last() =~= wv.take(i as int));
            assert(wv.take(i + 1).last() == w@);
            if is_ascii_text(text@) {
                assert(w@ == wv[i as int]);
                assert(is_ascii_text(w@));
                lemma_ascii_encode(w@);
                lemma_ascii_encode(cur@);
            }
        }
        if cur.as_str().is_empty() {
            if wlen > max_w {
                let chunks = chunk_lines(w.as_str(), max_w);
                let ghost before = out@;
                let ghost cv = chunks@;
                append_all(&mut out, chunks);
                proof {
                    if is_ascii_text(text@) {
                        lemma_fit_append(before, cv, out@, max_w as nat);
                    }
                }
            } else {
                cur = w.clone();
            }
        } else {
            let clen = cur.as_str().as_bytes().len();
            if clen < max_w && wlen <= max_w - 1 - clen {
                let a = concat(cur.as_str(), " ");
                cur = concat(a.as_str(), w.as_str());
                proof {
                    reveal_strlit(" ");
                    assert(cur@ =~= st.1 + seq![' '] + w@);
                    if is_ascii_text(text@) {
                        lemma_ascii_join(st.1, w@);
                    }
                }
            } else {
                let closed = cur;
                let ghost prev = out@;
                out.push(closed);
                proof {
                    assert(string_views(out@) =~= string_views(prev).push(st.1));
                }
                cur = String::new();
                if wlen > max_w {
                    let chunks = chunk_lines(w.as_str(), max_w);
                    let ghost before = out@;
                    let ghost cv = chunks@;
                    append_all(&mut out, chunks);
                    proof {
                        if is_ascii_text(text@) {
                            lemma_fit_append(before, cv, out@, max_w as nat);
                        }
                    }
                } else {
                    cur = w.clone();
                }
            }
        }
        i += 1;
    }
    proof {
        assert(wv.take(ws@.len() as int) =~= wv);
    }
    if !cur.as_str().is_empty() {
        let ghost prev = out@;
        out.push(cur);
        proof {
            assert(string_views(out@) =~= string_views(prev).push(wrap_fold(wv, max_w as nat).1));
        }
    }
    if out.len() == 0 {
        out.push(String::new());
        proof {
            assert(string_views(out@) =~= seq![Seq::<char>::empty()]);
        }
    }
    out
}

} // verus!
