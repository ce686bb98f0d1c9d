//! Splitting text into lines the way `str::lines` does, and the byte-wise
//! (code point) ordering of names with a sort that uses it.
use vstd::prelude::*;
use crate::text::{chars_of, string_of};

verus! {

/// Index of the first `\n` in `s`, or its length when there is none.
pub open spec fn nl_index(s: Seq<char>) -> int
    decreases s.len(),
{
    if s.len() == 0 {
        0
    } else if s[0] == '\n' {
        0
    } else {
        1 + nl_index(s.drop_first())
    }
}

/// `s` without one final `\r`.
pub open spec fn drop_cr(s: Seq<char>) -> Seq<char> {
    if s.len() > 0 && s.last() == '\r' {
        s.drop_last()
    } else {
        s
    }
}

/// The lines of `s`: pieces ended by `\n` (which is dropped, with a `\r`
/// right before it), and a last piece without `\n` kept as it is when it
/// is not empty.
pub open spec fn line_seqs(s: Seq<char>) -> Seq<Seq<char>>
    decreases s.len(),
{
    if s.len() == 0 {
        Seq::empty()
    } else {
        let k = nl_index(s);
        if k >= s.len() || k < 0 {
            seq![s]
        } else {
            seq![drop_cr(s.take(k))] + line_seqs(s.skip(k + 1))
        }
    }
}

pub(crate) proof fn lemma_nl_index_bounds(s: Seq<char>)
    ensures
        0 <= nl_index(s) <= s.len(),
        nl_index(s) < s.len() ==> s[nl_index(s)] == '\n',
        forall|j: int| 0 <= j < nl_index(s) ==> s[j] != '\n',
    decreases s.len(),
{
    if s.len() > 0 && s[0] != '\n' {
        lemma_nl_index_bounds(s.drop_first());
        assert forall|j: int| 0 <= j < nl_index(s) implies s[j] != '\n' by {
            if j > 0 {
                assert(s[j] == s.drop_first()[j - 1]);
            }
        }
    }
}

pub(crate) proof fn lemma_nl_index_prefix(cur: Seq<char>, rest: Seq<char>)
    requires
        forall|j: int| 0 <= j < cur.len() ==> cur[j] != '\n',
    ensures
        nl_index(cur + rest) == cur.len() + nl_index(rest),
    decreases cur.len(),
{
    if cur.len() > 0 {
        assert((cur + rest).drop_first() =~= cur.drop_first() + rest);
        lemma_nl_index_prefix(cur.drop_first(), rest);
    } else {
        assert(cur + rest =~= rest);
    }
}

/// The views of a list of strings.
pub open spec fn views(v: Seq<String>) -> Seq<Seq<char>> {
    v.map_values(|s: String| s@)
}

/// The lines of `s`, as `str::lines` yields them (see `line_seqs`).
pub fn lines_of(s: &str) -> (r: Vec<String>)
    ensures
        views(r@) == line_seqs(s@),
{
    let cs = chars_of(s);
    let mut out: Vec<String> = Vec::new();
    let mut cur: Vec<char> = Vec::new();
    let mut i: usize = 0;
    proof {
        assert(views(out@) =~= Seq::<Seq<char>>::empty());
        assert(cur@ + s@.skip(0) =~= s@);
        assert(views(out@) + line_seqs(s@) =~= line_seqs(s@));
    }
    while i < cs.len()
        invariant
            cs@ == s@,
            i <= cs@.len(),
            forall|j: int| 0 <= j < cur@.len() ==> cur@[j] != '\n',
            views(out@) + line_seqs(cur@ + s@.skip(i as int)) == line_seqs(s@),
        decreases cs@.len() - i,
    {
        let c = cs[i];
        if c == '\n' {
            let ghost rest = s@.skip(i as int);
            let ghost whole = cur@ + rest;
            proof {
                lemma_nl_index_prefix(cur@, rest);
                lemma_nl_index_bounds(rest);
                assert(rest[0] == '\n');
                assert(nl_index(whole) == cur@.len());
                assert(whole.take(cur@.len() as int) =~= cur@);
                assert(whole.skip(cur@.len() as int + 1) =~= s@.skip(i + 1));
            }
            let n = cur.len();
            let line = if n > 0 && cur[n - 1] == '\r' {
                let mut t = cur.clone();
                t.pop();
                string_of(&t)
            } else {
                string_of(&cur)
            };
            proof {
                assert(line@ == drop_cr(cur@));
            }
            let ghost prev = out@;
            out.push(line);
            cur = Vec::new();
            proof {
                assert(views(out@) =~= views(prev).push(drop_cr(whole.take(nl_index(whole)))));
                assert(line_seqs(whole) == seq![drop_cr(whole.take(nl_index(whole)))] + line_seqs(
                    whole.skip(nl_index(whole) + 1),
                ));
                assert(cur@ + s@.skip(i + 1) =~= s@.skip(i + 1));
                assert(views(prev) + line_seqs(whole) =~= views(out@) + line_seqs(s@.skip(i + 1)));
            }
        } else {
            let ghost before = cur@;
            cur.push(c);
            proof {
                assert(cur@ + s@.skip(i + 1) =~= before + s@.skip(i as int));
            }
        }
        i += 1;
    }
    proof {
        assert(s@.skip(i as int) =~= Seq::<char>::empty());
        assert(cur@ + s@.skip(i as int) =~= cur@);
        lemma_nl_index_bounds(cur@);
        if cur@.len() > 0 {
            lemma_nl_index_prefix(cur@, Seq::<char>::empty());
            assert(cur@ + Seq::<char>::empty() =~= cur@);
        }
    }
    if cur.len() > 0 {
        let last = string_of(&cur);
        let ghost prev = out@;
        out.push(last);
        proof {
            assert(views(out@) =~= views(prev) + seq![cur@]);
        }
    } else {
        proof {
            assert(views(out@) + Seq::<Seq<char>>::empty() =~= views(out@));
        }
    }
    out
}

/// `a` sorts at or before `b`: character by character on code points, a
/// prefix before the longer name (the order of `str::cmp`).
pub open spec fn name_le(a: Seq<char>, b: Seq<char>) -> bool
    decreases a.len(),
{
    if a.len() == 0 {
        true
    } else if b.len() == 0 {
        false
    } else if a[0] != b[0] {
        a[0] < b[0]
    } else {
        name_le(a.drop_first(), b.drop_first())
    }
}

/// Any two names are ordered one way or the other.
pub proof fn lemma_name_le_total(a: Seq<char>, b: Seq<char>)
    ensures
        name_le(a, b) || name_le(b, a),
    decreases a.len(),
{
    if a.len() > 0 && b.len() > 0 {
        if a[0] == b[0] {
            lemma_name_le_total(a.drop_first(), b.drop_first());
        }
    }
}

/// The name order is transitive.
pub proof fn lemma_name_le_trans(a: Seq<char>, b: Seq<char>, c: Seq<char>)
    requires
        name_le(a, b),
        name_le(b, c),
    ensures
        name_le(a, c),
    decreases a.len(),
{
    if a.len() > 0 && b.len() > 0 && c.len() > 0 && a[0] == b[0] && b[0] == c[0] {
        lemma_name_le_trans(a.drop_first(), b.drop_first(), c.drop_first());
    }
}

proof fn lemma_name_le_step(a: Seq<char>, b: Seq<char>, i: int)
    requires
        0 <= i < a.len(),
        i < b.len(),
        a[i] == b[i],
    ensures
        name_le(a.skip(i), b.skip(i)) == name_le(a.skip(i + 1), b.skip(i + 1)),
{
    assert(a.skip(i).drop_first() =~= a.skip(i + 1));
    assert(b.skip(i).drop_first() =~= b.skip(i + 1));
}

/// Whether `a` sorts at or before `b` (see `name_le`).
pub fn names_le(a: &str, b: &str) -> (r: bool)
    ensures
        r == name_le(a@, b@),
{
    let ac = chars_of(a);
    let bc = chars_of(b);
    let mut i: usize = 0;
    proof {
        assert(a@.skip(0) =~= a@);
        assert(b@.skip(0) =~= b@);
    }
    while i < ac.len() && i < bc.len()
        invariant
            ac@ == a@,
            bc@ == b@,
            i <= ac@.len(),
            i <= bc@.len(),
            name_le(a@, b@) == name_le(a@.skip(i as int), b@.skip(i as int)),
        decreases ac@.len() - i,
    {
        if ac[i] != bc[i] {
            return ac[i] < bc[i];
        }
        proof {
            lemma_name_le_step(a@, b@, i as int);
        }
        i += 1;
    }
    i == ac.len()
}

/// A directory entry as a listing shows it.
pub struct DirEntry {
    pub name: String,
    pub path: String,
    pub is_dir: bool,
    pub size: u64,
}

/// Entries in name order.
pub open spec fn sorted_by_name(s: Seq<DirEntry>) -> bool {
    forall|i: int, j: int| 0 <= i < j < s.len() ==> name_le(#[trigger] s[i].name@, #[trigger] s[j].name@)
}

proof fn lemma_insert_sorted(s: Seq<DirEntry>, pos: int, x: DirEntry)
    requires
        sorted_by_name(s),
        0 <= pos <= s.len(),
        forall|k: int| 0 <= k < pos ==> name_le(#[trigger] s[k].name@, x.name@),
        pos < s.len() ==> name_le(x.name@, s[pos].name@),
    ensures
        sorted_by_name(s.insert(pos, x)),
{
    let t = s.insert(pos, x);
    assert forall|i: int, j: int| 0 <= i < j < t.len() implies name_le(
        #[trigger] t[i].name@,
        #[trigger] t[j].name@,
    ) by {
        if j < pos {
            assert(t[i] == s[i] && t[j] == s[j]);
        } else if j == pos {
            assert(t[i] == s[i]);
        } else if i == pos {
            assert(t[j] == s[j - 1]);
            if j - 1 > pos {
                lemma_name_le_trans(x.name@, s[pos].name@, s[j - 1].name@);
            }
        } else if i < pos {
            assert(t[i] == s[i] && t[j] == s[j - 1]);
        } else {
            assert(t[i] == s[i - 1] && t[j] == s[j - 1]);
        }
    }
}

/// `s` with `x` put before its first entry whose name is not below
/// `x`'s.
pub open spec fn insert_by_name(s: Seq<DirEntry>, x: DirEntry) -> Seq<DirEntry>
    decreases s.len(),
{
    if s.len() == 0 {
        seq![x]
    } else if name_le(x.name@, s[0].name@) {
        seq![x] + s
    } else {
        seq![s[0]] + insert_by_name(s.drop_first(), x)
    }
}

/// The stable sort of `s` by name: entries in name order, entries with
/// equal names in the order they had in `s`.
pub open spec fn name_sorted(s: Seq<DirEntry>) -> Seq<DirEntry>
    decreases s.len(),
{
    if s.len() == 0 {
        Seq::empty()
    } else {
        insert_by_name(name_sorted(s.drop_first()), s[0])
    }
}

proof fn lemma_insert_by_name_at(s: Seq<DirEntry>, x: DirEntry, pos: int)
    requires
        0 <= pos <= s.len(),
        forall|k: int| 0 <= k < pos ==> !name_le(x.name@, #[trigger] s[k].name@),
        pos < s.len() ==> name_le(x.name@, s[pos].name@),
    ensures
        insert_by_name(s, x) == s.insert(pos, x),
    decreases s.len(),
{
    if s.len() == 0 {
        assert(s.insert(pos, x) =~= seq![x]);
    } else if pos == 0 {
        assert(s.insert(0, x) =~= seq![x] + s);
    } else {
        let t = s.drop_first();
        assert forall|k: int| 0 <= k < pos - 1 implies !name_le(x.name@, #[trigger] t[k].name@) by {
            assert(t[k] == s[k + 1]);
        }
        lemma_insert_by_name_at(t, x, pos - 1);
        assert(s.insert(pos, x) =~= seq![s[0]] + t.insert(pos - 1, x));
    }
}

/// The entries of `v` sorted stably by name (see `name_sorted`).
pub fn sort_by_name(v: Vec<DirEntry>) -> (r: Vec<DirEntry>)
    ensures
        r@ == name_sorted(v@),
        r@.to_multiset() == v@.to_multiset(),
        sorted_by_name(r@),
{
    broadcast use vstd::seq_lib::group_to_multiset_ensures;
    broadcast use vstd::multiset::group_multiset_axioms;

    let mut rest = v;
    let mut out: Vec<DirEntry> = Vec::new();
    proof {
        assert(out@.to_multiset().add(rest@.to_multiset()) =~= v@.to_multiset());
    }
    proof {
        assert(v@.skip(v@.len() as int) =~= Seq::<DirEntry>::empty());
    }
    while rest.len() > 0
        invariant
            out@.to_multiset().add(rest@.to_multiset()) == v@.to_multiset(),
            sorted_by_name(out@),
            rest@ == v@.take(rest@.len() as int),
            rest@.len() <= v@.len(),
            out@ == name_sorted(v@.skip(rest@.len() as int)),
        decreases rest@.len(),
    {
        let ghost before = rest@;
        let x = match rest.pop() {
            Some(e) => e,
            None => {
                return out;
            },
        };
        proof {
            assert(before =~= rest@.push(x));
        }
        let mut pos: usize = 0;
        while pos < out.len() && !names_le(x.name.as_str(), out[pos].name.as_str())
            invariant
                pos <= out@.len(),
                forall|k: int| 0 <= k < pos ==> !name_le(x.name@, #[trigger] out@[k].name@),
                forall|k: int| 0 <= k < pos ==> name_le(#[trigger] out@[k].name@, x.name@),
            decreases out@.len() - pos,
        {
            proof {
                lemma_name_le_total(x.name@, out@[pos as int].name@);
            }
            pos += 1;
        }
        let ghost prev = out@;
        proof {
            lemma_insert_sorted(prev, pos as int, x);
            lemma_insert_by_name_at(prev, x, pos as int);
            let n = rest@.len() as int;
            assert(v@.skip(n) =~= seq![x] + v@.skip(n + 1));
            assert(v@.skip(n).drop_first() =~= v@.skip(n + 1));
            assert(rest@ =~= v@.take(n));
        }
        out.insert(pos, x);
        proof {
            assert(out@ == prev.insert(pos as int, x));
            vstd::seq_lib::to_multiset_insert(prev, pos as int, x);
            assert(out@.to_multiset() == prev.to_multiset().insert(x));
            vstd::seq_lib::to_multiset_build(rest@, x);
            assert(before.to_multiset() == rest@.to_multiset().insert(x));
            assert(out@.to_multiset().add(rest@.to_multiset()) =~= prev.to_multiset().add(
                before.to_multiset(),
            ));
        }
    }
    out
}

} // verus!
