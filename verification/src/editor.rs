//! The in-terminal editor: when a file opens read-only, what the editor's
//! keys do, and how a file's text becomes the buffer's lines and back.
use vstd::prelude::*;
use crate::lines::{lemma_nl_index_bounds, lemma_nl_index_prefix, nl_index, views};
use crate::text::{chars_of, concat, string_of};
use crate::ui::{ConfirmKind, InputKind, Key, Modal};
use crate::views::{row_view, run, TextRun, Tone};

verus! {

// ─── Read-only gate ─────────────────────────────────────────────────────

/// Why a file opens read-only.
#[derive(Debug, Clone, Copy, PartialEq, Eq, Structural)]
pub enum ReadOnlyReason {
    /// No particular reason (editable, or it could not be inspected).
    NoReason,
    /// Larger than 1 MiB.
    TooLarge,
    /// More than one byte in twenty of its head is not text.
    Binary,
}

/// Files larger than this many bytes open read-only.
pub const SIZE_CAP: u64 = 1048576;

/// How many leading bytes the binary check reads.
pub const BINARY_HEAD: usize = 8192;

/// A byte that counts as text: an ASCII graphic character, space, newline,
/// carriage return or tab.
pub open spec fn printable(b: u8) -> bool {
    (0x21 <= b <= 0x7e) || b == 0x20 || b == 0x0a || b == 0x0d || b == 0x09
}

/// How many bytes of `s` are not text.
pub open spec fn non_printable_count(s: Seq<u8>) -> nat
    decreases s.len(),
{
    if s.len() == 0 {
        0
    } else {
        non_printable_count(s.drop_last()) + if printable(s.last()) {
            0nat
        } else {
            1nat
        }
    }
}

/// Whether a file opens read-only, and why, from its size (`None` when it
/// could not be inspected) and its first bytes (`None` when it could not
/// be opened): uninspectable files are read-only with no reason, files over
/// 1 MiB are too large, an empty head is editable, and a head in which more
/// than one byte in twenty is not text is binary.
pub open spec fn verdict(size: Option<u64>, head: Option<Seq<u8>>) -> (bool, ReadOnlyReason) {
    match size {
        None => (true, ReadOnlyReason::NoReason),
        Some(n) => if n > SIZE_CAP {
            (true, ReadOnlyReason::TooLarge)
        } else {
            match head {
                None => (true, ReadOnlyReason::NoReason),
                Some(h) => if h.len() == 0 {
                    (false, ReadOnlyReason::NoReason)
                } else if 20 * non_printable_count(h) > h.len() {
                    (true, ReadOnlyReason::Binary)
                } else {
                    (false, ReadOnlyReason::NoReason)
                },
            }
        },
    }
}

/// A byte counts against the text check exactly when it is a control
/// byte other than tab, newline and carriage return, or lies at or above
/// `0x7f`: a space, a visible ASCII character, a tab, a newline or a
/// carriage return never does.
pub proof fn lemma_non_text_bytes(b: u8)
    ensures
        non_printable_count(seq![b]) == if (0x20 <= b && b < 0x7f) || b == 0x09 || b == 0x0a || b
            == 0x0d {
            0nat
        } else {
            1nat
        },
{
    assert(seq![b].drop_last() =~= Seq::<u8>::empty());
    assert(non_printable_count(Seq::<u8>::empty()) == 0);
    assert(seq![b].last() == b);
}

/// A head of visible ASCII characters, spaces, tabs, newlines and carriage
/// returns holds no non-text byte, so a file with such a head within the
/// size cap opens editable.
pub proof fn lemma_plain_text_is_editable(size: u64, h: Seq<u8>)
    requires
        size <= SIZE_CAP,
        forall|i: int|
            0 <= i < h.len() ==> (0x20 <= #[trigger] h[i] && h[i] < 0x7f) || h[i] == 0x09 || h[i]
                == 0x0a || h[i] == 0x0d,
    ensures
        non_printable_count(h) == 0,
        verdict(Some(size), Some(h)) == (false, ReadOnlyReason::NoReason),
    decreases h.len(),
{
    if h.len() > 0 {
        let t = h.drop_last();
        assert forall|i: int|
            0 <= i < t.len() implies (0x20 <= #[trigger] t[i] && t[i] < 0x7f) || t[i] == 0x09 || t[i]
            == 0x0a || t[i] == 0x0d by {
            assert(t[i] == h[i]);
        }
        lemma_plain_text_is_editable(size, t);
        assert(h[h.len() - 1] == h.last());
    }
}

fn is_printable(b: u8) -> (r: bool)
    ensures
        r == printable(b),
{
    (0x21 <= b && b <= 0x7e) || b == 0x20 || b == 0x0a || b == 0x0d || b == 0x09
}

/// Whether a file opens read-only (see `verdict`).
pub fn read_only_verdict(size: Option<u64>, head: Option<&[u8]>) -> (r: (bool, ReadOnlyReason))
    ensures
        r == verdict(
            size,
            match head {
                Some(h) => Some(h@),
                None => None,
            },
        ),
{
    let n = match size {
        None => {
            return (true, ReadOnlyReason::NoReason);
        },
        Some(n) => n,
    };
    if n > SIZE_CAP {
        return (true, ReadOnlyReason::TooLarge);
    }
    let h = match head {
        None => {
            return (true, ReadOnlyReason::NoReason);
        },
        Some(h) => h,
    };
    if h.len() == 0 {
        return (false, ReadOnlyReason::NoReason);
    }
    let mut count: usize = 0;
    let mut i: usize = 0;
    while i < h.len()
        invariant
            i <= h@.len(),
            count == non_printable_count(h@.take(i as int)),
            count <= i,
        decreases h@.len() - i,
    {
        proof {
            assert(h@.take(i + 1).drop_last() =~= h@.take(i as int));
        }
        if !is_printable(h[i]) {
            count = count + 1;
        }
        i += 1;
    }
    proof {
        assert(h@.take(h@.len() as int) =~= h@);
    }
    let len = h.len();
    proof {
        assert((count > len / 20) == (20 * count > len)) by (nonlinear_arith);
    }
    if count > len / 20 {
        (true, ReadOnlyReason::Binary)
    } else {
        (false, ReadOnlyReason::NoReason)
    }
}

// ─── Text and lines ─────────────────────────────────────────────────────

/// The pieces of `s` between `\n`s (one more than there are `\n`s).
pub open spec fn split_nl(s: Seq<char>) -> Seq<Seq<char>>
    decreases s.len(),
{
    let k = nl_index(s);
    if k >= s.len() || k < 0 {
        seq![s]
    } else {
        seq![s.take(k)] + split_nl(s.skip(k + 1))
    }
}

/// `s` without its trailing `\r`s.
pub open spec fn trim_cr_end(s: Seq<char>) -> Seq<char>
    decreases s.len(),
{
    if s.len() > 0 && s.last() == '\r' {
        trim_cr_end(s.drop_last())
    } else {
        s
    }
}

/// The buffer a file's text loads as: its `\n`-separated pieces without
/// trailing `\r`s, the empty piece after a final `\n` dropped.
pub open spec fn buffer_of(text: Seq<char>) -> Seq<Seq<char>> {
    let p = split_nl(text).map_values(|l: Seq<char>| trim_cr_end(l));
    if text.len() > 0 && text.last() == '\n' {
        p.drop_last()
    } else {
        p
    }
}

/// The lines joined with `\n` between them.
pub open spec fn joined(lines: Seq<Seq<char>>) -> Seq<char>
    decreases lines.len(),
{
    if lines.len() == 0 {
        Seq::empty()
    } else if lines.len() == 1 {
        lines[0]
    } else {
        joined(lines.drop_last()) + seq!['\n'] + lines.last()
    }
}

/// The text a buffer saves as: its lines joined with `\n`, ended by `\n`.
pub open spec fn saved_text(lines: Seq<Seq<char>>) -> Seq<char> {
    joined(lines) + seq!['\n']
}

pub(crate) fn split_pieces(s: &str) -> (r: Vec<String>)
    ensures
        views(r@) == split_nl(s@),
{
    let cs = chars_of(s);
    let mut out: Vec<String> = Vec::new();
    let mut cur: Vec<char> = Vec::new();
    let mut i: usize = 0;
    proof {
        assert(views(out@) =~= Seq::<Seq<char>>::empty());
        assert(cur@ + s@.skip(0) =~= s@);
        assert(views(out@) + split_nl(s@) =~= split_nl(s@));
    }
    while i < cs.len()
        invariant
            cs@ == s@,
            i <= cs@.len(),
            forall|j: int| 0 <= j < cur@.len() ==> cur@[j] != '\n',
            views(out@) + split_nl(cur@ + s@.skip(i as int)) == split_nl(s@),
        decreases cs@.len() - i,
    {
        let c = cs[i];
        if c == '\n' {
            let ghost rest = s@.skip(i as int);
            let ghost whole = cur@ + rest;
            proof {
                lemma_nl_index_prefix(cur@, rest);
                lemma_nl_index_bounds(rest);
                assert(rest[0] == '\n');
                assert(nl_index(whole) == cur@.len());
                assert(whole.take(cur@.len() as int) =~= cur@);
                assert(whole.skip(cur@.len() as int + 1) =~= s@.skip(i + 1));
            }
            let piece = string_of(&cur);
            let ghost prev = out@;
            out.push(piece);
            cur = Vec::new();
            proof {
                assert(views(out@) =~= views(prev).push(whole.take(nl_index(whole))));
                assert(cur@ + s@.skip(i + 1) =~= s@.skip(i + 1));
                assert(views(prev) + split_nl(whole) =~= views(out@) + split_nl(s@.skip(i + 1)));
            }
        } else {
            let ghost before = cur@;
            cur.push(c);
            proof {
                assert(cur@ + s@.skip(i + 1) =~= before + s@.skip(i as int));
            }
        }
        i += 1;
    }
    proof {
        assert(cur@ + s@.skip(i as int) =~= cur@);
        lemma_nl_index_prefix(cur@, Seq::<char>::empty());
        assert(cur@ + Seq::<char>::empty() =~= cur@);
        assert(split_nl(cur@) == seq![cur@]);
    }
    let last = string_of(&cur);
    let ghost prev = out@;
    out.push(last);
    proof {
        assert(views(out@) =~= views(prev) + seq![cur@]);
    }
    out
}

fn trim_trailing_cr(s: &str) -> (r: String)
    ensures
        r@ == trim_cr_end(s@),
{
    let mut cs = chars_of(s);
    while cs.len() > 0 && cs[cs.len() - 1] == '\r'
        invariant
            trim_cr_end(cs@) == trim_cr_end(s@),
        decreases cs@.len(),
    {
        let ghost before = cs@;
        cs.pop();
        proof {
            assert(cs@ == before.drop_last());
        }
    }
    string_of(&cs)
}

/// The buffer lines of a file's text (see `buffer_of`).
pub fn buffer_lines(text: &str) -> (r: Vec<String>)
    ensures
        views(r@) == buffer_of(text@),
{
    let pieces = split_pieces(text);
    let ghost p = split_nl(text@).map_values(|l: Seq<char>| trim_cr_end(l));
    let mut out: Vec<String> = Vec::new();
    let mut i: usize = 0;
    while i < pieces.len()
        invariant
            i <= pieces@.len(),
            views(pieces@) == split_nl(text@),
            p == split_nl(text@).map_values(|l: Seq<char>| trim_cr_end(l)),
            views(out@) == p.take(i as int),
        decreases pieces@.len() - i,
    {
        let t = trim_trailing_cr(pieces[i].as_str());
        let ghost prev = out@;
        out.push(t);
        proof {
            assert(pieces@[i as int]@ == split_nl(text@)[i as int]);
            assert(p[i as int] == trim_cr_end(split_nl(text@)[i as int]));
            assert(views(out@) =~= views(prev).push(t@));
            assert(views(out@) =~= p.take(i + 1));
        }
        i += 1;
    }
    proof {
        assert(p.take(pieces@.len() as int) =~= p);
    }
    let tc = chars_of(text);
    let ends_nl = tc.len() > 0 && tc[tc.len() - 1] == '\n';
    if ends_nl {
        let ghost prev = out@;
        out.pop();
        proof {
            assert(views(out@) =~= views(prev).drop_last());
        }
    }
    out
}

/// The text a buffer saves as (see `saved_text`).
pub fn save_text(lines: &Vec<String>) -> (r: String)
    ensures
        r@ == saved_text(views(lines@)),
{
    let mut body = String::new();
    let mut i: usize = 0;
    proof {
        reveal_strlit("\n");
    }
    while i < lines.len()
        invariant
            i <= lines@.len(),
            "\n"@ == seq!['\n'],
            body@ == joined(views(lines@).take(i as int)),
        decreases lines@.len() - i,
    {
        proof {
            assert(views(lines@).take(i + 1).drop_last() =~= views(lines@).take(i as int));
            assert(views(lines@).take(i + 1).last() == lines@[i as int]@);
        }
        if i == 0 {
            body = lines[0].clone();
            proof {
                assert(views(lines@).take(1) =~= seq![lines@[0]@]);
            }
        } else {
            let a = concat(body.as_str(), "\n");
            body = concat(a.as_str(), lines[i].as_str());
            proof {
                assert(a@ == joined(views(lines@).take(i as int)) + seq!['\n']);
            }
        }
        i += 1;
    }
    proof {
        assert(views(lines@).take(lines@.len() as int) =~= views(lines@));
    }
    concat(body.as_str(), "\n")
}

// ─── Keys ───────────────────────────────────────────────────────────────

/// The editor's state: the file, its lines, whether they changed since
/// the last save or load, whether saving is off, and the status line.
pub struct EditorState {
    pub path: String,
    pub buffer: Vec<String>,
    pub dirty: bool,
    pub read_only: bool,
    pub status: Option<String>,
}

/// What an editor key asks for.
pub enum EditorAction {
    Stay,
    /// Write this text to the file, then report with `after_save`.
    Save(String),
    /// Open this modal.
    Open(Modal),
    /// Read the file again, then report with `apply_reload`.
    Reload,
    /// Return to the file browser.
    BackToFiles,
}

/// The modal that asks to throw away unsaved changes to `path`.
pub open spec fn discard_modal(m: Modal, path: Seq<char>) -> bool {
    m matches Modal::Confirm { message, kind, arg } && message@ == "Discard unsaved changes?"@
        && kind == ConfirmKind::Discard && arg@ == path
}

/// What a reload key asks for: to confirm discarding unsaved changes,
/// else to read the file again.
pub open spec fn reload_request(st: EditorState, a: EditorAction) -> bool {
    if st.dirty {
        a matches EditorAction::Open(m) && discard_modal(m, st.path@)
    } else {
        a is Reload
    }
}

fn discard_confirm(path: &String) -> (m: Modal)
    ensures
        discard_modal(m, path@),
{
    Modal::Confirm {
        message: "Discard unsaved changes?".to_owned(),
        kind: ConfirmKind::Discard,
        arg: path.clone(),
    }
}

/// Reload, unless the buffer has unsaved changes (see `reload_request`).
pub fn reload_or_confirm(st: &EditorState) -> (a: EditorAction)
    ensures
        reload_request(*st, a),
{
    if st.dirty {
        EditorAction::Open(discard_confirm(&st.path))
    } else {
        EditorAction::Reload
    }
}

/// The editor screen.
pub struct EditorScreen;

impl EditorScreen {
    /// Ctrl-S saves the buffer (nothing when read-only); `S` asks for a
    /// path to save under, pre-filled with the current one (nothing when
    /// read-only); F5 and Ctrl-R reload (see `reload_request`); Esc asks to
    /// discard unsaved changes, else returns to the browser. The state is
    /// left as it is; other keys are not used.
    pub fn on_key(&self, st: &EditorState, key: Key, ctrl: bool) -> (r: (bool, EditorAction))
        ensures
            key == Key::Char('s') && ctrl ==> r.0 && if st.read_only {
                r.1 is Stay
            } else {
                r.1 matches EditorAction::Save(t) && t@ == saved_text(views(st.buffer@))
            },
            key == Key::Char('S') ==> r.0 && if st.read_only {
                r.1 is Stay
            } else {
                r.1 matches EditorAction::Open(Modal::Input { prompt, buf, kind }) && prompt@
                    == "Save as:"@ && buf@ == st.path@ && kind == InputKind::EditorSaveAs
            },
            (key == Key::F(5) || (key == Key::Char('r') && ctrl)) ==> r.0 && reload_request(
                *st,
                r.1,
            ),
            key == Key::Esc ==> r.0 && if st.dirty {
                r.1 matches EditorAction::Open(m) && discard_modal(m, st.path@)
            } else {
                r.1 is BackToFiles
            },
            !((key == Key::Char('s') && ctrl) || key == Key::Char('S') || key == Key::F(5) || (key
                == Key::Char('r') && ctrl) || key == Key::Esc) ==> !r.0 && r.1 is Stay,
    {
        if key == Key::Char('s') && ctrl {
            if st.read_only {
                (true, EditorAction::Stay)
            } else {
                (true, EditorAction::Save(save_text(&st.buffer)))
            }
        } else if key == Key::Char('S') {
            if st.read_only {
                (true, EditorAction::Stay)
            } else {
                (
                    true,
                    EditorAction::Open(
                        Modal::Input {
                            prompt: "Save as:".to_owned(),
                            buf: st.path.clone(),
                            kind: InputKind::EditorSaveAs,
                        },
                    ),
                )
            }
        } else if key == Key::F(5) || (key == Key::Char('r') && ctrl) {
            (true, reload_or_confirm(st))
        } else if key == Key::Esc {
            if st.dirty {
                (true, EditorAction::Open(discard_confirm(&st.path)))
            } else {
                (true, EditorAction::BackToFiles)
            }
        } else {
            (false, EditorAction::Stay)
        }
    }
}

/// After a save: on success the buffer is clean and the status says
/// `saved`; on failure it stays dirty and the status gives the error.
pub fn after_save(st: &mut EditorState, result: Result<(), String>)
    ensures
        final(st).path == old(st).path,
        final(st).buffer == old(st).buffer,
        final(st).read_only == old(st).read_only,
        match result {
            Ok(_) => !final(st).dirty && (final(st).status matches Some(m) && m@ == "saved"@),
            Err(e) => final(st).dirty && (final(st).status matches Some(m) && m@
                == "editor: save failed ("@ + e@ + ")"@),
        },
{
    match result {
        Ok(_) => {
            st.dirty = false;
            st.status = Some("saved".to_owned());
        },
        Err(e) => {
            st.dirty = true;
            let a = concat("editor: save failed (", e.as_str());
            st.status = Some(concat(a.as_str(), ")"));
        },
    }
}

/// After a reload: on success the buffer holds the text's lines (see
/// `buffer_of`), is clean, and the status says `reloaded`; on failure the
/// buffer is kept and the status gives the error.
pub fn apply_reload(st: &mut EditorState, read: Result<String, String>)
    ensures
        final(st).path == old(st).path,
        final(st).read_only == old(st).read_only,
        match read {
            Ok(text) => views(final(st).buffer@) == buffer_of(text@) && !final(st).dirty
                && (final(st).status matches Some(m) && m@ == "reloaded"@),
            Err(e) => final(st).buffer == old(st).buffer && final(st).dirty == old(st).dirty
                && (final(st).status matches Some(m) && m@ == "editor: reload failed ("@ + e@
                + ")"@),
        },
{
    match read {
        Ok(text) => {
            st.buffer = buffer_lines(text.as_str());
            st.dirty = false;
            st.status = Some("reloaded".to_owned());
        },
        Err(e) => {
            let a = concat("editor: reload failed (", e.as_str());
            st.status = Some(concat(a.as_str(), ")"));
        },
    }
}

// ─── Save and reload agree ──────────────────────────────────────────────

/// A line the buffer can hold so that it survives a save: no `\n` in it,
/// no `\r` at its end.
pub open spec fn plain_line(l: Seq<char>) -> bool {
    (forall|j: int| 0 <= j < l.len() ==> l[j] != '\n') && !(l.len() > 0 && l.last() == '\r')
}

proof fn lemma_joined_front(b: Seq<Seq<char>>)
    requires
        b.len() >= 2,
    ensures
        joined(b) == b[0] + seq!['\n'] + joined(b.drop_first()),
    decreases b.len(),
{
    if b.len() == 2 {
        assert(b.drop_last() =~= seq![b[0]]);
        assert(b.drop_first() =~= seq![b[1]]);
        assert(joined(b.drop_last()) == b[0]);
        assert(joined(b.drop_first()) == b[1]);
        assert(joined(b) == joined(b.drop_last()) + seq!['\n'] + b.last());
    } else {
        lemma_joined_front(b.drop_last());
        assert(b.drop_last().drop_first() =~= b.drop_first().drop_last());
        assert(b.drop_first().last() == b.last());
        assert(joined(b.drop_first()) == joined(b.drop_first().drop_last()) + seq!['\n']
            + b.drop_first().last());
        assert(b.drop_last()[0] == b[0]);
        assert(joined(b) == joined(b.drop_last()) + seq!['\n'] + b.last());
        assert(joined(b) =~= b[0] + seq!['\n'] + joined(b.drop_first()));
    }
}

proof fn lemma_split_line(x: Seq<char>, rest: Seq<char>)
    requires
        forall|j: int| 0 <= j < x.len() ==> x[j] != '\n',
    ensures
        split_nl(x + seq!['\n'] + rest) == seq![x] + split_nl(rest),
{
    let s = x + seq!['\n'] + rest;
    assert(s =~= x + (seq!['\n'] + rest));
    lemma_nl_index_prefix(x, seq!['\n'] + rest);
    assert(nl_index(seq!['\n'] + rest) == 0);
    assert(s.take(x.len() as int) =~= x);
    assert(s.skip(x.len() as int + 1) =~= rest);
}

proof fn lemma_split_saved(b: Seq<Seq<char>>)
    requires
        b.len() >= 1,
        forall|i: int| 0 <= i < b.len() ==> plain_line(#[trigger] b[i]),
    ensures
        split_nl(saved_text(b)) == b.push(Seq::<char>::empty()),
    decreases b.len(),
{
    assert(plain_line(b[0]));
    if b.len() == 1 {
        lemma_split_line(b[0], Seq::empty());
        assert(saved_text(b) =~= b[0] + seq!['\n'] + Seq::<char>::empty());
        lemma_nl_index_bounds(Seq::<char>::empty());
        assert(split_nl(Seq::<char>::empty()) == seq![Seq::<char>::empty()]);
        assert(seq![b[0]] + seq![Seq::<char>::empty()] =~= b.push(Seq::<char>::empty()));
    } else {
        let r = b.drop_first();
        assert forall|i: int| 0 <= i < r.len() implies plain_line(#[trigger] r[i]) by {
            assert(r[i] == b[i + 1]);
        }
        lemma_split_saved(r);
        lemma_joined_front(b);
        assert(saved_text(b) =~= b[0] + seq!['\n'] + saved_text(r));
        lemma_split_line(b[0], saved_text(r));
        assert(seq![b[0]] + r.push(Seq::<char>::empty()) =~= b.push(Seq::<char>::empty()));
    }
}

/// Saving a buffer and loading the saved text gives the buffer back, for
/// a buffer of at least one line in which no line holds a `\n` or ends
/// with a `\r`.
pub proof fn lemma_save_reload_round_trip(b: Seq<Seq<char>>)
    requires
        b.len() >= 1,
        forall|i: int| 0 <= i < b.len() ==> plain_line(#[trigger] b[i]),
    ensures
        buffer_of(saved_text(b)) == b,
{
    lemma_split_saved(b);
    let t = saved_text(b);
    assert(t.last() == '\n');
    let p = split_nl(t).map_values(|l: Seq<char>| trim_cr_end(l));
    assert forall|i: int| 0 <= i < b.len() implies p[i] == b[i] by {
        assert(plain_line(b[i]));
        assert(split_nl(t)[i] == b[i]);
    }
    assert(p.drop_last() =~= b);
}

// ─── Menu bar ───────────────────────────────────────────────────────────

/// The editor's bar: the title with the path, `•` when there are unsaved
/// changes and `(read-only)` when saving is off, then the three actions
/// each after its key.
pub open spec fn editor_bar_of(path: Seq<char>, dirty: bool, read_only: bool) -> Seq<(Seq<char>, Tone)> {
    seq![
        (" Editor · "@ + path + (if dirty {
            " •"@
        } else {
            Seq::empty()
        }) + (if read_only {
            " (read-only)"@
        } else {
            Seq::empty()
        }) + " "@, Tone::Title),
        (" Ctrl-S "@, Tone::Accent),
        (" Save "@, Tone::Fg),
        (" S "@, Tone::Accent),
        (" Save As… "@, Tone::Fg),
        (" F5 "@, Tone::Accent),
        (" Reload "@, Tone::Fg),
    ]
}

/// The editor's bar (see `editor_bar_of`).
pub fn editor_bar(path: &str, dirty: bool, read_only: bool) -> (r: Vec<TextRun>)
    ensures
        row_view(r@) == editor_bar_of(path@, dirty, read_only),
{
    let mut title = concat(" Editor · ", path);
    if dirty {
        title = concat(title.as_str(), " •");
    }
    if read_only {
        title = concat(title.as_str(), " (read-only)");
    }
    let title = concat(title.as_str(), " ");
    let r = vec![
        run(title, Tone::Title),
        run(" Ctrl-S ".to_owned(), Tone::Accent),
        run(" Save ".to_owned(), Tone::Fg),
        run(" S ".to_owned(), Tone::Accent),
        run(" Save As… ".to_owned(), Tone::Fg),
        run(" F5 ".to_owned(), Tone::Accent),
        run(" Reload ".to_owned(), Tone::Fg),
    ];
    proof {
        assert(row_view(r@) =~= editor_bar_of(path@, dirty, read_only));
    }
    r
}

} // verus!
