//! The assistant chat's transcript: the lines a conversation is drawn as,
//! and the window of them that shows.
use vstd::prelude::*;
use vstd::utf8::{decode_utf8, encode_utf8, is_char_boundary};
use crate::editor::{split_nl, split_pieces};
use crate::lines::views;
use crate::nav_screens::{AiMessage, AiRole};
use crate::text::{concat, cut_point, has_prefix, starts_with, str_trim_start, trim_start_seq, truncate_bytes};
use crate::wrap::{blen, string_views, wrap_line, wrapped};

verus! {

/// How a transcript line is drawn.
#[derive(Debug, Clone, Copy, PartialEq, Eq, Structural)]
pub enum LineStyle {
    User,
    Dim,
    Think,
    Tool,
    Code,
    Plain,
    Cursor,
}

/// A transcript line.
pub struct ChatLine {
    pub text: String,
    pub style: LineStyle,
}

/// The lines of a transcript.
pub open spec fn chat_view(v: Seq<ChatLine>) -> Seq<(Seq<char>, LineStyle)> {
    v.map_values(|l: ChatLine| (l.text@, l.style))
}

/// Lines all drawn in one style.
pub open spec fn styled(ls: Seq<Seq<char>>, st: LineStyle) -> Seq<(Seq<char>, LineStyle)> {
    ls.map_values(|l: Seq<char>| (l, st))
}

/// An empty line.
pub open spec fn blank() -> (Seq<char>, LineStyle) {
    (Seq::empty(), LineStyle::Plain)
}

/// `s` cut to `w` bytes with `…` when longer: the characters its first
/// `w - 1` bytes encode (none for width 0), then `…`.
pub open spec fn cut_text(s: Seq<char>, w: nat) -> Seq<char> {
    if blen(s) <= w {
        s
    } else {
        decode_utf8(encode_utf8(s).take(cut_point(w))) + seq!['…']
    }
}

/// Whether cutting `s` to `w` bytes falls between characters.
pub open spec fn cut_ok(s: Seq<char>, w: nat) -> bool {
    blen(s) > w ==> is_char_boundary(encode_utf8(s), cut_point(w))
}

/// Whether a line opens or closes a code block: it starts with three
/// backticks after its leading white space.
pub open spec fn is_fence(line: Seq<char>) -> bool {
    has_prefix(trim_start_seq(line), "```"@)
}

/// The lines of a reply's text and whether it ends inside a code block:
/// a fence line is shown cut to the width (dimmed) and toggles code mode;
/// inside a code block a line is indented by two and cut (code style);
/// any other line is wrapped. Also whether every cut falls between
/// characters.
pub open spec fn reply_fold(pieces: Seq<Seq<char>>, w: nat) -> (Seq<(Seq<char>, LineStyle)>, bool, bool)
    decreases pieces.len(),
{
    if pieces.len() == 0 {
        (Seq::empty(), false, true)
    } else {
        let (acc, in_code, ok) = reply_fold(pieces.drop_last(), w);
        let c = pieces.last();
        if is_fence(c) {
            (acc.push((cut_text(c, w), LineStyle::Dim)), !in_code, ok && cut_ok(c, w))
        } else if in_code {
            let t = "  "@ + c;
            (acc.push((cut_text(t, w), LineStyle::Code)), in_code, ok && cut_ok(t, w))
        } else {
            (acc + styled(wrapped(c, w), LineStyle::Plain), in_code, ok)
        }
    }
}

/// Thinking lines: each piece indented by four and wrapped.
pub open spec fn think_fold(pieces: Seq<Seq<char>>, w: nat) -> Seq<(Seq<char>, LineStyle)>
    decreases pieces.len(),
{
    if pieces.len() == 0 {
        Seq::empty()
    } else {
        think_fold(pieces.drop_last(), w) + styled(
            wrapped("    "@ + pieces.last(), w),
            LineStyle::Think,
        )
    }
}

/// Tool lines: each call after a wrench, wrapped.
pub open spec fn tool_fold(tools: Seq<Seq<char>>, w: nat) -> Seq<(Seq<char>, LineStyle)>
    decreases tools.len(),
{
    if tools.len() == 0 {
        Seq::empty()
    } else {
        tool_fold(tools.drop_last(), w) + styled(wrapped("  🔧 "@ + tools.last(), w), LineStyle::Tool)
    }
}

/// The lines of one message at width `w`. A user message: `You: ` and its
/// text, wrapped, then a blank. An assistant message: its thinking (when
/// shown and present) under a heading and followed by a blank; its tool
/// calls (when any) followed by a blank; its reply (see `reply_fold`); a
/// cursor while it is still arriving; a blank.
pub open spec fn message_lines(m: AiMessage, show_thinking: bool, w: nat) -> Seq<(Seq<char>, LineStyle)> {
    if m.role == AiRole::User {
        styled(wrapped("You: "@ + m.content@, w), LineStyle::User).push(blank())
    } else {
        let think = if show_thinking && m.thinking@.len() > 0 {
            seq![("  💭 Thinking..."@, LineStyle::Dim)] + think_fold(split_nl(m.thinking@), w).push(
                blank(),
            )
        } else {
            Seq::empty()
        };
        let tools = if m.tool_log@.len() > 0 {
            tool_fold(views(m.tool_log@), w).push(blank())
        } else {
            Seq::empty()
        };
        let reply = reply_fold(split_nl(m.content@), w).0;
        let cursor = if m.streaming {
            seq![("▌"@, LineStyle::Cursor)]
        } else {
            Seq::empty()
        };
        (think + tools + reply + cursor).push(blank())
    }
}

/// Whether every cut in a message falls between characters.
pub open spec fn message_fits(m: AiMessage, w: nat) -> bool {
    m.role == AiRole::User || reply_fold(split_nl(m.content@), w).2
}

/// The lines of a conversation: each message's in turn.
pub open spec fn transcript_of(msgs: Seq<AiMessage>, show_thinking: bool, w: nat) -> Seq<(Seq<char>, LineStyle)>
    decreases msgs.len(),
{
    if msgs.len() == 0 {
        Seq::empty()
    } else {
        transcript_of(msgs.drop_last(), show_thinking, w) + message_lines(msgs.last(), show_thinking, w)
    }
}

fn push_styled(out: &mut Vec<ChatLine>, ls: Vec<String>, st: LineStyle)
    ensures
        chat_view(final(out)@) == chat_view(old(out)@) + styled(string_views(ls@), st),
{
    let mut i: usize = 0;
    let ghost start = chat_view(out@);
    while i < ls.len()
        invariant
            i <= ls@.len(),
            chat_view(out@) == start + styled(string_views(ls@), st).take(i as int),
        decreases ls@.len() - i,
    {
        let ghost prev = chat_view(out@);
        out.push(ChatLine { text: ls[i].clone(), style: st });
        proof {
            assert(chat_view(out@) =~= prev.push((ls@[i as int]@, st)));
            assert(styled(string_views(ls@), st).take(i + 1) =~= styled(string_views(ls@), st).take(
                i as int,
            ).push((ls@[i as int]@, st)));
        }
        i += 1;
    }
    proof {
        assert(styled(string_views(ls@), st).take(ls@.len() as int) =~= styled(string_views(ls@), st));
    }
}

fn push_line(out: &mut Vec<ChatLine>, text: String, st: LineStyle)
    ensures
        chat_view(final(out)@) == chat_view(old(out)@).push((text@, st)),
{
    let ghost t = text@;
    out.push(ChatLine { text, style: st });
    proof {
        assert(chat_view(out@) =~= chat_view(old(out)@).push((t, st)));
    }
}

fn cut(s: &str, w: usize) -> (r: String)
    requires
        cut_ok(s@, w as nat),
    ensures
        r@ == cut_text(s@, w as nat),
{
    let r = truncate_bytes(s, w);
    proof {
        if blen(s@) > w {
            let head = choose|head: Seq<char>|
                encode_utf8(head) == encode_utf8(s@).take(cut_point(w as nat)) && r@ == head
                    + seq!['…'];
            vstd::utf8::encode_utf8_decode_utf8(head);
        }
    }
    r
}

fn reply_lines(out: &mut Vec<ChatLine>, content: &str, w: usize)
    requires
        reply_fold(split_nl(content@), w as nat).2,
    ensures
        chat_view(final(out)@) == chat_view(old(out)@) + reply_fold(split_nl(content@), w as nat).0,
{
    let pieces = split_pieces(content);
    let ghost pv = views(pieces@);
    let ghost start = chat_view(out@);
    let mut in_code = false;
    let mut i: usize = 0;
    proof {
        assert(pv.take(0) =~= Seq::<Seq<char>>::empty());
        assert(chat_view(out@) =~= start + Seq::<(Seq<char>, LineStyle)>::empty());
    }
    while i < pieces.len()
        invariant
            pv == views(pieces@),
            pv == split_nl(content@),
            reply_fold(pv, w as nat).2,
            i <= pieces@.len(),
            chat_view(out@) == start + reply_fold(pv.take(i as int), w as nat).0,
            in_code == reply_fold(pv.take(i as int), w as nat).1,
        decreases pieces@.len() - i,
    {
        proof {
            assert(pv.take(i + 1).drop_last() =~= pv.take(i as int));
            assert(pv.take(i + 1).last() == pieces@[i as int]@);
            lemma_reply_fold_ok_prefix(pv, (i + 1) as int, w as nat);
        }
        let c = &pieces[i];
        let trimmed = str_trim_start(c.as_str());
        if starts_with(trimmed.as_str(), "```") {
            in_code = !in_code;
            push_line(out, cut(c.as_str(), w), LineStyle::Dim);
        } else if in_code {
            let t = concat("  ", c.as_str());
            push_line(out, cut(t.as_str(), w), LineStyle::Code);
        } else {
            push_styled(out, wrap_line(c.as_str(), w), LineStyle::Plain);
        }
        proof {
            assert(chat_view(out@) =~= start + reply_fold(pv.take(i + 1), w as nat).0);
        }
        i += 1;
    }
    proof {
        assert(pv.take(pieces@.len() as int) =~= pv);
    }
}

/// Whether cutting `s` to `w` bytes falls between characters.
fn cut_fits(s: &str, w: usize) -> (r: bool)
    ensures
        r == cut_ok(s@, w as nat),
{
    let n = s.as_bytes().len();
    if n <= w {
        true
    } else {
        let at: usize = if w == 0 {
            0
        } else {
            w - 1
        };
        s.is_char_boundary(at)
    }
}

/// Whether every cut that drawing message `m` at width `w` makes falls
/// between characters (see `message_fits`); `transcript` asks this of
/// each message.
pub fn message_fits_width(m: &AiMessage, w: usize) -> (r: bool)
    ensures
        r == message_fits(*m, w as nat),
{
    if m.role == AiRole::User {
        return true;
    }
    let pieces = split_pieces(m.content.as_str());
    let ghost pv = views(pieces@);
    let mut in_code = false;
    let mut ok = true;
    let mut i: usize = 0;
    proof {
        assert(pv.take(0) =~= Seq::<Seq<char>>::empty());
    }
    while i < pieces.len()
        invariant
            pv == views(pieces@),
            pv == split_nl(m.content@),
            i <= pieces@.len(),
            in_code == reply_fold(pv.take(i as int), w as nat).1,
            ok == reply_fold(pv.take(i as int), w as nat).2,
        decreases pieces@.len() - i,
    {
        proof {
            assert(pv.take(i + 1).drop_last() =~= pv.take(i as int));
            assert(pv.take(i + 1).last() == pieces@[i as int]@);
        }
        let c = &pieces[i];
        let trimmed = str_trim_start(c.as_str());
        if starts_with(trimmed.as_str(), "```") {
            in_code = !in_code;
            let f = cut_fits(c.as_str(), w);
            ok = ok && f;
        } else if in_code {
            let t = concat("  ", c.as_str());
            let f = cut_fits(t.as_str(), w);
            ok = ok && f;
        }
        i += 1;
    }
    proof {
        assert(pv.take(pieces@.len() as int) =~= pv);
    }
    ok
}

/// `k` spaces.
pub open spec fn spaces(k: nat) -> Seq<char> {
    Seq::new(k, |i: int| ' ')
}

proof fn lemma_trim_spaces(k: nat, r: Seq<char>)
    requires
        r.len() > 0 && r[0] == '`',
    ensures
        trim_start_seq(spaces(k) + r) == r,
    decreases k,
{
    if k == 0 {
        assert(spaces(0) + r =~= r);
    } else {
        assert((spaces(k) + r)[0] == ' ');
        assert((spaces(k) + r).drop_first() =~= spaces((k - 1) as nat) + r);
        lemma_trim_spaces((k - 1) as nat, r);
    }
}

proof fn lemma_trim_start_suffix(d: Seq<char>)
    ensures
        exists|j: int| 0 <= j <= d.len() && trim_start_seq(d) == d.skip(j),
    decreases d.len(),
{
    if d.len() > 0 && crate::text::is_white_space(d[0]) {
        lemma_trim_start_suffix(d.drop_first());
        let j = choose|j: int|
            0 <= j <= d.drop_first().len() && trim_start_seq(d.drop_first()) == d.drop_first().skip(j);
        assert(d.drop_first().skip(j) =~= d.skip(j + 1));
    } else {
        assert(d.skip(0) =~= d);
    }
}

/// A line without a backtick is never a fence.
proof fn lemma_no_backtick_no_fence(d: Seq<char>)
    requires
        forall|i: int| 0 <= i < d.len() ==> d[i] != '`',
    ensures
        !is_fence(d),
{
    reveal_strlit("```");
    lemma_trim_start_suffix(d);
    let j = choose|j: int| 0 <= j <= d.len() && trim_start_seq(d) == d.skip(j);
    let t = trim_start_seq(d);
    if has_prefix(t, "```"@) {
        assert(t.take(3)[0] == '`');
        assert(t[0] == d[j]);
    }
}

/// A reply line that starts with three backticks after any number of
/// spaces, whatever follows them (a language tag, say), is a fence: it
/// is drawn dimmed, cut to the width, and switches code mode.
pub proof fn lemma_fence_line(pieces: Seq<Seq<char>>, k: nat, tag: Seq<char>, w: nat)
    ensures
        ({
            let c = spaces(k) + "```"@ + tag;
            &&& reply_fold(pieces.push(c), w).0 == reply_fold(pieces, w).0.push(
                (cut_text(c, w), LineStyle::Dim),
            )
            &&& reply_fold(pieces.push(c), w).1 == !reply_fold(pieces, w).1
        }),
{
    reveal_strlit("```");
    let f = "```"@ + tag;
    let c = spaces(k) + f;
    assert(spaces(k) + "```"@ + tag =~= c);
    assert(f[0] == '`');
    lemma_trim_spaces(k, f);
    assert(f.take(3) =~= "```"@);
    assert(is_fence(c));
    assert(pieces.push(c).drop_last() =~= pieces);
}

/// Inside a code block, a reply line without backticks is drawn in code
/// style, indented by two spaces and cut to the width, and the block goes
/// on; outside one, such a line is word-wrapped as plain text.
pub proof fn lemma_code_and_prose_lines(pieces: Seq<Seq<char>>, d: Seq<char>, w: nat)
    requires
        forall|i: int| 0 <= i < d.len() ==> d[i] != '`',
    ensures
        reply_fold(pieces, w).1 ==> reply_fold(pieces.push(d), w).0 == reply_fold(pieces, w).0.push(
            (cut_text("  "@ + d, w), LineStyle::Code),
        ),
        reply_fold(pieces, w).1 ==> reply_fold(pieces.push(d), w).1,
        !reply_fold(pieces, w).1 ==> reply_fold(pieces.push(d), w).0 == reply_fold(pieces, w).0
            + styled(wrapped(d, w), LineStyle::Plain),
        !reply_fold(pieces, w).1 ==> !reply_fold(pieces.push(d), w).1,
{
    lemma_no_backtick_no_fence(d);
    assert(pieces.push(d).drop_last() =~= pieces);
}

proof fn lemma_reply_fold_ok_prefix(pv: Seq<Seq<char>>, k: int, w: nat)
    requires
        0 <= k <= pv.len(),
        reply_fold(pv, w).2,
    ensures
        reply_fold(pv.take(k), w).2,
    decreases pv.len(),
{
    if k < pv.len() {
        assert(pv.drop_last().take(k) =~= pv.take(k));
        lemma_reply_fold_ok_prefix(pv.drop_last(), k, w);
    } else {
        assert(pv.take(k) =~= pv);
    }
}

/// The lines of one message (see `message_lines`).
pub fn message_chat_lines(out: &mut Vec<ChatLine>, m: &AiMessage, show_thinking: bool, w: usize)
    requires
        message_fits(*m, w as nat),
    ensures
        chat_view(final(out)@) == chat_view(old(out)@) + message_lines(*m, show_thinking, w as nat),
{
    let ghost start = chat_view(out@);
    if m.role == AiRole::User {
        let t = concat("You: ", m.content.as_str());
        push_styled(out, wrap_line(t.as_str(), w), LineStyle::User);
        push_line(out, String::new(), LineStyle::Plain);
        proof {
            assert(chat_view(out@) =~= start + message_lines(*m, show_thinking, w as nat));
        }
        return;
    }
    if show_thinking && !m.thinking.as_str().is_empty() {
        push_line(out, "  💭 Thinking...".to_owned(), LineStyle::Dim);
        let pieces = split_pieces(m.thinking.as_str());
        let ghost pv = views(pieces@);
        let ghost mid = chat_view(out@);
        let mut i: usize = 0;
        proof {
            assert(chat_view(out@) =~= mid + think_fold(pv.take(0), w as nat));
        }
        while i < pieces.len()
            invariant
                pv == views(pieces@),
                i <= pieces@.len(),
                chat_view(out@) == mid + think_fold(pv.take(i as int), w as nat),
            decreases pieces@.len() - i,
        {
            proof {
                assert(pv.take(i + 1).drop_last() =~= pv.take(i as int));
                assert(pv.take(i + 1).last() == pieces@[i as int]@);
            }
            let t = concat("    ", pieces[i].as_str());
            push_styled(out, wrap_line(t.as_str(), w), LineStyle::Think);
            proof {
                assert(chat_view(out@) =~= mid + think_fold(pv.take(i + 1), w as nat));
            }
            i += 1;
        }
        proof {
            assert(pv.take(pieces@.len() as int) =~= pv);
        }
        push_line(out, String::new(), LineStyle::Plain);
    }
    let ghost after_think = chat_view(out@);
    proof {
        assert(after_think =~= start + (if show_thinking && m.thinking@.len() > 0 {
            seq![("  💭 Thinking..."@, LineStyle::Dim)] + think_fold(split_nl(m.thinking@), w as nat).push(blank())
        } else {
            Seq::empty()
        }));
    }
    if m.tool_log.len() > 0 {
        let ghost tv = views(m.tool_log@);
        let mut i: usize = 0;
        proof {
            assert(chat_view(out@) =~= after_think + tool_fold(tv.take(0), w as nat));
        }
        while i < m.tool_log.len()
            invariant
                tv == views(m.tool_log@),
                i <= m.tool_log@.len(),
                chat_view(out@) == after_think + tool_fold(tv.take(i as int), w as nat),
            decreases m.tool_log@.len() - i,
        {
            proof {
                assert(tv.take(i + 1).drop_last() =~= tv.take(i as int));
                assert(tv.take(i + 1).last() == m.tool_log@[i as int]@);
            }
            let t = concat("  🔧 ", m.tool_log[i].as_str());
            push_styled(out, wrap_line(t.as_str(), w), LineStyle::Tool);
            proof {
                assert(chat_view(out@) =~= after_think + tool_fold(tv.take(i + 1), w as nat));
            }
            i += 1;
        }
        proof {
            assert(tv.take(m.tool_log@.len() as int) =~= tv);
        }
        push_line(out, String::new(), LineStyle::Plain);
    }
    let ghost after_tools = chat_view(out@);
    reply_lines(out, m.content.as_str(), w);
    if m.streaming {
        push_line(out, "▌".to_owned(), LineStyle::Cursor);
    }
    push_line(out, String::new(), LineStyle::Plain);
    proof {
        assert(chat_view(out@) =~= start + message_lines(*m, show_thinking, w as nat));
    }
}

/// The lines of a conversation at width `w` (see `transcript_of`).
pub fn transcript(msgs: &Vec<AiMessage>, show_thinking: bool, w: usize) -> (r: Vec<ChatLine>)
    requires
        forall|i: int| 0 <= i < msgs@.len() ==> message_fits(#[trigger] msgs@[i], w as nat),
    ensures
        chat_view(r@) == transcript_of(msgs@, show_thinking, w as nat),
{
    let mut out: Vec<ChatLine> = Vec::new();
    let mut i: usize = 0;
    proof {
        assert(chat_view(out@) =~= transcript_of(msgs@.take(0), show_thinking, w as nat));
    }
    while i < msgs.len()
        invariant
            i <= msgs@.len(),
            forall|k: int| 0 <= k < msgs@.len() ==> message_fits(#[trigger] msgs@[k], w as nat),
            chat_view(out@) == transcript_of(msgs@.take(i as int), show_thinking, w as nat),
        decreases msgs@.len() - i,
    {
        proof {
            assert(msgs@.take(i + 1).drop_last() =~= msgs@.take(i as int));
            assert(msgs@.take(i + 1).last() == msgs@[i as int]);
        }
        message_chat_lines(&mut out, &msgs[i], show_thinking, w);
        i += 1;
    }
    proof {
        assert(msgs@.take(msgs@.len() as int) =~= msgs@);
    }
    out
}

/// The window of a transcript of `total` lines that shows in `visible`
/// rows: from the newest page when following, else from `scroll` (at most
/// the newest page); returns the first and one past the last line shown.
pub fn transcript_window(total: usize, visible: usize, scroll: usize, follow: bool) -> (r: (usize, usize))
    ensures
        ({
            let max_scroll = if total > visible {
                total - visible
            } else {
                0
            };
            let start = if follow || scroll > max_scroll {
                max_scroll
            } else {
                scroll as int
            };
            &&& r.0 == start
            &&& r.1 == if start + visible < total {
                start + visible
            } else {
                total as int
            }
        }),
{
    let max_scroll = total.saturating_sub(visible);
    let start = if follow || scroll > max_scroll {
        max_scroll
    } else {
        scroll
    };
    let end = if visible < total - start {
        start + visible
    } else {
        total
    };
    (start, end)
}

} // verus!
