//! LoRa (Meshtastic) chat model: nodes, channels and threads, the
//! in-process transport, and the screen's key and poll decisions.
use vstd::prelude::*;
use vstd::string::StringSliceAdditionalSpecFns;
use vstd::utf8::encode_utf8;
use crate::proto::{node_id_from_num, node_id_text, BROADCAST_NUM};
use crate::text::{str_trim, trim_seq};


verus! {

/// A node as seen by the local LoRa network.
#[derive(Debug, Clone, PartialEq, Eq)]
pub struct LoraNode {
    pub node_id: String,
    pub long_name: String,
    pub short_name: String,
    pub hops_away: u8,
    pub last_heard_secs: u64,
    /// Signal-to-noise ratio of the last packet in dB, as the bit pattern
    /// of an `f32` (`f32::to_bits`); only the renderer reads it.
    pub snr_bits: Option<u32>,
}

/// Mathematical value of a `LoraNode`.
pub struct LoraNodeV {
    pub node_id: Seq<char>,
    pub long_name: Seq<char>,
    pub short_name: Seq<char>,
    pub hops_away: u8,
    pub last_heard_secs: u64,
    pub snr_bits: Option<u32>,
}

impl View for LoraNode {
    type V = LoraNodeV;

    open spec fn view(&self) -> LoraNodeV {
        LoraNodeV {
            node_id: self.node_id@,
            long_name: self.long_name@,
            short_name: self.short_name@,
            hops_away: self.hops_away,
            last_heard_secs: self.last_heard_secs,
            snr_bits: self.snr_bits,
        }
    }
}

/// Seconds within which a node counts as online: fifteen minutes.
pub const ONLINE_THRESHOLD_SECS: u64 = 15 * 60;

/// `last_heard_secs` values at or above this are Unix-epoch seconds;
/// smaller ones are seconds since the node was heard.
pub const ABSOLUTE_CUTOFF_SECS: u64 = 10_000_000;

/// Best human-readable name: the long name, else the short name, else the
/// node id.
pub open spec fn node_label(n: LoraNodeV) -> Seq<char> {
    if n.long_name.len() > 0 {
        n.long_name
    } else if n.short_name.len() > 0 {
        n.short_name
    } else {
        n.node_id
    }
}

/// Whether a node last heard at `last_heard` (absolute or relative, see
/// `ABSOLUTE_CUTOFF_SECS`) is online at `now`.
pub open spec fn online_at(last_heard: u64, now: u64) -> bool {
    if last_heard >= ABSOLUTE_CUTOFF_SECS {
        now - last_heard <= ONLINE_THRESHOLD_SECS
    } else {
        last_heard <= ONLINE_THRESHOLD_SECS
    }
}

impl LoraNode {
    /// Best human-readable name for this node.
    pub fn label(&self) -> (r: String)
        ensures
            r@ == node_label(self@),
    {
        if !self.long_name.as_str().is_empty() {
            return self.long_name.clone();
        }
        if !self.short_name.as_str().is_empty() {
            return self.short_name.clone();
        }
        self.node_id.clone()
    }

    /// Is this node online as of `now_secs` (Unix-epoch seconds)?
    pub fn is_online_at(&self, now_secs: u64) -> (r: bool)
        ensures
            r == online_at(self.last_heard_secs, now_secs),
    {
        if self.last_heard_secs >= ABSOLUTE_CUTOFF_SECS {
            now_secs.saturating_sub(self.last_heard_secs) <= ONLINE_THRESHOLD_SECS
        } else {
            self.last_heard_secs <= ONLINE_THRESHOLD_SECS
        }
    }
}

impl LoraNode {
    /// A field-by-field copy.
    pub fn duplicate(&self) -> (r: LoraNode)
        ensures
            r@ == self@,
    {
        LoraNode {
            node_id: self.node_id.clone(),
            long_name: self.long_name.clone(),
            short_name: self.short_name.clone(),
            hops_away: self.hops_away,
            last_heard_secs: self.last_heard_secs,
            snr_bits: self.snr_bits,
        }
    }
}

pub open spec fn lora_nodes_view(v: Seq<LoraNode>) -> Seq<LoraNodeV> {
    v.map_values(|n: LoraNode| n@)
}

/// A copy of a node list.
pub fn copy_nodes(v: &Vec<LoraNode>) -> (r: Vec<LoraNode>)
    ensures
        lora_nodes_view(r@) == lora_nodes_view(v@),
{
    let mut r: Vec<LoraNode> = Vec::new();
    for i in 0..v.len()
        invariant
            lora_nodes_view(r@) == lora_nodes_view(v@.take(i as int)),
    {
        r.push(v[i].duplicate());
        assert(lora_nodes_view(v@.take(i + 1)) =~= lora_nodes_view(v@.take(i as int)).push(v@[i as int]@));
    }
    assert(v@.take(v@.len() as int) =~= v@);
    r
}

/// One chat line; `from` is the sender's label, `"me"` for local echoes.
#[derive(Debug, Clone, PartialEq, Eq)]
pub struct LoraChatLine {
    pub from: String,
    pub text: String,
    pub hops_away: u8,
    pub is_local: bool,
}

/// Mathematical value of a `LoraChatLine`.
pub struct LoraChatLineV {
    pub from: Seq<char>,
    pub text: Seq<char>,
    pub hops_away: u8,
    pub is_local: bool,
}

impl View for LoraChatLine {
    type V = LoraChatLineV;

    open spec fn view(&self) -> LoraChatLineV {
        LoraChatLineV {
            from: self.from@,
            text: self.text@,
            hops_away: self.hops_away,
            is_local: self.is_local,
        }
    }
}

impl LoraChatLine {
    /// A field-by-field copy.
    pub fn duplicate(&self) -> (r: LoraChatLine)
        ensures
            r@ == self@,
    {
        LoraChatLine {
            from: self.from.clone(),
            text: self.text.clone(),
            hops_away: self.hops_away,
            is_local: self.is_local,
        }
    }
}

pub open spec fn lines_view(v: Seq<LoraChatLine>) -> Seq<LoraChatLineV> {
    v.map_values(|l: LoraChatLine| l@)
}

/// A copy of a list of chat lines.
pub fn copy_lines(v: &Vec<LoraChatLine>) -> (r: Vec<LoraChatLine>)
    ensures
        lines_view(r@) == lines_view(v@),
{
    let mut r: Vec<LoraChatLine> = Vec::new();
    for i in 0..v.len()
        invariant
            lines_view(r@) == lines_view(v@.take(i as int)),
    {
        r.push(v[i].duplicate());
        assert(lines_view(v@.take(i + 1)) =~= lines_view(v@.take(i as int)).push(v@[i as int]@));
    }
    assert(v@.take(v@.len() as int) =~= v@);
    r
}

/// Which channel a chat line belongs to: the shared `LongFast` channel
/// (broadcast on the wire) or a direct conversation with one node.
#[derive(Debug, Clone, Copy, PartialEq, Eq, Hash, Structural)]
pub enum ChannelKind {
    LongFast,
    Direct(u32),
}

impl Default for ChannelKind {
    fn default() -> (r: Self)
        ensures
            r == ChannelKind::LongFast,
    {
        ChannelKind::LongFast
    }
}

/// The `MeshPacket.to` of a channel.
pub open spec fn channel_num(k: ChannelKind) -> u32 {
    match k {
        ChannelKind::LongFast => BROADCAST_NUM,
        ChannelKind::Direct(n) => n,
    }
}

impl ChannelKind {
    /// `true` for the shared channel; `false` for direct messages.
    pub fn is_longfast(&self) -> (r: bool)
        ensures
            r == (*self == ChannelKind::LongFast),
    {
        match self {
            ChannelKind::LongFast => true,
            ChannelKind::Direct(_) => false,
        }
    }

    /// The other party's node number on the wire: `0xFFFFFFFF` for the
    /// shared channel, the peer's number for a direct message.
    pub fn to_num(&self) -> (r: u32)
        ensures
            r == channel_num(*self),
    {
        match self {
            ChannelKind::LongFast => BROADCAST_NUM,
            ChannelKind::Direct(n) => *n,
        }
    }

    /// `"LongFast"` for the shared channel; for a direct message, the
    /// label `node_lookup` gives for the peer, else its `!xxxxxxxx` id.
    pub fn display_label<F: Fn(u32) -> Option<String>>(&self, node_lookup: &F) -> (r: String)
        requires
            forall|n: u32| #[trigger] node_lookup.requires((n,)),
        ensures
            *self == ChannelKind::LongFast ==> r@ == "LongFast"@,
            forall|n: u32|
                *self == ChannelKind::Direct(n) ==> exists|found: Option<String>|
                    #[trigger] node_lookup.ensures((n,), found) && r@ == match found {
                        Some(l) => l@,
                        None => node_id_text(n),
                    },
    {
        match self {
            ChannelKind::LongFast => "LongFast".to_owned(),
            ChannelKind::Direct(n) => {
                let found = node_lookup(*n);
                match found {
                    Some(l) => l,
                    None => node_id_from_num(*n),
                }
            },
        }
    }
}

/// One thread of chat lines: the shared channel or a direct conversation.
#[derive(Debug, Clone, PartialEq, Eq)]
pub struct Thread {
    pub kind: ChannelKind,
    pub label: String,
    pub lines: Vec<LoraChatLine>,
}

/// Mathematical value of a `Thread`.
pub struct ThreadV {
    pub kind: ChannelKind,
    pub label: Seq<char>,
    pub lines: Seq<LoraChatLineV>,
}

impl View for Thread {
    type V = ThreadV;

    open spec fn view(&self) -> ThreadV {
        ThreadV { kind: self.kind, label: self.label@, lines: lines_view(self.lines@) }
    }
}

pub open spec fn threads_view(v: Seq<Thread>) -> Seq<ThreadV> {
    v.map_values(|t: Thread| t@)
}

impl Thread {
    /// An empty thread.
    pub fn new(kind: ChannelKind, label: &str) -> (t: Thread)
        ensures
            t@ == (ThreadV { kind, label: label@, lines: Seq::empty() }),
    {
        let t = Thread { kind, label: label.to_owned(), lines: Vec::new() };
        assert(t@.lines =~= Seq::<LoraChatLineV>::empty());
        t
    }

    /// A field-by-field copy.
    pub fn duplicate(&self) -> (r: Thread)
        ensures
            r@ == self@,
    {
        Thread { kind: self.kind, label: self.label.clone(), lines: copy_lines(&self.lines) }
    }
}

/// A copy of a list of threads.
pub fn copy_threads(v: &Vec<Thread>) -> (r: Vec<Thread>)
    ensures
        threads_view(r@) == threads_view(v@),
{
    let mut r: Vec<Thread> = Vec::new();
    for i in 0..v.len()
        invariant
            threads_view(r@) == threads_view(v@.take(i as int)),
    {
        r.push(v[i].duplicate());
        assert(threads_view(v@.take(i + 1)) =~= threads_view(v@.take(i as int)).push(v@[i as int]@));
    }
    assert(v@.take(v@.len() as int) =~= v@);
    r
}

// ─── Thread order ───────────────────────────────────────────────────────

/// Sort key of a thread: the shared channel before every direct thread,
/// direct threads by node number.
pub open spec fn thread_key(k: ChannelKind) -> int {
    match k {
        ChannelKind::LongFast => -1,
        ChannelKind::Direct(n) => n as int,
    }
}

/// The threads of `s` whose key is `key`, in order.
pub open spec fn with_key(s: Seq<ThreadV>, key: int) -> Seq<ThreadV>
    decreases s.len(),
{
    if s.len() == 0 {
        Seq::empty()
    } else {
        with_key(s.drop_last(), key) + if thread_key(s.last().kind) == key {
            seq![s.last()]
        } else {
            Seq::empty()
        }
    }
}

/// Keys never decrease along `s`.
pub open spec fn keys_sorted(s: Seq<ThreadV>) -> bool {
    forall|i: int, j: int| 0 <= i < j < s.len() ==> thread_key(s[i].kind) <= thread_key(s[j].kind)
}

pub(crate) proof fn lemma_with_key_member(s: Seq<ThreadV>, key: int)
    ensures
        with_key(s, key).len() > 0 ==> exists|i: int|
            0 <= i < s.len() && thread_key(#[trigger] s[i].kind) == key,
        with_key(s, key).len() <= s.len(),
    decreases s.len(),
{
    if s.len() > 0 {
        lemma_with_key_member(s.drop_last(), key);
        if with_key(s.drop_last(), key).len() > 0 {
            let i = choose|i: int|
                0 <= i < s.drop_last().len() && thread_key(#[trigger] s.drop_last()[i].kind) == key;
            assert(s[i] == s.drop_last()[i]);
        } else if with_key(s, key).len() > 0 {
            assert(thread_key(s[s.len() - 1].kind) == key);
        }
    }
}

/// Two key-sorted thread lists holding the same threads under every key,
/// in the same order, are the same list.
pub proof fn lemma_sorted_by_key_unique(a: Seq<ThreadV>, b: Seq<ThreadV>)
    requires
        keys_sorted(a),
        keys_sorted(b),
        forall|key: int| #[trigger] with_key(a, key) == with_key(b, key),
    ensures
        a == b,
    decreases a.len() + b.len(),
{
    if a.len() == 0 && b.len() == 0 {
        assert(a =~= b);
    } else if a.len() == 0 {
        let kb = thread_key(b.last().kind);
        assert(with_key(b, kb).len() > 0);
        assert(with_key(a, kb).len() == 0);
    } else if b.len() == 0 {
        let ka = thread_key(a.last().kind);
        assert(with_key(a, ka).len() > 0);
        assert(with_key(b, ka).len() == 0);
    } else {
        let ka = thread_key(a.last().kind);
        let kb = thread_key(b.last().kind);
        assert(with_key(a, ka).len() > 0);
        assert(with_key(b, kb).len() > 0);
        lemma_with_key_member(b, ka);
        lemma_with_key_member(a, kb);
        assert(with_key(b, ka) == with_key(a, ka));
        assert(with_key(a, kb) == with_key(b, kb));
        let i = choose|i: int| 0 <= i < b.len() && thread_key(#[trigger] b[i].kind) == ka;
        let j = choose|j: int| 0 <= j < a.len() && thread_key(#[trigger] a[j].kind) == kb;
        if i < b.len() - 1 {
            assert(thread_key(b[i].kind) <= thread_key(b[b.len() - 1].kind));
        }
        if j < a.len() - 1 {
            assert(thread_key(a[j].kind) <= thread_key(a[a.len() - 1].kind));
        }
        assert(ka == kb);
        assert(with_key(a, ka).last() == a.last());
        assert(with_key(b, kb).last() == b.last());
        let a0 = a.drop_last();
        let b0 = b.drop_last();
        assert forall|key: int| #[trigger] with_key(a0, key) == with_key(b0, key) by {
            assert(with_key(a, key) == with_key(b, key));
            if key == ka {
                assert(with_key(a0, key) =~= with_key(a, key).drop_last());
                assert(with_key(b0, key) =~= with_key(b, key).drop_last());
            } else {
                assert(with_key(a0, key) =~= with_key(a, key));
                assert(with_key(b0, key) =~= with_key(b, key));
            }
        }
        lemma_sorted_by_key_unique(a0, b0);
        assert(a =~= a0.push(a.last()));
        assert(b =~= b0.push(b.last()));
    }
}

proof fn lemma_with_key_add(a: Seq<ThreadV>, b: Seq<ThreadV>, key: int)
    ensures
        with_key(a + b, key) == with_key(a, key) + with_key(b, key),
    decreases b.len(),
{
    if b.len() == 0 {
        assert(a + b =~= a);
        assert(with_key(a, key) + with_key(b, key) =~= with_key(a, key));
    } else {
        assert((a + b).drop_last() =~= a + b.drop_last());
        lemma_with_key_add(a, b.drop_last(), key);
        assert(with_key(a + b, key) =~= with_key(a, key) + with_key(b, key));
    }
}

proof fn lemma_with_key_none(s: Seq<ThreadV>, key: int)
    requires
        forall|i: int| 0 <= i < s.len() ==> thread_key(#[trigger] s[i].kind) != key,
    ensures
        with_key(s, key) == Seq::<ThreadV>::empty(),
    decreases s.len(),
{
    if s.len() > 0 {
        lemma_with_key_none(s.drop_last(), key);
    }
}

proof fn lemma_insert_sorted(prefix: Seq<ThreadV>, x: ThreadV, p: int)
    requires
        keys_sorted(prefix),
        0 <= p <= prefix.len(),
        forall|q: int| 0 <= q < p ==> thread_key(prefix[q].kind) <= thread_key(x.kind),
        p < prefix.len() ==> thread_key(prefix[p].kind) > thread_key(x.kind),
    ensures
        keys_sorted(prefix.insert(p, x)),
        forall|key: int|
            #[trigger] with_key(prefix.insert(p, x), key) == with_key(prefix, key) + if thread_key(
                x.kind,
            ) == key {
                seq![x]
            } else {
                Seq::empty()
            },
{
    let kx = thread_key(x.kind);
    let newp = prefix.insert(p, x);
    assert forall|q: int| p <= q < prefix.len() implies thread_key(#[trigger] prefix[q].kind) > kx by {
        assert(thread_key(prefix[p].kind) <= thread_key(prefix[q].kind));
    }
    assert forall|a: int, b: int| 0 <= a < b < newp.len() implies thread_key(newp[a].kind)
        <= thread_key(newp[b].kind) by {
        if a < p && b < p {
            assert(newp[a] == prefix[a] && newp[b] == prefix[b]);
        } else if a < p && b == p {
        } else if a < p {
            assert(newp[b] == prefix[b - 1]);
        } else if a == p {
            assert(newp[b] == prefix[b - 1]);
        } else {
            assert(newp[a] == prefix[a - 1] && newp[b] == prefix[b - 1]);
        }
    }
    assert forall|key: int| #[trigger] with_key(newp, key) == with_key(prefix, key) + if kx == key {
        seq![x]
    } else {
        Seq::empty()
    } by {
        let lo = prefix.take(p);
        let hi = prefix.skip(p);
        assert(prefix =~= lo + hi);
        assert(newp =~= (lo + seq![x]) + hi);
        lemma_with_key_add(lo + seq![x], hi, key);
        lemma_with_key_add(lo, seq![x], key);
        lemma_with_key_add(lo, hi, key);
        assert(seq![x].drop_last() =~= Seq::<ThreadV>::empty());
        if key == kx {
            assert forall|q: int| 0 <= q < hi.len() implies thread_key(#[trigger] hi[q].kind) != key by {
                assert(hi[q] == prefix[q + p]);
            }
            lemma_with_key_none(hi, key);
            assert(with_key(hi, key) + seq![x] =~= seq![x]);
        }
        assert(seq![x].last() == x);
        assert(with_key(Seq::<ThreadV>::empty(), key) =~= Seq::<ThreadV>::empty());
        assert(with_key(seq![x], key) == with_key(seq![x].drop_last(), key) + if kx == key {
            seq![x]
        } else {
            Seq::<ThreadV>::empty()
        });
        assert(with_key(seq![x], key) =~= if kx == key {
            seq![x]
        } else {
            Seq::<ThreadV>::empty()
        });
    }
}

fn key_of(k: ChannelKind) -> (r: i64)
    ensures
        r == thread_key(k),
{
    match k {
        ChannelKind::LongFast => -1,
        ChannelKind::Direct(n) => n as i64,
    }
}

/// Stable sort of a thread list: `LongFast` first, then direct threads by
/// ascending node number; threads with equal keys keep their order.
#[verifier::spinoff_prover]
pub fn sort_lora_threads(threads: &mut Vec<Thread>)
    ensures
        final(threads)@.len() == old(threads)@.len(),
        keys_sorted(threads_view(final(threads)@)),
        forall|key: int|
            #[trigger] with_key(threads_view(final(threads)@), key) == with_key(
                threads_view(old(threads)@),
                key,
            ),
{
    let ghost orig = threads_view(threads@);
    let n = threads.len();
    if n == 0 {
        return;
    }
    let mut i: usize = 1;
    assert(threads_view(threads@).take(1) =~= orig.take(1));
    while i < n
        invariant
            1 <= i <= n,
            n == threads@.len(),
            orig.len() == n,
            keys_sorted(threads_view(threads@).take(i as int)),
            forall|key: int|
                #[trigger] with_key(threads_view(threads@).take(i as int), key) == with_key(
                    orig.take(i as int),
                    key,
                ),
            threads_view(threads@).skip(i as int) == orig.skip(i as int),
        decreases n - i,
    {
        let ghost before = threads_view(threads@);
        let ghost prefix = before.take(i as int);
        let x = threads.remove(i);
        let kx = key_of(x.kind);
        assert(threads_view(threads@) =~= before.remove(i as int));
        assert(before[i as int] == before.skip(i as int)[0]);
        assert(orig[i as int] == orig.skip(i as int)[0]);
        assert(x@ == orig[i as int]);
        assert(before.skip(i + 1) =~= before.skip(i as int).skip(1));
        assert(orig.skip(i + 1) =~= orig.skip(i as int).skip(1));
        assert(threads_view(threads@) =~= prefix + orig.skip(i + 1));
        let mut p = i;
        let mut j: usize = 0;
        while j < i && p == i
            invariant
                j <= i,
                i < n,
                threads@.len() == n - 1,
                threads_view(threads@).take(i as int) == prefix,
                p == i ==> forall|q: int| 0 <= q < j ==> thread_key(prefix[q].kind) <= kx,
                p != i ==> p < i && thread_key(prefix[p as int].kind) > kx && forall|q: int|
                    0 <= q < p ==> thread_key(prefix[q].kind) <= kx,
            decreases i - j,
        {
            assert(threads_view(threads@)[j as int] == prefix[j as int]);
            if key_of(threads[j].kind) > kx {
                p = j;
            }
            j += 1;
        }
        threads.insert(p, x);
        let ghost after = threads_view(threads@);
        let ghost newp = after.take(i + 1);
        assert(after =~= before.take(i as int).insert(p as int, x@) + orig.skip(i + 1));
        assert(newp =~= prefix.insert(p as int, x@));
        assert(after.skip(i + 1) =~= orig.skip(i + 1));
        proof {
            lemma_insert_sorted(prefix, x@, p as int);
            assert forall|key: int| #[trigger] with_key(newp, key) == with_key(orig.take(i + 1), key) by {
                assert(orig.take(i + 1).drop_last() =~= orig.take(i as int));
            }
        }
        i += 1;
    }
    assert(threads_view(threads@).take(n as int) =~= threads_view(threads@));
    assert(orig.take(n as int) =~= orig);
}

/// Why a send was refused.
#[derive(Debug, Clone, PartialEq, Eq)]
pub enum LoraError {
    NotConnected,
    Empty,
    TooLong,
    Io(String),
}

/// Longest message the transports accept, in UTF-8 bytes.
pub const MAX_MESSAGE_BYTES: usize = 200;

/// How a send of `text` is judged before anything is written: refused
/// when there is no link, when the trimmed text is empty, or when it is
/// longer than 200 bytes; otherwise the trimmed text goes out.
pub open spec fn send_check(connected: bool, text: Seq<char>) -> Result<Seq<char>, LoraError> {
    let t = trim_seq(text);
    if !connected {
        Err(LoraError::NotConnected)
    } else if t.len() == 0 {
        Err(LoraError::Empty)
    } else if encode_utf8(t).len() > MAX_MESSAGE_BYTES {
        Err(LoraError::TooLong)
    } else {
        Ok(t)
    }
}

/// Judge an outbound message: the trimmed text to send, or the refusal.
pub fn check_outbound(connected: bool, text: &str) -> (r: Result<String, LoraError>)
    ensures
        match send_check(connected, text@) {
            Ok(t) => r matches Ok(s) && s@ == t,
            Err(e) => r == Err::<String, LoraError>(e),
        },
{
    if !connected {
        return Err(LoraError::NotConnected);
    }
    let trimmed_text = str_trim(text);
    let trimmed = trimmed_text.as_str();
    if trimmed.is_empty() {
        return Err(LoraError::Empty);
    }
    if trimmed.as_bytes().len() > MAX_MESSAGE_BYTES {
        return Err(LoraError::TooLong);
    }
    Ok(trimmed.to_owned())
}

/// The local echo of a sent message.
pub open spec fn local_echo(text: Seq<char>) -> LoraChatLineV {
    LoraChatLineV { from: "me"@, text, hops_away: 0, is_local: true }
}

/// `threads` with a `LongFast` thread present, and where it is: the first
/// `LongFast` thread when there is one; otherwise a new empty one is put
/// in front.
pub open spec fn with_longfast_thread(threads: Seq<ThreadV>) -> (Seq<ThreadV>, int) {
    let i = first_of_kind(threads, ChannelKind::LongFast);
    if i < threads.len() {
        (threads, i)
    } else {
        (seq![ThreadV { kind: ChannelKind::LongFast, label: "LongFast"@, lines: Seq::empty() }] + threads, 0)
    }
}

/// Index of the first thread of kind `k`, or `threads.len()` when none is.
pub open spec fn first_of_kind(threads: Seq<ThreadV>, k: ChannelKind) -> int
    decreases threads.len(),
{
    if threads.len() == 0 {
        0
    } else if threads[0].kind == k {
        0
    } else {
        1 + first_of_kind(threads.drop_first(), k)
    }
}

pub(crate) proof fn lemma_first_of_kind(threads: Seq<ThreadV>, k: ChannelKind)
    ensures
        0 <= first_of_kind(threads, k) <= threads.len(),
        first_of_kind(threads, k) < threads.len() ==> threads[first_of_kind(threads, k)].kind == k,
        forall|j: int| 0 <= j < first_of_kind(threads, k) ==> threads[j].kind != k,
    decreases threads.len(),
{
    if threads.len() > 0 && threads[0].kind != k {
        lemma_first_of_kind(threads.drop_first(), k);
        assert forall|j: int| 0 <= j < first_of_kind(threads, k) implies threads[j].kind != k by {
            if j > 0 {
                assert(threads[j] == threads.drop_first()[j - 1]);
            }
        }
    }
}

proof fn lemma_first_of_kind_at(threads: Seq<ThreadV>, k: ChannelKind, i: int)
    requires
        0 <= i <= threads.len(),
        i < threads.len() ==> threads[i].kind == k,
        forall|j: int| 0 <= j < i ==> threads[j].kind != k,
    ensures
        first_of_kind(threads, k) == i,
    decreases threads.len(),
{
    if threads.len() > 0 && i > 0 {
        lemma_first_of_kind_at(threads.drop_first(), k, i - 1);
    }
}

/// Where a new direct thread with node `n` goes: before the first thread
/// after the head whose wire number is above `n`, else at the end.
pub open spec fn direct_insert_pos(threads: Seq<ThreadV>, n: u32) -> int
    decreases threads.len(),
{
    if threads.len() <= 1 {
        threads.len() as int
    } else if channel_num(threads[1].kind) > n {
        1
    } else {
        1 + direct_insert_pos(threads.drop_first(), n)
    }
}

proof fn lemma_direct_insert_pos(threads: Seq<ThreadV>, n: u32)
    ensures
        threads.len() == 0 ==> direct_insert_pos(threads, n) == 0,
        threads.len() > 0 ==> 1 <= direct_insert_pos(threads, n) <= threads.len(),
        direct_insert_pos(threads, n) < threads.len() ==> channel_num(
            threads[direct_insert_pos(threads, n)].kind,
        ) > n,
        forall|j: int| 1 <= j < direct_insert_pos(threads, n) ==> channel_num(threads[j].kind) <= n,
    decreases threads.len(),
{
    if threads.len() > 1 && channel_num(threads[1].kind) <= n {
        lemma_direct_insert_pos(threads.drop_first(), n);
        assert forall|j: int| 1 <= j < direct_insert_pos(threads, n) implies channel_num(
            threads[j].kind,
        ) <= n by {
            if j > 1 {
                assert(threads[j] == threads.drop_first()[j - 1]);
            }
        }
    }
}

proof fn lemma_direct_insert_pos_at(threads: Seq<ThreadV>, n: u32, i: int)
    requires
        threads.len() == 0 ==> i == 0,
        threads.len() > 0 ==> 1 <= i <= threads.len(),
        i < threads.len() ==> channel_num(threads[i].kind) > n,
        forall|j: int| 1 <= j < i ==> channel_num(threads[j].kind) <= n,
    ensures
        direct_insert_pos(threads, n) == i,
    decreases threads.len(),
{
    if threads.len() > 1 && i > 1 {
        lemma_direct_insert_pos_at(threads.drop_first(), n, i - 1);
    }
}

/// `threads` with a direct thread for node `n` present (created, labelled
/// with the node id, at `direct_insert_pos` when missing), and its index.
pub open spec fn with_direct_thread(threads: Seq<ThreadV>, n: u32) -> (Seq<ThreadV>, int) {
    let k = first_of_kind(threads, ChannelKind::Direct(n));
    if k < threads.len() {
        (threads, k)
    } else {
        let p = direct_insert_pos(threads, n);
        (
            threads.insert(
                p,
                ThreadV { kind: ChannelKind::Direct(n), label: node_id_text(n), lines: Seq::empty() },
            ),
            p,
        )
    }
}

/// The order a transport keeps its threads in: the LongFast thread
/// first, then direct threads by ascending node number.
pub open spec fn threads_ordered(threads: Seq<ThreadV>) -> bool {
    &&& threads.len() >= 1
    &&& threads[0].kind == ChannelKind::LongFast
    &&& forall|i: int| 1 <= i < threads.len() ==> (#[trigger] threads[i].kind) is Direct
    &&& forall|i: int, j: int|
        1 <= i < j < threads.len() ==> channel_num(#[trigger] threads[i].kind) < channel_num(
            #[trigger] threads[j].kind,
        )
}

/// Finding or opening the direct thread for `n` keeps the threads in
/// order: LongFast first, direct threads ascending, one per node.
pub proof fn lemma_direct_thread_keeps_order(threads: Seq<ThreadV>, n: u32)
    requires
        threads_ordered(threads),
    ensures
        ({
            let (ts, k) = with_direct_thread(threads, n);
            &&& threads_ordered(ts)
            &&& 1 <= k < ts.len()
            &&& ts[k].kind == ChannelKind::Direct(n)
        }),
{
    let kind = ChannelKind::Direct(n);
    lemma_first_of_kind(threads, kind);
    lemma_direct_insert_pos(threads, n);
    let f = first_of_kind(threads, kind);
    if f >= threads.len() {
        let p = direct_insert_pos(threads, n);
        let t = ThreadV { kind, label: node_id_text(n), lines: Seq::empty() };
        let ts = threads.insert(p, t);
        assert forall|i: int| 1 <= i < p implies channel_num(#[trigger] threads[i].kind) < n by {
            assert(threads[i].kind != kind);
            assert(threads[i].kind is Direct);
        }
        assert forall|i: int| 1 <= i < ts.len() implies (#[trigger] ts[i].kind) is Direct by {
            if i > p {
                assert(ts[i] == threads[i - 1]);
            } else if i < p {
                assert(ts[i] == threads[i]);
            }
        }
        assert forall|i: int, j: int| 1 <= i < j < ts.len() implies channel_num(
            #[trigger] ts[i].kind,
        ) < channel_num(#[trigger] ts[j].kind) by {
            if i < p {
                assert(ts[i] == threads[i]);
            }
            if j > p {
                assert(ts[j] == threads[j - 1]);
            }
            if i > p {
                assert(ts[i] == threads[i - 1]);
            }
            if j < p {
                assert(ts[j] == threads[j]);
            }
            if i == p && j > p && j - 1 > p {
                assert(channel_num(threads[p].kind) > n);
                assert(channel_num(threads[p].kind) < channel_num(threads[j - 1].kind));
            }
        }
    }
}

/// The lines held for `k`: those of its first thread, none when missing.
pub open spec fn lines_for(threads: Seq<ThreadV>, k: ChannelKind) -> Seq<LoraChatLineV> {
    let i = first_of_kind(threads, k);
    if i < threads.len() {
        threads[i].lines
    } else {
        Seq::empty()
    }
}

/// The threads a transport lists: always headed by `LongFast`, which is
/// added in front when missing.
pub open spec fn listed_threads(threads: Seq<ThreadV>) -> Seq<ThreadV> {
    if threads.len() == 0 {
        seq![ThreadV { kind: ChannelKind::LongFast, label: "LongFast"@, lines: Seq::empty() }]
    } else if first_of_kind(threads, ChannelKind::LongFast) == threads.len() {
        seq![ThreadV { kind: ChannelKind::LongFast, label: "LongFast"@, lines: Seq::empty() }]
            + threads
    } else {
        threads
    }
}

/// The threads after a local echo of `text` into the thread of `kind`.
pub open spec fn after_send(threads: Seq<ThreadV>, kind: ChannelKind, text: Seq<char>) -> Seq<ThreadV> {
    match kind {
        ChannelKind::LongFast => {
            let (ts, k) = with_longfast_thread(threads);
            ts.update(k, ThreadV { lines: ts[k].lines.push(local_echo(text)), ..ts[k] })
        },
        ChannelKind::Direct(n) => {
            let (ts, k) = with_direct_thread(threads, n);
            ts.update(k, ThreadV { lines: ts[k].lines.push(local_echo(text)), ..ts[k] })
        },
    }
}

/// In-process transport: used by tests and on a box without a Meshtastic
/// node. Sends succeed while `connected` and echo into the threads.
#[derive(Debug, Default, Clone)]
pub struct FakeTransport {
    pub nodes: Vec<LoraNode>,
    pub threads: Vec<Thread>,
    pub connected: bool,
    /// Outbound shared-channel messages, in order.
    pub sent: Vec<String>,
    /// Outbound direct messages: `(to_node_num, text)`, in order.
    pub sent_dm: Vec<(u32, String)>,
}

pub open spec fn strings_view(v: Seq<String>) -> Seq<Seq<char>> {
    v.map_values(|s: String| s@)
}

pub open spec fn dms_view(v: Seq<(u32, String)>) -> Seq<(u32, Seq<char>)> {
    v.map_values(|p: (u32, String)| (p.0, p.1@))
}

impl FakeTransport {
    /// No nodes, no threads, disconnected.
    pub fn new() -> (t: FakeTransport)
        ensures
            t.nodes@.len() == 0,
            t.threads@.len() == 0,
            !t.connected,
            t.sent@.len() == 0,
            t.sent_dm@.len() == 0,
    {
        FakeTransport {
            nodes: Vec::new(),
            threads: Vec::new(),
            connected: false,
            sent: Vec::new(),
            sent_dm: Vec::new(),
        }
    }

    /// A disconnected transport that knows `nodes`.
    pub fn with_nodes(nodes: Vec<LoraNode>) -> (t: FakeTransport)
        ensures
            t.nodes@ == nodes@,
            t.threads@.len() == 0,
            !t.connected,
            t.sent@.len() == 0,
            t.sent_dm@.len() == 0,
    {
        FakeTransport { nodes, threads: Vec::new(), connected: false, sent: Vec::new(), sent_dm: Vec::new() }
    }

    /// The same transport with its link state set.
    pub fn with_connected(self, connected: bool) -> (t: FakeTransport)
        ensures
            t.connected == connected,
            t.nodes@ == self.nodes@,
            t.threads@ == self.threads@,
            t.sent@ == self.sent@,
            t.sent_dm@ == self.sent_dm@,
    {
        let mut t = self;
        t.connected = connected;
        t
    }

    /// Find-or-create the `LongFast` thread: the first thread of that kind,
    /// or a new empty one put in front when there is none.
    pub fn longfast_thread_mut(&mut self) -> (t: &mut Thread)
        ensures
            ({
                let (ts, k) = with_longfast_thread(threads_view(old(self).threads@));
                &&& 0 <= k < ts.len()
                &&& ts[k].kind == ChannelKind::LongFast
                &&& final(self).threads@.len() == ts.len()
                &&& (*t)@ == ts[k]
                &&& threads_view(final(self).threads@) == ts.update(k, (*final(t))@)
            }),
            final(self).nodes@ == old(self).nodes@,
            final(self).connected == old(self).connected,
            final(self).sent@ == old(self).sent@,
            final(self).sent_dm@ == old(self).sent_dm@,
    {
        let ghost v = threads_view(self.threads@);
        proof {
            lemma_first_of_kind(v, ChannelKind::LongFast);
        }
        let found = self.find_thread(ChannelKind::LongFast);
        let pos = if found < self.threads.len() {
            found
        } else {
            let t = Thread::new(ChannelKind::LongFast, "LongFast");
            self.threads.insert(0, t);
            assert(threads_view(self.threads@) =~= seq![t@] + v);
            0
        };
        &mut self.threads[pos]
    }

    /// Index of the first thread of kind `k`, or the count when none is.
    fn find_thread(&self, k: ChannelKind) -> (i: usize)
        ensures
            i == first_of_kind(threads_view(self.threads@), k),
    {
        let ghost v = threads_view(self.threads@);
        let mut i: usize = 0;
        while i < self.threads.len()
            invariant
                i <= self.threads@.len(),
                v == threads_view(self.threads@),
                forall|j: int| 0 <= j < i ==> v[j].kind != k,
            decreases self.threads@.len() - i,
        {
            if self.threads[i].kind == k {
                proof {
                    lemma_first_of_kind_at(v, k, i as int);
                }
                return i;
            }
            i += 1;
        }
        proof {
            lemma_first_of_kind_at(v, k, i as int);
        }
        i
    }

    /// The direct thread with node `n`, created when missing: labelled
    /// with the node id and placed after the head, before the first
    /// thread whose wire number is above `n`.
    pub fn direct_thread_mut(&mut self, n: u32) -> (t: &mut Thread)
        ensures
            ({
                let (ts, k) = with_direct_thread(threads_view(old(self).threads@), n);
                &&& 0 <= k < ts.len()
                &&& final(self).threads@.len() == ts.len()
                &&& (*t)@ == ts[k]
                &&& threads_view(final(self).threads@) == ts.update(k, (*final(t))@)
            }),
            final(self).nodes@ == old(self).nodes@,
            final(self).connected == old(self).connected,
            final(self).sent@ == old(self).sent@,
            final(self).sent_dm@ == old(self).sent_dm@,
    {
        let kind = ChannelKind::Direct(n);
        let ghost v = threads_view(self.threads@);
        proof {
            lemma_first_of_kind(v, kind);
            lemma_direct_insert_pos(v, n);
        }
        let found = self.find_thread(kind);
        let pos = if found < self.threads.len() {
            found
        } else {
            let len = self.threads.len();
            let mut idx = len;
            let mut i: usize = 1;
            while i < len && idx == len
                invariant
                    1 <= i,
                    v == threads_view(self.threads@),
                    len == self.threads@.len(),
                    idx == len ==> forall|j: int| 1 <= j < i && j < v.len() ==> channel_num(v[j].kind) <= n,
                    idx != len ==> 1 <= idx < len && channel_num(v[idx as int].kind) > n && forall|j: int|
                        1 <= j < idx ==> channel_num(v[j].kind) <= n,
                decreases len - i,
            {
                if self.threads[i].kind.to_num() > n {
                    idx = i;
                }
                i += 1;
            }
            proof {
                lemma_direct_insert_pos_at(v, n, idx as int);
            }
            let label = node_id_from_num(n);
            let t = Thread::new(kind, label.as_str());
            self.threads.insert(idx, t);
            assert(threads_view(self.threads@) =~= v.insert(idx as int, t@));
            idx
        };
        &mut self.threads[pos]
    }

    /// Number of lines held for `kind`.
    pub fn line_count_for(&self, kind: &ChannelKind) -> (n: usize)
        ensures
            n == lines_for(threads_view(self.threads@), *kind).len(),
    {
        let i = self.find_thread(*kind);
        proof {
            lemma_first_of_kind(threads_view(self.threads@), *kind);
        }
        if i < self.threads.len() {
            self.threads[i].lines.len()
        } else {
            0
        }
    }

    /// Snapshot of the known nodes.
    pub fn nodes(&self) -> (r: Vec<LoraNode>)
        ensures
            lora_nodes_view(r@) == lora_nodes_view(self.nodes@),
    {
        copy_nodes(&self.nodes)
    }

    /// Snapshot of every thread, headed by `LongFast` even when the
    /// transport never received anything.
    pub fn threads(&self) -> (r: Vec<Thread>)
        ensures
            threads_view(r@) == listed_threads(threads_view(self.threads@)),
    {
        if self.threads.len() == 0 {
            let mut r: Vec<Thread> = Vec::new();
            r.push(Thread::new(ChannelKind::LongFast, "LongFast"));
            assert(threads_view(r@) =~= listed_threads(threads_view(self.threads@)));
            return r;
        }
        let lf = self.find_thread(ChannelKind::LongFast);
        let mut t = copy_threads(&self.threads);
        if lf == self.threads.len() {
            t.insert(0, Thread::new(ChannelKind::LongFast, "LongFast"));
            assert(threads_view(t@) =~= listed_threads(threads_view(self.threads@)));
        }
        t
    }

    /// Snapshot of the lines of the thread of `kind` (none when missing).
    pub fn messages_for(&self, kind: &ChannelKind) -> (r: Vec<LoraChatLine>)
        ensures
            lines_view(r@) == lines_for(threads_view(self.threads@), *kind),
    {
        let i = self.find_thread(*kind);
        proof {
            lemma_first_of_kind(threads_view(self.threads@), *kind);
        }
        if i < self.threads.len() {
            copy_lines(&self.threads[i].lines)
        } else {
            let r: Vec<LoraChatLine> = Vec::new();
            assert(lines_view(r@) =~= Seq::<LoraChatLineV>::empty());
            r
        }
    }

    /// Snapshot of the shared channel's lines.
    pub fn messages(&self) -> (r: Vec<LoraChatLine>)
        ensures
            lines_view(r@) == lines_for(threads_view(self.threads@), ChannelKind::LongFast),
    {
        self.messages_for(&ChannelKind::LongFast)
    }

    /// True while the link is up.
    pub fn connected(&self) -> (r: bool)
        ensures
            r == self.connected,
    {
        self.connected
    }

    /// Send `text` to the thread of `kind`: refused as `send_check` says;
    /// otherwise the trimmed text is recorded as sent and echoed as a local
    /// line into that thread (created when missing).
    pub fn send_to(&mut self, kind: &ChannelKind, text: &str) -> (r: Result<(), LoraError>)
        ensures
            match send_check(old(self).connected, text@) {
                Err(e) => {
                    &&& r == Err::<(), LoraError>(e)
                    &&& threads_view(final(self).threads@) == threads_view(old(self).threads@)
                    &&& strings_view(final(self).sent@) == strings_view(old(self).sent@)
                    &&& dms_view(final(self).sent_dm@) == dms_view(old(self).sent_dm@)
                },
                Ok(t) => {
                    &&& r is Ok
                    &&& threads_view(final(self).threads@) == after_send(
                        threads_view(old(self).threads@),
                        *kind,
                        t,
                    )
                    &&& strings_view(final(self).sent@) == (match *kind {
                        ChannelKind::LongFast => strings_view(old(self).sent@).push(t),
                        ChannelKind::Direct(_) => strings_view(old(self).sent@),
                    })
                    &&& dms_view(final(self).sent_dm@) == (match *kind {
                        ChannelKind::LongFast => dms_view(old(self).sent_dm@),
                        ChannelKind::Direct(n) => dms_view(old(self).sent_dm@).push((n, t)),
                    })
                },
            },
            lora_nodes_view(final(self).nodes@) == lora_nodes_view(old(self).nodes@),
            final(self).connected == old(self).connected,
    {
        let trimmed = match check_outbound(self.connected, text) {
            Ok(t) => t,
            Err(e) => {
                return Err(e);
            },
        };
        let line = LoraChatLine {
            from: "me".to_owned(),
            text: trimmed.clone(),
            hops_away: 0,
            is_local: true,
        };
        let ghost old_threads = threads_view(self.threads@);
        match kind {
            ChannelKind::LongFast => {
                self.sent.push(trimmed);
                assert(strings_view(self.sent@) =~= strings_view(old(self).sent@).push(line@.text));
                let t = self.longfast_thread_mut();
                let ghost k = with_longfast_thread(old_threads).1;
                t.lines.push(line);
                assert(lines_view(t.lines@) =~= with_longfast_thread(old_threads).0[k].lines.push(
                    line@,
                ));
            },
            ChannelKind::Direct(n) => {
                self.sent_dm.push((*n, trimmed));
                assert(dms_view(self.sent_dm@) =~= dms_view(old(self).sent_dm@).push((*n, line@.text)));
                let t = self.direct_thread_mut(*n);
                let ghost k = with_direct_thread(old_threads, *n).1;
                t.lines.push(line);
                assert(lines_view(t.lines@) =~= with_direct_thread(old_threads, *n).0[k].lines.push(
                    line@,
                ));
            },
        }
        Ok(())
    }

    /// `send_to` on the shared channel.
    pub fn send_longfast(&mut self, text: &str) -> (r: Result<(), LoraError>)
        ensures
            match send_check(old(self).connected, text@) {
                Err(e) => {
                    &&& r == Err::<(), LoraError>(e)
                    &&& threads_view(final(self).threads@) == threads_view(old(self).threads@)
                    &&& strings_view(final(self).sent@) == strings_view(old(self).sent@)
                },
                Ok(t) => {
                    &&& r is Ok
                    &&& threads_view(final(self).threads@) == after_send(
                        threads_view(old(self).threads@),
                        ChannelKind::LongFast,
                        t,
                    )
                    &&& strings_view(final(self).sent@) == strings_view(old(self).sent@).push(t)
                },
            },
            dms_view(final(self).sent_dm@) == dms_view(old(self).sent_dm@),
            lora_nodes_view(final(self).nodes@) == lora_nodes_view(old(self).nodes@),
            final(self).connected == old(self).connected,
    {
        self.send_to(&ChannelKind::LongFast, text)
    }
}

} // verus!
