//! Meshtastic wire format: LEB128 varints, the outbound `ToRadio` frames
//! and the inbound `FromRadio` decoder, and the `!xxxxxxxx` node ids.
use vstd::prelude::*;
use vstd::slice::slice_to_vec;
use vstd::string::StringSliceAdditionalSpecFns;
use vstd::utf8::{decode_utf8, encode_utf8, valid_utf8};
use crate::lora::{lora_nodes_view, node_label, LoraNode, LoraNodeV};
use crate::text::{
    hex_char, hex_digit, hex_digit_value, hex_u32, hex_value, is_hex_digit, is_white_space,
    push_char, str_strip_bang, str_trim, trim_end_seq, trim_seq, trim_start_seq, u32_from_hex,
};

verus! {

/// `Data.portnum` value for plain-text chat.
pub const TEXT_MESSAGE_APP: u32 = 1;

/// `MeshPacket.to` value of a broadcast packet.
pub const BROADCAST_NUM: u32 = 0xFFFF_FFFF;

// ─── LEB128 varints ─────────────────────────────────────────────────────

/// LEB128 encoding of `v`: seven bits per byte, least significant group
/// first, the high bit set on every byte but the last.
pub open spec fn leb128_bytes(v: u64) -> Seq<u8>
    decreases v,
{
    if v < 128 {
        seq![v as u8]
    } else {
        proof {
            assert(v >> 7u64 < v) by (bit_vector)
                requires
                    v >= 128,
            ;
        }
        seq![((v & 0x7f) as u8) | 0x80u8] + leb128_bytes(v >> 7u64)
    }
}

/// Decode one varint of at most `fuel` bytes from the front of `b`:
/// the value and the number of bytes it took. The first byte carries the
/// low seven bits, the rest of the varint the bits above them.
pub open spec fn varint_dec(b: Seq<u8>, fuel: nat) -> Option<(u64, nat)>
    decreases fuel,
{
    if fuel == 0 || b.len() == 0 {
        None
    } else if b[0] < 0x80 {
        Some((b[0] as u64, 1nat))
    } else {
        match varint_dec(b.drop_first(), (fuel - 1) as nat) {
            Some((hi, n)) => Some(((hi << 7u64) | ((b[0] & 0x7f) as u64), n + 1)),
            None => None,
        }
    }
}

/// A varint at the front of `b`, as the decoder reads it: at most ten bytes.
pub open spec fn varint(b: Seq<u8>) -> Option<(u64, nat)> {
    varint_dec(b, 10)
}

pub proof fn lemma_varint_dec_len(b: Seq<u8>, fuel: nat)
    ensures
        varint_dec(b, fuel) matches Some((v, n)) ==> 1 <= n <= fuel && n <= b.len(),
    decreases fuel,
{
    if fuel > 0 && b.len() > 0 && b[0] >= 0x80 {
        lemma_varint_dec_len(b.drop_first(), (fuel - 1) as nat);
    }
}

proof fn lemma_leb128_len(v: u64)
    ensures
        1 <= leb128_bytes(v).len() <= 10,
{
    reveal_with_fuel(pow2_7, 11);
    assert(pow2_7(10) > 0xffff_ffff_ffff_ffffint);
    lemma_leb128_len_bound(v, 10);
}

proof fn lemma_leb128_len_bound(v: u64, k: nat)
    requires
        1 <= k <= 10,
    ensures
        v < pow2_7(k) ==> leb128_bytes(v).len() <= k,
    decreases v,
{
    if v >= 128 && v < pow2_7(k) {
        assert(v >> 7u64 < v) by (bit_vector)
            requires
                v >= 128,
        ;
        assert(k >= 2) by {
            if k == 1 {
                reveal_with_fuel(pow2_7, 2);
            }
        }
        lemma_shr7_bound(v, k);
        lemma_leb128_len_bound(v >> 7u64, (k - 1) as nat);
    }
}

spec fn pow2_7(k: nat) -> int
    decreases k,
{
    if k == 0 {
        1
    } else {
        128 * pow2_7((k - 1) as nat)
    }
}

proof fn lemma_shr7_bound(v: u64, k: nat)
    requires
        2 <= k <= 10,
        v < pow2_7(k),
    ensures
        (v >> 7u64) < pow2_7((k - 1) as nat),
{
    assert(v >> 7u64 == v / 128) by (bit_vector);
    assert(pow2_7(k) == 128 * pow2_7((k - 1) as nat));
    assert((v / 128) * 128 <= v) by (nonlinear_arith);
    assert((v as int) / 128 < pow2_7((k - 1) as nat)) by (nonlinear_arith)
        requires
            (v as int) < 128 * pow2_7((k - 1) as nat),
            0 <= v,
    ;
}

proof fn lemma_leb128_dec(v: u64, fuel: nat)
    requires
        leb128_bytes(v).len() <= fuel,
    ensures
        varint_dec(leb128_bytes(v), fuel) == Some((v, leb128_bytes(v).len())),
    decreases v,
{
    let b = leb128_bytes(v);
    if v >= 128 {
        assert(v >> 7u64 < v) by (bit_vector)
            requires
                v >= 128,
        ;
        let hi = v >> 7u64;
        let b0: u8 = ((v & 0x7f) as u8) | 0x80u8;
        assert(b.drop_first() =~= leb128_bytes(hi));
        lemma_leb128_dec(hi, (fuel - 1) as nat);
        assert(b0 >= 0x80) by (bit_vector)
            requires
                b0 == ((v & 0x7f) as u8) | 0x80u8,
        ;
        assert(((hi << 7u64) | ((b0 & 0x7f) as u64)) == v) by (bit_vector)
            requires
                hi == v >> 7u64,
                b0 == ((v & 0x7f) as u8) | 0x80u8,
        ;
    } else {
        assert((v as u8) as u64 == v && (v as u8) < 0x80) by (bit_vector)
            requires
                v < 128,
        ;
    }
}

/// Decoding the bytes of a LEB128 encoding gives back the encoded value and
/// consumes every byte; no encoding is longer than the ten bytes the
/// decoder accepts.
pub proof fn lemma_leb128_round_trip(v: u64)
    ensures
        1 <= leb128_bytes(v).len() <= 10,
        varint(leb128_bytes(v)) == Some((v, leb128_bytes(v).len())),
{
    lemma_leb128_len(v);
    lemma_leb128_dec(v, 10);
}

/// Encode `value` as a LEB128 varint.
pub fn encode_leb128(value: u64) -> (out: Vec<u8>)
    ensures
        out@ == leb128_bytes(value),
{
    let mut v = value;
    let mut out: Vec<u8> = Vec::new();
    loop
        invariant
            leb128_bytes(value) == out@ + leb128_bytes(v),
        decreases v,
    {
        let byte = (v & 0x7f) as u8;
        let ghost prev = v;
        v = v >> 7;
        if v == 0 {
            assert(prev < 128 && byte == prev as u8) by (bit_vector)
                requires
                    prev >> 7u64 == 0,
                    byte == (prev & 0x7f) as u8,
            ;
            out.push(byte);
            assert(out@ =~= leb128_bytes(value));
            return out;
        }
        assert(prev >= 128 && v < prev) by (bit_vector)
            requires
                v == prev >> 7u64,
                v != 0,
        ;
        out.push(byte | 0x80);
        assert(leb128_bytes(prev) == seq![byte | 0x80u8] + leb128_bytes(v));
        assert(out@ + leb128_bytes(v) =~= leb128_bytes(value));
    }
}

/// Number of bytes `encode_leb128(value)` produces.
fn leb128_len(value: u64) -> (n: usize)
    ensures
        n == leb128_bytes(value).len(),
{
    let mut value = value;
    let mut n: usize = 1;
    let ghost orig = value;
    proof {
        lemma_leb128_len(orig);
    }
    while value >= 0x80
        invariant
            n + leb128_bytes(value).len() == leb128_bytes(orig).len() + 1,
            leb128_bytes(orig).len() <= 10,
            n >= 1,
        decreases value,
    {
        let ghost prev = value;
        value = value >> 7;
        assert(value < prev) by (bit_vector)
            requires
                value == prev >> 7u64,
                prev >= 128,
        ;
        n = n + 1;
    }
    n
}

/// One varint starting at `pos`, of at most `fuel` bytes.
fn varint_at(buf: &[u8], pos: usize, fuel: usize) -> (r: Option<(u64, usize)>)
    requires
        pos <= buf@.len(),
        fuel <= 10,
    ensures
        r matches Some((v, n)) ==> varint_dec(buf@.skip(pos as int), fuel as nat) == Some((v, n as nat)),
        r is None ==> varint_dec(buf@.skip(pos as int), fuel as nat) is None,
    decreases fuel,
{
    if fuel == 0 || pos >= buf.len() {
        return None;
    }
    let b = buf[pos];
    if b < 0x80 {
        return Some((b as u64, 1));
    }
    assert(buf@.skip(pos as int).drop_first() =~= buf@.skip(pos + 1));
    proof {
        lemma_varint_dec_len(buf@.skip(pos + 1), (fuel - 1) as nat);
    }
    match varint_at(buf, pos + 1, fuel - 1) {
        Some((hi, n)) => Some(((hi << 7) | ((b & 0x7f) as u64), n + 1)),
        None => None,
    }
}

/// Read a single LEB128 varint (at most ten bytes) from the front of `buf`:
/// `(value, bytes_consumed)`, or `None` when the input ends first or the
/// tenth byte still has its continuation bit set.
pub fn read_varint(buf: &[u8]) -> (r: Option<(u64, usize)>)
    ensures
        r matches Some((v, n)) ==> varint(buf@) == Some((v, n as nat)),
        r is None ==> varint(buf@) is None,
{
    assert(buf@.skip(0) =~= buf@);
    varint_at(buf, 0, 10)
}

// ─── Hops ───────────────────────────────────────────────────────────────

/// Hops a packet travelled, `hop_start - hop_limit`, clamped to `0..=255`.
pub open spec fn spec_hops_away(p: MeshPacketV) -> u8 {
    let diff = p.hop_start as int - p.hop_limit as int;
    if diff < 0 {
        0
    } else if diff > 255 {
        255
    } else {
        diff as u8
    }
}

/// Hops-away of a packet: `hop_start - hop_limit`, clamped at zero below
/// and at 255 above.
pub fn hops_away(packet: &MeshPacket) -> (h: u8)
    ensures
        h == spec_hops_away(packet@),
{
    let diff: i64 = packet.hop_start as i64 - packet.hop_limit as i64;
    if diff < 0 {
        0
    } else if diff > 255 {
        255
    } else {
        diff as u8
    }
}

// ─── Encoders ───────────────────────────────────────────────────────────

/// Little-endian bytes of a `fixed32`.
pub open spec fn le32_bytes(v: u32) -> Seq<u8> {
    seq![v as u8, (v >> 8u32) as u8, (v >> 16u32) as u8, (v >> 24u32) as u8]
}

/// `ToRadio { want_config_id: id }`: tag `0x18` (field 3, varint), then
/// the LEB128 of `id`.
pub open spec fn want_config_bytes(id: u32) -> Seq<u8> {
    seq![0x18u8] + leb128_bytes(id as u64)
}

/// `Data { portnum: TEXT_MESSAGE_APP, payload }`.
pub open spec fn chat_data_bytes(payload: Seq<u8>) -> Seq<u8> {
    seq![0x08u8] + leb128_bytes(TEXT_MESSAGE_APP as u64) + seq![0x12u8] + leb128_bytes(
        payload.len() as u64,
    ) + payload
}

/// `MeshPacket { from, to, channel, hop_limit, hop_start, want_ack,
/// decoded }`: `channel` only when non-zero, `want_ack` only when set.
pub open spec fn chat_packet_bytes(
    to: u32,
    payload: Seq<u8>,
    from: u32,
    hop_limit: u32,
    hop_start: u32,
    want_ack: bool,
    channel: u32,
) -> Seq<u8> {
    let data = chat_data_bytes(payload);
    seq![0x0du8] + le32_bytes(from) + seq![0x15u8] + le32_bytes(to) + (if channel != 0 {
        seq![0x18u8] + leb128_bytes(channel as u64)
    } else {
        Seq::empty()
    }) + seq![0x30u8] + leb128_bytes(hop_limit as u64) + seq![0x38u8] + leb128_bytes(
        hop_start as u64,
    ) + (if want_ack {
        seq![0x40u8, 0x01u8]
    } else {
        Seq::empty()
    }) + seq![0x42u8] + leb128_bytes(data.len() as u64) + data
}

/// `ToRadio { packet }` around a `MeshPacket`'s bytes.
pub open spec fn to_radio_packet_bytes(mp: Seq<u8>) -> Seq<u8> {
    seq![0x0au8] + leb128_bytes(mp.len() as u64) + mp
}

fn append_bytes(out: &mut Vec<u8>, src: &[u8])
    ensures
        final(out)@ == old(out)@ + src@,
{
    for i in 0..src.len()
        invariant
            out@ == old(out)@ + src@.take(i as int),
    {
        out.push(src[i]);
        assert(src@.take(i + 1) =~= src@.take(i as int).push(src@[i as int]));
    }
    assert(src@.take(src@.len() as int) =~= src@);
}

fn append_le32(out: &mut Vec<u8>, v: u32)
    ensures
        final(out)@ == old(out)@ + le32_bytes(v),
{
    out.push(v as u8);
    out.push((v >> 8) as u8);
    out.push((v >> 16) as u8);
    out.push((v >> 24) as u8);
    assert(out@ =~= old(out)@ + le32_bytes(v));
}

/// Encode `ToRadio.want_config_id = id`, the handshake write that makes
/// the firmware stream its `FromRadio` backlog.
pub fn encode_to_radio_want_config_id(id: u32) -> (out: Vec<u8>)
    ensures
        out@ == want_config_bytes(id),
{
    let mut out: Vec<u8> = Vec::new();
    out.push(0x18);
    append_bytes(&mut out, encode_leb128(id as u64).as_slice());
    assert(out@ =~= want_config_bytes(id));
    out
}

/// Outbound chat frame on the primary channel: broadcast when `to` is
/// `BROADCAST_NUM`, a direct message otherwise; `from` 0 (the firmware
/// fills it in), `hop_limit = hop_start = 3`, no ack requested.
pub fn encode_to_radio_packet(to: u32, payload: &[u8]) -> (out: Vec<u8>)
    ensures
        out@ == to_radio_packet_bytes(chat_packet_bytes(to, payload@, 0, 3, 3, false, 0)),
{
    encode_to_radio_packet_full(to, payload, 0, 3, 3, false, 0)
}

/// Write the LEB128 length header of a length-delimited field.
fn encode_length_delim(out: &mut Vec<u8>, n: usize)
    ensures
        final(out)@ == old(out)@ + leb128_bytes(n as u64),
{
    append_bytes(out, encode_leb128(n as u64).as_slice());
}

/// Full outbound encoder: `ToRadio { packet: MeshPacket { from, to,
/// channel, hop_limit, hop_start, want_ack, decoded: Data { portnum:
/// TEXT_MESSAGE_APP, payload } } }`.
pub fn encode_to_radio_packet_full(
    to: u32,
    payload: &[u8],
    from: u32,
    hop_limit: u32,
    hop_start: u32,
    want_ack: bool,
    channel: u32,
) -> (out: Vec<u8>)
    ensures
        out@ == to_radio_packet_bytes(
            chat_packet_bytes(to, payload@, from, hop_limit, hop_start, want_ack, channel),
        ),
{
    let mut data: Vec<u8> = Vec::new();
    data.push(0x08);
    append_bytes(&mut data, encode_leb128(TEXT_MESSAGE_APP as u64).as_slice());
    data.push(0x12);
    encode_length_delim(&mut data, payload.len());
    append_bytes(&mut data, payload);
    assert(data@ =~= chat_data_bytes(payload@));

    let mut mp: Vec<u8> = Vec::new();
    mp.push(0x0d);
    append_le32(&mut mp, from);
    mp.push(0x15);
    append_le32(&mut mp, to);
    let ghost head = mp@;
    if channel != 0 {
        mp.push(0x18);
        append_bytes(&mut mp, encode_leb128(channel as u64).as_slice());
    }
    let ghost with_channel = mp@;
    assert(with_channel =~= head + (if channel != 0 {
        seq![0x18u8] + leb128_bytes(channel as u64)
    } else {
        Seq::empty()
    }));
    mp.push(0x30);
    append_bytes(&mut mp, encode_leb128(hop_limit as u64).as_slice());
    mp.push(0x38);
    append_bytes(&mut mp, encode_leb128(hop_start as u64).as_slice());
    let ghost with_hops = mp@;
    if want_ack {
        mp.push(0x40);
        mp.push(0x01);
    }
    assert(mp@ =~= with_hops + (if want_ack {
        seq![0x40u8, 0x01u8]
    } else {
        Seq::empty()
    }));
    mp.push(0x42);
    encode_length_delim(&mut mp, data.len());
    append_bytes(&mut mp, data.as_slice());
    assert(mp@ =~= chat_packet_bytes(to, payload@, from, hop_limit, hop_start, want_ack, channel));

    let mut out: Vec<u8> = Vec::new();
    out.push(0x0a);
    encode_length_delim(&mut out, mp.len());
    append_bytes(&mut out, mp.as_slice());
    assert(out@ =~= to_radio_packet_bytes(mp@));
    out
}

// ─── Node ids ───────────────────────────────────────────────────────────

/// The eight lowercase hex digits of `num`, most significant first.
pub open spec fn hex8(num: u32) -> Seq<char> {
    Seq::new(8, |i: int| hex_char(((num >> ((28 - 4 * i) as u32)) & 0xfu32) as int))
}

/// The canonical node id of a node number: `!` and eight lowercase hex
/// digits.
pub open spec fn node_id_text(num: u32) -> Seq<char> {
    seq!['!'] + hex8(num)
}

/// The node number a node id stands for: surrounding white space and one
/// leading `!` are dropped, and the rest must be one to eight hexadecimal
/// digits (no sign); anything else stands for 0.
pub open spec fn node_num_of(id: Seq<char>) -> u32 {
    let t = trim_seq(id);
    let hex = if t.len() > 0 && t[0] == '!' {
        t.drop_first()
    } else {
        t
    };
    if hex.len() == 0 || encode_utf8(hex).len() > 8 || hex[0] == '+' {
        0
    } else {
        match hex_u32(hex) {
            Some(v) => v,
            None => 0,
        }
    }
}

/// Render the canonical `!xxxxxxxx` node id of a node number.
pub fn node_id_from_num(num: u32) -> (s: String)
    ensures
        s@ == node_id_text(num),
{
    let mut s = String::new();
    push_char(&mut s, '!');
    for i in 0..8u32
        invariant
            s@ == seq!['!'] + hex8(num).take(i as int),
    {
        let shift: u32 = 28 - 4 * i;
        let nib = ((num >> shift) & 0xf) as u8;
        assert((num >> shift) & 0xfu32 < 16) by (bit_vector);
        push_char(&mut s, hex_digit(nib));
        assert(hex8(num).take(i + 1) =~= hex8(num).take(i as int).push(hex8(num)[i as int]));
    }
    assert(hex8(num).take(8) =~= hex8(num));
    s
}

/// Inverse of `node_id_from_num`: accepts `!aabbccdd` and unprefixed
/// `aabbccdd`, ignores surrounding white space, and yields 0 for anything
/// that is not one to eight hexadecimal digits.
pub fn node_id_to_num(id: &str) -> (n: u32)
    ensures
        n == node_num_of(id@),
{
    let trimmed = str_trim(id);
    let stripped = str_strip_bang(trimmed.as_str());
    let hex = match &stripped {
        Some(h) => h.as_str(),
        None => trimmed.as_str(),
    };
    if hex.is_empty() || hex.as_bytes().len() > 8 {
        return 0;
    }
    let signed = crate::text::starts_with(hex, "+");
    proof {
        reveal_strlit("+");
        assert("+"@ =~= seq!['+']);
        assert(hex@.len() > 0);
        if hex@[0] == '+' {
            assert(hex@.take(1) =~= seq!['+']);
        }
        if signed {
            assert(hex@.take(1)[0] == hex@[0]);
        }
    }
    if signed {
        return 0;
    }
    match u32_from_hex(hex) {
        Some(v) => v,
        None => 0,
    }
}

proof fn lemma_hex_char(d: int)
    requires
        0 <= d < 16,
    ensures
        is_hex_digit(hex_char(d)),
        hex_digit_value(hex_char(d)) == d,
        hex_char(d) != '+',
        hex_char(d) != '!',
        !is_white_space(hex_char(d)),
        '\0' <= hex_char(d) <= '\u{7f}',
{
}

proof fn lemma_hex8_prefix_value(n: u32, k: int)
    requires
        1 <= k <= 8,
    ensures
        hex_value(hex8(n).take(k)) == (n >> ((32 - 4 * k) as u32)) as int,
    decreases k,
{
    let s = hex8(n).take(k);
    let sh = (32 - 4 * k) as u32;
    assert(((28 - 4 * (k - 1)) as u32) == sh);
    let d = ((n >> sh) & 0xfu32) as int;
    assert((n >> sh) & 0xfu32 < 16) by (bit_vector);
    lemma_hex_char(d);
    assert(s.last() == hex_char(d));
    assert(s.drop_last() =~= hex8(n).take(k - 1));
    assert(hex_value(s) == hex_value(s.drop_last()) * 16 + hex_digit_value(s.last()));
    if k == 1 {
        assert(hex8(n).take(0) =~= Seq::<char>::empty());
        assert((n >> 28u32) & 0xfu32 == n >> 28u32) by (bit_vector);
    } else {
        lemma_hex8_prefix_value(n, k - 1);
        let sh1 = (32 - 4 * (k - 1)) as u32;
        assert(sh1 == sh + 4);
        assert((n >> sh1) as int * 16 + ((n >> sh) & 0xfu32) as int == (n >> sh) as int)
            by (bit_vector)
            requires
                sh1 == sh + 4,
                4 <= sh1 <= 28,
        ;
    }
}

/// The node number is recovered from its canonical node id.
pub proof fn lemma_node_id_round_trip(n: u32)
    ensures
        node_num_of(node_id_text(n)) == n,
{
    let h = hex8(n);
    let t = node_id_text(n);
    assert forall|i: int| 0 <= i < 8 implies is_hex_digit(#[trigger] h[i]) && h[i] != '+'
        && !is_white_space(h[i]) && '\0' <= h[i] <= '\u{7f}' by {
        let sh = (28 - 4 * i) as u32;
        assert((n >> sh) & 0xfu32 < 16) by (bit_vector);
        lemma_hex_char(((n >> sh) & 0xfu32) as int);
    }
    assert(trim_start_seq(t) == t);
    assert(trim_end_seq(t) == t);
    assert(t.drop_first() =~= h);
    vstd::utf8::is_ascii_chars_encode_utf8(h);
    lemma_hex8_prefix_value(n, 8);
    assert(h.take(8) =~= h);
    assert((n >> 0u32) == n) by (bit_vector);
}

// ─── Node table ─────────────────────────────────────────────────────────

/// Index of the first node whose id is `id`, or `nodes.len()` when none is.
pub open spec fn first_with_id(nodes: Seq<LoraNodeV>, id: Seq<char>) -> int
    decreases nodes.len(),
{
    if nodes.len() == 0 {
        0
    } else if nodes[0].node_id == id {
        0
    } else {
        1 + first_with_id(nodes.drop_first(), id)
    }
}

proof fn lemma_first_with_id(nodes: Seq<LoraNodeV>, id: Seq<char>)
    ensures
        0 <= first_with_id(nodes, id) <= nodes.len(),
        first_with_id(nodes, id) < nodes.len() ==> nodes[first_with_id(nodes, id)].node_id == id,
        forall|j: int| 0 <= j < first_with_id(nodes, id) ==> nodes[j].node_id != id,
    decreases nodes.len(),
{
    if nodes.len() > 0 && nodes[0].node_id != id {
        lemma_first_with_id(nodes.drop_first(), id);
        assert forall|j: int| 0 <= j < first_with_id(nodes, id) implies nodes[j].node_id != id by {
            if j > 0 {
                assert(nodes[j] == nodes.drop_first()[j - 1]);
            }
        }
    }
}

proof fn lemma_first_with_id_at(nodes: Seq<LoraNodeV>, id: Seq<char>, k: int)
    requires
        0 <= k <= nodes.len(),
        k < nodes.len() ==> nodes[k].node_id == id,
        forall|j: int| 0 <= j < k ==> nodes[j].node_id != id,
    ensures
        first_with_id(nodes, id) == k,
    decreases nodes.len(),
{
    if nodes.len() > 0 && k > 0 {
        lemma_first_with_id_at(nodes.drop_first(), id, k - 1);
    }
}

/// `nodes` with `n` stored under its id: replacing the first node with the
/// same id, or appended when there is none.
pub open spec fn upserted(nodes: Seq<LoraNodeV>, n: LoraNodeV) -> Seq<LoraNodeV> {
    let k = first_with_id(nodes, n.node_id);
    if k < nodes.len() {
        nodes.update(k, n)
    } else {
        nodes.push(n)
    }
}

/// No two nodes of the table share an id.
pub open spec fn ids_unique(nodes: Seq<LoraNodeV>) -> bool {
    forall|i: int, j: int|
        0 <= i < j < nodes.len() ==> (#[trigger] nodes[i]).node_id != (#[trigger] nodes[j]).node_id
}

/// An upsert keeps the ids of the table unique, and the upserted node is
/// then the one entry with its id.
pub proof fn lemma_upsert_keeps_ids_unique(nodes: Seq<LoraNodeV>, n: LoraNodeV)
    requires
        ids_unique(nodes),
    ensures
        ids_unique(upserted(nodes, n)),
        exists|k: int| 0 <= k < upserted(nodes, n).len() && #[trigger] upserted(nodes, n)[k] == n,
        forall|i: int|
            0 <= i < upserted(nodes, n).len() && (#[trigger] upserted(nodes, n)[i]).node_id == n.node_id
                ==> upserted(nodes, n)[i] == n,
{
    lemma_first_with_id(nodes, n.node_id);
    let k = first_with_id(nodes, n.node_id);
    let r = upserted(nodes, n);
    if k < nodes.len() {
        assert(r[k] == n);
        assert forall|i: int, j: int| 0 <= i < j < r.len() implies (#[trigger] r[i]).node_id != (
        #[trigger] r[j]).node_id by {
            if i != k && j != k {
                assert(r[i] == nodes[i] && r[j] == nodes[j]);
            } else if i == k {
                assert(r[j] == nodes[j]);
                assert(nodes[k].node_id != nodes[j].node_id);
            } else {
                assert(r[i] == nodes[i]);
                assert(nodes[i].node_id != nodes[k].node_id);
            }
        }
        assert forall|i: int| 0 <= i < r.len() && (#[trigger] r[i]).node_id == n.node_id implies r[i]
            == n by {
            if i != k {
                assert(r[i] == nodes[i]);
                if i < k {
                    assert(nodes[i].node_id != n.node_id);
                } else {
                    assert(nodes[k].node_id != nodes[i].node_id);
                }
            }
        }
    } else {
        let last = nodes.len() as int;
        assert(r[last] == n);
        assert forall|i: int, j: int| 0 <= i < j < r.len() implies (#[trigger] r[i]).node_id != (
        #[trigger] r[j]).node_id by {
            assert(r[i] == nodes[i]);
            if j < last {
                assert(r[j] == nodes[j]);
            }
        }
        assert forall|i: int| 0 <= i < r.len() && (#[trigger] r[i]).node_id == n.node_id implies r[i]
            == n by {
            if i < last {
                assert(r[i] == nodes[i]);
            }
        }
    }
}

/// Index of the first node with this id, or the length when none has it.
fn find_node(nodes: &Vec<LoraNode>, id: &String) -> (k: usize)
    ensures
        k == first_with_id(lora_nodes_view(nodes@), id@),
{
    let ghost v = lora_nodes_view(nodes@);
    let mut i: usize = 0;
    while i < nodes.len()
        invariant
            i <= nodes@.len(),
            v == lora_nodes_view(nodes@),
            forall|j: int| 0 <= j < i ==> v[j].node_id != id@,
        decreases nodes@.len() - i,
    {
        if nodes[i].node_id == *id {
            proof {
                lemma_first_with_id_at(v, id@, i as int);
            }
            return i;
        }
        i += 1;
    }
    proof {
        lemma_first_with_id_at(v, id@, i as int);
    }
    i
}

/// Upsert a node into the table: it replaces the first entry with the same
/// `node_id`, or goes to the end when the id is new.
pub fn upsert_node(nodes: &mut Vec<LoraNode>, new_node: LoraNode)
    ensures
        lora_nodes_view(final(nodes)@) == upserted(lora_nodes_view(old(nodes)@), new_node@),
        ids_unique(lora_nodes_view(old(nodes)@)) ==> ids_unique(lora_nodes_view(final(nodes)@)),
{
    proof {
        if ids_unique(lora_nodes_view(nodes@)) {
            lemma_upsert_keeps_ids_unique(lora_nodes_view(nodes@), new_node@);
        }
    }
    let k = find_node(nodes, &new_node.node_id);
    proof {
        lemma_first_with_id(lora_nodes_view(nodes@), new_node@.node_id);
    }
    if k < nodes.len() {
        nodes.set(k, new_node);
    } else {
        nodes.push(new_node);
    }
    assert(lora_nodes_view(nodes@) =~= upserted(lora_nodes_view(old(nodes)@), new_node@));
}

/// The label a chat line from `from_num` shows: the label of the first
/// known node with that id, else the id itself.
pub open spec fn from_label(from_num: u32, nodes: Seq<LoraNodeV>) -> Seq<char> {
    let id = node_id_text(from_num);
    let k = first_with_id(nodes, id);
    if k < nodes.len() {
        node_label(nodes[k])
    } else {
        id
    }
}

/// Resolve the `from` of a chat packet to a label through the node table,
/// falling back to the raw `!xxxxxxxx` id for an unknown node.
pub fn label_for_from(from_num: u32, nodes: &Vec<LoraNode>) -> (s: String)
    ensures
        s@ == from_label(from_num, lora_nodes_view(nodes@)),
{
    let id = node_id_from_num(from_num);
    let k = find_node(nodes, &id);
    proof {
        lemma_first_with_id(lora_nodes_view(nodes@), id@);
    }
    if k < nodes.len() {
        nodes[k].label()
    } else {
        id
    }
}

// ─── Decoded message types ─────────────────────────────────────────────

/// One `FromRadio` frame; `Unknown` for a root field whose wire type the
/// decoder does not handle.
#[derive(Debug, Clone, PartialEq, Eq)]
pub enum FromRadio {
    Id(u32),
    Packet(MeshPacket),
    MyInfo(MyNodeInfo),
    NodeInfo(NodeInfo),
    ConfigComplete(u32),
    Unknown,
}

/// `MeshPacket`: the fields the chat screens read.
#[derive(Debug, Clone, PartialEq, Eq, Default)]
pub struct MeshPacket {
    pub from: u32,
    pub to: u32,
    pub hop_limit: u32,
    pub hop_start: u32,
    pub decoded: Option<Data>,
    pub id: u32,
}

/// `Data`: the payload of a `MeshPacket`.
#[derive(Debug, Clone, PartialEq, Eq, Default)]
pub struct Data {
    pub portnum: u32,
    pub payload: Vec<u8>,
    pub dest: u32,
    pub source: u32,
}

/// `NodeInfo`: one remote node of the firmware's database.
#[derive(Debug, Clone, PartialEq, Eq, Default)]
pub struct NodeInfo {
    pub num: u32,
    pub user: Option<User>,
    pub last_heard_secs: u32,
}

/// `MyNodeInfo`: the local node's self-description.
#[derive(Debug, Clone, PartialEq, Eq, Default)]
pub struct MyNodeInfo {
    pub my_node_num: u32,
    pub user: Option<User>,
}

/// `User`: the canonical id and the operator-chosen names.
#[derive(Debug, Clone, PartialEq, Eq, Default)]
pub struct User {
    pub id: String,
    pub long_name: String,
    pub short_name: String,
}

/// Mathematical value of a `User`.
pub struct UserV {
    pub id: Seq<char>,
    pub long_name: Seq<char>,
    pub short_name: Seq<char>,
}

/// Mathematical value of a `Data`.
pub struct DataV {
    pub portnum: u32,
    pub payload: Seq<u8>,
    pub dest: u32,
    pub source: u32,
}

/// Mathematical value of a `MeshPacket`.
pub struct MeshPacketV {
    pub from: u32,
    pub to: u32,
    pub hop_limit: u32,
    pub hop_start: u32,
    pub decoded: Option<DataV>,
    pub id: u32,
}

/// Mathematical value of a `NodeInfo`.
pub struct NodeInfoV {
    pub num: u32,
    pub user: Option<UserV>,
    pub last_heard_secs: u32,
}

/// Mathematical value of a `MyNodeInfo`.
pub struct MyNodeInfoV {
    pub my_node_num: u32,
    pub user: Option<UserV>,
}

/// Mathematical value of a `FromRadio`.
pub enum FromRadioV {
    Id(u32),
    Packet(MeshPacketV),
    MyInfo(MyNodeInfoV),
    NodeInfo(NodeInfoV),
    ConfigComplete(u32),
    Unknown,
}

impl View for User {
    type V = UserV;

    open spec fn view(&self) -> UserV {
        UserV { id: self.id@, long_name: self.long_name@, short_name: self.short_name@ }
    }
}

impl View for Data {
    type V = DataV;

    open spec fn view(&self) -> DataV {
        DataV {
            portnum: self.portnum,
            payload: self.payload@,
            dest: self.dest,
            source: self.source,
        }
    }
}

pub open spec fn user_opt_view(u: Option<User>) -> Option<UserV> {
    match u {
        Some(u) => Some(u@),
        None => None,
    }
}

impl View for MeshPacket {
    type V = MeshPacketV;

    open spec fn view(&self) -> MeshPacketV {
        MeshPacketV {
            from: self.from,
            to: self.to,
            hop_limit: self.hop_limit,
            hop_start: self.hop_start,
            decoded: match self.decoded {
                Some(d) => Some(d@),
                None => None,
            },
            id: self.id,
        }
    }
}

impl View for NodeInfo {
    type V = NodeInfoV;

    open spec fn view(&self) -> NodeInfoV {
        NodeInfoV {
            num: self.num,
            user: user_opt_view(self.user),
            last_heard_secs: self.last_heard_secs,
        }
    }
}

impl View for MyNodeInfo {
    type V = MyNodeInfoV;

    open spec fn view(&self) -> MyNodeInfoV {
        MyNodeInfoV { my_node_num: self.my_node_num, user: user_opt_view(self.user) }
    }
}

impl View for FromRadio {
    type V = FromRadioV;

    open spec fn view(&self) -> FromRadioV {
        match self {
            FromRadio::Id(v) => FromRadioV::Id(*v),
            FromRadio::Packet(p) => FromRadioV::Packet(p@),
            FromRadio::MyInfo(m) => FromRadioV::MyInfo(m@),
            FromRadio::NodeInfo(n) => FromRadioV::NodeInfo(n@),
            FromRadio::ConfigComplete(v) => FromRadioV::ConfigComplete(*v),
            FromRadio::Unknown => FromRadioV::Unknown,
        }
    }
}

pub open spec fn frames_view(v: Seq<FromRadio>) -> Seq<FromRadioV> {
    v.map_values(|f: FromRadio| f@)
}

// ─── Decoder specification ──────────────────────────────────────────────

/// Text the firmware sent as `string` bytes, decoded the lossy way:
/// what `String::from_utf8_lossy` makes of the bytes.
pub uninterp spec fn utf8_lossy(bytes: Seq<u8>) -> Seq<char>;

/// Bytes read as text: decoded exactly when they are valid UTF-8,
/// otherwise the lossy way (see `utf8_lossy`).
pub open spec fn lossy_text(bytes: Seq<u8>) -> Seq<char> {
    if valid_utf8(bytes) {
        decode_utf8(bytes)
    } else {
        utf8_lossy(bytes)
    }
}

/// Decode bytes as UTF-8, replacing invalid sequences.
#[verifier::external_body]
pub(crate) fn string_from_utf8_lossy(bytes: &[u8]) -> (s: String)
    ensures
        s@ == utf8_lossy(bytes@),
        valid_utf8(bytes@) ==> s@ == decode_utf8(bytes@),
{
    String::from_utf8_lossy(bytes).into_owned()
}

/// Little-endian `fixed32` at the front of `b`.
pub open spec fn le32(b: Seq<u8>) -> u32 {
    (b[0] as int + b[1] as int * 256 + b[2] as int * 65536 + b[3] as int * 16777216) as u32
}

/// The bytes of a length-delimited field whose `len` varint was read:
/// its start offset is `start`, its length `len` taken as a `usize`.
pub open spec fn delim_len(len: u64) -> int {
    (len as usize) as int
}

pub open spec fn empty_user() -> UserV {
    UserV { id: Seq::empty(), long_name: Seq::empty(), short_name: Seq::empty() }
}

pub open spec fn empty_data() -> DataV {
    DataV { portnum: 0, payload: Seq::empty(), dest: 0, source: 0 }
}

pub open spec fn empty_packet() -> MeshPacketV {
    MeshPacketV { from: 0, to: 0, hop_limit: 0, hop_start: 0, decoded: None, id: 0 }
}

pub open spec fn empty_node_info() -> NodeInfoV {
    NodeInfoV { num: 0, user: None, last_heard_secs: 0 }
}

pub open spec fn empty_my_info() -> MyNodeInfoV {
    MyNodeInfoV { my_node_num: 0, user: None }
}

/// `User` fields of `b`, read front to back into `u`: id (1), long name
/// (2) and short name (3) are strings; other varint and length-delimited
/// fields are skipped; anything else, or a truncated field, ends the read.
pub open spec fn user_fields(b: Seq<u8>, u: UserV) -> UserV
    decreases b.len(),
{
    if b.len() == 0 {
        u
    } else {
        match varint(b) {
            None => u,
            Some((tag, hl)) => {
                let field = tag >> 3u64;
                let wire = tag & 7u64;
                let rest = b.skip(hl as int);
                proof {
                    lemma_varint_dec_len(b, 10);
                    lemma_varint_dec_len(rest, 10);
                }
                if wire == 0 {
                    match varint(rest) {
                        None => u,
                        Some((_v, len)) => user_fields(b.skip((hl + len) as int), u),
                    }
                } else if wire == 2 {
                    match varint(rest) {
                        None => u,
                        Some((len, hdr)) => {
                            let start = (hl + hdr) as int;
                            let n = delim_len(len);
                            if 1 <= field <= 3 {
                                if n > b.len() - start {
                                    u
                                } else {
                                    let s = lossy_text(b.subrange(start as int, start + n));
                                    let u2 = if field == 1 {
                                        UserV { id: s, ..u }
                                    } else if field == 2 {
                                        UserV { long_name: s, ..u }
                                    } else {
                                        UserV { short_name: s, ..u }
                                    };
                                    user_fields(b.skip(start + n), u2)
                                }
                            } else if n >= b.len() - start {
                                u
                            } else {
                                user_fields(b.skip(start + n), u)
                            }
                        },
                    }
                } else {
                    u
                }
            },
        }
    }
}

/// `Data` fields of `b`: portnum (1, varint), payload (2, bytes), dest (4)
/// and source (5) as `fixed32`.
pub open spec fn data_fields(b: Seq<u8>, d: DataV) -> DataV
    decreases b.len(),
{
    if b.len() == 0 {
        d
    } else {
        match varint(b) {
            None => d,
            Some((tag, hl)) => {
                let field = tag >> 3u64;
                let wire = tag & 7u64;
                let rest = b.skip(hl as int);
                proof {
                    lemma_varint_dec_len(b, 10);
                    lemma_varint_dec_len(rest, 10);
                }
                if wire == 0 {
                    match varint(rest) {
                        None => d,
                        Some((v, len)) => {
                            let d2 = if field == 1 {
                                DataV { portnum: v as u32, ..d }
                            } else {
                                d
                            };
                            data_fields(b.skip((hl + len) as int), d2)
                        },
                    }
                } else if wire == 2 {
                    match varint(rest) {
                        None => d,
                        Some((len, hdr)) => {
                            let start = (hl + hdr) as int;
                            let n = delim_len(len);
                            if field == 2 {
                                if n > b.len() - start {
                                    d
                                } else {
                                    data_fields(
                                        b.skip(start + n),
                                        DataV { payload: b.subrange(start as int, start + n), ..d },
                                    )
                                }
                            } else if n >= b.len() - start {
                                d
                            } else {
                                data_fields(b.skip(start + n), d)
                            }
                        },
                    }
                } else if wire == 5 && (field == 4 || field == 5) {
                    if rest.len() < 4 {
                        d
                    } else {
                        let v = le32(rest);
                        let d2 = if field == 4 {
                            DataV { dest: v, ..d }
                        } else {
                            DataV { source: v, ..d }
                        };
                        data_fields(b.skip((hl + 4) as int), d2)
                    }
                } else {
                    d
                }
            },
        }
    }
}

/// `MeshPacket` fields of `b`: from (1) and to (2) as `fixed32`, hop limit
/// (6) and hop start (7) as varints, the decoded `Data` (8).
pub open spec fn packet_fields(b: Seq<u8>, p: MeshPacketV) -> MeshPacketV
    decreases b.len(),
{
    if b.len() == 0 {
        p
    } else {
        match varint(b) {
            None => p,
            Some((tag, hl)) => {
                let field = tag >> 3u64;
                let wire = tag & 7u64;
                let rest = b.skip(hl as int);
                proof {
                    lemma_varint_dec_len(b, 10);
                    lemma_varint_dec_len(rest, 10);
                }
                if wire == 5 && (field == 1 || field == 2) {
                    if rest.len() < 4 {
                        p
                    } else {
                        let v = le32(rest);
                        let p2 = if field == 1 {
                            MeshPacketV { from: v, ..p }
                        } else {
                            MeshPacketV { to: v, ..p }
                        };
                        packet_fields(b.skip((hl + 4) as int), p2)
                    }
                } else if wire == 0 {
                    match varint(rest) {
                        None => p,
                        Some((v, len)) => {
                            let p2 = if field == 6 {
                                MeshPacketV { hop_limit: v as u32, ..p }
                            } else if field == 7 {
                                MeshPacketV { hop_start: v as u32, ..p }
                            } else {
                                p
                            };
                            packet_fields(b.skip((hl + len) as int), p2)
                        },
                    }
                } else if wire == 2 {
                    match varint(rest) {
                        None => p,
                        Some((len, hdr)) => {
                            let start = (hl + hdr) as int;
                            let n = delim_len(len);
                            if field == 8 {
                                if n > b.len() - start {
                                    p
                                } else {
                                    let d = data_fields(b.subrange(start as int, start + n), empty_data());
                                    packet_fields(b.skip(start + n), MeshPacketV { decoded: Some(d), ..p })
                                }
                            } else if n >= b.len() - start {
                                p
                            } else {
                                packet_fields(b.skip(start + n), p)
                            }
                        },
                    }
                } else {
                    p
                }
            },
        }
    }
}

/// `NodeInfo` fields of `b`: num (1, varint), the `User` (4) and the
/// last-heard time (5, `fixed32`).
pub open spec fn node_info_fields(b: Seq<u8>, n: NodeInfoV) -> NodeInfoV
    decreases b.len(),
{
    if b.len() == 0 {
        n
    } else {
        match varint(b) {
            None => n,
            Some((tag, hl)) => {
                let field = tag >> 3u64;
                let wire = tag & 7u64;
                let rest = b.skip(hl as int);
                proof {
                    lemma_varint_dec_len(b, 10);
                    lemma_varint_dec_len(rest, 10);
                }
                if wire == 0 {
                    match varint(rest) {
                        None => n,
                        Some((v, len)) => {
                            let n2 = if field == 1 {
                                NodeInfoV { num: v as u32, ..n }
                            } else {
                                n
                            };
                            node_info_fields(b.skip((hl + len) as int), n2)
                        },
                    }
                } else if wire == 2 {
                    match varint(rest) {
                        None => n,
                        Some((len, hdr)) => {
                            let start = (hl + hdr) as int;
                            let k = delim_len(len);
                            if field == 4 {
                                if k > b.len() - start {
                                    n
                                } else {
                                    let u = user_fields(b.subrange(start, start + k), empty_user());
                                    node_info_fields(b.skip(start + k), NodeInfoV { user: Some(u), ..n })
                                }
                            } else if k >= b.len() - start {
                                n
                            } else {
                                node_info_fields(b.skip(start + k), n)
                            }
                        },
                    }
                } else if wire == 5 && field == 5 {
                    if rest.len() < 4 {
                        n
                    } else {
                        node_info_fields(
                            b.skip((hl + 4) as int),
                            NodeInfoV { last_heard_secs: le32(rest), ..n },
                        )
                    }
                } else {
                    n
                }
            },
        }
    }
}

/// `MyNodeInfo` fields of `b`: my node num (1, varint) and the `User` (4).
pub open spec fn my_info_fields(b: Seq<u8>, m: MyNodeInfoV) -> MyNodeInfoV
    decreases b.len(),
{
    if b.len() == 0 {
        m
    } else {
        match varint(b) {
            None => m,
            Some((tag, hl)) => {
                let field = tag >> 3u64;
                let wire = tag & 7u64;
                let rest = b.skip(hl as int);
                proof {
                    lemma_varint_dec_len(b, 10);
                    lemma_varint_dec_len(rest, 10);
                }
                if wire == 0 {
                    match varint(rest) {
                        None => m,
                        Some((v, len)) => {
                            let m2 = if field == 1 {
                                MyNodeInfoV { my_node_num: v as u32, ..m }
                            } else {
                                m
                            };
                            my_info_fields(b.skip((hl + len) as int), m2)
                        },
                    }
                } else if wire == 2 {
                    match varint(rest) {
                        None => m,
                        Some((len, hdr)) => {
                            let start = (hl + hdr) as int;
                            let k = delim_len(len);
                            if field == 4 {
                                if k > b.len() - start {
                                    m
                                } else {
                                    let u = user_fields(b.subrange(start, start + k), empty_user());
                                    my_info_fields(b.skip(start + k), MyNodeInfoV { user: Some(u), ..m })
                                }
                            } else if k >= b.len() - start {
                                m
                            } else {
                                my_info_fields(b.skip(start + k), m)
                            }
                        },
                    }
                } else {
                    m
                }
            },
        }
    }
}

/// The `FromRadio` frames laid back to back in `b`, in order. Root fields:
/// id (1) and config-complete id (7) as varints, packet (2), my info (3)
/// and node info (4) as length-delimited messages. Other varint and
/// length-delimited fields are skipped; a field of any other wire type
/// yields `Unknown` and ends the body, as does a truncated field.
pub open spec fn frames(b: Seq<u8>) -> Seq<FromRadioV>
    decreases b.len(),
{
    if b.len() == 0 {
        Seq::empty()
    } else {
        match varint(b) {
            None => Seq::empty(),
            Some((tag, hl)) => {
                let field = tag >> 3u64;
                let wire = tag & 7u64;
                let rest = b.skip(hl as int);
                proof {
                    lemma_varint_dec_len(b, 10);
                    lemma_varint_dec_len(rest, 10);
                }
                if wire == 0 {
                    match varint(rest) {
                        None => Seq::empty(),
                        Some((v, len)) => {
                            let tail = frames(b.skip((hl + len) as int));
                            if field == 1 {
                                seq![FromRadioV::Id(v as u32)] + tail
                            } else if field == 7 {
                                seq![FromRadioV::ConfigComplete(v as u32)] + tail
                            } else {
                                tail
                            }
                        },
                    }
                } else if wire == 2 {
                    match varint(rest) {
                        None => Seq::empty(),
                        Some((len, hdr)) => {
                            let start = (hl + hdr) as int;
                            let k = delim_len(len);
                            if k > b.len() - start {
                                Seq::empty()
                            } else {
                                let body = b.subrange(start, start + k);
                                let tail = frames(b.skip(start + k));
                                if field == 2 {
                                    seq![FromRadioV::Packet(packet_fields(body, empty_packet()))] + tail
                                } else if field == 3 {
                                    seq![FromRadioV::MyInfo(my_info_fields(body, empty_my_info()))] + tail
                                } else if field == 4 {
                                    seq![FromRadioV::NodeInfo(node_info_fields(body, empty_node_info()))]
                                        + tail
                                } else {
                                    tail
                                }
                            }
                        },
                    }
                } else {
                    seq![FromRadioV::Unknown]
                }
            },
        }
    }
}

// ─── Round trip ─────────────────────────────────────────────────────────

proof fn lemma_varint_dec_prefix(b: Seq<u8>, r: Seq<u8>, fuel: nat)
    ensures
        varint_dec(b, fuel) is Some ==> varint_dec(b + r, fuel) == varint_dec(b, fuel),
    decreases fuel,
{
    if fuel > 0 && b.len() > 0 {
        assert((b + r)[0] == b[0]);
        if b[0] >= 0x80 {
            assert((b + r).drop_first() =~= b.drop_first() + r);
            lemma_varint_dec_prefix(b.drop_first(), r, (fuel - 1) as nat);
        }
    }
}

/// A LEB128 encoding followed by anything decodes to its value and takes
/// exactly its own bytes.
proof fn lemma_leb128_then(v: u64, r: Seq<u8>)
    ensures
        varint(leb128_bytes(v) + r) == Some((v, leb128_bytes(v).len())),
        (leb128_bytes(v) + r).skip(leb128_bytes(v).len() as int) == r,
        1 <= leb128_bytes(v).len() <= 10,
{
    lemma_leb128_round_trip(v);
    lemma_varint_dec_prefix(leb128_bytes(v), r, 10);
    assert((leb128_bytes(v) + r).skip(leb128_bytes(v).len() as int) =~= r);
}

/// A one-byte tag below `0x80` followed by anything.
proof fn lemma_tag_then(t: u8, r: Seq<u8>)
    requires
        t < 0x80,
    ensures
        varint(seq![t] + r) == Some((t as u64, 1nat)),
        (seq![t] + r).skip(1) == r,
{
    assert((seq![t] + r)[0] == t);
    assert((seq![t] + r).skip(1) =~= r);
}

proof fn lemma_le32_then(v: u32, r: Seq<u8>)
    ensures
        (le32_bytes(v) + r).len() >= 4,
        le32(le32_bytes(v) + r) == v,
        (le32_bytes(v) + r).skip(4) == r,
{
    let b = le32_bytes(v) + r;
    assert(b[0] == v as u8 && b[1] == (v >> 8u32) as u8 && b[2] == (v >> 16u32) as u8 && b[3] == (v
        >> 24u32) as u8);
    assert((v as u8) as int + ((v >> 8u32) as u8) as int * 256 + ((v >> 16u32) as u8) as int * 65536
        + ((v >> 24u32) as u8) as int * 16777216 == v as int) by (bit_vector);
    assert(b.skip(4) =~= r);
}

/// A `fixed32` field `from` (tag `0x0d`) or `to` (tag `0x15`) of a
/// `MeshPacket`.
proof fn lemma_packet_fixed32(t: u8, v: u32, r: Seq<u8>, p: MeshPacketV)
    requires
        t == 0x0d || t == 0x15,
    ensures
        packet_fields(seq![t] + le32_bytes(v) + r, p) == packet_fields(
            r,
            if t == 0x0d {
                MeshPacketV { from: v, ..p }
            } else {
                MeshPacketV { to: v, ..p }
            },
        ),
{
    let b = seq![t] + le32_bytes(v) + r;
    assert(b =~= seq![t] + (le32_bytes(v) + r));
    lemma_tag_then(t, le32_bytes(v) + r);
    lemma_le32_then(v, r);
    let tag = t as u64;
    assert((tag & 7u64) == 5u64 && ((tag >> 3u64) == 1u64 || (tag >> 3u64) == 2u64) && ((tag >> 3u64)
        == 1u64 <==> t == 0x0d)) by (bit_vector)
        requires
            tag == t as u64,
            t == 0x0d || t == 0x15,
    ;
    assert(b.skip(5) =~= r);
}

/// A varint field of a `MeshPacket`: channel (`0x18`), hop limit
/// (`0x30`), hop start (`0x38`) or the ack flag (`0x40`).
proof fn lemma_packet_varint(t: u8, v: u64, r: Seq<u8>, p: MeshPacketV)
    requires
        t == 0x18 || t == 0x30 || t == 0x38 || t == 0x40,
    ensures
        packet_fields(seq![t] + leb128_bytes(v) + r, p) == packet_fields(
            r,
            if t == 0x30 {
                MeshPacketV { hop_limit: v as u32, ..p }
            } else if t == 0x38 {
                MeshPacketV { hop_start: v as u32, ..p }
            } else {
                p
            },
        ),
{
    let b = seq![t] + leb128_bytes(v) + r;
    assert(b =~= seq![t] + (leb128_bytes(v) + r));
    lemma_tag_then(t, leb128_bytes(v) + r);
    lemma_leb128_then(v, r);
    let tag = t as u64;
    assert((tag & 7u64) == 0u64 && ((tag >> 3u64) == 6u64 <==> t == 0x30) && ((tag >> 3u64) == 7u64
        <==> t == 0x38)) by (bit_vector)
        requires
            tag == t as u64,
            t == 0x18 || t == 0x30 || t == 0x38 || t == 0x40,
    ;
    assert(b.skip(1 + leb128_bytes(v).len() as int) =~= r);
}

/// The `decoded` field (`0x42`) ending a `MeshPacket`.
proof fn lemma_packet_decoded(d: Seq<u8>, p: MeshPacketV)
    requires
        d.len() <= usize::MAX,
    ensures
        packet_fields(seq![0x42u8] + leb128_bytes(d.len() as u64) + d, p) == (MeshPacketV {
            decoded: Some(data_fields(d, empty_data())),
            ..p
        }),
{
    let b = seq![0x42u8] + leb128_bytes(d.len() as u64) + d;
    assert(b =~= seq![0x42u8] + (leb128_bytes(d.len() as u64) + d));
    lemma_tag_then(0x42u8, leb128_bytes(d.len() as u64) + d);
    lemma_leb128_then(d.len() as u64, d);
    assert((0x42u64 & 7u64) == 2u64 && (0x42u64 >> 3u64) == 8u64) by (bit_vector);
    let start: int = 1 + leb128_bytes(d.len() as u64).len() as int;
    assert(delim_len(d.len() as u64) == d.len());
    assert(b.len() == start + d.len());
    assert(b.subrange(start, start + d.len()) =~= d);
    assert(b.skip(start + d.len()) =~= Seq::<u8>::empty());
    assert(packet_fields(b.skip(start + d.len()), MeshPacketV { decoded: Some(data_fields(d, empty_data())), ..p })
        == MeshPacketV { decoded: Some(data_fields(d, empty_data())), ..p });
}

/// `Data { portnum: TEXT_MESSAGE_APP, payload }` decodes to its fields.
proof fn lemma_chat_data_fields(payload: Seq<u8>)
    requires
        payload.len() <= usize::MAX,
    ensures
        data_fields(chat_data_bytes(payload), empty_data()) == (DataV {
            portnum: TEXT_MESSAGE_APP,
            payload,
            dest: 0,
            source: 0,
        }),
{
    let lp = leb128_bytes(payload.len() as u64);
    let tail = seq![0x12u8] + lp + payload;
    let b = chat_data_bytes(payload);
    assert(b =~= seq![0x08u8] + (leb128_bytes(TEXT_MESSAGE_APP as u64) + tail));
    lemma_tag_then(0x08u8, leb128_bytes(TEXT_MESSAGE_APP as u64) + tail);
    lemma_leb128_then(TEXT_MESSAGE_APP as u64, tail);
    assert((0x08u64 & 7u64) == 0u64 && (0x08u64 >> 3u64) == 1u64) by (bit_vector);
    let d1 = DataV { portnum: TEXT_MESSAGE_APP, ..empty_data() };
    assert(b.skip(1 + leb128_bytes(TEXT_MESSAGE_APP as u64).len() as int) =~= tail);
    assert(data_fields(b, empty_data()) == data_fields(tail, d1));
    assert(tail =~= seq![0x12u8] + (lp + payload));
    lemma_tag_then(0x12u8, lp + payload);
    lemma_leb128_then(payload.len() as u64, payload);
    assert((0x12u64 & 7u64) == 2u64 && (0x12u64 >> 3u64) == 2u64) by (bit_vector);
    let start: int = 1 + lp.len() as int;
    assert(tail.subrange(start, start + payload.len()) =~= payload);
    assert(tail.skip(start + payload.len()) =~= Seq::<u8>::empty());
    assert(data_fields(tail, d1) == data_fields(Seq::<u8>::empty(), DataV { payload, ..d1 }));
}

/// The chat packet the encoder builds, decoded with the decoder's
/// `MeshPacket` reader, gives back every field it was built from.
#[verifier::spinoff_prover]
#[verifier::rlimit(50)]
pub proof fn lemma_chat_packet_round_trip(
    to: u32,
    payload: Seq<u8>,
    from: u32,
    hop_limit: u32,
    hop_start: u32,
    want_ack: bool,
    channel: u32,
)
    requires
        chat_packet_bytes(to, payload, from, hop_limit, hop_start, want_ack, channel).len() <= usize::MAX,
    ensures
        packet_fields(
            chat_packet_bytes(to, payload, from, hop_limit, hop_start, want_ack, channel),
            empty_packet(),
        ) == (MeshPacketV {
            from,
            to,
            hop_limit,
            hop_start,
            decoded: Some(DataV { portnum: TEXT_MESSAGE_APP, payload, dest: 0, source: 0 }),
            id: 0,
        }),
{
    let data = chat_data_bytes(payload);
    let tail_d = seq![0x42u8] + leb128_bytes(data.len() as u64) + data;
    let tail_a = (if want_ack {
        seq![0x40u8, 0x01u8]
    } else {
        Seq::empty()
    }) + tail_d;
    let tail_s = seq![0x38u8] + leb128_bytes(hop_start as u64) + tail_a;
    let tail_l = seq![0x30u8] + leb128_bytes(hop_limit as u64) + tail_s;
    let tail_c = (if channel != 0 {
        seq![0x18u8] + leb128_bytes(channel as u64)
    } else {
        Seq::empty()
    }) + tail_l;
    let tail_t = seq![0x15u8] + le32_bytes(to) + tail_c;
    let mp = chat_packet_bytes(to, payload, from, hop_limit, hop_start, want_ack, channel);
    assert(mp =~= seq![0x0du8] + le32_bytes(from) + tail_t);
    assert(data.len() <= usize::MAX && payload.len() <= usize::MAX) by {
        assert(tail_d.len() <= tail_a.len() <= tail_s.len() <= tail_l.len() <= tail_c.len()
            <= tail_t.len() <= mp.len());
    }
    let p1 = MeshPacketV { from, ..empty_packet() };
    let p2 = MeshPacketV { to, ..p1 };
    let p3 = MeshPacketV { hop_limit, ..p2 };
    let p4 = MeshPacketV { hop_start, ..p3 };
    lemma_packet_fixed32(0x0du8, from, tail_t, empty_packet());
    lemma_packet_fixed32(0x15u8, to, tail_c, p1);
    if channel != 0 {
        assert(tail_c =~= seq![0x18u8] + leb128_bytes(channel as u64) + tail_l);
        lemma_packet_varint(0x18u8, channel as u64, tail_l, p2);
    } else {
        assert(tail_c =~= tail_l);
    }
    lemma_packet_varint(0x30u8, hop_limit as u64, tail_s, p2);
    lemma_packet_varint(0x38u8, hop_start as u64, tail_a, p3);
    if want_ack {
        assert(leb128_bytes(1u64) == seq![0x01u8]);
        assert(tail_a =~= seq![0x40u8] + leb128_bytes(1u64) + tail_d);
        lemma_packet_varint(0x40u8, 1u64, tail_d, p4);
    } else {
        assert(tail_a =~= tail_d);
    }
    lemma_packet_decoded(data, p4);
    lemma_chat_data_fields(payload);
    assert(packet_fields(mp, empty_packet()) == packet_fields(tail_t, p1));
    assert(packet_fields(tail_t, p1) == packet_fields(tail_c, p2));
    assert(packet_fields(tail_c, p2) == packet_fields(tail_l, p2));
    assert(packet_fields(tail_l, p2) == packet_fields(tail_s, p3));
    assert(packet_fields(tail_s, p3) == packet_fields(tail_a, p4));
    assert(packet_fields(tail_a, p4) == packet_fields(tail_d, p4));
}

/// A varint field the reader does not model (say `want_ack`, field 10,
/// tag `0x50`) is skipped: what is read after it is read into the packet
/// as it stood before it.
pub proof fn lemma_unmodelled_varint_skipped(field: u64, v: u64, b: Seq<u8>, p: MeshPacketV)
    requires
        1 <= field < 16,
        field != 6,
        field != 7,
    ensures
        packet_fields(seq![(field * 8) as u8] + leb128_bytes(v) + b, p) == packet_fields(b, p),
{
    let t = (field * 8) as u8;
    let tag = t as u64;
    assert(t < 0x80 && (tag & 7u64) == 0u64 && (tag >> 3u64) == field) by (bit_vector)
        requires
            1 <= field < 16,
            t == (field * 8) as u8,
            tag == t as u64,
    ;
    let x = seq![t] + leb128_bytes(v) + b;
    assert(x =~= seq![t] + (leb128_bytes(v) + b));
    lemma_tag_then(t, leb128_bytes(v) + b);
    lemma_leb128_then(v, b);
    assert(x.skip(1 + leb128_bytes(v).len() as int) =~= b);
}

/// Length of the field at the front of `b` when the `MeshPacket` reader
/// reads it whole (see `packet_fields`); `None` where the reader stops.
pub open spec fn packet_field_len(b: Seq<u8>) -> Option<int> {
    match varint(b) {
        None => None,
        Some((tag, hl)) => {
            let field = tag >> 3u64;
            let wire = tag & 7u64;
            let rest = b.skip(hl as int);
            if wire == 5 && (field == 1 || field == 2) {
                if rest.len() < 4 {
                    None
                } else {
                    Some(hl + 4int)
                }
            } else if wire == 0 {
                match varint(rest) {
                    None => None,
                    Some((_v, len)) => Some((hl + len) as int),
                }
            } else if wire == 2 {
                match varint(rest) {
                    None => None,
                    Some((len, hdr)) => {
                        let start = (hl + hdr) as int;
                        let n = delim_len(len);
                        if n > b.len() - start {
                            None
                        } else {
                            Some(start + n)
                        }
                    },
                }
            } else {
                None
            }
        },
    }
}

/// `a` is a run of whole `MeshPacket` fields, each read to its end.
pub open spec fn whole_packet_fields(a: Seq<u8>) -> bool
    decreases a.len(),
{
    if a.len() == 0 {
        true
    } else {
        match packet_field_len(a) {
            None => false,
            Some(l) => 1 <= l <= a.len() && whole_packet_fields(a.skip(l)),
        }
    }
}

/// Reading whole fields and then more bytes is reading the more bytes
/// into the packet the whole fields made.
proof fn lemma_packet_fields_concat(a: Seq<u8>, r: Seq<u8>, p: MeshPacketV)
    requires
        whole_packet_fields(a),
    ensures
        packet_fields(a + r, p) == packet_fields(r, packet_fields(a, p)),
    decreases a.len(),
{
    if a.len() == 0 {
        assert(a + r =~= r);
    } else if r.len() == 0 {
        assert(a + r =~= a);
    } else {
        let ar = a + r;
        lemma_varint_dec_prefix(a, r, 10);
        lemma_varint_dec_len(a, 10);
        let (tag, hl) = varint(a).unwrap();
        let field = tag >> 3u64;
        let wire = tag & 7u64;
        let rest = a.skip(hl as int);
        assert(ar.skip(hl as int) =~= rest + r);
        lemma_varint_dec_prefix(rest, r, 10);
        lemma_varint_dec_len(rest, 10);
        let l = packet_field_len(a).unwrap();
        assert(ar.skip(l) =~= a.skip(l) + r);
        lemma_packet_fields_concat(a.skip(l), r, if wire == 5 && (field == 1 || field == 2) {
            let v = le32(rest);
            if field == 1 {
                MeshPacketV { from: v, ..p }
            } else {
                MeshPacketV { to: v, ..p }
            }
        } else if wire == 0 {
            let v = varint(rest).unwrap().0;
            if field == 6 {
                MeshPacketV { hop_limit: v as u32, ..p }
            } else if field == 7 {
                MeshPacketV { hop_start: v as u32, ..p }
            } else {
                p
            }
        } else {
            let (len, hdr) = varint(rest).unwrap();
            let start = (hl + hdr) as int;
            let n = delim_len(len);
            if field == 8 {
                MeshPacketV { decoded: Some(data_fields(a.subrange(start, start + n), empty_data())), ..p }
            } else {
                p
            }
        });
        if wire == 5 && (field == 1 || field == 2) {
            assert((rest + r)[0] == rest[0] && (rest + r)[1] == rest[1] && (rest + r)[2] == rest[2] && (
            rest + r)[3] == rest[3]);
        } else if wire == 2 {
            let (len, hdr) = varint(rest).unwrap();
            let start = (hl + hdr) as int;
            let n = delim_len(len);
            assert(ar.subrange(start, start + n) =~= a.subrange(start, start + n));
            if field != 8 && n >= a.len() - start {
                assert(a.skip(l).len() == 0);
                assert(a.skip(start + n) =~= Seq::<u8>::empty());
            }
        }
    }
}

/// A varint field the reader does not model, anywhere among whole fields,
/// is skipped: the packet read is the one read without it.
pub proof fn lemma_unmodelled_varint_skipped_between(
    a: Seq<u8>,
    field: u64,
    v: u64,
    b: Seq<u8>,
    p: MeshPacketV,
)
    requires
        whole_packet_fields(a),
        1 <= field < 16,
        field != 6,
        field != 7,
    ensures
        packet_fields(a + (seq![(field * 8) as u8] + leb128_bytes(v)) + b, p) == packet_fields(a + b, p),
{
    let f = seq![(field * 8) as u8] + leb128_bytes(v);
    assert(a + f + b =~= a + (f + b));
    lemma_packet_fields_concat(a, f + b, p);
    lemma_packet_fields_concat(a, b, p);
    assert(f + b =~= seq![(field * 8) as u8] + leb128_bytes(v) + b);
    lemma_unmodelled_varint_skipped(field, v, b, packet_fields(a, p));
}

/// A `FromRadio` stream holding one packet frame (tag `0x12`, the length,
/// the packet's bytes) reads as that one packet.
proof fn lemma_packet_frame(mp: Seq<u8>)
    requires
        mp.len() <= usize::MAX,
    ensures
        frames(seq![0x12u8] + leb128_bytes(mp.len() as u64) + mp) == seq![
            FromRadioV::Packet(packet_fields(mp, empty_packet())),
        ],
{
    let b = seq![0x12u8] + leb128_bytes(mp.len() as u64) + mp;
    assert(b =~= seq![0x12u8] + (leb128_bytes(mp.len() as u64) + mp));
    lemma_tag_then(0x12u8, leb128_bytes(mp.len() as u64) + mp);
    lemma_leb128_then(mp.len() as u64, mp);
    assert((0x12u64 & 7u64) == 2u64 && (0x12u64 >> 3u64) == 2u64) by (bit_vector);
    let start: int = 1 + leb128_bytes(mp.len() as u64).len() as int;
    assert(delim_len(mp.len() as u64) == mp.len());
    assert(b.len() == start + mp.len());
    assert(b.subrange(start, start + mp.len()) =~= mp);
    assert(b.skip(start + mp.len()) =~= Seq::<u8>::empty());
    assert(frames(b.skip(start + mp.len())) == Seq::<FromRadioV>::empty());
}

/// A packet frame in a `FromRadio` stream reads the same with or without
/// a varint field the reader does not model (say `want_ack`, field 10,
/// tag `0x50`) between whole fields.
pub proof fn lemma_unmodelled_varint_skipped_in_frame(a: Seq<u8>, field: u64, v: u64, b: Seq<u8>)
    requires
        whole_packet_fields(a),
        1 <= field < 16,
        field != 6,
        field != 7,
        (a + (seq![(field * 8) as u8] + leb128_bytes(v)) + b).len() <= usize::MAX,
    ensures
        ({
            let with = a + (seq![(field * 8) as u8] + leb128_bytes(v)) + b;
            let without = a + b;
            frames(seq![0x12u8] + leb128_bytes(with.len() as u64) + with) == frames(
                seq![0x12u8] + leb128_bytes(without.len() as u64) + without,
            )
        }),
{
    let with = a + (seq![(field * 8) as u8] + leb128_bytes(v)) + b;
    let without = a + b;
    lemma_packet_frame(with);
    lemma_packet_frame(without);
    lemma_unmodelled_varint_skipped_between(a, field, v, b, empty_packet());
}

/// A `ToRadio` packet frame the encoder builds, read back as a
/// `FromRadio` stream (its first byte, the `ToRadio.packet` tag `0x0a`,
/// replaced by the `FromRadio.packet` tag `0x12`), is that one packet,
/// with every field it was built from.
pub proof fn lemma_to_radio_frame_round_trip(
    to: u32,
    payload: Seq<u8>,
    from: u32,
    hop_limit: u32,
    hop_start: u32,
    want_ack: bool,
    channel: u32,
)
    requires
        to_radio_packet_bytes(
            chat_packet_bytes(to, payload, from, hop_limit, hop_start, want_ack, channel),
        ).len() <= usize::MAX,
    ensures
        frames(
            seq![0x12u8] + to_radio_packet_bytes(
                chat_packet_bytes(to, payload, from, hop_limit, hop_start, want_ack, channel),
            ).drop_first(),
        ) == seq![
            FromRadioV::Packet(
                MeshPacketV {
                    from,
                    to,
                    hop_limit,
                    hop_start,
                    decoded: Some(DataV { portnum: TEXT_MESSAGE_APP, payload, dest: 0, source: 0 }),
                    id: 0,
                },
            ),
        ],
{
    let mp = chat_packet_bytes(to, payload, from, hop_limit, hop_start, want_ack, channel);
    assert(seq![0x12u8] + to_radio_packet_bytes(mp).drop_first() =~= seq![0x12u8] + leb128_bytes(
        mp.len() as u64,
    ) + mp);
    lemma_chat_packet_round_trip(to, payload, from, hop_limit, hop_start, want_ack, channel);
    lemma_packet_frame(mp);
}

// ─── Decoder ────────────────────────────────────────────────────────────

/// The bytes of `buf` from `pos` on.
fn tail(buf: &[u8], pos: usize) -> (r: &[u8])
    requires
        pos <= buf@.len(),
    ensures
        r@ == buf@.skip(pos as int),
{
    let r = &buf[pos..buf.len()];
    assert(r@ =~= buf@.skip(pos as int));
    r
}

/// Little-endian `fixed32` at `pos`.
fn read_le32(buf: &[u8], pos: usize) -> (v: u32)
    requires
        buf@.len() >= 4,
        pos <= buf@.len() - 4,
    ensures
        v == le32(buf@.skip(pos as int)),
{
    let b0 = buf[pos] as u32;
    let b1 = buf[pos + 1] as u32;
    let b2 = buf[pos + 2] as u32;
    let b3 = buf[pos + 3] as u32;
    b0 + b1 * 256 + b2 * 65536 + b3 * 16777216
}

#[verifier::spinoff_prover]
fn parse_user(buf: &[u8]) -> (u: User)
    ensures
        u@ == user_fields(buf@, empty_user()),
{
    let mut u = User { id: String::new(), long_name: String::new(), short_name: String::new() };
    let mut cursor: usize = 0;
    assert(buf@.skip(0) =~= buf@);
    loop
        invariant
            cursor <= buf@.len(),
            user_fields(buf@, empty_user()) == user_fields(buf@.skip(cursor as int), u@),
        ensures
            user_fields(buf@, empty_user()) == u@,
        decreases buf@.len() - cursor,
    {
        let ghost b = buf@.skip(cursor as int);
        if cursor >= buf.len() {
            break;
        }
        let Some((tag, hl)) = read_varint(tail(buf, cursor)) else {
            break;
        };
        proof {
            lemma_varint_dec_len(b, 10);
        }
        let field = tag >> 3;
        let wire = tag & 0x7;
        let p = cursor + hl;
        assert(b.skip(hl as int) =~= buf@.skip(p as int));
        if wire == 0 {
            let Some((_v, len)) = read_varint(tail(buf, p)) else {
                break;
            };
            proof {
                lemma_varint_dec_len(buf@.skip(p as int), 10);
            }
            assert(b.skip((hl + len) as int) =~= buf@.skip((p + len) as int));
            cursor = p + len;
        } else if wire == 2 {
            let Some((len, hdr)) = read_varint(tail(buf, p)) else {
                break;
            };
            proof {
                lemma_varint_dec_len(buf@.skip(p as int), 10);
            }
            let start = p + hdr;
            let n = len as usize;
            if 1 <= field && field <= 3 {
                if n > buf.len() - start {
                    break;
                }
                let text = string_from_utf8_lossy(&buf[start..start + n]);
                assert(b.subrange((hl + hdr) as int, (hl + hdr) + n) =~= buf@.subrange(
                    start as int,
                    start + n,
                ));
                if field == 1 {
                    u.id = text;
                } else if field == 2 {
                    u.long_name = text;
                } else {
                    u.short_name = text;
                }
            } else if n >= buf.len() - start {
                break;
            }
            assert(b.skip((hl + hdr) + n) =~= buf@.skip(start + n));
            cursor = start + n;
        } else {
            break;
        }
    }
    u
}

#[verifier::spinoff_prover]
#[verifier::rlimit(100)]
fn parse_data(buf: &[u8]) -> (d: Data)
    ensures
        d@ == data_fields(buf@, empty_data()),
{
    let mut portnum: u32 = 0;
    let mut payload: Vec<u8> = Vec::new();
    let mut dest: u32 = 0;
    let mut source: u32 = 0;
    let mut cursor: usize = 0;
    assert(buf@.skip(0) =~= buf@);
    assert(payload@ =~= Seq::<u8>::empty());
    loop
        invariant
            cursor <= buf@.len(),
            data_fields(buf@, empty_data()) == data_fields(
                buf@.skip(cursor as int),
                DataV { portnum, payload: payload@, dest, source },
            ),
        ensures
            data_fields(buf@, empty_data()) == (DataV { portnum, payload: payload@, dest, source }),
        decreases buf@.len() - cursor,
    {
        let ghost b = buf@.skip(cursor as int);
        if cursor >= buf.len() {
            break;
        }
        let Some((tag, hl)) = read_varint(tail(buf, cursor)) else {
            break;
        };
        proof {
            lemma_varint_dec_len(b, 10);
        }
        let field = tag >> 3;
        let wire = tag & 0x7;
        let p = cursor + hl;
        assert(b.skip(hl as int) =~= buf@.skip(p as int));
        if wire == 0 {
            let Some((v, len)) = read_varint(tail(buf, p)) else {
                break;
            };
            proof {
                lemma_varint_dec_len(buf@.skip(p as int), 10);
            }
            if field == 1 {
                portnum = v as u32;
            }
            assert(b.skip((hl + len) as int) =~= buf@.skip((p + len) as int));
            cursor = p + len;
        } else if wire == 2 {
            let Some((len, hdr)) = read_varint(tail(buf, p)) else {
                break;
            };
            proof {
                lemma_varint_dec_len(buf@.skip(p as int), 10);
            }
            let start = p + hdr;
            let n = len as usize;
            if field == 2 {
                if n > buf.len() - start {
                    break;
                }
                payload = slice_to_vec(&buf[start..start + n]);
                assert(b.subrange((hl + hdr) as int, (hl + hdr) + n) =~= buf@.subrange(
                    start as int,
                    start + n,
                ));
            } else if n >= buf.len() - start {
                break;
            }
            assert(b.skip((hl + hdr) + n) =~= buf@.skip(start + n));
            cursor = start + n;
        } else if wire == 5 && (field == 4 || field == 5) {
            if buf.len() - p < 4 {
                break;
            }
            let v = read_le32(buf, p);
            if field == 4 {
                dest = v;
            } else {
                source = v;
            }
            assert(b.skip((hl + 4) as int) =~= buf@.skip((p + 4) as int));
            cursor = p + 4;
        } else {
            break;
        }
    }
    Data { portnum, payload, dest, source }
}

#[verifier::spinoff_prover]
#[verifier::rlimit(100)]
fn parse_mesh_packet(buf: &[u8]) -> (pkt: MeshPacket)
    ensures
        pkt@ == packet_fields(buf@, empty_packet()),
{
    let mut pkt = MeshPacket { from: 0, to: 0, hop_limit: 0, hop_start: 0, decoded: None, id: 0 };
    let mut cursor: usize = 0;
    assert(buf@.skip(0) =~= buf@);
    loop
        invariant
            cursor <= buf@.len(),
            packet_fields(buf@, empty_packet()) == packet_fields(buf@.skip(cursor as int), pkt@),
        ensures
            packet_fields(buf@, empty_packet()) == pkt@,
        decreases buf@.len() - cursor,
    {
        let ghost b = buf@.skip(cursor as int);
        if cursor >= buf.len() {
            break;
        }
        let Some((tag, hl)) = read_varint(tail(buf, cursor)) else {
            break;
        };
        proof {
            lemma_varint_dec_len(b, 10);
        }
        let field = tag >> 3;
        let wire = tag & 0x7;
        let p = cursor + hl;
        assert(b.skip(hl as int) =~= buf@.skip(p as int));
        if wire == 5 && (field == 1 || field == 2) {
            if buf.len() - p < 4 {
                break;
            }
            let v = read_le32(buf, p);
            if field == 1 {
                pkt.from = v;
            } else {
                pkt.to = v;
            }
            assert(b.skip((hl + 4) as int) =~= buf@.skip((p + 4) as int));
            cursor = p + 4;
        } else if wire == 0 {
            let Some((v, len)) = read_varint(tail(buf, p)) else {
                break;
            };
            proof {
                lemma_varint_dec_len(buf@.skip(p as int), 10);
            }
            if field == 6 {
                pkt.hop_limit = v as u32;
            } else if field == 7 {
                pkt.hop_start = v as u32;
            }
            assert(b.skip((hl + len) as int) =~= buf@.skip((p + len) as int));
            cursor = p + len;
        } else if wire == 2 {
            let Some((len, hdr)) = read_varint(tail(buf, p)) else {
                break;
            };
            proof {
                lemma_varint_dec_len(buf@.skip(p as int), 10);
            }
            let start = p + hdr;
            let n = len as usize;
            if field == 8 {
                if n > buf.len() - start {
                    break;
                }
                let d = parse_data(&buf[start..start + n]);
                assert(b.subrange((hl + hdr) as int, (hl + hdr) + n) =~= buf@.subrange(
                    start as int,
                    start + n,
                ));
                pkt.decoded = Some(d);
            } else if n >= buf.len() - start {
                break;
            }
            assert(b.skip((hl + hdr) + n) =~= buf@.skip(start + n));
            cursor = start + n;
        } else {
            break;
        }
    }
    pkt
}

#[verifier::spinoff_prover]
fn parse_node_info(buf: &[u8]) -> (ni: NodeInfo)
    ensures
        ni@ == node_info_fields(buf@, empty_node_info()),
{
    let mut ni = NodeInfo { num: 0, user: None, last_heard_secs: 0 };
    let mut cursor: usize = 0;
    assert(buf@.skip(0) =~= buf@);
    loop
        invariant
            cursor <= buf@.len(),
            node_info_fields(buf@, empty_node_info()) == node_info_fields(buf@.skip(cursor as int), ni@),
        ensures
            node_info_fields(buf@, empty_node_info()) == ni@,
        decreases buf@.len() - cursor,
    {
        let ghost b = buf@.skip(cursor as int);
        if cursor >= buf.len() {
            break;
        }
        let Some((tag, hl)) = read_varint(tail(buf, cursor)) else {
            break;
        };
        proof {
            lemma_varint_dec_len(b, 10);
        }
        let field = tag >> 3;
        let wire = tag & 0x7;
        let p = cursor + hl;
        assert(b.skip(hl as int) =~= buf@.skip(p as int));
        if wire == 0 {
            let Some((v, len)) = read_varint(tail(buf, p)) else {
                break;
            };
            proof {
                lemma_varint_dec_len(buf@.skip(p as int), 10);
            }
            if field == 1 {
                ni.num = v as u32;
            }
            assert(b.skip((hl + len) as int) =~= buf@.skip((p + len) as int));
            cursor = p + len;
        } else if wire == 2 {
            let Some((len, hdr)) = read_varint(tail(buf, p)) else {
                break;
            };
            proof {
                lemma_varint_dec_len(buf@.skip(p as int), 10);
            }
            let start = p + hdr;
            let n = len as usize;
            if field == 4 {
                if n > buf.len() - start {
                    break;
                }
                let u = parse_user(&buf[start..start + n]);
                assert(b.subrange((hl + hdr) as int, (hl + hdr) + n) =~= buf@.subrange(
                    start as int,
                    start + n,
                ));
                ni.user = Some(u);
            } else if n >= buf.len() - start {
                break;
            }
            assert(b.skip((hl + hdr) + n) =~= buf@.skip(start + n));
            cursor = start + n;
        } else if wire == 5 && field == 5 {
            if buf.len() - p < 4 {
                break;
            }
            ni.last_heard_secs = read_le32(buf, p);
            assert(b.skip((hl + 4) as int) =~= buf@.skip((p + 4) as int));
            cursor = p + 4;
        } else {
            break;
        }
    }
    ni
}

#[verifier::spinoff_prover]
fn parse_my_node_info(buf: &[u8]) -> (mi: MyNodeInfo)
    ensures
        mi@ == my_info_fields(buf@, empty_my_info()),
{
    let mut mi = MyNodeInfo { my_node_num: 0, user: None };
    let mut cursor: usize = 0;
    assert(buf@.skip(0) =~= buf@);
    loop
        invariant
            cursor <= buf@.len(),
            my_info_fields(buf@, empty_my_info()) == my_info_fields(buf@.skip(cursor as int), mi@),
        ensures
            my_info_fields(buf@, empty_my_info()) == mi@,
        decreases buf@.len() - cursor,
    {
        let ghost b = buf@.skip(cursor as int);
        if cursor >= buf.len() {
            break;
        }
        let Some((tag, hl)) = read_varint(tail(buf, cursor)) else {
            break;
        };
        proof {
            lemma_varint_dec_len(b, 10);
        }
        let field = tag >> 3;
        let wire = tag & 0x7;
        let p = cursor + hl;
        assert(b.skip(hl as int) =~= buf@.skip(p as int));
        if wire == 0 {
            let Some((v, len)) = read_varint(tail(buf, p)) else {
                break;
            };
            proof {
                lemma_varint_dec_len(buf@.skip(p as int), 10);
            }
            if field == 1 {
                mi.my_node_num = v as u32;
            }
            assert(b.skip((hl + len) as int) =~= buf@.skip((p + len) as int));
            cursor = p + len;
        } else if wire == 2 {
            let Some((len, hdr)) = read_varint(tail(buf, p)) else {
                break;
            };
            proof {
                lemma_varint_dec_len(buf@.skip(p as int), 10);
            }
            let start = p + hdr;
            let n = len as usize;
            if field == 4 {
                if n > buf.len() - start {
                    break;
                }
                let u = parse_user(&buf[start..start + n]);
                assert(b.subrange((hl + hdr) as int, (hl + hdr) + n) =~= buf@.subrange(
                    start as int,
                    start + n,
                ));
                mi.user = Some(u);
            } else if n >= buf.len() - start {
                break;
            }
            assert(b.skip((hl + hdr) + n) =~= buf@.skip(start + n));
            cursor = start + n;
        } else {
            break;
        }
    }
    mi
}

/// Decode the `FromRadio` frames laid back to back in a response body, in
/// order. A truncated frame ends the list; a root field of an unhandled
/// wire type yields `FromRadio::Unknown` and ends it.
#[verifier::spinoff_prover]
#[verifier::rlimit(100)]
pub fn parse_from_radio(buf: &[u8]) -> (out: Vec<FromRadio>)
    ensures
        frames_view(out@) == frames(buf@),
{
    let mut out: Vec<FromRadio> = Vec::new();
    let mut cursor: usize = 0;
    assert(buf@.skip(0) =~= buf@);
    assert(frames_view(out@) =~= Seq::<FromRadioV>::empty());
    loop
        invariant_except_break
            frames(buf@) == frames_view(out@) + frames(buf@.skip(cursor as int)),
        invariant
            cursor <= buf@.len(),
        ensures
            frames(buf@) == frames_view(out@),
        decreases buf@.len() - cursor,
    {
        let ghost b = buf@.skip(cursor as int);
        let ghost before = frames_view(out@);
        if cursor >= buf.len() {
            assert(before + frames(b) =~= before);
            break;
        }
        let Some((tag, hl)) = read_varint(tail(buf, cursor)) else {
            assert(before + frames(b) =~= before);
            break;
        };
        proof {
            lemma_varint_dec_len(b, 10);
        }
        let field = tag >> 3;
        let wire = tag & 0x7;
        let p = cursor + hl;
        assert(b.skip(hl as int) =~= buf@.skip(p as int));
        if wire == 0 {
            let Some((v, len)) = read_varint(tail(buf, p)) else {
                assert(before + frames(b) =~= before);
                break;
            };
            proof {
                lemma_varint_dec_len(buf@.skip(p as int), 10);
            }
            assert(b.skip((hl + len) as int) =~= buf@.skip((p + len) as int));
            if field == 1 {
                out.push(FromRadio::Id(v as u32));
            } else if field == 7 {
                out.push(FromRadio::ConfigComplete(v as u32));
            }
            assert(frames_view(out@) + frames(buf@.skip((p + len) as int)) =~= before + frames(b));
            cursor = p + len;
        } else if wire == 2 {
            let Some((len, hdr)) = read_varint(tail(buf, p)) else {
                assert(before + frames(b) =~= before);
                break;
            };
            proof {
                lemma_varint_dec_len(buf@.skip(p as int), 10);
            }
            let start = p + hdr;
            let n = len as usize;
            if n > buf.len() - start {
                assert(before + frames(b) =~= before);
                break;
            }
            let body = &buf[start..start + n];
            assert(b.subrange((hl + hdr) as int, (hl + hdr) + n) =~= body@);
            assert(b.skip((hl + hdr) + n) =~= buf@.skip(start + n));
            if field == 2 {
                out.push(FromRadio::Packet(parse_mesh_packet(body)));
            } else if field == 3 {
                out.push(FromRadio::MyInfo(parse_my_node_info(body)));
            } else if field == 4 {
                out.push(FromRadio::NodeInfo(parse_node_info(body)));
            }
            assert(frames_view(out@) + frames(buf@.skip(start + n)) =~= before + frames(b));
            cursor = start + n;
        } else {
            out.push(FromRadio::Unknown);
            assert(frames_view(out@) =~= before + frames(b));
            break;
        }
    }
    out
}

} // verus!
