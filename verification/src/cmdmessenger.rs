//! CmdMessenger framing of the stepper boards: a command is its id as an ASCII digit,
//! then its binary arguments (little endian), each escaped and preceded by ',', then ';'.
//! Two escape schemes are in use: the shared connection escapes ',' ';' and the digits
//! as `0x47, b ^ 0x20`; the stepper panel escapes '/' ',' ';' and NUL as `'/', b`.
//! A positions reply is `<id>,<escaped little-endian i16 per stepper>;`.

use vstd::prelude::*;

verus! {

/// Little-endian bytes of a 16-bit value.
pub open spec fn le16(v: i16) -> Seq<u8> {
    let u = v as u16;
    seq![(u % 256) as u8, (u / 256) as u8]
}

/// Little-endian bytes of a 32-bit value.
pub open spec fn le32(v: i32) -> Seq<u8> {
    let u = v as u32;
    seq![(u % 256) as u8, ((u / 256) % 256) as u8, ((u / 65536) % 256) as u8, (u / 16777216) as u8]
}

/// The signed 16-bit value of two little-endian bytes.
pub open spec fn i16_from_le(lo: u8, hi: u8) -> i16 {
    (lo as int + 256 * hi as int) as i16
}

/// The bytes of `v` in little-endian order.
pub fn pack_i16_le(v: i16) -> (r: Vec<u8>)
    ensures
        r@ == le16(v),
{
    let u = v as u16;
    let r = vec![(u % 256) as u8, (u / 256) as u8];
    assert(r@ =~= le16(v));
    r
}

/// The bytes of `v` in little-endian order.
pub fn pack_i32_le(v: i32) -> (r: Vec<u8>)
    ensures
        r@ == le32(v),
{
    let u = v as u32;
    let r = vec![(u % 256) as u8, ((u / 256) % 256) as u8, ((u / 65536) % 256) as u8, (u / 16777216) as u8];
    assert(r@ =~= le32(v));
    r
}

/// A byte the shared connection escapes: ',' ';' or a decimal digit.
pub open spec fn special_for_connection(b: u8) -> bool {
    b == 44u8 || b == 59u8 || (48u8 <= b && b <= 57u8)
}

/// A byte the stepper panel escapes: '/' ',' ';' or NUL.
pub open spec fn special_for_panel(b: u8) -> bool {
    b == 47u8 || b == 44u8 || b == 59u8 || b == 0u8
}

/// The shared connection's escape of one byte.
pub open spec fn escape_one_connection(b: u8) -> Seq<u8> {
    if special_for_connection(b) { seq![0x47u8, b ^ 0x20u8] } else { seq![b] }
}

/// The stepper panel's escape of one byte.
pub open spec fn escape_one_panel(b: u8) -> Seq<u8> {
    if special_for_panel(b) { seq![47u8, b] } else { seq![b] }
}

/// Escape of a byte string under one of the two schemes (`panel` selects the '/' scheme).
pub open spec fn escaped(bytes: Seq<u8>, panel: bool) -> Seq<u8>
    decreases bytes.len(),
{
    if bytes.len() == 0 {
        Seq::empty()
    } else {
        let b = bytes.last();
        escaped(bytes.drop_last(), panel) + if panel { escape_one_panel(b) } else { escape_one_connection(b) }
    }
}

/// Escapes `bytes`: with `panel`, '/' ',' ';' and NUL become `'/', b`; otherwise ',' ';'
/// and the digits become `0x47, b ^ 0x20`.
pub fn escape_bytes(bytes: &[u8], panel: bool) -> (r: Vec<u8>)
    ensures
        r@ == escaped(bytes@, panel),
{
    let mut out: Vec<u8> = Vec::new();
    let mut i: usize = 0;
    while i < bytes.len()
        invariant
            i <= bytes@.len(),
            out@ == escaped(bytes@.take(i as int), panel),
        decreases bytes@.len() - i,
    {
        let b = bytes[i];
        assert(bytes@.take(i + 1).drop_last() =~= bytes@.take(i as int));
        if panel {
            if b == 47u8 || b == 44u8 || b == 59u8 || b == 0u8 {
                out.push(47u8);
                out.push(b);
            } else {
                out.push(b);
            }
        } else {
            if b == 44u8 || b == 59u8 || (48u8 <= b && b <= 57u8) {
                out.push(0x47u8);
                out.push(b ^ 0x20u8);
            } else {
                out.push(b);
            }
        }
        i = i + 1;
    }
    assert(bytes@.take(i as int) =~= bytes@);
    out
}

/// The frame of a command with a 16-bit and a 32-bit argument.
pub open spec fn command_frame(cmd_id: u8, first: i16, second: i32, panel: bool) -> Seq<u8> {
    seq![(48 + cmd_id) as u8, 44u8] + escaped(le16(first), panel) + seq![44u8] + escaped(le32(second), panel) + seq![59u8]
}

/// Builds the frame `<'0' + cmd_id>,<first>,<second>;` with escaped binary arguments.
pub fn build_frame(cmd_id: u8, first: i16, second: i32, panel: bool) -> (r: Vec<u8>)
    requires
        cmd_id <= 207,
    ensures
        r@ == command_frame(cmd_id, first, second, panel),
{
    let mut buf: Vec<u8> = Vec::new();
    buf.push(48u8 + cmd_id);
    buf.push(44u8);
    let a = pack_i16_le(first);
    let mut ea = escape_bytes(a.as_slice(), panel);
    buf.append(&mut ea);
    buf.push(44u8);
    let b = pack_i32_le(second);
    let mut eb = escape_bytes(b.as_slice(), panel);
    buf.append(&mut eb);
    buf.push(59u8);
    assert(buf@ =~= command_frame(cmd_id, first, second, panel));
    buf
}

/// The data bytes of a reply, as the boards' replies are read: everything before the
/// first ',' is skipped; then ';' ends the data, '/' takes the next byte literally (and
/// ends the data when there is none), another ',' is skipped, any other byte is data.
pub open spec fn decode_scan(buf: Seq<u8>, i: int, seen_comma: bool) -> Seq<u8>
    decreases buf.len() - i,
{
    if i < 0 || i >= buf.len() {
        Seq::empty()
    } else if !seen_comma {
        decode_scan(buf, i + 1, buf[i] == 44u8)
    } else if buf[i] == 59u8 {
        Seq::empty()
    } else if buf[i] == 47u8 {
        if i + 1 < buf.len() { seq![buf[i + 1]] + decode_scan(buf, i + 2, true) } else { Seq::empty() }
    } else if buf[i] == 44u8 {
        decode_scan(buf, i + 1, true)
    } else {
        seq![buf[i]] + decode_scan(buf, i + 1, true)
    }
}

/// The data bytes of a reply.
pub open spec fn reply_data(buf: Seq<u8>) -> Seq<u8> {
    decode_scan(buf, 0, false)
}

/// Extracts the data bytes of a reply.
pub fn decode_reply(buf: &[u8]) -> (r: Vec<u8>)
    ensures
        r@ == reply_data(buf@),
{
    let mut data: Vec<u8> = Vec::new();
    let mut seen_comma = false;
    let mut i: usize = 0;
    while i < buf.len()
        invariant
            i <= buf@.len() + 1,
            reply_data(buf@) == data@ + decode_scan(buf@, i as int, seen_comma),
        decreases buf@.len() + 1 - i,
    {
        let b = buf[i];
        if !seen_comma {
            seen_comma = b == 44u8;
            i = i + 1;
        } else if b == 59u8 {
            assert(data@ + decode_scan(buf@, i as int, seen_comma) =~= data@);
            return data;
        } else if b == 47u8 {
            if i + 1 < buf.len() {
                let n = buf[i + 1];
                assert(data@ + decode_scan(buf@, i as int, seen_comma) =~= data@.push(n) + decode_scan(buf@, i + 2, true));
                data.push(n);
                i = i + 2;
            } else {
                assert(data@ + decode_scan(buf@, i as int, seen_comma) =~= data@);
                return data;
            }
        } else if b == 44u8 {
            i = i + 1;
        } else {
            assert(data@ + decode_scan(buf@, i as int, seen_comma) =~= data@.push(b) + decode_scan(buf@, i + 1, true));
            data.push(b);
            i = i + 1;
        }
    }
    assert(data@ + decode_scan(buf@, i as int, seen_comma) =~= data@);
    data
}

/// Stepper `k`'s position in the data bytes: the little-endian `i16` at bytes `2k, 2k+1`,
/// or 0 when the data ends before.
pub open spec fn position_in(data: Seq<u8>, k: int) -> i32 {
    if 2 * k + 1 < data.len() { i16_from_le(data[2 * k], data[2 * k + 1]) as i32 } else { 0 }
}

/// The positions of `num` steppers in the data bytes.
pub open spec fn positions_in(data: Seq<u8>, num: nat) -> Seq<i32> {
    Seq::new(num, |k: int| position_in(data, k))
}

/// The positions of `num` steppers in the data bytes (0 where the data ends before).
pub fn positions_from_data(data: &[u8], num: usize) -> (r: Vec<i32>)
    ensures
        r@ == positions_in(data@, num as nat),
{
    let mut out: Vec<i32> = Vec::new();
    let mut k: usize = 0;
    while k < num
        invariant
            k <= num,
            out@ == Seq::new(k as nat, |j: int| position_in(data@, j)),
        decreases num - k,
    {
        let v: i32 = if k < data.len() / 2 && 2 * k + 1 < data.len() {
            let lo = data[2 * k];
            let hi = data[2 * k + 1];
            let w = (lo as u16 + 256 * (hi as u16)) as i16;
            w as i32
        } else {
            0
        };
        proof {
            if !(k < data@.len() / 2 && 2 * k + 1 < data@.len()) {
                assert(!(2 * k + 1 < data@.len()));
            }
        }
        out.push(v);
        k = k + 1;
        assert(out@ =~= Seq::new(k as nat, |j: int| position_in(data@, j)));
    }
    out
}

/// Why a positions reply could not be read.
#[derive(Clone, Copy, Debug, PartialEq, Eq, Structural)]
pub enum PositionsError {
    /// Nothing ending in ';' arrived.
    NoReply,
    /// The reply held fewer data bytes than two per stepper.
    TooShort { expected: usize, got: usize },
}

/// Whether a received buffer is a complete reply: not empty and holding a ';'.
pub open spec fn complete_reply(buf: Seq<u8>) -> bool {
    buf.len() > 0 && buf.contains(59u8)
}

/// Whether the buffer holds a ';'.
pub fn has_terminator(buf: &[u8]) -> (r: bool)
    ensures
        r == buf@.contains(59u8),
{
    let mut i: usize = 0;
    while i < buf.len()
        invariant
            i <= buf@.len(),
            forall|j: int| 0 <= j < i ==> buf@[j] != 59u8,
        decreases buf@.len() - i,
    {
        if buf[i] == 59u8 {
            return true;
        }
        i = i + 1;
    }
    false
}

/// Reads the positions of `num` steppers from a reply: the reply must be complete and
/// hold at least two data bytes per stepper.
pub fn read_positions_reply(buf: &[u8], num: usize) -> (r: Result<Vec<i32>, PositionsError>)
    requires
        num <= usize::MAX / 2,
    ensures
        !complete_reply(buf@) ==> r == Err::<Vec<i32>, PositionsError>(PositionsError::NoReply),
        complete_reply(buf@) && reply_data(buf@).len() < 2 * num ==>
            r == Err::<Vec<i32>, PositionsError>(PositionsError::TooShort { expected: (2 * num) as usize, got: reply_data(buf@).len() as usize }),
        complete_reply(buf@) && reply_data(buf@).len() >= 2 * num ==>
            (r matches Ok(p) && p@ == positions_in(reply_data(buf@), num as nat)),
{
    if buf.len() == 0 || !has_terminator(buf) {
        return Err(PositionsError::NoReply);
    }
    let data = decode_reply(buf);
    let expected = num * 2;
    if data.len() < expected {
        return Err(PositionsError::TooShort { expected, got: data.len() });
    }
    Ok(positions_from_data(data.as_slice(), num))
}

/// Escaping distributes over concatenation.
pub proof fn lemma_escaped_append(a: Seq<u8>, b: Seq<u8>, panel: bool)
    ensures
        escaped(a + b, panel) == escaped(a, panel) + escaped(b, panel),
    decreases b.len(),
{
    if b.len() == 0 {
        assert(a + b =~= a);
        assert(escaped(a, panel) + escaped(b, panel) =~= escaped(a, panel));
    } else {
        lemma_escaped_append(a, b.drop_last(), panel);
        assert((a + b).drop_last() =~= a + b.drop_last());
        assert((a + b).last() == b.last());
        assert(escaped(a + b, panel) =~= escaped(a, panel) + escaped(b, panel));
    }
}

/// Escaping a byte string is escaping its first byte, then the rest.
pub proof fn lemma_escaped_first(d: Seq<u8>, panel: bool)
    requires
        d.len() > 0,
    ensures
        escaped(d, panel) == (if panel { escape_one_panel(d[0]) } else { escape_one_connection(d[0]) }) + escaped(d.drop_first(), panel),
{
    lemma_escaped_append(seq![d[0]], d.drop_first(), panel);
    assert(seq![d[0]] + d.drop_first() =~= d);
    assert(seq![d[0]].drop_last() =~= Seq::<u8>::empty());
    assert(seq![d[0]].last() == d[0]);
    assert(escaped(Seq::<u8>::empty(), panel) =~= Seq::<u8>::empty());
    assert(escaped(seq![d[0]], panel) == escaped(seq![d[0]].drop_last(), panel) + (if panel { escape_one_panel(d[0]) } else { escape_one_connection(d[0]) }));
    assert(escaped(seq![d[0]], panel) =~= (if panel { escape_one_panel(d[0]) } else { escape_one_connection(d[0]) }));
}

/// Reading '/'-escaped data up to the terminating ';' gives the data back.
pub proof fn lemma_decode_escaped(buf: Seq<u8>, i: int, d: Seq<u8>)
    requires
        0 <= i,
        i + escaped(d, true).len() < buf.len(),
        buf.subrange(i, i + escaped(d, true).len()) == escaped(d, true),
        buf[i + escaped(d, true).len()] == 59u8,
    ensures
        decode_scan(buf, i, true) == d,
    decreases d.len(),
{
    if d.len() == 0 {
        assert(escaped(d, true).len() == 0);
    } else {
        lemma_escaped_first(d, true);
        let e = escaped(d, true);
        let head = escape_one_panel(d[0]);
        let rest = escaped(d.drop_first(), true);
        assert(e == head + rest);
        let n = head.len() as int;
        assert(buf[i] == e[0]);
        assert(buf.subrange(i + n, i + n + rest.len()) =~= rest) by {
            assert forall|j: int| 0 <= j < rest.len() implies buf.subrange(i + n, i + n + rest.len())[j] == rest[j] by {
                assert(buf.subrange(i, i + e.len())[n + j] == e[n + j]);
            }
        }
        if special_for_panel(d[0]) {
            assert(buf[i + 1] == e[1]);
            lemma_decode_escaped(buf, i + 2, d.drop_first());
            assert(decode_scan(buf, i, true) =~= seq![d[0]] + d.drop_first());
        } else {
            lemma_decode_escaped(buf, i + 1, d.drop_first());
            assert(decode_scan(buf, i, true) =~= seq![d[0]] + d.drop_first());
        }
        assert(seq![d[0]] + d.drop_first() =~= d);
    }
}

/// A reply `<h>,<'/'-escaped data>;` reads back as the data, whatever its head byte.
pub proof fn lemma_reply_roundtrip(h: u8, data: Seq<u8>)
    ensures
        reply_data(seq![h, 44u8] + escaped(data, true) + seq![59u8]) == data,
{
    let buf = seq![h, 44u8] + escaped(data, true) + seq![59u8];
    let e = escaped(data, true);
    assert(buf.subrange(2, 2 + e.len() as int) =~= e);
    assert(buf[2 + e.len() as int] == 59u8);
    lemma_decode_escaped(buf, 2, data);
    assert(decode_scan(buf, 1, h == 44u8) == decode_scan(buf, 2, true));
}

/// The little-endian bytes of the positions, two per stepper.
pub open spec fn encode_positions(p: Seq<i16>) -> Seq<u8>
    decreases p.len(),
{
    if p.len() == 0 { Seq::empty() } else { encode_positions(p.drop_last()) + le16(p.last()) }
}

/// Two little-endian bytes give back the 16-bit value they came from.
pub proof fn lemma_le16_roundtrip(v: i16)
    ensures
        i16_from_le(le16(v)[0], le16(v)[1]) == v,
{
    let u = v as u16;
    assert(((u % 256) as u8) as int + 256 * ((u / 256) as u8) as int == u as int);
    assert((v as u16) as i16 == v) by (bit_vector);
}

proof fn lemma_encode_positions_at(p: Seq<i16>, k: int)
    requires
        0 <= k < p.len(),
    ensures
        encode_positions(p).len() == 2 * p.len(),
        encode_positions(p)[2 * k] == le16(p[k])[0],
        encode_positions(p)[2 * k + 1] == le16(p[k])[1],
    decreases p.len(),
{
    if k < p.len() - 1 {
        lemma_encode_positions_at(p.drop_last(), k);
    } else {
        lemma_encode_positions_len(p.drop_last());
    }
}

proof fn lemma_encode_positions_len(p: Seq<i16>)
    ensures
        encode_positions(p).len() == 2 * p.len(),
    decreases p.len(),
{
    if p.len() > 0 {
        lemma_encode_positions_len(p.drop_last());
    }
}

/// A positions reply written by a board for positions `p` is read back as `p`: the
/// reader, asked for `p.len()` steppers, returns exactly those positions.
pub proof fn lemma_positions_roundtrip(h: u8, p: Seq<i16>)
    ensures
        reply_data(seq![h, 44u8] + escaped(encode_positions(p), true) + seq![59u8]).len() >= 2 * p.len(),
        positions_in(reply_data(seq![h, 44u8] + escaped(encode_positions(p), true) + seq![59u8]), p.len())
            == Seq::new(p.len(), |k: int| p[k] as i32),
        complete_reply(seq![h, 44u8] + escaped(encode_positions(p), true) + seq![59u8]),
{
    let buf = seq![h, 44u8] + escaped(encode_positions(p), true) + seq![59u8];
    lemma_reply_roundtrip(h, encode_positions(p));
    lemma_encode_positions_len(p);
    assert forall|k: int| 0 <= k < p.len() implies position_in(encode_positions(p), k) == p[k] as i32 by {
        lemma_encode_positions_at(p, k);
        lemma_le16_roundtrip(p[k]);
    }
    assert(positions_in(encode_positions(p), p.len()) =~= Seq::new(p.len(), |k: int| p[k] as i32));
    assert(buf[buf.len() - 1] == 59u8);
}

} // verus!
