use vstd::prelude::*;
use vstd::slice::slice_to_vec;
use vstd::string::StringExecFns;

verus! {

/// One bit step of the reflected CRC-16/MODBUS shift register
/// (polynomial 0xA001): shift right, and fold the polynomial in when the
/// bit shifted out was set.
pub open spec fn crc_bit_step(c: u16) -> u16 {
    if c & 1u16 == 0u16 {
        c >> 1u16
    } else {
        (c >> 1u16) ^ 0xA001u16
    }
}

/// `n` consecutive bit steps.
pub open spec fn crc_bit_steps(c: u16, n: nat) -> u16
    decreases n,
{
    if n == 0 {
        c
    } else {
        crc_bit_step(crc_bit_steps(c, (n - 1) as nat))
    }
}

/// Feeds one byte into the CRC register.
pub open spec fn crc_byte_step(c: u16, b: u8) -> u16 {
    crc_bit_steps(c ^ (b as u16), 8)
}

/// CRC-16/MODBUS of a byte sequence: initial value 0xFFFF, bytes fed in
/// order, no final complement.
pub open spec fn crc16(s: Seq<u8>) -> u16
    decreases s.len(),
{
    if s.len() == 0 {
        0xFFFFu16
    } else {
        crc_byte_step(crc16(s.drop_last()), s.last())
    }
}

/// Why a received frame was not recognised; each keeps the bytes received.
#[derive(Clone, Debug, PartialEq, Eq)]
pub enum ParseError {
    /// Fewer than four bytes were received.
    TooShort(Vec<u8>),
    /// The address and function code match no known message.
    IncorrectMsg(Vec<u8>),
}

/// std's `Debug` rendering of a byte slice, as `format!("{:?}", ..)` gives it.
pub uninterp spec fn debug_bytes(bytes: Seq<u8>) -> Seq<char>;

/// `format!("{:?}", bytes)`: the `Debug` text of a byte slice. Claimed: the
/// text is `debug_bytes` of the bytes, a function of the bytes alone.
#[verifier::external_body]
fn format_bytes(bytes: &[u8]) -> (r: String)
    ensures
        r@ == debug_bytes(bytes@),
{
    format!("{:?}", bytes)
}

/// The text that reports a parse error.
pub open spec fn parse_error_text(e: ParseError) -> Seq<char> {
    match e {
        ParseError::TooShort(bytes) => "Message "@ + debug_bytes(bytes@)
            + " len is less than 4. Message error."@,
        ParseError::IncorrectMsg(bytes) => "incorrect_msg: "@ + debug_bytes(bytes@),
    }
}

impl ParseError {
    /// The text that reports this error, with the bytes received.
    pub fn to_string(&self) -> (text: String)
        ensures
            text@ == parse_error_text(*self),
    {
        match self {
            ParseError::TooShort(bytes) => {
                let mut text = "Message ".to_owned();
                let shown = format_bytes(bytes.as_slice());
                text.append(shown.as_str());
                text.append(" len is less than 4. Message error.");
                text
            },
            ParseError::IncorrectMsg(bytes) => {
                let mut text = "incorrect_msg: ".to_owned();
                let shown = format_bytes(bytes.as_slice());
                text.append(shown.as_str());
                text
            },
        }
    }
}

/// The name of the message that starts with `addr` and `func`, if any.
pub open spec fn header_name(addr: u8, func: u8) -> Option<Seq<char>> {
    if addr == 0x11 && func == 0x03 {
        Some("battery_info_registers"@)
    } else if addr == 0x01 && func == 0x03 {
        Some("firmware_version"@)
    } else if addr == 0x01 && func == 0x06 {
        Some("hartbeat_response"@)
    } else if addr == 0x00 && func == 0x64 {
        Some("event_msg"@)
    } else {
        None
    }
}

/// Exactly four headers name a message: (0x11, 0x03) the battery information
/// registers, (0x01, 0x03) the firmware version, (0x01, 0x06) the heartbeat
/// response and (0x00, 0x64) an event; every other address and function code
/// (an exception reply such as (0x11, 0x83) among them) names none.
pub proof fn lemma_known_headers(addr: u8, func: u8)
    ensures
        header_name(addr, func) is Some <==> (addr == 0x11 && func == 0x03) || (addr == 0x01
            && func == 0x03) || (addr == 0x01 && func == 0x06) || (addr == 0x00 && func == 0x64),
        addr == 0x11 && func == 0x03 ==> header_name(addr, func) == Some("battery_info_registers"@),
        addr == 0x01 && func == 0x03 ==> header_name(addr, func) == Some("firmware_version"@),
        addr == 0x01 && func == 0x06 ==> header_name(addr, func) == Some("hartbeat_response"@),
        addr == 0x00 && func == 0x64 ==> header_name(addr, func) == Some("event_msg"@),
{
}

/// The eight bit steps of one byte, written out.
pub open spec fn crc_eight_steps(c: u16) -> u16 {
    crc_bit_step(crc_bit_step(crc_bit_step(crc_bit_step(
        crc_bit_step(crc_bit_step(crc_bit_step(crc_bit_step(c))))))))
}

proof fn lemma_eight_steps(c: u16)
    ensures
        crc_bit_steps(c, 8) == crc_eight_steps(c),
{
    reveal_with_fuel(crc_bit_steps, 9);
}

/// The six bytes of a request before its checksum: address, function code,
/// then the register offset and the register count, each high byte first.
pub open spec fn frame_header(d: Seq<u16>) -> Seq<u8> {
    seq![
        d[0] as u8,
        d[1] as u8,
        (d[2] / 256) as u8,
        (d[2] % 256) as u8,
        (d[3] / 256) as u8,
        (d[3] % 256) as u8,
    ]
}

/// A complete request frame: the header followed by its CRC, low byte first.
pub open spec fn frame(d: Seq<u16>) -> Seq<u8> {
    let h = frame_header(d);
    let c = crc16(h);
    h + seq![(c % 256) as u8, (c / 256) as u8]
}

/// Splits a 16-bit register value into its high and low bytes.
pub fn into_8_bit(val: u16) -> (r: (u8, u8))
    ensures
        r.0 == val / 256,
        r.1 == val % 256,
        r.0 * 256 + r.1 == val,
{
    let high = ((val & 0xFF00u16) >> 8u16) as u8;
    let low = (val & 0x00FFu16) as u8;
    assert(((val & 0xFF00u16) >> 8u16) as u8 == val / 256 && (val & 0x00FFu16) as u8 == val % 256)
        by (bit_vector);
    (high, low)
}

/// CRC-16/MODBUS checksum of `data`.
pub fn crc(data: &[u8]) -> (r: u16)
    ensures
        r == crc16(data@),
{
    let table: [u16; 2] = [0x0000, 0xA001];
    let mut crc: u16 = 0xFFFF;
    let mut xor: u16 = 0;
    let mut i: usize = 0;
    while i < data.len()
        invariant
            i <= data.len(),
            crc == crc16(data@.take(i as int)),
            table@ == seq![0x0000u16, 0xA001u16],
        decreases data.len() - i,
    {
        let el = data[i];
        proof {
            assert(data@.take(i + 1).drop_last() =~= data@.take(i as int));
        }
        crc ^= el as u16;
        let ghost start = crc;
        let mut k: u8 = 0;
        while k < 8
            invariant
                k <= 8,
                crc == crc_bit_steps(start, k as nat),
                table@ == seq![0x0000u16, 0xA001u16],
            decreases 8 - k,
        {
            xor = crc & 0x01;
            assert(crc & 0x01u16 < 2u16) by (bit_vector);
            let ghost before = crc;
            crc >>= 1;
            crc ^= table[xor as usize];
            assert(crc == crc_bit_step(before)) by {
                assert(xor == 0 || xor == 1) by (bit_vector)
                    requires
                        xor == before & 0x01u16,
                ;
                if xor == 0 {
                    assert(table@[0] == 0u16);
                    assert((before >> 1u16) ^ 0u16 == before >> 1u16) by (bit_vector);
                } else {
                    assert(table@[1] == 0xA001u16);
                }
            }
            k += 1;
        }
        i += 1;
    }
    proof {
        assert(data@.take(data.len() as int) =~= data@);
    }
    crc
}

/// Names the message received in `msg`, of which `len` bytes were read, by
/// its address and function code.
pub fn parse(msg: &[u8], len: usize) -> (r: Result<&'static str, ParseError>)
    requires
        len >= 4 ==> msg.len() >= 2,
    ensures
        match r {
            Ok(name) => len >= 4 && header_name(msg@[0], msg@[1]) == Some(name@),
            Err(ParseError::TooShort(bytes)) => len < 4 && bytes@ == msg@,
            Err(ParseError::IncorrectMsg(bytes)) => len >= 4 && header_name(msg@[0], msg@[1])
                is None && bytes@ == msg@,
        },
        len >= 4 && msg@[0] == 0x11 && msg@[1] == 0x03 ==> (r matches Ok(name) && name@
            == "battery_info_registers"@),
        len >= 4 && msg@[0] == 0x01 && msg@[1] == 0x03 ==> (r matches Ok(name) && name@
            == "firmware_version"@),
        len >= 4 && msg@[0] == 0x01 && msg@[1] == 0x06 ==> (r matches Ok(name) && name@
            == "hartbeat_response"@),
        len >= 4 && msg@[0] == 0x00 && msg@[1] == 0x64 ==> (r matches Ok(name) && name@
            == "event_msg"@),
        len >= 4 && !(msg@[0] == 0x11 && msg@[1] == 0x03) && !(msg@[0] == 0x01 && msg@[1] == 0x03)
            && !(msg@[0] == 0x01 && msg@[1] == 0x06) && !(msg@[0] == 0x00 && msg@[1] == 0x64)
            ==> (r matches Err(ParseError::IncorrectMsg(bytes)) && bytes@ == msg@),
{
    if len < 4 {
        return Err(ParseError::TooShort(slice_to_vec(msg)));
    }
    let addr = msg[0];
    let func = msg[1];
    if addr == 0x11 && func == 0x03 {
        Ok("battery_info_registers")
    } else if addr == 0x01 && func == 0x03 {
        Ok("firmware_version")
    } else if addr == 0x01 && func == 0x06 {
        Ok("hartbeat_response")
    } else if addr == 0x00 && func == 0x64 {
        Ok("event_msg")
    } else {
        Err(ParseError::IncorrectMsg(slice_to_vec(msg)))
    }
}

/// Builds the 8-byte request frame for `[address, function, offset, count]`.
/// Address and function code keep their low bytes.
pub fn new(data: &[u16]) -> (r: [u8; 8])
    requires
        data.len() >= 4,
    ensures
        r@ == frame(data@),
{
    let addr = data[0] as u8;
    let code = data[1] as u8;
    let (offset_h, offset_l) = into_8_bit(data[2] as u16);
    let (count_h, count_l) = into_8_bit(data[3] as u16);

    let msg = [addr, code, offset_h, offset_l, count_h, count_l];
    assert(msg@ =~= frame_header(data@));

    let (crc_h, crc_l) = into_8_bit(crc(&msg));

    let r = [addr, code, offset_h, offset_l, count_h, count_l, crc_l, crc_h];
    assert(r@ =~= frame(data@));
    r
}

/// The register after sixteen bit steps is zero when the first byte fed in
/// is the register's own low byte and the second its high byte.
proof fn lemma_residue_chain(
    c: u16,
    a1: u16, a2: u16, a3: u16, a4: u16, a5: u16, a6: u16, a7: u16, a8: u16,
    b1: u16, b2: u16, b3: u16, b4: u16, b5: u16, b6: u16, b7: u16, b8: u16,
) by (bit_vector)
    requires
        a1 == crc_bit_step(c ^ (c & 0xFFu16)),
        a2 == crc_bit_step(a1), a3 == crc_bit_step(a2), a4 == crc_bit_step(a3),
        a5 == crc_bit_step(a4), a6 == crc_bit_step(a5), a7 == crc_bit_step(a6),
        a8 == crc_bit_step(a7),
        b1 == crc_bit_step(a8 ^ (c >> 8u16)),
        b2 == crc_bit_step(b1), b3 == crc_bit_step(b2), b4 == crc_bit_step(b3),
        b5 == crc_bit_step(b4), b6 == crc_bit_step(b5), b7 == crc_bit_step(b6),
        b8 == crc_bit_step(b7),
    ensures
        b8 == 0u16,
{
}

/// Appending a CRC, low byte first, to any message drives the CRC register
/// of the whole to zero: a frame checks out against its own checksum.
pub proof fn lemma_crc_residue_zero(m: Seq<u8>)
    ensures
        crc16(m + seq![(crc16(m) % 256) as u8, (crc16(m) / 256) as u8]) == 0,
{
    let c = crc16(m);
    let lo = (c % 256) as u8;
    let hi = (c / 256) as u8;
    let m1 = m + seq![lo];
    let m2 = m + seq![lo, hi];
    assert(m2.drop_last() =~= m1);
    assert(m1.drop_last() =~= m);
    assert((c % 256) as u8 as u16 == c & 0xFFu16 && (c / 256) as u8 as u16 == c >> 8u16)
        by (bit_vector);
    let x = c ^ (lo as u16);
    lemma_eight_steps(x);
    let a1 = crc_bit_step(x);
    let a2 = crc_bit_step(a1);
    let a3 = crc_bit_step(a2);
    let a4 = crc_bit_step(a3);
    let a5 = crc_bit_step(a4);
    let a6 = crc_bit_step(a5);
    let a7 = crc_bit_step(a6);
    let a8 = crc_bit_step(a7);
    let y = a8 ^ (hi as u16);
    lemma_eight_steps(y);
    let b1 = crc_bit_step(y);
    let b2 = crc_bit_step(b1);
    let b3 = crc_bit_step(b2);
    let b4 = crc_bit_step(b3);
    let b5 = crc_bit_step(b4);
    let b6 = crc_bit_step(b5);
    let b7 = crc_bit_step(b6);
    let b8 = crc_bit_step(b7);
    lemma_residue_chain(c, a1, a2, a3, a4, a5, a6, a7, a8, b1, b2, b3, b4, b5, b6, b7, b8);
    assert(m1.last() == lo);
    assert(crc16(m1) == crc_byte_step(c, lo));
    assert(crc16(m1) == a8);
    assert(m2.last() == hi);
    assert(crc16(m2) == crc_byte_step(a8, hi));
    assert(crc16(m2) == b8);
}

/// Every frame built by `new` carries a valid CRC: the CRC of the whole
/// eight bytes is zero.
pub proof fn lemma_frame_checksum_valid(d: Seq<u16>)
    requires
        d.len() >= 4,
    ensures
        frame(d).len() == 8,
        crc16(frame(d)) == 0,
{
    lemma_crc_residue_zero(frame_header(d));
}

/// A frame built by `new` keeps its fields: the address and function code
/// (low bytes), and the offset and count registers, read high byte first.
pub proof fn lemma_frame_fields(d: Seq<u16>)
    requires
        d.len() >= 4,
    ensures
        frame(d)[0] == d[0] % 256,
        frame(d)[1] == d[1] % 256,
        frame(d)[2] * 256 + frame(d)[3] == d[2],
        frame(d)[4] * 256 + frame(d)[5] == d[3],
{
    assert(frame(d)[0] == d[0] as u8);
    assert(frame(d)[1] == d[1] as u8);
    let a = d[0];
    let b = d[1];
    assert(a as u8 == a % 256 && b as u8 == b % 256) by (bit_vector);
}

/// Two requests give the same frame exactly when they agree on the fields a
/// frame keeps: the low bytes of address and function code, and the offset
/// and count registers.
pub proof fn lemma_frames_equal_iff(d1: Seq<u16>, d2: Seq<u16>)
    requires
        d1.len() >= 4,
        d2.len() >= 4,
    ensures
        frame(d1) == frame(d2) <==> (d1[0] % 256 == d2[0] % 256 && d1[1] % 256 == d2[1] % 256
            && d1[2] == d2[2] && d1[3] == d2[3]),
{
    lemma_frame_fields(d1);
    lemma_frame_fields(d2);
    if d1[0] % 256 == d2[0] % 256 && d1[1] % 256 == d2[1] % 256 && d1[2] == d2[2] && d1[3]
        == d2[3] {
        let (a1, a2, b1, b2) = (d1[0], d2[0], d1[1], d2[1]);
        assert(a1 % 256 == a2 % 256 ==> a1 as u8 == a2 as u8) by (bit_vector);
        assert(b1 % 256 == b2 % 256 ==> b1 as u8 == b2 as u8) by (bit_vector);
        assert(frame_header(d1) =~= frame_header(d2));
    }
}

/// The register after folding each byte of `s` into 0xFFFF by exclusive or.
pub open spec fn xor_fold(s: Seq<u8>) -> u16
    decreases s.len(),
{
    if s.len() == 0 {
        0xFFFFu16
    } else {
        xor_fold(s.drop_last()) ^ (s.last() as u16)
    }
}

/// Folding a concatenation: the folds of the two parts, combined.
pub proof fn lemma_xor_fold_concat(a: Seq<u8>, b: Seq<u8>)
    ensures
        xor_fold(a + b) == xor_fold(a) ^ xor_fold(b) ^ 0xFFFFu16,
    decreases b.len(),
{
    let fa = xor_fold(a);
    if b.len() == 0 {
        assert(a + b =~= a);
        assert(fa ^ 0xFFFFu16 ^ 0xFFFFu16 == fa) by (bit_vector);
    } else {
        assert((a + b).drop_last() =~= a + b.drop_last());
        assert((a + b).last() == b.last());
        lemma_xor_fold_concat(a, b.drop_last());
        let fb1 = xor_fold(b.drop_last());
        let l = b.last() as u16;
        assert((fa ^ fb1 ^ 0xFFFFu16) ^ l == fa ^ (fb1 ^ l) ^ 0xFFFFu16) by (bit_vector);
    }
}

/// The exclusive-or fold ignores the order of the bytes: two sequences that
/// hold the same bytes, as many times each, fold to the same value.
pub proof fn lemma_xor_fold_order_free(s1: Seq<u8>, s2: Seq<u8>)
    requires
        s1.to_multiset() == s2.to_multiset(),
    ensures
        xor_fold(s1) == xor_fold(s2),
    decreases s1.len(),
{
    broadcast use vstd::multiset::group_multiset_axioms;

    vstd::seq_lib::to_multiset_len(s1);
    vstd::seq_lib::to_multiset_len(s2);
    if s1.len() == 0 {
        assert(s2.len() == 0);
        assert(s1 =~= s2);
    } else {
        let x = s1.last();
        let r1 = s1.drop_last();
        assert(r1.push(x) =~= s1);
        vstd::seq_lib::to_multiset_build(r1, x);
        assert(s2.to_multiset().count(x) > 0);
        vstd::seq_lib::to_multiset_contains(s2, x);
        let j = choose|j: int| 0 <= j < s2.len() && s2[j] == x;
        let r2 = s2.remove(j);
        vstd::seq_lib::to_multiset_remove(s2, j);
        assert(r2.to_multiset() =~= r1.to_multiset());
        lemma_xor_fold_order_free(r1, r2);
        let p = s2.take(j);
        let q = s2.skip(j + 1);
        assert(s2 =~= (p + seq![x]) + q);
        assert(r2 =~= p + q);
        lemma_xor_fold_concat(p + seq![x], q);
        lemma_xor_fold_concat(p, q);
        assert((p + seq![x]).drop_last() =~= p);
        let fp = xor_fold(p);
        let fq = xor_fold(q);
        let xx = x as u16;
        assert((fp ^ xx) ^ fq ^ 0xFFFFu16 == (fp ^ fq ^ 0xFFFFu16) ^ xx) by (bit_vector);
    }
}

/// A byte that appears twice in a row folds away.
pub proof fn lemma_xor_fold_pair(a: Seq<u8>, x: u8, b: Seq<u8>)
    ensures
        xor_fold(a + seq![x, x] + b) == xor_fold(a + b),
{
    let pair = seq![x, x];
    let xx = x as u16;
    assert((0xFFFFu16 ^ xx) ^ xx == 0xFFFFu16) by (bit_vector);
    let single = seq![x];
    assert(single.drop_last() == Seq::<u8>::empty());
    assert(single.last() == x);
    assert(xor_fold(Seq::<u8>::empty()) == 0xFFFFu16);
    assert(xor_fold(single) == 0xFFFFu16 ^ xx);
    assert(pair.drop_last() == single);
    assert(pair.last() == x);
    assert(xor_fold(pair) == 0xFFFFu16);
    lemma_xor_fold_concat(a, pair);
    lemma_xor_fold_concat(a + pair, b);
    lemma_xor_fold_concat(a, b);
    let fa = xor_fold(a);
    let fb = xor_fold(b);
    assert((fa ^ 0xFFFFu16 ^ 0xFFFFu16) ^ fb ^ 0xFFFFu16 == fa ^ fb ^ 0xFFFFu16) by (bit_vector);
}

/// An abandoned checksum attempt: its bit loop `8..0` never runs, so it only
/// folds the bytes into 0xFFFF by exclusive or, complemented when `rev` is 1.
fn _crc_not_works(data: &[u8], rev: u8) -> (r: u16)
    ensures
        r == (if rev == 1 { !xor_fold(data@) } else { xor_fold(data@) }),
{
    let mut crc: u16 = 0xFFFF;
    let mut i: usize = 0;
    while i < data.len()
        invariant
            i <= data.len(),
            crc == xor_fold(data@.take(i as int)),
        decreases data.len() - i,
    {
        proof {
            assert(data@.take(i + 1).drop_last() =~= data@.take(i as int));
        }
        crc ^= data[i] as u16;
        i += 1;
    }
    proof {
        assert(data@.take(data.len() as int) =~= data@);
    }
    if rev == 1 {
        return !crc;
    }
    crc
}

/// How many of a request's bytes the port accepted.
#[derive(Clone, Copy, Debug, PartialEq, Eq, Structural)]
pub enum SendOutcome {
    /// All of them.
    Complete,
    /// Fewer than the request holds.
    Short,
    /// More than the request holds.
    Excess,
}

/// Classifies a write of `written` bytes of a request of `msg_len` bytes.
pub fn send_outcome(written: usize, msg_len: usize) -> (r: SendOutcome)
    ensures
        r == SendOutcome::Complete <==> written == msg_len,
        r == SendOutcome::Short <==> written < msg_len,
        r == SendOutcome::Excess <==> written > msg_len,
{
    if written == msg_len {
        SendOutcome::Complete
    } else if written < msg_len {
        SendOutcome::Short
    } else {
        SendOutcome::Excess
    }
}

/// A frame built by `new` is recognised by `parse` exactly when its address
/// and function code name a known message: its eight bytes are enough, and
/// its header names what the request's address and function code name.
pub proof fn lemma_parse_of_frame(d: Seq<u16>)
    requires
        d.len() >= 4,
    ensures
        frame(d).len() == 8,
        header_name(frame(d)[0], frame(d)[1]) == header_name(d[0] as u8, d[1] as u8),
{
}

} // verus!
