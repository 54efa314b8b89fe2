//! The canonical encoding of a reading: the bytes that are signed and hashed.
//!
//! It is a JSON object with the keys `meter_id`, `timestamp`, `kwh_delta` and
//! `nonce`, in that order, without whitespace. Strings are escaped as compact
//! JSON encoders do: the quote and the backslash by a backslash, the control
//! characters below U+0020 by their short form or by `\u00xx`, and nothing
//! else. The timestamp is a decimal integer. The energy is a decimal number in
//! kilowatt-hours in fixed notation with the fewest digits that still show a
//! fraction: `1.0`, `1.234`, `0.000001`.

use vstd::prelude::*;
use vstd::utf8::encode_utf8;
use crate::models::{MeterRecord, MeterRecordView};
use crate::numtext::{decimal, decimal_string, kwh_string, kwh_text};

verus! {

/// The ASCII digit for a value below ten.
pub open spec fn digit(n: int) -> u8 {
    (0x30 + n) as u8
}

/// What stands for one byte of a string inside a JSON string.
pub open spec fn escape_byte(b: u8) -> Seq<u8> {
    if b == 0x22 {
        seq![0x5cu8, 0x22u8]
    } else if b == 0x5c {
        seq![0x5cu8, 0x5cu8]
    } else if b == 0x08 {
        seq![0x5cu8, 0x62u8]
    } else if b == 0x09 {
        seq![0x5cu8, 0x74u8]
    } else if b == 0x0a {
        seq![0x5cu8, 0x6eu8]
    } else if b == 0x0c {
        seq![0x5cu8, 0x66u8]
    } else if b == 0x0d {
        seq![0x5cu8, 0x72u8]
    } else if b < 0x20 {
        seq![0x5cu8, 0x75u8, 0x30u8, 0x30u8, digit(b as int / 16), hex_low(b as int % 16)]
    } else {
        seq![b]
    }
}

/// The lower-case hexadecimal digit, as a byte, for a value below 16.
pub open spec fn hex_low(n: int) -> u8 {
    if n < 10 {
        (0x30 + n) as u8
    } else {
        (0x61 + n - 10) as u8
    }
}

/// The bytes of a string with each one escaped.
pub open spec fn escaped(bytes: Seq<u8>) -> Seq<u8>
    decreases bytes.len(),
{
    if bytes.len() == 0 {
        seq![]
    } else {
        escaped(bytes.drop_last()) + escape_byte(bytes.last())
    }
}

/// A string as a JSON string: quoted and escaped.
pub open spec fn json_string(text: Seq<char>) -> Seq<u8> {
    seq![0x22u8] + escaped(encode_utf8(text)) + seq![0x22u8]
}

/// The canonical encoding of a reading.
pub open spec fn canonical_bytes(record: MeterRecordView) -> Seq<u8> {
    encode_utf8("{\"meter_id\":"@) + json_string(record.meter_id) + encode_utf8(",\"timestamp\":"@) + encode_utf8(
        decimal(record.timestamp as int),
    ) + encode_utf8(",\"kwh_delta\":"@) + encode_utf8(kwh_text(record.kwh_delta as int)) + encode_utf8(",\"nonce\":"@) + json_string(
        record.nonce,
    ) + encode_utf8("}"@)
}

/// Appends the bytes of `text`.
fn push_text(out: &mut Vec<u8>, text: &str)
    ensures
        final(out)@ == old(out)@ + encode_utf8(text@),
{
    out.extend_from_slice(text.as_bytes());
}

/// Appends what stands for `b` inside a JSON string.
fn push_escaped_byte(out: &mut Vec<u8>, b: u8)
    ensures
        final(out)@ == old(out)@ + escape_byte(b),
{
    if b == 0x22 || b == 0x5c {
        out.push(0x5c);
        out.push(b);
    } else if b == 0x08 {
        out.push(0x5c);
        out.push(0x62);
    } else if b == 0x09 {
        out.push(0x5c);
        out.push(0x74);
    } else if b == 0x0a {
        out.push(0x5c);
        out.push(0x6e);
    } else if b == 0x0c {
        out.push(0x5c);
        out.push(0x66);
    } else if b == 0x0d {
        out.push(0x5c);
        out.push(0x72);
    } else if b < 0x20 {
        let low: u8 = b % 16;
        out.push(0x5c);
        out.push(0x75);
        out.push(0x30);
        out.push(0x30);
        out.push(0x30 + b / 16);
        out.push(if low < 10 { 0x30 + low } else { 0x61 + low - 10 });
    } else {
        out.push(b);
    }
    proof {
        assert(final(out)@ =~= old(out)@ + escape_byte(b));
    }
}

/// Appends `text` as a JSON string.
fn push_json_string(out: &mut Vec<u8>, text: &str)
    ensures
        final(out)@ == old(out)@ + json_string(text@),
{
    let bytes = text.as_bytes();
    out.push(0x22);
    let mut i: usize = 0;
    proof {
        assert(bytes@.take(0) =~= Seq::<u8>::empty());
        assert(out@ =~= old(out)@ + seq![0x22u8] + escaped(bytes@.take(0)));
    }
    while i < bytes.len()
        invariant
            i <= bytes.len(),
            out@ == old(out)@ + seq![0x22u8] + escaped(bytes@.take(i as int)),
        decreases bytes.len() - i,
    {
        push_escaped_byte(out, bytes[i]);
        proof {
            let before = bytes@.take(i as int);
            let after = bytes@.take(i + 1);
            assert(after.drop_last() =~= before);
            assert(after.last() == bytes@[i as int]);
            assert(out@ =~= old(out)@ + seq![0x22u8] + escaped(after));
        }
        i += 1;
    }
    out.push(0x22);
    proof {
        assert(bytes@.take(i as int) =~= bytes@);
        assert(final(out)@ =~= old(out)@ + json_string(text@));
    }
}

/// The canonical encoding of `record`.
pub fn canonical_encoding(record: &MeterRecord) -> (out: Vec<u8>)
    ensures
        out@ == canonical_bytes(record@),
{
    let mut out: Vec<u8> = Vec::new();
    push_text(&mut out, "{\"meter_id\":");
    push_json_string(&mut out, record.meter_id.as_str());
    push_text(&mut out, ",\"timestamp\":");
    push_text(&mut out, decimal_string(record.timestamp as i128).as_str());
    push_text(&mut out, ",\"kwh_delta\":");
    push_text(&mut out, kwh_string(record.kwh_delta as i128).as_str());
    push_text(&mut out, ",\"nonce\":");
    push_json_string(&mut out, record.nonce.as_str());
    push_text(&mut out, "}");
    proof {
        assert(out@ =~= canonical_bytes(record@));
    }
    out
}

} // verus!
