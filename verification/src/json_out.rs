//! The error-retrieval output surface: the diagnostics of the most recent
//! failure rendered as one JSON object, `{"message": str}` with an optional
//! `"backtrace"` member in front of it.
//!
//! When backtrace capture is off the member is absent altogether, never an
//! empty string. Text crosses the boundary as UTF-8 bytes; the quote, the
//! backslash and every control byte are escaped, so the payload never
//! closes its string early.

use vstd::prelude::*;
use crate::error_context::ErrorRecordView;

verus! {

/// The lower-case hexadecimal digit for `n` (0 to 15).
pub open spec fn hex_digit(n: u8) -> u8 {
    if n < 10 {
        (48 + n) as u8
    } else {
        (87 + n) as u8
    }
}

/// How one byte of text appears inside a JSON string: quote and backslash
/// get a backslash escape, the common control bytes their short escapes,
/// any other control byte the `\u00..` form, and everything else stands
/// as it is.
pub open spec fn escape_byte(b: u8) -> Seq<u8> {
    if b == 34 {
        seq![92u8, 34u8]
    } else if b == 92 {
        seq![92u8, 92u8]
    } else if b == 10 {
        seq![92u8, 110u8]
    } else if b == 13 {
        seq![92u8, 114u8]
    } else if b == 9 {
        seq![92u8, 116u8]
    } else if b < 32 {
        seq![92u8, 117u8, 48u8, 48u8, hex_digit(b / 16), hex_digit(b % 16)]
    } else {
        seq![b]
    }
}

/// A whole text, escaped byte for byte.
pub open spec fn escape_bytes(s: Seq<u8>) -> Seq<u8>
    decreases s.len(),
{
    if s.len() == 0 {
        Seq::empty()
    } else {
        escape_bytes(s.drop_last()) + escape_byte(s.last())
    }
}

/// `{"backtrace":"` — the opening up to the backtrace text.
pub open spec fn lit_backtrace_open() -> Seq<u8> {
    seq![
        123u8, 34u8, 98u8, 97u8, 99u8, 107u8, 116u8, 114u8, 97u8, 99u8, 101u8, 34u8, 58u8, 34u8,
    ]
}

/// `","message":"` — between the backtrace text and the message text.
pub open spec fn lit_message_mid() -> Seq<u8> {
    seq![34u8, 44u8, 34u8, 109u8, 101u8, 115u8, 115u8, 97u8, 103u8, 101u8, 34u8, 58u8, 34u8]
}

/// `{"message":"` — the opening when no backtrace is present.
pub open spec fn lit_message_open() -> Seq<u8> {
    seq![123u8, 34u8, 109u8, 101u8, 115u8, 115u8, 97u8, 103u8, 101u8, 34u8, 58u8, 34u8]
}

/// `"}` — the closing.
pub open spec fn lit_close() -> Seq<u8> {
    seq![34u8, 125u8]
}

/// The exact payload returned for a record: the backtrace member appears
/// if and only if the record holds a backtrace.
pub open spec fn record_json(r: ErrorRecordView) -> Seq<u8> {
    match r.backtrace {
        Some(bt) => lit_backtrace_open() + escape_bytes(bt) + lit_message_mid() + escape_bytes(
            r.message,
        ) + lit_close(),
        None => lit_message_open() + escape_bytes(r.message) + lit_close(),
    }
}

/// Append `s`, escaped, to `out`.
fn push_escaped(out: &mut Vec<u8>, s: &[u8])
    ensures
        final(out)@ == old(out)@ + escape_bytes(s@),
{
    let ghost base = out@;
    let mut k: usize = 0;
    while k < s.len()
        invariant
            k <= s@.len(),
            out@ == base + escape_bytes(s@.take(k as int)),
        decreases s@.len() - k,
    {
        let b = s[k];
        proof {
            assert(s@.take(k + 1).drop_last() =~= s@.take(k as int));
            assert(s@.take(k + 1).last() == s@[k as int]);
        }
        if b == 34 {
            out.push(92);
            out.push(34);
        } else if b == 92 {
            out.push(92);
            out.push(92);
        } else if b == 10 {
            out.push(92);
            out.push(110);
        } else if b == 13 {
            out.push(92);
            out.push(114);
        } else if b == 9 {
            out.push(92);
            out.push(116);
        } else if b < 32 {
            out.push(92);
            out.push(117);
            out.push(48);
            out.push(48);
            let hi = b / 16;
            let lo = b % 16;
            out.push(if hi < 10 { 48 + hi } else { 87 + hi });
            out.push(if lo < 10 { 48 + lo } else { 87 + lo });
        } else {
            out.push(b);
        }
        proof {
            assert(out@ =~= base + escape_bytes(s@.take(k + 1)));
        }
        k = k + 1;
    }
    proof {
        assert(s@.take(s@.len() as int) =~= s@);
    }
}

/// Render a record as its boundary payload.
pub fn render_record_json(message: &[u8], backtrace: Option<&[u8]>) -> (r: Vec<u8>)
    ensures
        r@ == record_json(
            ErrorRecordView {
                message: message@,
                backtrace: match backtrace {
                    Some(bt) => Some(bt@),
                    None => None,
                },
            },
        ),
{
    let mut out: Vec<u8> = Vec::new();
    match backtrace {
        Some(bt) => {
            out.push(123);
            out.push(34);
            out.push(98);
            out.push(97);
            out.push(99);
            out.push(107);
            out.push(116);
            out.push(114);
            out.push(97);
            out.push(99);
            out.push(101);
            out.push(34);
            out.push(58);
            out.push(34);
            proof {
                assert(out@ =~= lit_backtrace_open());
            }
            push_escaped(&mut out, bt);
            let ghost mid0 = out@;
            out.push(34);
            out.push(44);
            out.push(34);
            out.push(109);
            out.push(101);
            out.push(115);
            out.push(115);
            out.push(97);
            out.push(103);
            out.push(101);
            out.push(34);
            out.push(58);
            out.push(34);
            proof {
                assert(out@ =~= mid0 + lit_message_mid());
            }
            push_escaped(&mut out, message);
            let ghost end0 = out@;
            out.push(34);
            out.push(125);
            proof {
                assert(out@ =~= end0 + lit_close());
            }
        },
        None => {
            out.push(123);
            out.push(34);
            out.push(109);
            out.push(101);
            out.push(115);
            out.push(115);
            out.push(97);
            out.push(103);
            out.push(101);
            out.push(34);
            out.push(58);
            out.push(34);
            proof {
                assert(out@ =~= lit_message_open());
            }
            push_escaped(&mut out, message);
            let ghost end0 = out@;
            out.push(34);
            out.push(125);
            proof {
                assert(out@ =~= end0 + lit_close());
            }
        },
    }
    out
}

} // verus!
