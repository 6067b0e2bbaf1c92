//! The events of a streaming turn.
use crate::commit;
use crate::ids::{ReceiptId, Sha256Digest};
use crate::turn::{Emitted, StageKind};
use vstd::prelude::*;
use vstd::string::StrSliceExecFns;
use vstd::string::StringExecFns;

verus! {

/// Tokens that a round used.
#[derive(Clone, Copy, Debug, PartialEq, Eq, Structural)]
pub struct Usage {
    pub tokens_in: u32,
    pub tokens_out: u32,
}

/// One event of a streaming turn. A stage that rejects the turn ends with
/// `ok: false`; the error itself ends the stream.
#[derive(Debug)]
pub enum FusedEvent {
    StageStart { stage: StageKind },
    StageEnd { stage: StageKind, ok: bool },
    /// A piece of the answer.
    Content(String),
    ToolCallStart { id: String, name: String },
    /// A piece of a call's arguments.
    ToolCallDelta { id: String, delta: String },
    /// A tool's output, as JSON.
    ToolCallResult { id: String, result: String },
    Usage(Usage),
    /// A round's receipt and its digest in lower-case hexadecimal.
    Receipt { receipt_id: ReceiptId, chain_hash: String },
    /// Why the provider stopped; the last event of a turn that succeeds.
    Finish(String),
}

/// The hexadecimal digit of a number below sixteen.
pub open spec fn hex_digit(d: nat) -> Seq<char> {
    "0123456789abcdef"@.subrange(d as int, d as int + 1)
}

/// The last `digits` hexadecimal digits of a number.
pub open spec fn hex_text(n: nat, digits: nat) -> Seq<char>
    decreases digits,
{
    if digits == 0 {
        Seq::empty()
    } else {
        hex_text(n / 16, (digits - 1) as nat) + hex_digit(n % 16)
    }
}

/// The sixty-four lower-case hexadecimal digits of a digest.
pub open spec fn digest_hex(digest: Sha256Digest) -> Seq<char> {
    hex_text(digest.hi as nat, 32) + hex_text(digest.lo as nat, 32)
}

/// The value of a hexadecimal digit in lower case.
pub open spec fn hex_value(c: char) -> nat {
    if '0' as u32 <= c as u32 && c as u32 <= '9' as u32 {
        (c as u32 - '0' as u32) as nat
    } else {
        (10 + c as u32 - 'a' as u32) as nat
    }
}

/// The number that hexadecimal digits stand for.
pub open spec fn hex_read(digits: Seq<char>) -> nat
    decreases digits.len(),
{
    if digits.len() == 0 {
        0
    } else {
        16 * hex_read(digits.drop_last()) + hex_value(digits.last())
    }
}

/// Hexadecimal text has as many digits as asked for, all of them digits in
/// lower case, and reads as the number wherever that many digits can hold it.
pub proof fn law_hexadecimal_text_reads_as_its_number(n: nat, digits: nat)
    ensures
        hex_text(n, digits).len() == digits,
        n < vstd::arithmetic::power::pow(16, digits) ==> hex_read(hex_text(n, digits)) == n,
        forall|i: int|
            0 <= i < digits ==> (('0' as u32 <= #[trigger] hex_text(n, digits)[i] as u32 && hex_text(
                n,
                digits,
            )[i] as u32 <= '9' as u32) || ('a' as u32 <= hex_text(n, digits)[i] as u32 && hex_text(
                n,
                digits,
            )[i] as u32 <= 'f' as u32)),
    decreases digits,
{
    reveal_strlit("0123456789abcdef");
    reveal(vstd::arithmetic::power::pow);
    if digits > 0 {
        let less = (digits - 1) as nat;
        law_hexadecimal_text_reads_as_its_number(n / 16, less);
        let head = hex_text(n / 16, less);
        let text = hex_text(n, digits);
        let digit = hex_digit(n % 16);
        assert(digit.len() == 1);
        assert(hex_value(digit[0]) == n % 16);
        assert(text.drop_last() =~= head);
        assert(text.last() == digit[0]);
        assert forall|i: int| 0 <= i < digits implies (('0' as u32 <= #[trigger] text[i] as u32
            && text[i] as u32 <= '9' as u32) || ('a' as u32 <= text[i] as u32 && text[i] as u32
            <= 'f' as u32)) by {
            if i < head.len() {
                assert(text[i] == head[i]);
            } else {
                assert(text[i] == digit[0]);
            }
        }
        if n < vstd::arithmetic::power::pow(16, digits) {
            assert(n < 16 * vstd::arithmetic::power::pow(16, less));
            assert(n / 16 < vstd::arithmetic::power::pow(16, less));
        }
    }
}

/// Digests that differ have texts that differ: each half of the text reads as
/// its half of the digest.
pub proof fn law_a_digest_text_reads_as_its_digest(digest: Sha256Digest)
    ensures
        digest_hex(digest).len() == 64,
        hex_read(digest_hex(digest).take(32)) == digest.hi,
        hex_read(digest_hex(digest).skip(32)) == digest.lo,
{
    law_hexadecimal_text_reads_as_its_number(digest.hi as nat, 32);
    law_hexadecimal_text_reads_as_its_number(digest.lo as nat, 32);
    assert(vstd::arithmetic::power::pow(16, 32) == 0x1_0000_0000_0000_0000_0000_0000_0000_0000int)
        by {
        reveal(vstd::arithmetic::power::pow);
        reveal_with_fuel(vstd::arithmetic::power::pow, 33);
    }
    assert(digest_hex(digest).take(32) =~= hex_text(digest.hi as nat, 32));
    assert(digest_hex(digest).skip(32) =~= hex_text(digest.lo as nat, 32));
}

fn push_hex(text: &mut String, n: u128, digits: u32)
    ensures
        final(text)@ == old(text)@ + hex_text(n as nat, digits as nat),
    decreases digits,
{
    if digits == 0 {
        assert(text@ + hex_text(n as nat, 0) =~= text@);
        return ;
    }
    let ghost before = text@;
    push_hex(text, n / 16, digits - 1);
    proof {
        reveal_strlit("0123456789abcdef");
    }
    let d: usize = (n % 16) as usize;
    text.append("0123456789abcdef".substring_char(d, d + 1));
    assert(text@ =~= before + hex_text(n as nat, digits as nat));
}

impl Sha256Digest {
    /// The digest in lower-case hexadecimal.
    pub fn to_hex(&self) -> (r: String)
        ensures
            r@ == digest_hex(*self),
    {
        let mut text: String = String::new();
        push_hex(&mut text, self.hi, 32);
        push_hex(&mut text, self.lo, 32);
        assert(text@ =~= digest_hex(*self));
        text
    }
}

/// What the consumer is told of a committed receipt: its identifier and the
/// digest that the next receipt will name.
pub fn receipt_event(receipt_id: ReceiptId, jws_compact: &str) -> (r: FusedEvent)
    ensures
        r matches FusedEvent::Receipt { receipt_id: id, chain_hash } && id == receipt_id
            && chain_hash@ == digest_hex(commit::jws_digest(jws_compact@)),
{
    FusedEvent::Receipt {
        receipt_id,
        chain_hash: Sha256Digest::of_text(jws_compact).to_hex(),
    }
}

/// The event of a stage, where the turn emits one.
pub fn stage_event(emitted: Emitted) -> (r: Option<FusedEvent>)
    ensures
        r == (match emitted {
            Emitted::StageStart { stage } => Some(FusedEvent::StageStart { stage }),
            Emitted::StageEnd { stage, ok } => Some(FusedEvent::StageEnd { stage, ok }),
            _ => None,
        }),
{
    match emitted {
        Emitted::StageStart { stage } => Some(FusedEvent::StageStart { stage }),
        Emitted::StageEnd { stage, ok } => Some(FusedEvent::StageEnd { stage, ok }),
        _ => None,
    }
}

} // verus!
