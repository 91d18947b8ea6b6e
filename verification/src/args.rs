//! Resolution of the command-line values into the engine's start-up arguments.

use vstd::prelude::*;
use vstd::string::*;

verus! {

/// Start-up arguments of the engine process.
#[derive(Debug)]
pub struct RaftCliArgs {
    /// Connection endpoint of the validator.
    pub endpoint: String,
    /// Identifier of the local Raft node.
    pub id: u64,
}

/// Why the command-line values do not give start-up arguments.
#[derive(Clone, Copy, Debug, PartialEq, Eq, Structural)]
pub enum ArgsError {
    /// No node id was given.
    MissingId,
    /// The node id is not a decimal numeral that fits in 64 bits.
    InvalidId,
}

/// The endpoint that is used when none is given.
pub open spec fn default_endpoint() -> Seq<char> {
    "tcp://localhost:5050"@
}

/// Whether `b` is the code of an ASCII decimal digit.
pub open spec fn is_digit(b: u8) -> bool {
    48 <= b <= 57
}

/// Whether every byte of `digits` is an ASCII decimal digit.
pub open spec fn all_digits(digits: Seq<u8>) -> bool {
    forall|i: int| 0 <= i < digits.len() ==> is_digit(#[trigger] digits[i])
}

/// The number that `digits` denotes, most significant digit first.
pub open spec fn decimal_value(digits: Seq<u8>) -> nat
    decreases digits.len(),
{
    if digits.len() == 0 {
        0
    } else {
        decimal_value(digits.drop_last()) * 10 + (digits.last() - 48) as nat
    }
}

/// The digits of a numeral: the text without one optional leading `+`.
pub open spec fn numeral_digits(text: Seq<u8>) -> Seq<u8> {
    if text.len() > 0 && text[0] == 43 {
        text.subrange(1, text.len() as int)
    } else {
        text
    }
}

/// The node id that `text` denotes: an optional `+`, then one or more decimal
/// digits whose value fits in 64 bits. Any other text denotes none.
pub open spec fn node_id_of(text: Seq<u8>) -> Option<u64> {
    let digits = numeral_digits(text);
    if digits.len() > 0 && all_digits(digits) && decimal_value(digits) <= u64::MAX {
        Some(decimal_value(digits) as u64)
    } else {
        None
    }
}

/// A prefix of a digit string never denotes more than the whole string.
pub proof fn lemma_prefix_value(digits: Seq<u8>, k: int)
    requires
        0 <= k <= digits.len(),
        all_digits(digits),
    ensures
        decimal_value(digits.subrange(0, k)) <= decimal_value(digits),
    decreases digits.len() - k,
{
    if k == digits.len() {
        assert(digits.subrange(0, k) =~= digits);
    } else {
        lemma_prefix_value(digits, k + 1);
        let longer = digits.subrange(0, k + 1);
        assert(longer.drop_last() =~= digits.subrange(0, k));
        assert(is_digit(digits[k]));
        assert(longer.last() == digits[k]);
    }
}

/// Reads a node id from the bytes of its decimal numeral.
pub fn parse_node_id(text: &[u8]) -> (r: Option<u64>)
    ensures
        r == node_id_of(text@),
{
    let n: usize = text.len();
    let start: usize = if n > 0 && text[0] == 43 { 1 } else { 0 };
    if start == n {
        return None;
    }
    let ghost digits = numeral_digits(text@);
    let mut acc: u64 = 0;
    let mut i: usize = start;
    while i < n
        invariant
            start <= i <= n,
            n == text@.len(),
            digits == numeral_digits(text@),
            digits.len() == n - start,
            forall|j: int| 0 <= j < digits.len() ==> digits[j] == text@[j + start],
            forall|j: int| 0 <= j < i - start ==> is_digit(#[trigger] digits[j]),
            acc == decimal_value(digits.subrange(0, i - start)),
        decreases n - i,
    {
        let b: u8 = text[i];
        if b < 48 || b > 57 {
            assert(!is_digit(digits[i - start]));
            return None;
        }
        let d: u64 = (b - 48) as u64;
        proof {
            let longer = digits.subrange(0, i - start + 1);
            assert(longer.drop_last() =~= digits.subrange(0, i - start));
            assert(longer.last() == b);
            if all_digits(digits) {
                lemma_prefix_value(digits, i - start + 1);
            }
        }
        if acc > (u64::MAX - d) / 10 {
            return None;
        }
        acc = acc * 10 + d;
        i = i + 1;
    }
    proof {
        assert(digits.subrange(0, n - start) =~= digits);
    }
    Some(acc)
}

/// The start-up arguments that the given command-line values resolve to.
pub open spec fn resolved_args(connect: Option<String>, id: Option<&str>) -> Result<
    (Seq<char>, u64),
    ArgsError,
> {
    match id {
        None => Err(ArgsError::MissingId),
        Some(text) => match node_id_of(text.spec_bytes()) {
            None => Err(ArgsError::InvalidId),
            Some(n) => Ok(
                (
                    match connect {
                        Some(c) => c@,
                        None => default_endpoint(),
                    },
                    n,
                ),
            ),
        },
    }
}

/// Resolves the command-line values: the endpoint falls back to the default,
/// and the node id must be present and a valid numeral.
pub fn parse_args(connect: Option<String>, id: Option<&str>) -> (r: Result<RaftCliArgs, ArgsError>)
    ensures
        match r {
            Ok(a) => resolved_args(connect, id) == Ok::<(Seq<char>, u64), ArgsError>(
                (a.endpoint@, a.id),
            ),
            Err(e) => resolved_args(connect, id) == Err::<(Seq<char>, u64), ArgsError>(e),
        },
{
    let text = match id {
        None => {
            return Err(ArgsError::MissingId);
        },
        Some(text) => text,
    };
    let node = match parse_node_id(text.as_bytes()) {
        None => {
            return Err(ArgsError::InvalidId);
        },
        Some(n) => n,
    };
    let endpoint = match connect {
        Some(c) => c,
        None => "tcp://localhost:5050".to_owned(),
    };
    Ok(RaftCliArgs { endpoint, id: node })
}

} // verus!
