//! Rules that the command-line front-end applies before it writes a
//! deployment script: what a NEAR account id looks like, which networks
//! exist, how text is quoted for a shell, and a rough cost of verification.

use vstd::prelude::*;
use vstd::string::StringExecFns;

verus! {

/// Why a text is no NEAR account id.
#[derive(Clone, Copy, Debug, PartialEq, Eq, Structural)]
pub enum AccountIdError {
    /// Not 2 to 64 characters out of `a`-`z`, `0`-`9`, `.`, `_` and `-`.
    Malformed,
    /// A hyphen or a dot in first place.
    BadStart,
    /// A hyphen or a dot in last place.
    BadEnd,
}

/// Whether a character may stand in an account id.
pub open spec fn is_account_char(c: char) -> bool {
    ('a' <= c && c <= 'z') || ('0' <= c && c <= '9') || c == '.' || c == '_' || c == '-'
}

/// Whether a character is one that may not begin or end an account id.
pub open spec fn is_separator(c: char) -> bool {
    c == '-' || c == '.'
}

/// The first rule that a text breaks as an account id, if it breaks one.
pub open spec fn account_id_fault(s: Seq<char>) -> Option<AccountIdError> {
    if !(2 <= s.len() <= 64 && forall|i: int| 0 <= i < s.len() ==> is_account_char(#[trigger] s[i])) {
        Some(AccountIdError::Malformed)
    } else if is_separator(s[0]) {
        Some(AccountIdError::BadStart)
    } else if is_separator(s[s.len() - 1]) {
        Some(AccountIdError::BadEnd)
    } else {
        None
    }
}

/// Checks that a text is a NEAR account id.
pub fn validate_account_id(account_id: &str) -> (r: Result<(), AccountIdError>)
    ensures
        r is Ok <==> account_id_fault(account_id@) is None,
        r is Err ==> account_id_fault(account_id@) == Some(r->Err_0),
{
    let mut count: usize = 0;
    let mut all_allowed: bool = true;
    let mut first: char = 'a';
    let mut last: char = 'a';
    for c in it: account_id.chars()
        invariant
            it.seq() == account_id@,
            it.index() <= account_id@.len(),
            count <= 65,
            count == (if it.index() <= 65 { it.index() as int } else { 65 }),
            all_allowed == (forall|i: int|
                0 <= i < it.index() ==> is_account_char(#[trigger] account_id@[i])),
            it.index() > 0 ==> first == account_id@[0] && last == account_id@[it.index() - 1],
    {
        if count == 0 {
            first = c;
        }
        last = c;
        if count < 65 {
            count = count + 1;
        }
        let allowed: bool = ('a' <= c && c <= 'z') || ('0' <= c && c <= '9') || c == '.' || c == '_'
            || c == '-';
        if !allowed {
            all_allowed = false;
        }
    }
    if count < 2 || count > 64 || !all_allowed {
        return Err(AccountIdError::Malformed);
    }
    if first == '-' || first == '.' {
        return Err(AccountIdError::BadStart);
    }
    if last == '-' || last == '.' {
        return Err(AccountIdError::BadEnd);
    }
    Ok(())
}

/// Whether a text names a network that contracts can be deployed to.
pub fn is_known_network(network: &str) -> (r: bool)
    ensures
        r == (network@ == "mainnet"@ || network@ == "testnet"@),
{
    let given = String::from_str(network);
    let mainnet = String::from_str("mainnet");
    let testnet = String::from_str("testnet");
    given == mainnet || given == testnet
}

/// The bytes `'"'"'`: they end a single-quoted shell word, add a quote and
/// begin the word again.
pub open spec fn quote_escape() -> Seq<u8> {
    seq![0x27u8, 0x22u8, 0x27u8, 0x22u8, 0x27u8]
}

/// A text with every single quote replaced, so that the whole can stand
/// inside single quotes in a shell.
pub open spec fn shell_escaped(s: Seq<u8>) -> Seq<u8>
    decreases s.len(),
{
    if s.len() == 0 {
        Seq::<u8>::empty()
    } else if s.last() == 0x27u8 {
        shell_escaped(s.drop_last()) + quote_escape()
    } else {
        shell_escaped(s.drop_last()).push(s.last())
    }
}

/// Replaces every single quote, so that the text can stand inside single
/// quotes in a shell.
pub fn shell_escape(text: &[u8]) -> (r: Vec<u8>)
    ensures
        r@ == shell_escaped(text@),
{
    let mut out: Vec<u8> = Vec::new();
    for i in 0..text.len()
        invariant
            out@ == shell_escaped(text@.take(i as int)),
    {
        proof {
            assert(text@.take(i + 1).drop_last() =~= text@.take(i as int));
            assert(text@.take(i + 1).last() == text@[i as int]);
        }
        if text[i] == 0x27u8 {
            out.push(0x27u8);
            out.push(0x22u8);
            out.push(0x27u8);
            out.push(0x22u8);
            out.push(0x27u8);
            proof {
                assert(out@ =~= shell_escaped(text@.take(i as int)) + quote_escape());
            }
        } else {
            out.push(text[i]);
        }
    }
    proof {
        assert(text@.take(text@.len() as int) =~= text@);
    }
    out
}

/// A rough cost of one verification in units of 10^12 gas: fifty, and five
/// for each public input. The estimate stops at the largest `u64`.
pub fn estimated_tgas(num_inputs: usize) -> (r: u64)
    ensures
        r == (if 50 + 5 * num_inputs <= u64::MAX {
            50 + 5 * num_inputs
        } else {
            u64::MAX as int
        }),
{
    let n: u64 = num_inputs as u64;
    if n > 3689348814741910313u64 {
        u64::MAX
    } else {
        50 + 5 * n
    }
}

} // verus!
