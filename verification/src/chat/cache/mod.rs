//! Where the history of a session is kept.
use vstd::prelude::*;
use vstd::string::StringExecFns;

use crate::chat::text_tools::push_char;

verus! {

/// The decimal digit for a number below ten.
pub open spec fn digit_char(d: nat) -> char {
    (48 + d) as char
}

/// The decimal representation of `n`, without leading zeros.
pub open spec fn decimal(n: nat) -> Seq<char>
    decreases n,
{
    if n < 10 {
        seq![digit_char(n)]
    } else {
        decimal(n / 10).push(digit_char(n % 10))
    }
}

/// Appends the decimal representation of `n`.
pub fn push_decimal(out: &mut String, n: u64)
    ensures
        final(out)@ == old(out)@ + decimal(n as nat),
    decreases n,
{
    if n >= 10 {
        push_decimal(out, n / 10);
    }
    let digit: u8 = (n % 10) as u8;
    push_char(out, (48u8 + digit) as char);
    assert(final(out)@ =~= old(out)@ + decimal(n as nat));
}

/// The file that keeps the history of the session started at `timestamp`
/// (seconds since the Unix epoch).
pub fn history_file_name(timestamp: u64) -> (name: String)
    ensures
        name@ == "chat/cache/history/grok_"@ + decimal(timestamp as nat) + ".json"@,
{
    let mut name = String::from_str("chat/cache/history/grok_");
    push_decimal(&mut name, timestamp);
    name.append(".json");
    name
}

proof fn lemma_decimal_len(n: nat)
    ensures
        decimal(n).len() >= 1,
        n >= 10 ==> decimal(n).len() >= 2,
    decreases n,
{
    if n >= 10 {
        lemma_decimal_len(n / 10);
    }
}

/// Different numbers have different decimal representations.
proof fn lemma_decimal_injective(n: nat, m: nat)
    requires
        decimal(n) == decimal(m),
    ensures
        n == m,
    decreases n,
{
    lemma_decimal_len(n);
    lemma_decimal_len(m);
    if n < 10 && m < 10 {
        assert(decimal(n)[0] == digit_char(n));
        assert(decimal(m)[0] == digit_char(m));
        assert(digit_char(n) as int == 48 + n);
        assert(digit_char(m) as int == 48 + m);
    } else if n >= 10 && m >= 10 {
        assert(decimal(n).drop_last() == decimal(n / 10));
        assert(decimal(m).drop_last() == decimal(m / 10));
        lemma_decimal_injective(n / 10, m / 10);
        assert(digit_char(n % 10) as int == 48 + n % 10);
        assert(digit_char(m % 10) as int == 48 + m % 10);
        assert(decimal(n).last() == digit_char(n % 10));
        assert(decimal(m).last() == digit_char(m % 10));
        assert(n == 10 * (n / 10) + n % 10);
        assert(m == 10 * (m / 10) + m % 10);
    } else {
        assert(decimal(if n < 10 { n } else { m }).len() == 1);
    }
}

/// Law: sessions started at different times keep their histories in
/// different files.
pub proof fn law_history_files_distinct(a: u64, b: u64)
    requires
        a != b,
    ensures
        "chat/cache/history/grok_"@ + decimal(a as nat) + ".json"@ != "chat/cache/history/grok_"@
            + decimal(b as nat) + ".json"@,
{
    let prefix = "chat/cache/history/grok_"@;
    let suffix = ".json"@;
    let na = prefix + decimal(a as nat) + suffix;
    let nb = prefix + decimal(b as nat) + suffix;
    if na == nb {
        assert(na.subrange(prefix.len() as int, na.len() - suffix.len()) =~= decimal(a as nat));
        assert(nb.subrange(prefix.len() as int, nb.len() - suffix.len()) =~= decimal(b as nat));
        lemma_decimal_injective(a as nat, b as nat);
    }
}

} // verus!
