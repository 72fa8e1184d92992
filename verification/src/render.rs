//! The snapshot boundary: rendering one account as text columns. The
//! fixed-point amounts are turned into decimal text by integer
//! division and remainder alone; nothing is routed through a binary
//! floating type, so no value drifts on the way out.

use vstd::prelude::*;

use vstd::string::StringExecFns;

use crate::account::Account;
use crate::codec::ten_pow;

verus! {

/// The character of one decimal digit.
pub open spec fn digit_char(d: int) -> char {
    if d == 0 {
        '0'
    } else if d == 1 {
        '1'
    } else if d == 2 {
        '2'
    } else if d == 3 {
        '3'
    } else if d == 4 {
        '4'
    } else if d == 5 {
        '5'
    } else if d == 6 {
        '6'
    } else if d == 7 {
        '7'
    } else if d == 8 {
        '8'
    } else {
        '9'
    }
}

/// The decimal digits of a number, most significant first, no
/// leading zeros (a lone zero for zero).
pub open spec fn dec_digits(n: nat) -> Seq<char>
    decreases n,
{
    if n < 10 {
        seq![digit_char(n as int)]
    } else {
        dec_digits(n / 10).push(digit_char((n % 10) as int))
    }
}

/// Exactly `width` digits, zero-padded on the left.
pub open spec fn padded_digits(n: nat, width: nat) -> Seq<char>
    decreases width,
{
    if width == 0 {
        Seq::empty()
    } else {
        padded_digits(n / 10, (width - 1) as nat).push(digit_char((n % 10) as int))
    }
}

/// The text with its trailing zeros removed.
pub open spec fn trim_zeros(s: Seq<char>) -> Seq<char>
    decreases s.len(),
{
    if s.len() > 0 && s.last() == '0' {
        trim_zeros(s.drop_last())
    } else {
        s
    }
}

/// A fixed-point amount as decimal text: an optional minus sign, the
/// whole units, and — only when the fraction is non-zero — a decimal
/// point with the fraction digits, trailing zeros dropped.
pub open spec fn amount_chars(v: int) -> Seq<char> {
    let mag = if v < 0 {
        -v
    } else {
        v
    };
    let sign: Seq<char> = if v < 0 {
        seq!['-']
    } else {
        Seq::empty()
    };
    let whole = dec_digits((mag / 10000) as nat);
    let frac = mag % 10000;
    if frac == 0 {
        sign + whole
    } else {
        sign + whole + seq!['.'] + trim_zeros(padded_digits(frac as nat, 4))
    }
}

/// One digit as borrowed text.
fn digit_str(d: u64) -> (r: &'static str)
    requires
        d < 10,
    ensures
        r@ == seq![digit_char(d as int)],
{
    proof {
        reveal_strlit("0");
        reveal_strlit("1");
        reveal_strlit("2");
        reveal_strlit("3");
        reveal_strlit("4");
        reveal_strlit("5");
        reveal_strlit("6");
        reveal_strlit("7");
        reveal_strlit("8");
        reveal_strlit("9");
    }
    let r: &'static str = if d == 0 {
        "0"
    } else if d == 1 {
        "1"
    } else if d == 2 {
        "2"
    } else if d == 3 {
        "3"
    } else if d == 4 {
        "4"
    } else if d == 5 {
        "5"
    } else if d == 6 {
        "6"
    } else if d == 7 {
        "7"
    } else if d == 8 {
        "8"
    } else {
        "9"
    };
    proof {
        assert(r@ =~= seq![digit_char(d as int)]);
    }
    r
}

/// Appends the decimal digits of `n`.
fn push_dec(n: u64, out: &mut String)
    ensures
        final (out)@ == old(out)@ + dec_digits(n as nat),
    decreases n,
{
    if n >= 10 {
        push_dec(n / 10, out);
        out.append(digit_str(n % 10));
        proof {
            assert(final (out)@ =~= old(out)@ + dec_digits(n as nat));
        }
    } else {
        out.append(digit_str(n));
        proof {
            assert(final (out)@ =~= old(out)@ + dec_digits(n as nat));
        }
    }
}

/// Appends exactly `width` digits of `n`, zero-padded on the left.
fn push_padded(n: u64, width: u64, out: &mut String)
    ensures
        final (out)@ == old(out)@ + padded_digits(n as nat, width as nat),
    decreases width,
{
    if width > 0 {
        push_padded(n / 10, width - 1, out);
        out.append(digit_str(n % 10));
        proof {
            assert(final (out)@ =~= old(out)@ + padded_digits(n as nat, width as nat));
        }
    } else {
        proof {
            assert(final (out)@ =~= old(out)@ + padded_digits(n as nat, width as nat));
        }
    }
}

/// Renders a fixed-point amount as decimal text at scale 1/10,000.
pub fn format_amount(v: i64) -> (r: String)
    ensures
        r@ == amount_chars(v as int),
{
    let mag: u64 = if v < 0 {
        (-(v as i128)) as u64
    } else {
        v as u64
    };
    let mut out = String::new();
    if v < 0 {
        out.append("-");
        proof {
            reveal_strlit("-");
            assert(out@ =~= seq!['-']);
        }
    }
    push_dec(mag / 10000, &mut out);
    let frac = mag % 10000;
    if frac == 0 {
        proof {
            assert(out@ =~= amount_chars(v as int));
        }
        return out;
    }
    out.append(".");
    proof {
        reveal_strlit(".");
        assert("."@ =~= seq!['.']);
    }
    let mut f = frac;
    let mut width: u64 = 4;
    proof {
        crate::codec::lemma_ten_pow_small();
    }
    while f % 10 == 0
        invariant
            1 <= width <= 4,
            1 <= f,
            f < ten_pow(width as nat),
            trim_zeros(padded_digits(f as nat, width as nat)) == trim_zeros(
                padded_digits(frac as nat, 4),
            ),
        decreases width,
    {
        proof {
            crate::codec::lemma_ten_pow_small();
            assert(padded_digits(f as nat, width as nat) == padded_digits(
                (f / 10) as nat,
                (width - 1) as nat,
            ).push(digit_char((f % 10) as int)));
            assert(padded_digits(f as nat, width as nat).drop_last() =~= padded_digits(
                (f / 10) as nat,
                (width - 1) as nat,
            ));
        }
        f = f / 10;
        width = width - 1;
    }
    proof {
        assert(padded_digits(f as nat, width as nat).last() == digit_char((f % 10) as int));
        assert(trim_zeros(padded_digits(f as nat, width as nat)) == padded_digits(
            f as nat,
            width as nat,
        ));
    }
    let ghost before = out@;
    push_padded(f, width, &mut out);
    proof {
        assert(out@ =~= amount_chars(v as int));
    }
    out
}

/// Renders a client id as decimal text.
pub fn format_client(client_id: u16) -> (r: String)
    ensures
        r@ == dec_digits(client_id as nat),
{
    let mut out = String::new();
    push_dec(client_id as u64, &mut out);
    proof {
        assert(out@ =~= dec_digits(client_id as nat));
    }
    out
}

/// One account rendered for the outbound snapshot: every money field
/// as decimal text at scale 1/10,000, the freeze flag as a boolean
/// token.
#[derive(Debug, Clone)]
pub struct CsvLedgerSummary {
    pub client: String,
    pub available: String,
    pub held: String,
    pub total: String,
    pub locked: String,
}

/// Renders one account's final snapshot.
pub fn account_summary(account: &Account) -> (r: CsvLedgerSummary)
    requires
        account@.wf(),
    ensures
        r.client@ == dec_digits(account@.client_id as nat),
        r.available@ == amount_chars(account@.available),
        r.held@ == amount_chars(account@.held()),
        r.total@ == amount_chars(account@.total()),
        account@.locked ==> r.locked@ == "true"@,
        !account@.locked ==> r.locked@ == "false"@,
{
    CsvLedgerSummary {
        client: format_client(account.id()),
        available: format_amount(account.amount_available()),
        held: format_amount(account.amount_held()),
        total: format_amount(account.amount_total()),
        locked: if account.locked() {
            "true".to_owned()
        } else {
            "false".to_owned()
        },
    }
}

} // verus!
