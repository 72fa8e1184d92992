//! The decoder boundary: turning the text columns of an input record
//! into a validated [`Transaction`]. Money amounts are parsed straight
//! from decimal text into the fixed-point representation (scale
//! 1/10,000); nothing is routed through a binary floating type.
//!
//! All text contracts speak about the UTF-8 bytes of the column, as
//! [`vstd::utf8::encode_utf8`] gives them.

use vstd::prelude::*;

use vstd::string::StringSliceAdditionalSpecFns;
use vstd::utf8::encode_utf8;

use crate::transaction::{Transaction, TransactionTag};

verus! {

/// An ASCII decimal digit.
pub open spec fn is_digit(b: u8) -> bool {
    48 <= b <= 57
}

/// Every byte is an ASCII decimal digit.
pub open spec fn all_digits(s: Seq<u8>) -> bool {
    forall|i: int| 0 <= i < s.len() ==> is_digit(#[trigger] s[i])
}

/// The number the digits denote, most significant first.
pub open spec fn digits_value(s: Seq<u8>) -> int
    decreases s.len(),
{
    if s.len() == 0 {
        0
    } else {
        digits_value(s.drop_last()) * 10 + (s.last() - 48)
    }
}

/// Ten to a small power.
pub open spec fn ten_pow(k: nat) -> int
    decreases k,
{
    if k == 0 {
        1
    } else {
        10 * ten_pow((k - 1) as nat)
    }
}

/// The column split at its first decimal point: integer digits and
/// fraction digits. Without a point the fraction is empty.
pub open spec fn split_dot(body: Seq<u8>) -> (Seq<u8>, Seq<u8>) {
    match body.index_of_first(46u8) {
        Some(k) => (body.take(k), body.skip(k + 1)),
        None => (body, Seq::empty()),
    }
}

/// How many leading bytes are a sign: one for `-`, none otherwise.
pub open spec fn sign_len(s: Seq<u8>) -> int {
    if s.len() > 0 && s[0] == 45 {
        1
    } else {
        0
    }
}

/// The column without its sign.
pub open spec fn amount_body(s: Seq<u8>) -> Seq<u8> {
    s.skip(sign_len(s))
}

/// A well-formed unsigned amount: at least one integer digit, digits
/// on both sides of the single optional decimal point.
pub open spec fn valid_unsigned_amount(body: Seq<u8>) -> bool {
    &&& split_dot(body).0.len() > 0
    &&& all_digits(split_dot(body).0)
    &&& all_digits(split_dot(body).1)
}

/// The fraction digits scaled to 1/10,000: the first four count,
/// shorter runs are padded with zeros on the right, anything past the
/// fourth digit is cut off.
pub open spec fn frac_scaled(frac: Seq<u8>) -> int {
    if frac.len() >= 4 {
        digits_value(frac.take(4))
    } else {
        digits_value(frac) * ten_pow((4 - frac.len()) as nat)
    }
}

/// The magnitude of the amount in fixed-point units.
pub open spec fn magnitude(body: Seq<u8>) -> int {
    digits_value(split_dot(body).0) * 10000 + frac_scaled(split_dot(body).1)
}

/// A well-formed amount column whose fixed-point value is
/// representable.
pub open spec fn valid_amount(s: Seq<u8>) -> bool {
    valid_unsigned_amount(amount_body(s)) && magnitude(amount_body(s)) <= i64::MAX
}

/// The fixed-point value of the amount column.
pub open spec fn amount_value(s: Seq<u8>) -> int {
    if sign_len(s) == 1 {
        -magnitude(amount_body(s))
    } else {
        magnitude(amount_body(s))
    }
}

/// Digits denote a non-negative number.
pub proof fn lemma_digits_value_nonneg(s: Seq<u8>)
    requires
        all_digits(s),
    ensures
        digits_value(s) >= 0,
    decreases s.len(),
{
    if s.len() > 0 {
        assert(all_digits(s.drop_last()));
        lemma_digits_value_nonneg(s.drop_last());
    }
}

/// Digits denote less than ten to the number of digits.
pub proof fn lemma_digits_value_bound(s: Seq<u8>)
    requires
        all_digits(s),
    ensures
        0 <= digits_value(s) < ten_pow(s.len()),
    decreases s.len(),
{
    if s.len() > 0 {
        assert(all_digits(s.drop_last()));
        lemma_digits_value_bound(s.drop_last());
    }
}

/// A prefix of a digit run never denotes more than the whole run.
pub proof fn lemma_digits_prefix_mono(s: Seq<u8>, i: int)
    requires
        all_digits(s),
        0 <= i <= s.len(),
    ensures
        digits_value(s.take(i)) <= digits_value(s),
    decreases s.len(),
{
    if i == s.len() {
        assert(s.take(i) =~= s);
    } else {
        assert(all_digits(s.drop_last()));
        assert(s.drop_last().take(i) =~= s.take(i));
        lemma_digits_prefix_mono(s.drop_last(), i);
        lemma_digits_value_nonneg(s.drop_last());
    }
}

/// One more digit multiplies the prefix value by ten and adds it.
proof fn lemma_digits_take_step(s: Seq<u8>, i: int)
    requires
        0 <= i < s.len(),
    ensures
        digits_value(s.take(i + 1)) == digits_value(s.take(i)) * 10 + (s[i] - 48),
{
    assert(s.take(i + 1).drop_last() =~= s.take(i));
    assert(s.take(i + 1).last() == s[i]);
}

/// Parses an unsigned decimal column. `Some` exactly when the column
/// is a non-empty run of digits denoting at most `max`.
pub fn parse_number(s: &str, max: u64) -> (r: Option<u64>)
    ensures
        match r {
            Some(v) => {
                &&& s.spec_bytes().len() > 0
                &&& all_digits(s.spec_bytes())
                &&& v as int == digits_value(s.spec_bytes())
                &&& v <= max
            },
            None => !(s.spec_bytes().len() > 0 && all_digits(s.spec_bytes()) && digits_value(
                s.spec_bytes(),
            ) <= max as int),
        },
{
    let b = s.as_bytes();
    let n = b.len();
    if n == 0 {
        return None;
    }
    let mut value: u128 = 0;
    let mut i: usize = 0;
    while i < n
        invariant
            b@ == s.spec_bytes(),
            n == b@.len(),
            0 < n,
            i <= n,
            all_digits(b@.take(i as int)),
            value as int == digits_value(b@.take(i as int)),
            value <= max,
        decreases n - i,
    {
        let c = b[i];
        if c < 48 || c > 57 {
            proof {
                assert(!is_digit(b@[i as int]));
            }
            return None;
        }
        proof {
            lemma_digits_take_step(b@, i as int);
        }
        value = value * 10 + (c - 48) as u128;
        i = i + 1;
        if value > max as u128 {
            proof {
                if all_digits(b@) {
                    lemma_digits_prefix_mono(b@, i as int);
                    assert(digits_value(b@) > max as int);
                }
            }
            return None;
        }
    }
    proof {
        assert(b@.take(n as int) =~= b@);
    }
    Some(value as u64)
}

/// Digits scanned so far keep the decimal point, if any, to their
/// right; until it shows up, they are a prefix of the integer part.
proof fn lemma_int_prefix(body: Seq<u8>, j: int)
    requires
        0 <= j <= body.len(),
        all_digits(body.take(j)),
    ensures
        split_dot(body).0.len() >= j,
        split_dot(body).0.take(j) == body.take(j),
        all_digits(split_dot(body).0.take(j)),
{
    body.index_of_first_ensures(46u8);
    match body.index_of_first(46u8) {
        Some(k) => {
            if k < j {
                assert(is_digit(body.take(j)[k]));
                assert(body[k] == 46);
            }
            assert(split_dot(body).0.take(j) =~= body.take(j));
        },
        None => {
            assert(split_dot(body).0.take(j) =~= body.take(j));
        },
    }
}

/// A decimal point found after a run of digits is the first one.
proof fn lemma_dot_at(body: Seq<u8>, j: int)
    requires
        0 <= j < body.len(),
        all_digits(body.take(j)),
        body[j] == 46,
    ensures
        body.index_of_first(46u8) == Some(j),
        split_dot(body).0 == body.take(j),
        split_dot(body).1 == body.skip(j + 1),
{
    body.index_of_first_ensures(46u8);
    match body.index_of_first(46u8) {
        Some(k) => {
            if k < j {
                assert(is_digit(body.take(j)[k]));
                assert(body[k] == 46);
            }
            if k > j {
                assert(body[j] != 46);
            }
        },
        None => {
            assert(body[j] != 46);
        },
    }
}

/// A run of digits to the very end means there is no decimal point.
proof fn lemma_no_dot(body: Seq<u8>)
    requires
        all_digits(body),
    ensures
        body.index_of_first(46u8) is None,
        split_dot(body).0 == body,
        split_dot(body).1 == Seq::<u8>::empty(),
{
    body.index_of_first_ensures(46u8);
    match body.index_of_first(46u8) {
        Some(k) => {
            assert(is_digit(body[k]));
        },
        None => {
        },
    }
}

/// Parses a money column into fixed-point units at scale 1/10,000.
/// `Some` exactly when the column is an optional `-`, one or more
/// integer digits, and an optional decimal point with fraction
/// digits, and the value is representable; fraction digits past the
/// fourth are cut off.
pub fn parse_amount(s: &str) -> (r: Option<i64>)
    ensures
        match r {
            Some(v) => valid_amount(s.spec_bytes()) && v as int == amount_value(s.spec_bytes()),
            None => !valid_amount(s.spec_bytes()),
        },
{
    let b = s.as_bytes();
    let n = b.len();
    let negative = n > 0 && b[0] == 45;
    let start: usize = if negative {
        1
    } else {
        0
    };
    let ghost body = s.spec_bytes().skip(start as int);
    proof {
        assert(start == sign_len(b@));
        assert(body == amount_body(s.spec_bytes()));
    }
    let mut value: u128 = 0;
    let mut i: usize = start;
    while i < n && 48 <= b[i] && b[i] <= 57
        invariant
            b@ == s.spec_bytes(),
            n == b@.len(),
            start <= i <= n,
            start == sign_len(b@),
            body == b@.skip(start as int),
            all_digits(body.take(i - start)),
            value as int == digits_value(body.take(i - start)),
            value <= i64::MAX as u128,
        decreases n - i,
    {
        proof {
            assert(body[i - start] == b@[i as int]);
            lemma_digits_take_step(body, i - start);
        }
        value = value * 10 + (b[i] - 48) as u128;
        i = i + 1;
        if value > i64::MAX as u128 {
            proof {
                lemma_amount_int_overflow(body, i - start, value as int);
            }
            return None;
        }
    }
    let ghost j = i - start;
    if i == start {
        // no integer digits: not a well-formed amount
        proof {
            body.index_of_first_ensures(46u8);
            if valid_unsigned_amount(body) {
                assert(is_digit(split_dot(body).0[0]));
                assert(split_dot(body).0[0] == body[0]);
                if i < n {
                    assert(body[0] == b@[i as int]);
                }
            }
        }
        return None;
    }
    if i == n {
        // digits to the end: no fraction
        proof {
            assert(body.take(j) =~= body);
            lemma_no_dot(body);
        }
        return finish_amount(Ghost(s.spec_bytes()), negative, value, 0, 4);
    }
    let c = b[i];
    if c != 46 {
        // neither a digit nor the decimal point
        proof {
            assert(body[j] == b@[i as int]);
            lemma_not_amount_shape(body, j);
        }
        return None;
    }
    proof {
        assert(body[j] == b@[i as int]);
        lemma_dot_at(body, j);
    }
    let ghost frac = split_dot(body).1;
    let fstart = i + 1;
    let mut fv: u64 = 0;
    let mut fcount: usize = 0;
    let mut p = fstart;
    while p < n
        invariant
            b@ == s.spec_bytes(),
            n == b@.len(),
            fstart <= p <= n,
            fstart == i + 1,
            start <= i < n,
            start == sign_len(b@),
            body == b@.skip(start as int),
            frac == split_dot(body).1,
            frac == body.skip(i - start + 1),
            frac.len() == n - fstart,
            all_digits(frac.take(p - fstart)),
            fcount as int == if p - fstart >= 4 {
                4int
            } else {
                p - fstart
            },
            fv as int == digits_value(frac.take(fcount as int)),
            fv <= 9999,
        decreases n - p,
    {
        let c2 = b[p];
        proof {
            assert(frac[p - fstart] == b@[p as int]);
        }
        if c2 < 48 || c2 > 57 {
            proof {
                assert(!is_digit(frac[p - fstart]));
            }
            return None;
        }
        if fcount < 4 {
            proof {
                lemma_digits_take_step(frac, fcount as int);
                assert(all_digits(frac.take(fcount + 1)));
                lemma_digits_value_bound(frac.take(fcount + 1));
                lemma_ten_pow_small();
            }
            fv = fv * 10 + (c2 - 48) as u64;
            fcount = fcount + 1;
        }
        p = p + 1;
    }
    proof {
        assert(frac.take(frac.len() as int) =~= frac);
    }
    finish_amount(Ghost(s.spec_bytes()), negative, value, fv, (4 - fcount) as u64)
}

/// Exceeding the representable range within the integer digits means
/// the whole column is out of range.
proof fn lemma_amount_int_overflow(body: Seq<u8>, j: int, value: int)
    requires
        0 <= j <= body.len(),
        all_digits(body.take(j)),
        value == digits_value(body.take(j)),
        value > i64::MAX,
    ensures
        !(valid_unsigned_amount(body) && magnitude(body) <= i64::MAX),
{
    if valid_unsigned_amount(body) {
        lemma_int_prefix(body, j);
        let ip = split_dot(body).0;
        assert(ip.take(j) == body.take(j));
        lemma_digits_prefix_mono(ip, j);
        let fp = split_dot(body).1;
        if fp.len() >= 4 {
            assert(all_digits(fp.take(4)));
            lemma_digits_value_nonneg(fp.take(4));
        } else {
            lemma_digits_value_nonneg(fp);
            lemma_ten_pow_pos((4 - fp.len()) as nat);
            vstd::arithmetic::mul::lemma_mul_nonnegative(
                digits_value(fp),
                ten_pow((4 - fp.len()) as nat),
            );
        }
        assert(frac_scaled(fp) >= 0);
        assert(digits_value(ip) > i64::MAX);
    }
}

/// A byte that is neither a digit nor the first decimal point, after
/// a run of digits, rules the shape of the column out.
proof fn lemma_not_amount_shape(body: Seq<u8>, j: int)
    requires
        0 <= j < body.len(),
        all_digits(body.take(j)),
        !is_digit(body[j]),
        body[j] != 46,
    ensures
        !valid_unsigned_amount(body),
{
    body.index_of_first_ensures(46u8);
    if valid_unsigned_amount(body) {
        match body.index_of_first(46u8) {
            Some(k) => {
                if j < k {
                    assert(is_digit(split_dot(body).0[j]));
                    assert(split_dot(body).0[j] == body[j]);
                } else if j == k {
                    assert(body[k] == 46);
                } else {
                    assert(is_digit(split_dot(body).1[j - k - 1]));
                    assert(split_dot(body).1[j - k - 1] == body[j]);
                }
            },
            None => {
                assert(is_digit(split_dot(body).0[j]));
                assert(split_dot(body).0[j] == body[j]);
            },
        }
    }
}

/// Ten to a small power is positive.
proof fn lemma_ten_pow_pos(k: nat)
    ensures
        ten_pow(k) >= 1,
    decreases k,
{
    if k > 0 {
        lemma_ten_pow_pos((k - 1) as nat);
    }
}

/// Assembles the fixed-point value once both digit runs are read:
/// `value` integer units, `fv` fraction digits, padded by `pad`
/// zeros. Reports the column out of range where the result would not
/// be representable.
fn finish_amount(Ghost(sb): Ghost<Seq<u8>>, negative: bool, value: u128, fv: u64, pad: u64) -> (r:
    Option<i64>)
    requires
        valid_unsigned_amount(amount_body(sb)),
        negative == (sign_len(sb) == 1),
        value as int == digits_value(split_dot(amount_body(sb)).0),
        value <= i64::MAX as u128,
        pad <= 4,
        fv as int * ten_pow(pad as nat) == frac_scaled(split_dot(amount_body(sb)).1),
        fv <= 9999,
    ensures
        match r {
            Some(v) => valid_amount(sb) && v as int == amount_value(sb),
            None => !valid_amount(sb),
        },
{
    proof {
        lemma_ten_pow_small();
    }
    let p10: u64 = if pad == 0 {
        1
    } else if pad == 1 {
        10
    } else if pad == 2 {
        100
    } else if pad == 3 {
        1000
    } else {
        10000
    };
    let mag: u128 = value * 10000 + (fv * p10) as u128;
    if mag > i64::MAX as u128 {
        return None;
    }
    if negative {
        Some(-(mag as i64))
    } else {
        Some(mag as i64)
    }
}

/// Why a raw input record could not be decoded or carried through.
/// A bad record is reported and skipped; it never aborts the run.
#[derive(Debug)]
pub enum RunnerError {
    InvalidCsvRow,
    FileOpenFailed,
    InvalidColumn(String),
    InternalError(&'static str),
}

/// One raw input record, exactly as its four text columns arrived.
#[derive(Debug, Clone)]
pub struct CsvTransaction {
    pub tx_type: String,
    pub client: String,
    pub tx: String,
    pub amount: String,
}

/// The five recognised type tokens.
pub open spec fn token_valid(t: Seq<char>) -> bool {
    t == "deposit"@ || t == "withdrawal"@ || t == "dispute"@ || t == "resolve"@ || t
        == "chargeback"@
}

/// The tokens that carry an amount column.
pub open spec fn token_is_flow(t: Seq<char>) -> bool {
    t == "deposit"@ || t == "withdrawal"@
}

/// A well-formed client column: digits denoting a client id.
pub open spec fn client_ok(csv: CsvTransaction) -> bool {
    let b = encode_utf8(csv.client@);
    b.len() > 0 && all_digits(b) && digits_value(b) <= u16::MAX
}

/// A well-formed transaction-id column: digits denoting an id.
pub open spec fn tx_id_ok(csv: CsvTransaction) -> bool {
    let b = encode_utf8(csv.tx@);
    b.len() > 0 && all_digits(b) && digits_value(b) <= u32::MAX
}

/// A well-formed amount column for a balance-flow record.
pub open spec fn amount_ok(csv: CsvTransaction) -> bool {
    valid_amount(encode_utf8(csv.amount@))
}

/// Whether the whole record decodes into a transaction.
pub open spec fn convert_ok(csv: CsvTransaction) -> bool {
    &&& token_valid(csv.tx_type@)
    &&& token_is_flow(csv.tx_type@) ==> amount_ok(csv)
    &&& client_ok(csv)
    &&& tx_id_ok(csv)
}

/// The tag a valid record decodes to.
pub open spec fn spec_tag(csv: CsvTransaction) -> TransactionTag {
    if csv.tx_type@ == "deposit"@ {
        TransactionTag::Deposit(amount_value(encode_utf8(csv.amount@)) as i64)
    } else if csv.tx_type@ == "withdrawal"@ {
        TransactionTag::Withdrawal(amount_value(encode_utf8(csv.amount@)) as i64)
    } else if csv.tx_type@ == "dispute"@ {
        TransactionTag::Dispute
    } else if csv.tx_type@ == "resolve"@ {
        TransactionTag::Resolve
    } else {
        TransactionTag::Chargeback
    }
}

/// Whether a text column equals a keyword.
fn token_eq(s: &String, t: &str) -> (r: bool)
    ensures
        r == (s@ == t@),
{
    let owned = String::from_str(t);
    *s == owned
}

/// Decodes one raw record into a validated transaction. The type
/// token is examined first (a balance-flow token demands a
/// well-formed amount), then the client column, then the id column;
/// the first offending column is reported.
pub fn convert_csv_tx_to_transaction(csv_tx: &CsvTransaction) -> (r: Result<
    Transaction,
    RunnerError,
>)
    ensures
        match r {
            Ok(tx) => {
                &&& convert_ok(*csv_tx)
                &&& tx.client_id as int == digits_value(encode_utf8(csv_tx.client@))
                &&& tx.id as int == digits_value(encode_utf8(csv_tx.tx@))
                &&& tx.tag == spec_tag(*csv_tx)
            },
            Err(e) => {
                &&& !convert_ok(*csv_tx)
                &&& match e {
                    RunnerError::InvalidColumn(col) => {
                        if !token_valid(csv_tx.tx_type@) {
                            col@ == csv_tx.tx_type@
                        } else if token_is_flow(csv_tx.tx_type@) && !amount_ok(*csv_tx) {
                            col@ == csv_tx.amount@
                        } else if !client_ok(*csv_tx) {
                            col@ == csv_tx.client@
                        } else {
                            col@ == csv_tx.tx@
                        }
                    },
                    _ => false,
                }
            },
        },
{
    let tag: TransactionTag;
    if token_eq(&csv_tx.tx_type, "deposit") {
        match parse_amount(csv_tx.amount.as_str()) {
            Some(amount) => {
                tag = TransactionTag::Deposit(amount);
            },
            None => {
                return Err(RunnerError::InvalidColumn(csv_tx.amount.clone()));
            },
        }
    } else if token_eq(&csv_tx.tx_type, "withdrawal") {
        match parse_amount(csv_tx.amount.as_str()) {
            Some(amount) => {
                tag = TransactionTag::Withdrawal(amount);
            },
            None => {
                return Err(RunnerError::InvalidColumn(csv_tx.amount.clone()));
            },
        }
    } else if token_eq(&csv_tx.tx_type, "dispute") {
        tag = TransactionTag::Dispute;
    } else if token_eq(&csv_tx.tx_type, "resolve") {
        tag = TransactionTag::Resolve;
    } else if token_eq(&csv_tx.tx_type, "chargeback") {
        tag = TransactionTag::Chargeback;
    } else {
        return Err(RunnerError::InvalidColumn(csv_tx.tx_type.clone()));
    }
    let client_id: u16 = match parse_number(csv_tx.client.as_str(), u16::MAX as u64) {
        Some(v) => v as u16,
        None => {
            return Err(RunnerError::InvalidColumn(csv_tx.client.clone()));
        },
    };
    let tx_id: u32 = match parse_number(csv_tx.tx.as_str(), u32::MAX as u64) {
        Some(v) => v as u32,
        None => {
            return Err(RunnerError::InvalidColumn(csv_tx.tx.clone()));
        },
    };
    Ok(Transaction { id: tx_id, client_id, tag })
}

/// The first few powers of ten, written out.
pub proof fn lemma_ten_pow_small()
    ensures
        ten_pow(0) == 1,
        ten_pow(1) == 10,
        ten_pow(2) == 100,
        ten_pow(3) == 1000,
        ten_pow(4) == 10000,
{
    assert(ten_pow(0) == 1);
    assert(ten_pow(1) == 10);
    assert(ten_pow(2) == 100);
    assert(ten_pow(3) == 1000);
    assert(ten_pow(4) == 10000);
}

} // verus!
