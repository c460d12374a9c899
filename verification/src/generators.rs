//! Identifier generation: random values drawn from the system generator,
//! formatted into identifier strings by verified code.
//!
//! Randomness and the clock are the only trusted pieces here; every
//! formatting step is verified against the spec-level digit sequences, so
//! each generator's contract pins the exact shape of what it returns.

use vstd::prelude::*;

use rand::Rng;

use crate::records::AccountIdentity;

verus! {

/// The decimal digit character for `d` in 0..=9.
pub open spec fn digit_char(d: int) -> char {
    if d == 0 {
        '0'
    } else if d == 1 {
        '1'
    } else if d == 2 {
        '2'
    } else if d == 3 {
        '3'
    } else if d == 4 {
        '4'
    } else if d == 5 {
        '5'
    } else if d == 6 {
        '6'
    } else if d == 7 {
        '7'
    } else if d == 8 {
        '8'
    } else {
        '9'
    }
}

/// The decimal digits of `n`, most significant first.
pub open spec fn dec_digits(n: int) -> Seq<char>
    decreases n,
{
    if n < 10 {
        seq![digit_char(n)]
    } else {
        dec_digits(n / 10).push(digit_char(n % 10))
    }
}

/// The hexadecimal digit character for `d` in 0..=15, upper case.
pub open spec fn hex_char(d: int) -> char {
    if d < 10 {
        digit_char(d)
    } else if d == 10 {
        'A'
    } else if d == 11 {
        'B'
    } else if d == 12 {
        'C'
    } else if d == 13 {
        'D'
    } else if d == 14 {
        'E'
    } else {
        'F'
    }
}

/// The two hexadecimal digits of a byte value.
pub open spec fn byte_hex(b: int) -> Seq<char> {
    seq![hex_char(b / 16), hex_char(b % 16)]
}

/// Two zero-padded decimal digits of `n` in 0..=99.
pub open spec fn two_digits(n: int) -> Seq<char> {
    seq![digit_char(n / 10), digit_char(n % 10)]
}

/// The shape of a generated IP string: four dotted octets, first and last
/// never zero.
pub open spec fn is_ip_string(s: Seq<char>) -> bool {
    exists|a: int, b: int, c: int, d: int|
        1 <= a < 255 && 0 <= b < 255 && 0 <= c < 255 && 1 <= d < 255 && s == dec_digits(a)
            + seq!['.'] + dec_digits(b) + seq!['.'] + dec_digits(c) + seq!['.'] + dec_digits(d)
}

/// The shape of a generated MAC string: six colon-separated upper-case hex
/// bytes.
pub open spec fn is_mac_string(s: Seq<char>) -> bool {
    exists|b0: int, b1: int, b2: int, b3: int, b4: int, b5: int|
        0 <= b0 < 256 && 0 <= b1 < 256 && 0 <= b2 < 256 && 0 <= b3 < 256 && 0 <= b4 < 256 && 0
            <= b5 < 256 && s == byte_hex(b0) + seq![':'] + byte_hex(b1) + seq![':'] + byte_hex(b2)
            + seq![':'] + byte_hex(b3) + seq![':'] + byte_hex(b4) + seq![':'] + byte_hex(b5)
}

/// The shape of a generated account number: the decimal digits of a value
/// with exactly ten digits.
pub open spec fn is_account_number(s: Seq<char>) -> bool {
    exists|n: int| 1000000000 <= n < 9999999999 && s == dec_digits(n)
}

/// The shape of a generated card number: the issuer prefix `0057` followed
/// by twelve decimal digits.
pub open spec fn is_card_number(s: Seq<char>) -> bool {
    exists|n: int| 100000000000 <= n < 999999999999 && s == "0057"@ + dec_digits(n)
}

/// The shape of a generated card verification code: three decimal digits.
pub open spec fn is_cvc(s: Seq<char>) -> bool {
    exists|n: int| 100 <= n < 999 && s == dec_digits(n)
}

/// The shape of a generated expiry string: a month and a two-digit year,
/// slash-separated.
pub open spec fn is_expiry(s: Seq<char>) -> bool {
    exists|mm: int, yy: int|
        1 <= mm <= 12 && 0 <= yy < 100 && s == two_digits(mm) + seq!['/'] + two_digits(yy)
}

/// A generated identity bundle: every field has its generated shape.
pub open spec fn is_generated_identity(identity: crate::model::IdentityView) -> bool {
    &&& is_ip_string(identity.ip)
    &&& is_mac_string(identity.mac)
    &&& is_account_number(identity.account_number)
    &&& is_card_number(identity.card_number)
    &&& is_cvc(identity.cvc)
    &&& is_expiry(identity.expiry_date)
}

/// Relies on rand::Rng::gen_range on the thread-local generator: a uniform
/// value in the half-open range [lo, hi).  An empty range would panic and
/// is excluded by the precondition.
#[verifier::external_body]
fn rand_in_range(lo: u64, hi: u64) -> (r: u64)
    requires
        lo < hi,
    ensures
        lo <= r < hi,
{
    rand::thread_rng().gen_range(lo..hi)
}

/// Relies on chrono::Local::now and chrono::Datelike: the current local
/// month, documented to lie in 1..=12, and the current year.  The year
/// bound is that of the 32-bit value chrono hands back.
#[verifier::external_body]
fn current_month_year() -> (r: (u8, i64))
    ensures
        1 <= r.0 <= 12,
        -2147483648 <= r.1 <= 2147483647,
{
    let now = chrono::Local::now();
    (chrono::Datelike::month(&now) as u8, chrono::Datelike::year(&now) as i64)
}

/// Appends the single decimal digit `d`.
fn push_digit(s: &mut String, d: u64)
    requires
        d < 10,
    ensures
        final(s)@ == old(s)@.push(digit_char(d as int)),
{
    if d == 0 {
        s.append("0");
        proof {
            reveal_strlit("0");
            assert(s@ =~= old(s)@.push('0'));
        }
    } else if d == 1 {
        s.append("1");
        proof {
            reveal_strlit("1");
            assert(s@ =~= old(s)@.push('1'));
        }
    } else if d == 2 {
        s.append("2");
        proof {
            reveal_strlit("2");
            assert(s@ =~= old(s)@.push('2'));
        }
    } else if d == 3 {
        s.append("3");
        proof {
            reveal_strlit("3");
            assert(s@ =~= old(s)@.push('3'));
        }
    } else if d == 4 {
        s.append("4");
        proof {
            reveal_strlit("4");
            assert(s@ =~= old(s)@.push('4'));
        }
    } else if d == 5 {
        s.append("5");
        proof {
            reveal_strlit("5");
            assert(s@ =~= old(s)@.push('5'));
        }
    } else if d == 6 {
        s.append("6");
        proof {
            reveal_strlit("6");
            assert(s@ =~= old(s)@.push('6'));
        }
    } else if d == 7 {
        s.append("7");
        proof {
            reveal_strlit("7");
            assert(s@ =~= old(s)@.push('7'));
        }
    } else if d == 8 {
        s.append("8");
        proof {
            reveal_strlit("8");
            assert(s@ =~= old(s)@.push('8'));
        }
    } else {
        s.append("9");
        proof {
            reveal_strlit("9");
            assert(s@ =~= old(s)@.push('9'));
        }
    }
}

/// Appends the single hexadecimal digit `d`, upper case.
fn push_hex_digit(s: &mut String, d: u64)
    requires
        d < 16,
    ensures
        final(s)@ == old(s)@.push(hex_char(d as int)),
{
    if d < 10 {
        push_digit(s, d);
    } else if d == 10 {
        s.append("A");
        proof {
            reveal_strlit("A");
            assert(s@ =~= old(s)@.push('A'));
        }
    } else if d == 11 {
        s.append("B");
        proof {
            reveal_strlit("B");
            assert(s@ =~= old(s)@.push('B'));
        }
    } else if d == 12 {
        s.append("C");
        proof {
            reveal_strlit("C");
            assert(s@ =~= old(s)@.push('C'));
        }
    } else if d == 13 {
        s.append("D");
        proof {
            reveal_strlit("D");
            assert(s@ =~= old(s)@.push('D'));
        }
    } else if d == 14 {
        s.append("E");
        proof {
            reveal_strlit("E");
            assert(s@ =~= old(s)@.push('E'));
        }
    } else {
        s.append("F");
        proof {
            reveal_strlit("F");
            assert(s@ =~= old(s)@.push('F'));
        }
    }
}

/// Appends the decimal digits of `n`, most significant first.
fn push_decimal(s: &mut String, n: u64)
    ensures
        final(s)@ == old(s)@ + dec_digits(n as int),
    decreases n,
{
    if n < 10 {
        push_digit(s, n);
        proof {
            assert(s@ =~= old(s)@ + dec_digits(n as int));
        }
    } else {
        push_decimal(s, n / 10);
        push_digit(s, n % 10);
        proof {
            assert(s@ =~= old(s)@ + dec_digits(n as int));
        }
    }
}

/// Appends the two hexadecimal digits of a byte value.
fn push_byte_hex(s: &mut String, b: u64)
    requires
        b < 256,
    ensures
        final(s)@ == old(s)@ + byte_hex(b as int),
{
    push_hex_digit(s, b / 16);
    push_hex_digit(s, b % 16);
    proof {
        assert(s@ =~= old(s)@ + byte_hex(b as int));
    }
}

/// Appends two zero-padded decimal digits of `n` in 0..=99.
fn push_two_digits(s: &mut String, n: u64)
    requires
        n < 100,
    ensures
        final(s)@ == old(s)@ + two_digits(n as int),
{
    push_digit(s, n / 10);
    push_digit(s, n % 10);
    proof {
        assert(s@ =~= old(s)@ + two_digits(n as int));
    }
}

/// A fresh random IP string of four dotted octets, the first and last
/// octets never zero.
pub fn generate_ip_address() -> (r: String)
    ensures
        is_ip_string(r@),
{
    let a = rand_in_range(1, 255);
    let b = rand_in_range(0, 255);
    let c = rand_in_range(0, 255);
    let d = rand_in_range(1, 255);
    let mut s = String::new();
    push_decimal(&mut s, a);
    s.append(".");
    push_decimal(&mut s, b);
    s.append(".");
    push_decimal(&mut s, c);
    s.append(".");
    push_decimal(&mut s, d);
    proof {
        reveal_strlit(".");
        assert(s@ =~= dec_digits(a as int) + seq!['.'] + dec_digits(b as int) + seq!['.']
            + dec_digits(c as int) + seq!['.'] + dec_digits(d as int));
    }
    s
}

/// A fresh random MAC string of six colon-separated upper-case hex bytes.
pub fn generate_mac_address() -> (r: String)
    ensures
        is_mac_string(r@),
{
    let b0 = rand_in_range(0, 256);
    let b1 = rand_in_range(0, 256);
    let b2 = rand_in_range(0, 256);
    let b3 = rand_in_range(0, 256);
    let b4 = rand_in_range(0, 256);
    let b5 = rand_in_range(0, 256);
    let mut s = String::new();
    push_byte_hex(&mut s, b0);
    s.append(":");
    push_byte_hex(&mut s, b1);
    s.append(":");
    push_byte_hex(&mut s, b2);
    s.append(":");
    push_byte_hex(&mut s, b3);
    s.append(":");
    push_byte_hex(&mut s, b4);
    s.append(":");
    push_byte_hex(&mut s, b5);
    proof {
        reveal_strlit(":");
        assert(s@ =~= byte_hex(b0 as int) + seq![':'] + byte_hex(b1 as int) + seq![':'] + byte_hex(
            b2 as int,
        ) + seq![':'] + byte_hex(b3 as int) + seq![':'] + byte_hex(b4 as int) + seq![':']
            + byte_hex(b5 as int));
    }
    s
}

/// A fresh random ten-digit account number.
pub fn generate_account_number() -> (r: String)
    ensures
        is_account_number(r@),
{
    let n = rand_in_range(1000000000, 9999999999);
    let mut s = String::new();
    push_decimal(&mut s, n);
    s
}

/// A fresh random card number: the issuer prefix `0057` and twelve random
/// digits.
pub fn generate_card_number() -> (r: String)
    ensures
        is_card_number(r@),
{
    let n = rand_in_range(100000000000, 999999999999);
    let mut s = String::from_str("0057");
    push_decimal(&mut s, n);
    s
}

/// A fresh random three-digit card verification code.
pub fn generate_cvc() -> (r: String)
    ensures
        is_cvc(r@),
{
    let n = rand_in_range(100, 999);
    let mut s = String::new();
    push_decimal(&mut s, n);
    s
}

/// The expiry string two years from now: the current month and the
/// two-digit year, both zero-padded.
pub fn generate_expiry_date() -> (r: String)
    ensures
        is_expiry(r@),
{
    let (month, year) = current_month_year();
    let yy = (((year + 2) % 100) + 100) % 100;
    let mut s = String::new();
    push_two_digits(&mut s, month as u64);
    s.append("/");
    push_two_digits(&mut s, yy as u64);
    proof {
        reveal_strlit("/");
        assert(s@ =~= two_digits(month as int) + seq!['/'] + two_digits(yy as int));
    }
    s
}

/// A full identity bundle of freshly generated identifiers, as account
/// provisioning consumes.
pub fn generate_identity() -> (r: AccountIdentity)
    ensures
        is_generated_identity(r@),
{
    AccountIdentity {
        ip: generate_ip_address(),
        mac: generate_mac_address(),
        account_number: generate_account_number(),
        card_number: generate_card_number(),
        cvc: generate_cvc(),
        expiry_date: generate_expiry_date(),
    }
}

/// The characters a generated password draws from.
pub open spec fn password_charset() -> Seq<char> {
    "ABCDEFGHIJKLMNOPQRSTUVWXYZabcdefghijklmnopqrstuvwxyz0123456789!@#$%^&*"@
}

/// A fresh random password of the requested length, drawn from the
/// password character set.
pub fn generate_password(length: usize) -> (r: String)
    ensures
        r@.len() == length,
        forall|i: int| 0 <= i < r@.len() ==> password_charset().contains(#[trigger] r@[i]),
{
    let cs = "ABCDEFGHIJKLMNOPQRSTUVWXYZabcdefghijklmnopqrstuvwxyz0123456789!@#$%^&*";
    proof {
        reveal_strlit("ABCDEFGHIJKLMNOPQRSTUVWXYZabcdefghijklmnopqrstuvwxyz0123456789!@#$%^&*");
    }
    let mut s = String::new();
    if !cs.is_ascii() {
        // The character set is a fixed ASCII literal, so this branch never
        // runs; it keeps the function total without trusting that fact.
        let mut i: usize = 0;
        while i < length
            invariant
                s@.len() == i,
                i <= length,
                forall|k: int| 0 <= k < s@.len() ==> password_charset().contains(#[trigger] s@[k]),
            decreases length - i,
        {
            s.append("A");
            i += 1;
            proof {
                reveal_strlit("A");
                reveal_strlit(
                    "ABCDEFGHIJKLMNOPQRSTUVWXYZabcdefghijklmnopqrstuvwxyz0123456789!@#$%^&*",
                );
                assert(password_charset()[0] == 'A');
                assert(s@.len() == i);
            }
        }
        return s;
    }
    let mut i: usize = 0;
    while i < length
        invariant
            cs.is_ascii(),
            cs@ == password_charset(),
            cs@.len() == 70,
            s@.len() == i,
            i <= length,
            forall|k: int| 0 <= k < s@.len() ==> password_charset().contains(#[trigger] s@[k]),
        decreases length - i,
    {
        let idx = rand_in_range(0, 70) as usize;
        let piece = cs.substring_ascii(idx, idx + 1);
        s.append(piece);
        i += 1;
        proof {
            assert(piece@[0] == password_charset()[idx as int]);
            assert(s@.len() == i);
            assert forall|k: int| 0 <= k < s@.len() implies password_charset().contains(
                #[trigger] s@[k],
            ) by {
                if k == s@.len() - 1 {
                    assert(s@[k] == password_charset()[idx as int]);
                }
            }
        }
    }
    s
}

} // verus!
