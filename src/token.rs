//! Connection tokens: a decimal serial number, a `-`, and a random uuid.
//! The serial makes every token of a registry distinct from all earlier ones.
use vstd::prelude::*;

verus! {

/// The character of a decimal digit.
pub open spec fn digit_char(d: nat) -> char {
    if d == 0 {
        '0'
    } else if d == 1 {
        '1'
    } else if d == 2 {
        '2'
    } else if d == 3 {
        '3'
    } else if d == 4 {
        '4'
    } else if d == 5 {
        '5'
    } else if d == 6 {
        '6'
    } else if d == 7 {
        '7'
    } else if d == 8 {
        '8'
    } else {
        '9'
    }
}

/// The value of a decimal digit character.
pub open spec fn digit_value(c: char) -> nat {
    if c == '0' {
        0
    } else if c == '1' {
        1
    } else if c == '2' {
        2
    } else if c == '3' {
        3
    } else if c == '4' {
        4
    } else if c == '5' {
        5
    } else if c == '6' {
        6
    } else if c == '7' {
        7
    } else if c == '8' {
        8
    } else {
        9
    }
}

/// The decimal digits of `n`, least significant first.
pub open spec fn serial_digits(n: nat) -> Seq<char>
    decreases n,
{
    if n < 10 {
        seq![digit_char(n)]
    } else {
        seq![digit_char(n % 10)] + serial_digits(n / 10)
    }
}

/// The number that digits written least significant first stand for.
pub open spec fn digits_value(s: Seq<char>) -> nat
    decreases s.len(),
{
    if s.len() == 0 {
        0
    } else {
        digit_value(s[0]) + 10 * digits_value(s.drop_first())
    }
}

/// The token made of serial `n` and the random part `u`.
pub open spec fn token_text(n: nat, u: Seq<char>) -> Seq<char> {
    serial_digits(n) + seq!['-'] + u
}

pub proof fn lemma_digits_value(n: nat)
    ensures
        digits_value(serial_digits(n)) == n,
        serial_digits(n).len() >= 1,
        forall|i: int| 0 <= i < serial_digits(n).len() ==> serial_digits(n)[i] != '-',
    decreases n,
{
    if n < 10 {
        assert(serial_digits(n).drop_first() =~= Seq::<char>::empty());
    } else {
        lemma_digits_value(n / 10);
        let s = serial_digits(n);
        assert(s.drop_first() =~= serial_digits(n / 10));
        assert(digit_value(digit_char(n % 10)) == n % 10);
    }
}

/// Two tokens built on different serials differ, whatever their random parts.
pub proof fn lemma_token_serial_injective(a: nat, ua: Seq<char>, b: nat, ub: Seq<char>)
    requires
        token_text(a, ua) == token_text(b, ub),
    ensures
        a == b,
{
    lemma_digits_value(a);
    lemma_digits_value(b);
    let da = serial_digits(a);
    let db = serial_digits(b);
    let t = token_text(a, ua);
    if da.len() < db.len() {
        assert(t[da.len() as int] == '-');
        assert(t[da.len() as int] == db[da.len() as int]);
    } else if db.len() < da.len() {
        assert(t[db.len() as int] == '-');
        assert(t[db.len() as int] == da[db.len() as int]);
    } else {
        assert(da =~= t.subrange(0, da.len() as int));
        assert(db =~= t.subrange(0, db.len() as int));
    }
}

fn digit_str(d: u64) -> (r: &'static str)
    requires
        d < 10,
    ensures
        r@ == seq![digit_char(d as nat)],
{
    if d == 0 {
        proof { reveal_strlit("0"); }
        "0"
    } else if d == 1 {
        proof { reveal_strlit("1"); }
        "1"
    } else if d == 2 {
        proof { reveal_strlit("2"); }
        "2"
    } else if d == 3 {
        proof { reveal_strlit("3"); }
        "3"
    } else if d == 4 {
        proof { reveal_strlit("4"); }
        "4"
    } else if d == 5 {
        proof { reveal_strlit("5"); }
        "5"
    } else if d == 6 {
        proof { reveal_strlit("6"); }
        "6"
    } else if d == 7 {
        proof { reveal_strlit("7"); }
        "7"
    } else if d == 8 {
        proof { reveal_strlit("8"); }
        "8"
    } else {
        proof { reveal_strlit("9"); }
        "9"
    }
}

/// Relies on uuid::Uuid::new_v4 and the simple form of uuid's formatting:
/// a fresh random identifier written as 32 hexadecimal digits.
#[verifier::external_body]
pub(crate) fn random_part() -> (r: String)
    ensures
        r@.len() == 32,
{
    uuid::Uuid::new_v4().simple().to_string()
}

/// Builds the token of serial `n` and random part `random`.
pub fn make_token(n: u64, random: &str) -> (r: String)
    ensures
        r@ == token_text(n as nat, random@),
{
    let mut out = String::new();
    let mut m: u64 = n;
    loop
        invariant_except_break
            out@ + serial_digits(m as nat) == serial_digits(n as nat),
        ensures
            out@ == serial_digits(n as nat),
        decreases m,
    {
        let d = digit_str(m % 10);
        out.append(d);
        if m < 10 {
            assert(out@ =~= serial_digits(n as nat));
            break;
        }
        assert(out@ + serial_digits((m / 10) as nat) =~= serial_digits(n as nat));
        m = m / 10;
    }
    proof { reveal_strlit("-"); }
    out.append("-");
    out.append(random);
    out
}

} // verus!
