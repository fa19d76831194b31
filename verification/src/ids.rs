use vstd::prelude::*;
use vstd::string::StringExecFns;

verus! {

/// Relies on `uuid::Uuid::new_v4`, carried as its 128-bit value. The draw is
/// random, so nothing is promised of the result: callers handle every value.
#[verifier::external_body]
pub(crate) fn fresh_id() -> u128 {
    uuid::Uuid::new_v4().as_u128()
}

/// The lowercase hexadecimal digit for a value below sixteen.
pub open spec fn hex_char(n: int) -> char {
    if n == 0 {
        '0'
    } else if n == 1 {
        '1'
    } else if n == 2 {
        '2'
    } else if n == 3 {
        '3'
    } else if n == 4 {
        '4'
    } else if n == 5 {
        '5'
    } else if n == 6 {
        '6'
    } else if n == 7 {
        '7'
    } else if n == 8 {
        '8'
    } else if n == 9 {
        '9'
    } else if n == 10 {
        'a'
    } else if n == 11 {
        'b'
    } else if n == 12 {
        'c'
    } else if n == 13 {
        'd'
    } else if n == 14 {
        'e'
    } else {
        'f'
    }
}

/// `v` written as exactly `d` hexadecimal digits, most significant first.
pub open spec fn hex_digits(v: int, d: nat) -> Seq<char>
    decreases d,
{
    if d == 0 {
        Seq::empty()
    } else {
        hex_digits(v / 16, (d - 1) as nat).push(hex_char(v % 16))
    }
}

pub proof fn lemma_hex_digits_len(v: int, d: nat)
    ensures
        hex_digits(v, d).len() == d,
    decreases d,
{
    if d > 0 {
        lemma_hex_digits_len(v / 16, (d - 1) as nat);
    }
}

/// The canonical hyphenated form of a 128-bit identifier: five groups of
/// 8, 4, 4, 4 and 12 hexadecimal digits.
pub open spec fn id_chars(id: u128) -> Seq<char> {
    hex_digits(id as int / 0x1000000000000000000000000, 8) + seq!['-'] + hex_digits(
        (id as int / 0x100000000000000000000) % 0x10000,
        4,
    ) + seq!['-'] + hex_digits((id as int / 0x10000000000000000) % 0x10000, 4) + seq!['-']
        + hex_digits((id as int / 0x1000000000000) % 0x10000, 4) + seq!['-'] + hex_digits(
        id as int % 0x1000000000000,
        12,
    )
}

/// One hexadecimal digit as a string slice.
fn hex_char_str(n: u128) -> (r: &'static str)
    requires
        n < 16,
    ensures
        r@ =~= seq![hex_char(n as int)],
{
    proof {
        reveal_strlit("0");
        reveal_strlit("1");
        reveal_strlit("2");
        reveal_strlit("3");
        reveal_strlit("4");
        reveal_strlit("5");
        reveal_strlit("6");
        reveal_strlit("7");
        reveal_strlit("8");
        reveal_strlit("9");
        reveal_strlit("a");
        reveal_strlit("b");
        reveal_strlit("c");
        reveal_strlit("d");
        reveal_strlit("e");
        reveal_strlit("f");
    }
    if n == 0 {
        "0"
    } else if n == 1 {
        "1"
    } else if n == 2 {
        "2"
    } else if n == 3 {
        "3"
    } else if n == 4 {
        "4"
    } else if n == 5 {
        "5"
    } else if n == 6 {
        "6"
    } else if n == 7 {
        "7"
    } else if n == 8 {
        "8"
    } else if n == 9 {
        "9"
    } else if n == 10 {
        "a"
    } else if n == 11 {
        "b"
    } else if n == 12 {
        "c"
    } else if n == 13 {
        "d"
    } else if n == 14 {
        "e"
    } else {
        "f"
    }
}

/// Appends `v` as exactly `d` hexadecimal digits, most significant first.
fn push_hex(out: &mut String, v: u128, d: usize)
    ensures
        final(out)@ == old(out)@ + hex_digits(v as int, d as nat),
    decreases d,
{
    if d == 0 {
        assert(out@ + hex_digits(v as int, 0) =~= out@);
        return ;
    }
    push_hex(out, v / 16, d - 1);
    let digit = v % 16;
    out.append(hex_char_str(digit));
    proof {
        lemma_hex_digits_len(v as int / 16, (d - 1) as nat);
        assert(out@ =~= old(out)@ + hex_digits(v as int, d as nat));
    }
}

/// The identifier written in its canonical hyphenated hexadecimal form.
pub fn id_string(id: u128) -> (r: String)
    ensures
        r@ == id_chars(id),
{
    proof {
        reveal_strlit("-");
    }
    let mut s = String::new();
    push_hex(&mut s, id / 0x1000000000000000000000000, 8);
    s.append("-");
    push_hex(&mut s, (id / 0x100000000000000000000) % 0x10000, 4);
    s.append("-");
    push_hex(&mut s, (id / 0x10000000000000000) % 0x10000, 4);
    s.append("-");
    push_hex(&mut s, (id / 0x1000000000000) % 0x10000, 4);
    s.append("-");
    push_hex(&mut s, id % 0x1000000000000, 12);
    proof {
        lemma_hex_digits_len(id as int / 0x1000000000000000000000000, 8);
        lemma_hex_digits_len((id as int / 0x100000000000000000000) % 0x10000, 4);
        lemma_hex_digits_len((id as int / 0x10000000000000000) % 0x10000, 4);
        lemma_hex_digits_len((id as int / 0x1000000000000) % 0x10000, 4);
        lemma_hex_digits_len(id as int % 0x1000000000000, 12);
        assert(s@ =~= id_chars(id));
    }
    s
}

} // verus!
