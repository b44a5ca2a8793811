use vstd::prelude::*;
use vstd::string::*;

verus! {

/// The upper-case hexadecimal digit of a value below 16.
pub open spec fn hex_digit(d: int) -> char {
    if d == 0 {
        '0'
    } else if d == 1 {
        '1'
    } else if d == 2 {
        '2'
    } else if d == 3 {
        '3'
    } else if d == 4 {
        '4'
    } else if d == 5 {
        '5'
    } else if d == 6 {
        '6'
    } else if d == 7 {
        '7'
    } else if d == 8 {
        '8'
    } else if d == 9 {
        '9'
    } else if d == 10 {
        'A'
    } else if d == 11 {
        'B'
    } else if d == 12 {
        'C'
    } else if d == 13 {
        'D'
    } else if d == 14 {
        'E'
    } else {
        'F'
    }
}

/// The value of a hexadecimal digit of either case.
pub open spec fn hex_value(c: char) -> Option<int> {
    if '0' <= c <= '9' {
        Some(c as int - '0' as int)
    } else if 'A' <= c <= 'F' {
        Some(c as int - 'A' as int + 10)
    } else if 'a' <= c <= 'f' {
        Some(c as int - 'a' as int + 10)
    } else {
        None
    }
}

/// A number in upper-case hexadecimal, without prefix or leading zeros.
pub open spec fn hex_upper(n: nat) -> Seq<char>
    decreases n,
{
    if n < 16 {
        seq![hex_digit(n as int)]
    } else {
        hex_upper(n / 16).push(hex_digit((n % 16) as int))
    }
}

/// The digits of a stack of digit values, the last pushed first.
pub open spec fn unstacked(stack: Seq<u8>) -> Seq<char>
    decreases stack.len(),
{
    if stack.len() == 0 {
        Seq::empty()
    } else {
        seq![hex_digit(stack.last() as int)] + unstacked(stack.drop_last())
    }
}

/// The number that the hexadecimal digits at the head of a text spell,
/// continuing from `acc`.
pub open spec fn hex_prefix_from(s: Seq<char>, acc: nat) -> nat
    decreases s.len(),
{
    if s.len() == 0 {
        acc
    } else {
        match hex_value(s.first()) {
            Some(v) => hex_prefix_from(s.drop_first(), (acc * 16 + v) as nat),
            None => acc,
        }
    }
}

/// The number that the hexadecimal digits at the head of a text spell.
pub open spec fn leading_hex(s: Seq<char>) -> nat {
    hex_prefix_from(s, 0)
}

/// One hexadecimal digit as a string.
fn digit_str(d: u8) -> (r: &'static str)
    requires
        d < 16,
    ensures
        r@ == seq![hex_digit(d as int)],
{
    proof {
        reveal_strlit("0");
        reveal_strlit("1");
        reveal_strlit("2");
        reveal_strlit("3");
        reveal_strlit("4");
        reveal_strlit("5");
        reveal_strlit("6");
        reveal_strlit("7");
        reveal_strlit("8");
        reveal_strlit("9");
        reveal_strlit("A");
        reveal_strlit("B");
        reveal_strlit("C");
        reveal_strlit("D");
        reveal_strlit("E");
        reveal_strlit("F");
    }
    let r = match d {
        0 => "0",
        1 => "1",
        2 => "2",
        3 => "3",
        4 => "4",
        5 => "5",
        6 => "6",
        7 => "7",
        8 => "8",
        9 => "9",
        10 => "A",
        11 => "B",
        12 => "C",
        13 => "D",
        14 => "E",
        _ => "F",
    };
    assert(r@ =~= seq![hex_digit(d as int)]);
    r
}

/// Writes a number in upper-case hexadecimal.
pub fn to_hex_upper(n: u64) -> (r: String)
    ensures
        r@ == hex_upper(n as nat),
{
    let mut stack: Vec<u8> = Vec::new();
    let mut m: u64 = n;
    while m >= 16
        invariant
            hex_upper(n as nat) == hex_upper(m as nat) + unstacked(stack@),
            forall|i: int| 0 <= i < stack@.len() ==> stack@[i] < 16,
        decreases m,
    {
        let d = (m % 16) as u8;
        let ghost before = stack@;
        stack.push(d);
        proof {
            assert(stack@.drop_last() == before);
            assert(hex_upper(m as nat) == hex_upper((m / 16) as nat).push(hex_digit(d as int)));
            assert(hex_upper((m / 16) as nat).push(hex_digit(d as int)) + unstacked(before)
                =~= hex_upper((m / 16) as nat) + unstacked(stack@));
        }
        m = m / 16;
    }
    let mut out = String::new();
    out.append(digit_str(m as u8));
    let mut i: usize = stack.len();
    proof {
        assert(stack@.take(i as int) == stack@);
        assert(out@ =~= hex_upper(m as nat));
    }
    while i > 0
        invariant
            i <= stack@.len(),
            forall|j: int| 0 <= j < stack@.len() ==> stack@[j] < 16,
            out@ + unstacked(stack@.take(i as int)) == hex_upper(n as nat),
        decreases i,
    {
        let ghost before = out@;
        let ghost top = stack@.take(i as int);
        i = i - 1;
        out.append(digit_str(stack[i]));
        proof {
            assert(top.drop_last() == stack@.take(i as int));
            assert(top.last() == stack@[i as int]);
            assert(before + unstacked(top) =~= out@ + unstacked(stack@.take(i as int)));
        }
    }
    proof {
        assert(stack@.take(0) =~= Seq::<u8>::empty());
        assert(out@ + Seq::<char>::empty() =~= out@);
    }
    out
}

/// The digits at the head of a text count from the left, so a number's
/// own digits before a text spell the number and then go on with the text.
pub proof fn lemma_hex_prefix_of_digits(n: nat, rest: Seq<char>)
    ensures
        leading_hex(hex_upper(n) + rest) == hex_prefix_from(rest, n),
    decreases n,
{
    if n < 16 {
        let s = hex_upper(n) + rest;
        assert(s.first() == hex_digit(n as int));
        assert(s.drop_first() =~= rest);
        assert(hex_value(hex_digit(n as int)) == Some(n as int));
    } else {
        let d = hex_digit((n % 16) as int);
        let longer = seq![d] + rest;
        lemma_hex_prefix_of_digits(n / 16, longer);
        assert(hex_upper(n) + rest =~= hex_upper(n / 16) + longer);
        assert(longer.first() == d);
        assert(longer.drop_first() =~= rest);
        assert(hex_value(d) == Some((n % 16) as int));
    }
}

/// Reading back the hexadecimal digits of a number gives the number,
/// whatever follows them, as long as that is no further digit.
pub proof fn lemma_hex_round_trip(n: nat, rest: Seq<char>)
    requires
        rest.len() > 0 ==> hex_value(rest.first()) is None,
    ensures
        leading_hex(hex_upper(n) + rest) == n,
{
    lemma_hex_prefix_of_digits(n, rest);
}

} // verus!
