//! Content as literals of the generated source: a text as a raw string
//! literal, a number in decimal, pixel bytes as a bracketed list.

use vstd::prelude::*;
use vstd::string::*;

verus! {

/// A text as a raw string literal with its closing semicolon: `R"(`, the text
/// as it stands, `)";`.
pub open spec fn raw_literal(text: Seq<char>) -> Seq<char> {
    "R\"("@ + text + ")\";"@
}

/// The two characters that close a raw string literal stand in `s` at index `i`.
pub open spec fn closing_at(s: Seq<char>, i: int) -> bool {
    0 <= i && i + 1 < s.len() && s[i] == ')' && s[i + 1] == '"'
}

/// The raw string literal of a text that nowhere holds the two closing
/// characters is closed at its end and nowhere before.
pub proof fn lemma_raw_literal_closes_at_its_end(text: Seq<char>)
    requires
        forall|i: int| !closing_at(text, i),
    ensures
        forall|i: int| closing_at(raw_literal(text), i) <==> i == text.len() + 3,
{
    reveal_strlit("R\"(");
    reveal_strlit(")\";");
    let literal = raw_literal(text);
    assert forall|i: int| closing_at(literal, i) <==> i == text.len() + 3 by {
        if 3 <= i && i + 1 < text.len() + 3 {
            assert(!closing_at(text, i - 3));
            assert(literal[i] == text[i - 3] && literal[i + 1] == text[i - 2]);
        }
    }
}

/// The character of the decimal digit `d`.
pub open spec fn digit(d: int) -> char {
    if d == 0 {
        '0'
    } else if d == 1 {
        '1'
    } else if d == 2 {
        '2'
    } else if d == 3 {
        '3'
    } else if d == 4 {
        '4'
    } else if d == 5 {
        '5'
    } else if d == 6 {
        '6'
    } else if d == 7 {
        '7'
    } else if d == 8 {
        '8'
    } else {
        '9'
    }
}

/// The decimal numeral of `n`, without leading zeros.
pub open spec fn decimal(n: nat) -> Seq<char>
    decreases n,
{
    if n < 10 {
        seq![digit(n as int)]
    } else {
        decimal(n / 10).push(digit((n % 10) as int))
    }
}

/// The number that a decimal numeral stands for.
pub open spec fn numeral_value(digits: Seq<char>) -> nat
    decreases digits.len(),
{
    if digits.len() == 0 {
        0
    } else {
        (numeral_value(digits.drop_last()) * 10 + (digits.last() as int - '0' as int)) as nat
    }
}

/// The decimal numeral of `n` stands for `n`, and it begins with a zero only
/// where `n` is zero.
pub proof fn lemma_decimal_stands_for(n: nat)
    ensures
        decimal(n).len() >= 1,
        numeral_value(decimal(n)) == n,
        decimal(n)[0] == '0' <==> n == 0,
    decreases n,
{
    let last = (n % 10) as int;
    assert(digit(last) as int - '0' as int == last);
    assert(decimal(n).last() == digit(last));
    if n < 10 {
        assert(decimal(n).drop_last() =~= Seq::<char>::empty());
        assert(numeral_value(Seq::<char>::empty()) == 0);
    } else {
        lemma_decimal_stands_for(n / 10);
        assert(decimal(n).drop_last() =~= decimal(n / 10));
        assert(decimal(n)[0] == decimal(n / 10)[0]);
    }
}

/// The decimal numerals of `bytes`, in order, with `, ` between neighbours.
pub open spec fn byte_items(bytes: Seq<u8>) -> Seq<char>
    decreases bytes.len(),
{
    if bytes.len() == 0 {
        Seq::empty()
    } else if bytes.len() == 1 {
        decimal(bytes[0] as nat)
    } else {
        byte_items(bytes.drop_last()) + ", "@ + decimal(bytes.last() as nat)
    }
}

/// Bytes as a bracketed list: `[`, the items, `]`.
pub open spec fn byte_array(bytes: Seq<u8>) -> Seq<char> {
    "["@ + byte_items(bytes) + "]"@
}

/// Wraps the contents of a text file into a raw string literal.
///
/// Quotes and backslashes pass through as they are, and so does everything
/// else: a text that holds `)"` ends the literal early.
pub fn make_cpp_contents_from_file_contents(file_contents: String) -> (literal: String)
    ensures
        literal@ == raw_literal(file_contents@),
{
    let mut literal = String::from_str("R\"(");
    literal.append(file_contents.as_str());
    literal.append(")\";");
    literal
}

/// The one-character text of the digit `d`.
fn digit_str(d: u64) -> (s: &'static str)
    requires
        d < 10,
    ensures
        s@ == seq![digit(d as int)],
{
    proof {
        reveal_strlit("0");
        reveal_strlit("1");
        reveal_strlit("2");
        reveal_strlit("3");
        reveal_strlit("4");
        reveal_strlit("5");
        reveal_strlit("6");
        reveal_strlit("7");
        reveal_strlit("8");
        reveal_strlit("9");
    }
    let s: &'static str = if d == 0 {
        "0"
    } else if d == 1 {
        "1"
    } else if d == 2 {
        "2"
    } else if d == 3 {
        "3"
    } else if d == 4 {
        "4"
    } else if d == 5 {
        "5"
    } else if d == 6 {
        "6"
    } else if d == 7 {
        "7"
    } else if d == 8 {
        "8"
    } else {
        "9"
    };
    assert(s@ =~= seq![digit(d as int)]);
    s
}

/// Appends the decimal numeral of `n` to `out`.
pub fn push_decimal(out: &mut String, n: u64)
    ensures
        final(out)@ == old(out)@ + decimal(n as nat),
    decreases n,
{
    if n >= 10 {
        push_decimal(out, n / 10);
    }
    out.append(digit_str(n % 10));
}

/// Appends `bytes` as a bracketed list to `out`.
pub fn push_byte_array(out: &mut String, bytes: &Vec<u8>)
    ensures
        final(out)@ == old(out)@ + byte_array(bytes@),
{
    out.append("[");
    let ghost opened = out@;
    let mut i: usize = 0;
    while i < bytes.len()
        invariant
            i <= bytes.len(),
            out@ == opened + byte_items(bytes@.take(i as int)),
        decreases bytes.len() - i,
    {
        if i > 0 {
            out.append(", ");
        }
        push_decimal(out, bytes[i] as u64);
        proof {
            let next = bytes@.take(i + 1);
            assert(next.drop_last() =~= bytes@.take(i as int));
            assert(next.last() == bytes@[i as int]);
        }
        i = i + 1;
    }
    assert(bytes@.take(i as int) =~= bytes@);
    out.append("]");
}

} // verus!
