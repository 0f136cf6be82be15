//! Decimal spellings of integers, used for generated names, labels, and
//! emitted assembly text.

use vstd::prelude::*;

verus! {

/// The decimal digit character for `d`.
pub open spec fn digit_char(d: int) -> char {
    if d == 0 {
        '0'
    } else if d == 1 {
        '1'
    } else if d == 2 {
        '2'
    } else if d == 3 {
        '3'
    } else if d == 4 {
        '4'
    } else if d == 5 {
        '5'
    } else if d == 6 {
        '6'
    } else if d == 7 {
        '7'
    } else if d == 8 {
        '8'
    } else {
        '9'
    }
}

/// The decimal spelling of a nonnegative integer, most significant digit
/// first, with no leading zeros.
pub open spec fn dec_chars(n: nat) -> Seq<char>
    decreases n,
{
    if n < 10 {
        seq![digit_char(n as int)]
    } else {
        dec_chars(n / 10).push(digit_char((n % 10) as int))
    }
}

/// The decimal spelling of an integer, with a leading minus sign when
/// negative.
pub open spec fn int_chars(v: int) -> Seq<char> {
    if v < 0 {
        seq!['-'] + dec_chars((-v) as nat)
    } else {
        dec_chars(v as nat)
    }
}

/// The model of a sequence of strings, element by element.
pub open spec fn string_views(ss: Seq<String>) -> Seq<Seq<char>>
    decreases ss,
{
    if ss.len() == 0 {
        Seq::empty()
    } else {
        string_views(ss.drop_last()).push(ss.last()@)
    }
}

/// `string_views` maps the sequence pointwise.
pub broadcast proof fn lemma_string_views(ss: Seq<String>)
    ensures
        #[trigger] string_views(ss).len() == ss.len(),
        forall|i: int| 0 <= i < ss.len() ==> string_views(ss)[i] == ss[i]@,
    decreases ss.len(),
{
    if ss.len() > 0 {
        lemma_string_views(ss.drop_last());
        assert(forall|i: int|
            0 <= i < ss.len() - 1 ==> string_views(ss)[i] == string_views(ss.drop_last())[i]);
        assert(forall|i: int| 0 <= i < ss.len() - 1 ==> ss.drop_last()[i] == ss[i]);
    }
}

/// The spelling of one decimal digit.
fn digit_str(d: u64) -> (s: &'static str)
    requires
        d < 10,
    ensures
        s@ =~= seq![digit_char(d as int)],
{
    proof {
        reveal_strlit("0");
        reveal_strlit("1");
        reveal_strlit("2");
        reveal_strlit("3");
        reveal_strlit("4");
        reveal_strlit("5");
        reveal_strlit("6");
        reveal_strlit("7");
        reveal_strlit("8");
        reveal_strlit("9");
    }
    if d == 0 {
        "0"
    } else if d == 1 {
        "1"
    } else if d == 2 {
        "2"
    } else if d == 3 {
        "3"
    } else if d == 4 {
        "4"
    } else if d == 5 {
        "5"
    } else if d == 6 {
        "6"
    } else if d == 7 {
        "7"
    } else if d == 8 {
        "8"
    } else {
        "9"
    }
}

/// Renders an unsigned integer in decimal.
pub fn u64_to_string(n: u64) -> (s: String)
    ensures
        s@ == dec_chars(n as nat),
    decreases n,
{
    if n < 10 {
        let s = digit_str(n).to_owned();
        proof {
            assert(s@ =~= dec_chars(n as nat));
        }
        s
    } else {
        let mut s = u64_to_string(n / 10);
        s.append(digit_str(n % 10));
        proof {
            assert(s@ =~= dec_chars(n as nat));
        }
        s
    }
}

/// Renders a signed integer in decimal.
pub fn i64_to_string(v: i64) -> (s: String)
    ensures
        s@ == int_chars(v as int),
{
    if v >= 0 {
        let s = u64_to_string(v as u64);
        s
    } else {
        let mag: u64 = ((-(v + 1)) as u64) + 1;
        proof {
            reveal_strlit("-");
        }
        let mut s = String::from_str("-");
        s.append(u64_to_string(mag).as_str());
        proof {
            assert(mag as int == -(v as int));
            assert(s@ =~= int_chars(v as int));
        }
        s
    }
}

/// Whether a byte can stand in an identifier: a letter, a digit, or an
/// underscore.
pub open spec fn is_word_byte(b: u8) -> bool {
    b == 95 || (48 <= b <= 57) || (65 <= b <= 90) || (97 <= b <= 122)
}

/// The one-character text of an ASCII letter, digit or underscore; any
/// other byte gives the empty text.
pub fn byte_str(b: u8) -> (s: &'static str)
    ensures
        is_word_byte(b) ==> s@ == seq![b as char],
        !is_word_byte(b) ==> s@ == Seq::<char>::empty(),
{
    proof {
        reveal_strlit("0");
        reveal_strlit("1");
        reveal_strlit("2");
        reveal_strlit("3");
        reveal_strlit("4");
        reveal_strlit("5");
        reveal_strlit("6");
        reveal_strlit("7");
        reveal_strlit("8");
        reveal_strlit("9");
        reveal_strlit("_");
        reveal_strlit("a");
        reveal_strlit("b");
        reveal_strlit("c");
        reveal_strlit("d");
        reveal_strlit("e");
        reveal_strlit("f");
        reveal_strlit("g");
        reveal_strlit("h");
        reveal_strlit("i");
        reveal_strlit("j");
        reveal_strlit("k");
        reveal_strlit("l");
        reveal_strlit("m");
        reveal_strlit("n");
        reveal_strlit("o");
        reveal_strlit("p");
        reveal_strlit("q");
        reveal_strlit("r");
        reveal_strlit("s");
        reveal_strlit("t");
        reveal_strlit("u");
        reveal_strlit("v");
        reveal_strlit("w");
        reveal_strlit("x");
        reveal_strlit("y");
        reveal_strlit("z");
        reveal_strlit("A");
        reveal_strlit("B");
        reveal_strlit("C");
        reveal_strlit("D");
        reveal_strlit("E");
        reveal_strlit("F");
        reveal_strlit("G");
        reveal_strlit("H");
        reveal_strlit("I");
        reveal_strlit("J");
        reveal_strlit("K");
        reveal_strlit("L");
        reveal_strlit("M");
        reveal_strlit("N");
        reveal_strlit("O");
        reveal_strlit("P");
        reveal_strlit("Q");
        reveal_strlit("R");
        reveal_strlit("S");
        reveal_strlit("T");
        reveal_strlit("U");
        reveal_strlit("V");
        reveal_strlit("W");
        reveal_strlit("X");
        reveal_strlit("Y");
        reveal_strlit("Z");
        reveal_strlit("");
    }
    match b {
        48 => "0", 49 => "1", 50 => "2", 51 => "3", 52 => "4",
        53 => "5", 54 => "6", 55 => "7", 56 => "8", 57 => "9",
        95 => "_",
        97 => "a", 98 => "b", 99 => "c", 100 => "d", 101 => "e", 102 => "f",
        103 => "g", 104 => "h", 105 => "i", 106 => "j", 107 => "k", 108 => "l",
        109 => "m", 110 => "n", 111 => "o", 112 => "p", 113 => "q", 114 => "r",
        115 => "s", 116 => "t", 117 => "u", 118 => "v", 119 => "w", 120 => "x",
        121 => "y", 122 => "z",
        65 => "A", 66 => "B", 67 => "C", 68 => "D", 69 => "E", 70 => "F",
        71 => "G", 72 => "H", 73 => "I", 74 => "J", 75 => "K", 76 => "L",
        77 => "M", 78 => "N", 79 => "O", 80 => "P", 81 => "Q", 82 => "R",
        83 => "S", 84 => "T", 85 => "U", 86 => "V", 87 => "W", 88 => "X",
        89 => "Y", 90 => "Z",
        _ => "",
    }
}

} // verus!
