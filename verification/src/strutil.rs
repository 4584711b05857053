//! Small verified string utilities: a character-wise prefix test and
//! decimal rendering of terminal dimensions.

use vstd::prelude::*;

verus! {

/// `p` is a prefix of `s`, character by character.
pub open spec fn prefix_of(p: Seq<char>, s: Seq<char>) -> bool {
    p.len() <= s.len() && s.take(p.len() as int) == p
}

/// Character-wise prefix test.
pub fn str_has_prefix(s: &str, p: &str) -> (b: bool)
    ensures
        b == prefix_of(p@, s@),
{
    let sl = s.unicode_len();
    let pl = p.unicode_len();
    if sl < pl {
        assert(!prefix_of(p@, s@));
        return false;
    }
    let mut i: usize = 0;
    while i < pl
        invariant
            i <= pl,
            pl == p@.len(),
            pl <= sl == s@.len(),
            forall|j: int| 0 <= j < i ==> s@[j] == p@[j],
        decreases pl - i,
    {
        if s.get_char(i) != p.get_char(i) {
            assert(s@.take(pl as int)[i as int] != p@[i as int]);
            return false;
        }
        i = i + 1;
    }
    assert(s@.take(pl as int) =~= p@);
    true
}

/// The decimal digit character for a value below ten.
pub open spec fn dec_digit(d: nat) -> char {
    if d == 0 {
        '0'
    } else if d == 1 {
        '1'
    } else if d == 2 {
        '2'
    } else if d == 3 {
        '3'
    } else if d == 4 {
        '4'
    } else if d == 5 {
        '5'
    } else if d == 6 {
        '6'
    } else if d == 7 {
        '7'
    } else if d == 8 {
        '8'
    } else {
        '9'
    }
}

/// The usual decimal rendering of a number: no sign, no leading zeros
/// (except for zero itself).
pub open spec fn dec_of(n: nat) -> Seq<char>
    decreases n,
{
    if n < 10 {
        seq![dec_digit(n)]
    } else {
        dec_of(n / 10).push(dec_digit(n % 10))
    }
}

/// The characters of a digit-value sequence read back to front.
spec fn rev_chars(ds: Seq<u8>) -> Seq<char> {
    Seq::new(ds.len(), |i: int| dec_digit(ds[ds.len() - 1 - i] as nat))
}

/// One decimal digit as a string slice.
fn digit_str(d: u8) -> (s: &'static str)
    requires
        d < 10,
    ensures
        s@ == seq![dec_digit(d as nat)],
{
    if d == 0 {
        proof { reveal_strlit("0"); }
        assert("0"@ =~= seq![dec_digit(0)]);
        "0"
    } else if d == 1 {
        proof { reveal_strlit("1"); }
        assert("1"@ =~= seq![dec_digit(1)]);
        "1"
    } else if d == 2 {
        proof { reveal_strlit("2"); }
        assert("2"@ =~= seq![dec_digit(2)]);
        "2"
    } else if d == 3 {
        proof { reveal_strlit("3"); }
        assert("3"@ =~= seq![dec_digit(3)]);
        "3"
    } else if d == 4 {
        proof { reveal_strlit("4"); }
        assert("4"@ =~= seq![dec_digit(4)]);
        "4"
    } else if d == 5 {
        proof { reveal_strlit("5"); }
        assert("5"@ =~= seq![dec_digit(5)]);
        "5"
    } else if d == 6 {
        proof { reveal_strlit("6"); }
        assert("6"@ =~= seq![dec_digit(6)]);
        "6"
    } else if d == 7 {
        proof { reveal_strlit("7"); }
        assert("7"@ =~= seq![dec_digit(7)]);
        "7"
    } else if d == 8 {
        proof { reveal_strlit("8"); }
        assert("8"@ =~= seq![dec_digit(8)]);
        "8"
    } else {
        proof { reveal_strlit("9"); }
        assert("9"@ =~= seq![dec_digit(9)]);
        "9"
    }
}

/// Render a terminal dimension in decimal.
pub fn dec_string(n: u16) -> (s: String)
    ensures
        s@ == dec_of(n as nat),
{
    let mut digits: Vec<u8> = Vec::new();
    let mut m: u16 = n;
    digits.push((m % 10) as u8);
    proof {
        assert(rev_chars(digits@) =~= seq![dec_digit((n % 10) as nat)]);
    }
    m = m / 10;
    while m > 0
        invariant
            digits@.len() > 0,
            forall|j: int| 0 <= j < digits@.len() ==> digits@[j] < 10,
            m > 0 ==> dec_of(n as nat) == dec_of(m as nat) + rev_chars(digits@),
            m == 0 ==> dec_of(n as nat) == rev_chars(digits@),
        decreases m,
    {
        let ghost ds_pre = digits@;
        let ghost m_pre = m as nat;
        let d = (m % 10) as u8;
        digits.push(d);
        m = m / 10;
        proof {
            assert(rev_chars(ds_pre.push(d)) =~= seq![dec_digit(d as nat)] + rev_chars(ds_pre));
            if m_pre < 10 {
                assert(dec_of(m_pre) == seq![dec_digit(m_pre)]);
                assert(dec_of(n as nat) =~= rev_chars(digits@));
            } else {
                assert(dec_of(m_pre) == dec_of(m_pre / 10).push(dec_digit(m_pre % 10)));
                assert(dec_of(m_pre) =~= dec_of(m_pre / 10) + seq![dec_digit(m_pre % 10)]);
                assert(dec_of(n as nat) =~= dec_of(m as nat) + rev_chars(digits@));
            }
        }
    }
    let mut s = String::new();
    let mut i: usize = digits.len();
    while i > 0
        invariant
            i <= digits@.len(),
            forall|j: int| 0 <= j < digits@.len() ==> digits@[j] < 10,
            dec_of(n as nat) == rev_chars(digits@),
            s@ == rev_chars(digits@).take(digits@.len() - i),
        decreases i,
    {
        let d = digits[i - 1];
        s.append(digit_str(d));
        i = i - 1;
        proof {
            assert(s@ =~= rev_chars(digits@).take(digits@.len() - i));
        }
    }
    proof {
        assert(rev_chars(digits@).take(digits@.len() as int) =~= rev_chars(digits@));
    }
    s
}

} // verus!
