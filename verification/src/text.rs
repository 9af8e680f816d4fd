use vstd::prelude::*;

verus! {

/// True of the ten ASCII digit characters.
pub open spec fn is_digit_char(c: char) -> bool {
    48 <= c as int && c as int <= 57
}

/// Numeric value of one ASCII digit character.
pub open spec fn digit_val(c: char) -> int {
    c as int - 48
}

/// The digit character for a value below ten.
pub open spec fn digit_char(d: int) -> char {
    if d == 0 {
        '0'
    } else if d == 1 {
        '1'
    } else if d == 2 {
        '2'
    } else if d == 3 {
        '3'
    } else if d == 4 {
        '4'
    } else if d == 5 {
        '5'
    } else if d == 6 {
        '6'
    } else if d == 7 {
        '7'
    } else if d == 8 {
        '8'
    } else {
        '9'
    }
}

/// The lowercase hexadecimal digit character for a value below sixteen.
pub open spec fn hex_char(d: int) -> char {
    if d < 10 {
        digit_char(d)
    } else if d == 10 {
        'a'
    } else if d == 11 {
        'b'
    } else if d == 12 {
        'c'
    } else if d == 13 {
        'd'
    } else if d == 14 {
        'e'
    } else {
        'f'
    }
}

/// The one-character string for a hexadecimal digit value.
pub(crate) fn hex_str(d: u64) -> (s: &'static str)
    requires
        d < 16,
    ensures
        s@ == seq![hex_char(d as int)],
{
    if d < 10 {
        digit_str(d)
    } else if d == 10 {
        proof {
            reveal_strlit("a");
            assert("a"@ =~= seq![hex_char(10)]);
        }
        "a"
    } else if d == 11 {
        proof {
            reveal_strlit("b");
            assert("b"@ =~= seq![hex_char(11)]);
        }
        "b"
    } else if d == 12 {
        proof {
            reveal_strlit("c");
            assert("c"@ =~= seq![hex_char(12)]);
        }
        "c"
    } else if d == 13 {
        proof {
            reveal_strlit("d");
            assert("d"@ =~= seq![hex_char(13)]);
        }
        "d"
    } else if d == 14 {
        proof {
            reveal_strlit("e");
            assert("e"@ =~= seq![hex_char(14)]);
        }
        "e"
    } else {
        proof {
            reveal_strlit("f");
            assert("f"@ =~= seq![hex_char(15)]);
        }
        "f"
    }
}

/// Value of a sequence of ASCII digits read in base ten.
pub open spec fn dec_val(ds: Seq<char>) -> int
    decreases ds.len(),
{
    if ds.len() == 0 {
        0
    } else {
        dec_val(ds.drop_last()) * 10 + digit_val(ds.last())
    }
}

/// Every character of the sequence is an ASCII digit.
pub open spec fn all_digits(ds: Seq<char>) -> bool {
    forall|i: int| 0 <= i < ds.len() ==> is_digit_char(ds[i])
}

/// Canonical base-ten rendering of a nonnegative number.
pub open spec fn dec_seq(n: int) -> Seq<char>
    decreases n,
{
    if n < 10 {
        seq![digit_char(n)]
    } else {
        dec_seq(n / 10) + seq![digit_char(n % 10)]
    }
}

/// The canonical rendering of a number is a nonempty run of digits.
pub proof fn lemma_dec_seq_digits(n: int)
    requires
        n >= 0,
    ensures
        all_digits(dec_seq(n)),
        dec_seq(n).len() > 0,
    decreases n,
{
    if n < 10 {
        assert(is_digit_char(digit_char(n)));
    } else {
        lemma_dec_seq_digits(n / 10);
        assert(is_digit_char(digit_char(n % 10)));
    }
}

/// Reading back the canonical rendering of a number gives the number.
pub proof fn lemma_dec_seq_val(n: int)
    requires
        n >= 0,
    ensures
        dec_val(dec_seq(n)) == n,
    decreases n,
{
    if n < 10 {
        assert(dec_seq(n).drop_last() =~= Seq::<char>::empty());
        assert(digit_val(digit_char(n)) == n);
        assert(dec_val(dec_seq(n)) == dec_val(Seq::<char>::empty()) * 10 + digit_val(
            digit_char(n),
        ));
    } else {
        lemma_dec_seq_val(n / 10);
        let whole = dec_seq(n / 10) + seq![digit_char(n % 10)];
        assert(whole.drop_last() =~= dec_seq(n / 10));
        assert(whole.last() == digit_char(n % 10));
        assert(digit_val(digit_char(n % 10)) == n % 10);
        assert(dec_val(whole) == dec_val(dec_seq(n / 10)) * 10 + digit_val(digit_char(n % 10)));
        assert((n / 10) * 10 + n % 10 == n);
    }
}

/// A sequence of digits denotes a nonnegative value.
pub proof fn lemma_dec_val_nonneg(ds: Seq<char>)
    requires
        all_digits(ds),
    ensures
        dec_val(ds) >= 0,
    decreases ds.len(),
{
    if ds.len() > 0 {
        assert(all_digits(ds.drop_last())) by {
            assert(forall|i: int|
                0 <= i < ds.len() - 1 ==> ds.drop_last()[i] == ds[i] && is_digit_char(ds[i]));
        }
        lemma_dec_val_nonneg(ds.drop_last());
    }
}

/// Reading more digits never shrinks the value: the value of a prefix is at
/// most the value of the whole digit run.
pub proof fn lemma_dec_val_prefix_le(ds: Seq<char>, m: int)
    requires
        all_digits(ds),
        0 <= m <= ds.len(),
    ensures
        dec_val(ds.take(m)) <= dec_val(ds),
    decreases ds.len() - m,
{
    if m < ds.len() {
        let t = ds.take(m + 1);
        assert(t.drop_last() =~= ds.take(m));
        assert(t.last() == ds[m]);
        assert(all_digits(ds.take(m))) by {
            assert(forall|i: int|
                0 <= i < m ==> ds.take(m)[i] == ds[i] && is_digit_char(ds[i]));
        }
        lemma_dec_val_nonneg(ds.take(m));
        assert(dec_val(t) == dec_val(ds.take(m)) * 10 + digit_val(ds[m]));
        assert(dec_val(ds.take(m)) <= dec_val(t)) by {
            assert(digit_val(ds[m]) >= 0);
            assert(dec_val(ds.take(m)) * 10 >= dec_val(ds.take(m))) by (nonlinear_arith)
                requires
                    dec_val(ds.take(m)) >= 0,
            ;
        }
        lemma_dec_val_prefix_le(ds, m + 1);
        assert(ds.take(ds.len() as int) =~= ds);
    } else {
        assert(ds.take(m) =~= ds);
    }
}

/// The one-character string for a digit value.
pub(crate) fn digit_str(d: u64) -> (s: &'static str)
    requires
        d < 10,
    ensures
        s@ == seq![digit_char(d as int)],
{
    if d == 0 {
        proof {
            reveal_strlit("0");
            assert("0"@ =~= seq![digit_char(0)]);
        }
        "0"
    } else if d == 1 {
        proof {
            reveal_strlit("1");
            assert("1"@ =~= seq![digit_char(1)]);
        }
        "1"
    } else if d == 2 {
        proof {
            reveal_strlit("2");
            assert("2"@ =~= seq![digit_char(2)]);
        }
        "2"
    } else if d == 3 {
        proof {
            reveal_strlit("3");
            assert("3"@ =~= seq![digit_char(3)]);
        }
        "3"
    } else if d == 4 {
        proof {
            reveal_strlit("4");
            assert("4"@ =~= seq![digit_char(4)]);
        }
        "4"
    } else if d == 5 {
        proof {
            reveal_strlit("5");
            assert("5"@ =~= seq![digit_char(5)]);
        }
        "5"
    } else if d == 6 {
        proof {
            reveal_strlit("6");
            assert("6"@ =~= seq![digit_char(6)]);
        }
        "6"
    } else if d == 7 {
        proof {
            reveal_strlit("7");
            assert("7"@ =~= seq![digit_char(7)]);
        }
        "7"
    } else if d == 8 {
        proof {
            reveal_strlit("8");
            assert("8"@ =~= seq![digit_char(8)]);
        }
        "8"
    } else {
        proof {
            reveal_strlit("9");
            assert("9"@ =~= seq![digit_char(9)]);
        }
        "9"
    }
}

/// Renders a number in base ten, most significant digit first.
pub fn u64_to_dec(n: u64) -> (s: String)
    ensures
        s@ == dec_seq(n as int),
    decreases n,
{
    if n < 10 {
        String::from_str(digit_str(n))
    } else {
        let rest = u64_to_dec(n / 10);
        rest.concat(digit_str(n % 10))
    }
}

} // verus!
