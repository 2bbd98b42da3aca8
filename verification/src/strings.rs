//! Small verified string utilities: decimal formatting of identifiers and
//! string comparison, shared by the tree flattener and the selection parser.

use vstd::prelude::*;

verus! {

/// The decimal digit character for a value below ten.
pub open spec fn spec_digit(d: nat) -> char {
    if d == 0 {
        '0'
    } else if d == 1 {
        '1'
    } else if d == 2 {
        '2'
    } else if d == 3 {
        '3'
    } else if d == 4 {
        '4'
    } else if d == 5 {
        '5'
    } else if d == 6 {
        '6'
    } else if d == 7 {
        '7'
    } else if d == 8 {
        '8'
    } else {
        '9'
    }
}

/// The decimal representation of `n`, most significant digit first,
/// with no leading zeros (a single `'0'` for zero).
pub open spec fn spec_u64_digits(n: nat) -> Seq<char>
    decreases n,
{
    if n < 10 {
        seq![spec_digit(n)]
    } else {
        spec_u64_digits(n / 10) + seq![spec_digit(n % 10)]
    }
}

fn digit_str(d: u64) -> (r: &'static str)
    requires
        d < 10,
    ensures
        r@ == seq![spec_digit(d as nat)],
{
    if d == 0 {
        proof {
            reveal_strlit("0");
            assert("0"@ =~= seq![spec_digit(0)]);
        }
        "0"
    } else if d == 1 {
        proof {
            reveal_strlit("1");
            assert("1"@ =~= seq![spec_digit(1)]);
        }
        "1"
    } else if d == 2 {
        proof {
            reveal_strlit("2");
            assert("2"@ =~= seq![spec_digit(2)]);
        }
        "2"
    } else if d == 3 {
        proof {
            reveal_strlit("3");
            assert("3"@ =~= seq![spec_digit(3)]);
        }
        "3"
    } else if d == 4 {
        proof {
            reveal_strlit("4");
            assert("4"@ =~= seq![spec_digit(4)]);
        }
        "4"
    } else if d == 5 {
        proof {
            reveal_strlit("5");
            assert("5"@ =~= seq![spec_digit(5)]);
        }
        "5"
    } else if d == 6 {
        proof {
            reveal_strlit("6");
            assert("6"@ =~= seq![spec_digit(6)]);
        }
        "6"
    } else if d == 7 {
        proof {
            reveal_strlit("7");
            assert("7"@ =~= seq![spec_digit(7)]);
        }
        "7"
    } else if d == 8 {
        proof {
            reveal_strlit("8");
            assert("8"@ =~= seq![spec_digit(8)]);
        }
        "8"
    } else {
        proof {
            reveal_strlit("9");
            assert("9"@ =~= seq![spec_digit(9)]);
        }
        "9"
    }
}

/// Every character of the decimal representation is a digit.
pub proof fn lemma_u64_digits_are_digits(n: nat)
    ensures
        forall|i: int|
            0 <= i < spec_u64_digits(n).len() ==> '0' <= #[trigger] spec_u64_digits(n)[i]
                <= '9',
    decreases n,
{
    if n >= 10 {
        lemma_u64_digits_are_digits(n / 10);
        assert(forall|i: int|
            0 <= i < spec_u64_digits(n / 10).len() ==> spec_u64_digits(n)[i]
                == spec_u64_digits(n / 10)[i]);
    }
}

/// Formats `n` in decimal, exactly as `spec_u64_digits` describes.
pub fn u64_to_string(n: u64) -> (r: String)
    ensures
        r@ == spec_u64_digits(n as nat),
    decreases n,
{
    if n < 10 {
        digit_str(n).to_owned()
    } else {
        let mut s = u64_to_string(n / 10);
        s.append(digit_str(n % 10));
        s
    }
}

/// The index of the first occurrence of `c` in `s`, or a negative value
/// when `s` holds none.
pub open spec fn spec_find(s: Seq<char>, c: char) -> int
    decreases s,
{
    if s.len() == 0 {
        -1
    } else if s[0] == c {
        0
    } else {
        let rest = spec_find(s.drop_first(), c);
        if rest < 0 {
            -1
        } else {
            1 + rest
        }
    }
}

pub proof fn lemma_find_at(s: Seq<char>, c: char, i: int)
    requires
        0 <= i < s.len(),
        s[i] == c,
        forall|j: int| 0 <= j < i ==> s[j] != c,
    ensures
        spec_find(s, c) == i,
    decreases s.len(),
{
    if i > 0 {
        let rest = s.drop_first();
        assert(forall|j: int| 0 <= j < i - 1 ==> rest[j] == s[j + 1] && rest[j] != c);
        assert(rest[i - 1] == c);
        lemma_find_at(rest, c, i - 1);
    }
}

pub proof fn lemma_find_none(s: Seq<char>, c: char)
    requires
        forall|j: int| 0 <= j < s.len() ==> s[j] != c,
    ensures
        spec_find(s, c) < 0,
    decreases s.len(),
{
    if s.len() > 0 {
        let rest = s.drop_first();
        assert(forall|j: int| 0 <= j < rest.len() ==> rest[j] == s[j + 1] && rest[j] != c);
        lemma_find_none(rest, c);
    }
}

/// Finds the first occurrence of `c` in `s`, as `spec_find` describes it.
pub fn find_char(s: &str, c: char) -> (r: Option<usize>)
    ensures
        match r {
            Some(i) => i < s@.len() && s@[i as int] == c && spec_find(s@, c) == i as int,
            None => spec_find(s@, c) < 0,
        },
{
    let n = s.unicode_len();
    let mut i: usize = 0;
    while i < n
        invariant
            i <= n,
            n == s@.len(),
            forall|j: int| 0 <= j < i ==> s@[j] != c,
        decreases n - i,
    {
        if s.get_char(i) == c {
            proof {
                lemma_find_at(s@, c, i as int);
            }
            return Some(i);
        }
        i += 1;
    }
    proof {
        lemma_find_none(s@, c);
    }
    None
}

/// A found index lies inside the string.
proof fn lemma_find_bound(s: Seq<char>, c: char)
    ensures
        spec_find(s, c) < s.len(),
    decreases s.len(),
{
    if s.len() > 0 && s[0] != c {
        lemma_find_bound(s.drop_first(), c);
    }
}

/// The segments of `s` between occurrences of `c`, in order; a string
/// without the separator is one segment, and each separator starts a new
/// (possibly empty) segment.
pub open spec fn spec_split(s: Seq<char>, c: char) -> Seq<Seq<char>>
    decreases s.len(),
    via spec_split_decreases
{
    let i = spec_find(s, c);
    if i < 0 {
        seq![s]
    } else {
        seq![s.subrange(0, i)] + spec_split(s.subrange(i + 1, s.len() as int), c)
    }
}

#[via_fn]
proof fn spec_split_decreases(s: Seq<char>, c: char) {
    lemma_find_bound(s, c);
}

/// Splits `s` at every occurrence of `c`, exactly as `spec_split`
/// describes.
pub fn split_char(s: &str, c: char) -> (r: Vec<String>)
    ensures
        r@.map_values(|x: String| x@) == spec_split(s@, c),
{
    let mut out: Vec<String> = Vec::new();
    let mut rest: String = s.to_owned();
    let ghost mut done: Seq<Seq<char>> = Seq::empty();
    proof {
        assert(spec_split(s@, c) =~= done + spec_split(rest@, c));
        assert(out@.map_values(|x: String| x@) =~= done);
    }
    loop
        invariant_except_break
            spec_split(s@, c) == done + spec_split(rest@, c),
            out@.map_values(|x: String| x@) == done,
        ensures
            out@.map_values(|x: String| x@) == spec_split(s@, c),
        decreases rest@.len(),
    {
        let n = rest.as_str().unicode_len();
        match find_char(rest.as_str(), c) {
            Some(i) => {
                let piece = rest.as_str().substring_char(0, i).to_owned();
                let tail = rest.as_str().substring_char(i + 1, n).to_owned();
                out.push(piece);
                proof {
                    let d2 = done.push(rest@.subrange(0, i as int));
                    assert(out@.map_values(|x: String| x@) =~= d2);
                    assert(done + (seq![rest@.subrange(0, i as int)] + spec_split(tail@, c))
                        =~= d2 + spec_split(tail@, c));
                    done = d2;
                }
                rest = tail;
            },
            None => {
                let ghost rv = rest@;
                out.push(rest);
                proof {
                    assert(spec_split(rv, c) == seq![rv]);
                    assert(out@.map_values(|x: String| x@) =~= done.push(rv));
                    assert(done + seq![rv] =~= done.push(rv));
                }
                break ;
            },
        }
    }
    out
}

/// String-slice equality, stated over the views.
pub fn str_eq(a: &str, b: &str) -> (r: bool)
    ensures
        r == (a@ == b@),
{
    let sa: String = a.to_owned();
    let sb: String = b.to_owned();
    sa == sb
}

} // verus!
