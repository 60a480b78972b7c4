//! Small helpers for rendering diagnostics as text: decimal numbers and
//! single characters as strings.

use vstd::prelude::*;

verus! {

/// The character for one decimal digit.
pub open spec fn decimal_digit(d: nat) -> char {
    if d == 0 {
        '0'
    } else if d == 1 {
        '1'
    } else if d == 2 {
        '2'
    } else if d == 3 {
        '3'
    } else if d == 4 {
        '4'
    } else if d == 5 {
        '5'
    } else if d == 6 {
        '6'
    } else if d == 7 {
        '7'
    } else if d == 8 {
        '8'
    } else {
        '9'
    }
}

/// The usual decimal rendering of a number, most significant digit first,
/// with no leading zeros (a single zero for zero itself).
pub open spec fn spec_decimal(n: nat) -> Seq<char>
    decreases n,
{
    if n < 10 {
        seq![decimal_digit(n)]
    } else {
        spec_decimal(n / 10) + seq![decimal_digit(n % 10)]
    }
}

/// The string slice holding one decimal digit.
fn digit_str(d: usize) -> (r: &'static str)
    requires
        d < 10,
    ensures
        r@ == seq![decimal_digit(d as nat)],
{
    match d {
        0 => {
            proof {
                reveal_strlit("0");
                assert("0"@ =~= seq![decimal_digit(0)]);
            }
            "0"
        }
        1 => {
            proof {
                reveal_strlit("1");
                assert("1"@ =~= seq![decimal_digit(1)]);
            }
            "1"
        }
        2 => {
            proof {
                reveal_strlit("2");
                assert("2"@ =~= seq![decimal_digit(2)]);
            }
            "2"
        }
        3 => {
            proof {
                reveal_strlit("3");
                assert("3"@ =~= seq![decimal_digit(3)]);
            }
            "3"
        }
        4 => {
            proof {
                reveal_strlit("4");
                assert("4"@ =~= seq![decimal_digit(4)]);
            }
            "4"
        }
        5 => {
            proof {
                reveal_strlit("5");
                assert("5"@ =~= seq![decimal_digit(5)]);
            }
            "5"
        }
        6 => {
            proof {
                reveal_strlit("6");
                assert("6"@ =~= seq![decimal_digit(6)]);
            }
            "6"
        }
        7 => {
            proof {
                reveal_strlit("7");
                assert("7"@ =~= seq![decimal_digit(7)]);
            }
            "7"
        }
        8 => {
            proof {
                reveal_strlit("8");
                assert("8"@ =~= seq![decimal_digit(8)]);
            }
            "8"
        }
        _ => {
            proof {
                reveal_strlit("9");
                assert("9"@ =~= seq![decimal_digit(9)]);
            }
            "9"
        }
    }
}

/// Append the decimal rendering of `n` to `s`.
pub fn push_decimal(s: &mut String, n: usize)
    ensures
        final(s)@ == old(s)@ + spec_decimal(n as nat),
    decreases n,
{
    if n < 10 {
        s.append(digit_str(n));
    } else {
        push_decimal(s, n / 10);
        s.append(digit_str(n % 10));
        proof {
            assert(old(s)@ + spec_decimal((n / 10) as nat) + seq![decimal_digit((n % 10) as nat)]
                =~= old(s)@ + spec_decimal(n as nat));
        }
    }
}

/// The decimal rendering of `n` as a fresh string.
pub fn decimal_string(n: usize) -> (r: String)
    ensures
        r@ == spec_decimal(n as nat),
{
    let mut s = String::new();
    push_decimal(&mut s, n);
    proof {
        assert(s@ =~= spec_decimal(n as nat));
    }
    s
}

/// Relies on `alloc::string::String::from` for `char`: the returned
/// string holds exactly the one given character.
#[verifier::external_body]
pub fn char_to_string(c: char) -> (r: String)
    ensures
        r@ == seq![c],
{
    String::from(c)
}


/// The views of a sequence of owned strings.
pub open spec fn string_views(msgs: Seq<String>) -> Seq<Seq<char>> {
    msgs.map_values(|m: String| m@)
}

/// The given lines joined by newlines; the empty string for none.
pub open spec fn spec_join_newline(msgs: Seq<Seq<char>>) -> Seq<char>
    decreases msgs.len(),
{
    if msgs.len() == 0 {
        Seq::empty()
    } else if msgs.len() == 1 {
        msgs[0]
    } else {
        msgs[0] + "\n"@ + spec_join_newline(msgs.drop_first())
    }
}

/// Joining one more line appends a newline and the line.
pub proof fn lemma_join_newline_push(msgs: Seq<Seq<char>>, m: Seq<char>)
    ensures
        spec_join_newline(msgs.push(m)) == if msgs.len() == 0 {
            m
        } else {
            spec_join_newline(msgs) + "\n"@ + m
        },
    decreases msgs.len(),
{
    if msgs.len() == 0 {
        assert(msgs.push(m) =~= seq![m]);
        assert(seq![m][0] == m);
        assert(spec_join_newline(msgs.push(m)) == m);
    } else if msgs.len() == 1 {
        assert(msgs.push(m).drop_first() =~= seq![m]);
        assert(msgs.push(m)[0] == msgs[0]);
        assert(seq![m][0] == m);
        assert(spec_join_newline(seq![m]) == m);
        assert(spec_join_newline(msgs.push(m)) == spec_join_newline(msgs) + "\n"@ + m);
    } else {
        lemma_join_newline_push(msgs.drop_first(), m);
        assert(msgs.push(m).drop_first() =~= msgs.drop_first().push(m));
        assert(msgs.push(m)[0] == msgs[0]);
        assert(spec_join_newline(msgs.push(m)) =~= spec_join_newline(msgs) + "\n"@ + m);
    }
}

/// Join owned lines by newlines.
pub fn join_lines(msgs: &Vec<String>) -> (r: String)
    ensures
        r@ == spec_join_newline(string_views(msgs@)),
{
    let mut out = String::new();
    let mut k: usize = 0;
    while k < msgs.len()
        invariant
            k <= msgs@.len(),
            out@ == spec_join_newline(string_views(msgs@).take(k as int)),
        decreases msgs@.len() - k,
    {
        if k > 0 {
            out.append("\n");
        }
        out.append(msgs[k].as_str());
        proof {
            lemma_join_newline_push(
                string_views(msgs@).take(k as int),
                string_views(msgs@)[k as int],
            );
            assert(string_views(msgs@).take(k as int + 1) =~= string_views(msgs@).take(
                k as int,
            ).push(string_views(msgs@)[k as int]));
            if k == 0 {
                assert(out@ =~= string_views(msgs@)[0]);
            }
        }
        k = k + 1;
    }
    proof {
        assert(string_views(msgs@).take(msgs@.len() as int) =~= string_views(msgs@));
    }
    out
}

} // verus!
