//! Decimal reading and writing of identifiers: external identifiers arrive
//! as text fields and node labels carry the identifier back in decimal form.
use vstd::prelude::*;
use vstd::string::StrSliceExecFns;
use vstd::string::StringExecFns;

verus! {

pub open spec fn digit_char(d: int) -> char {
    if d == 0 {
        '0'
    } else if d == 1 {
        '1'
    } else if d == 2 {
        '2'
    } else if d == 3 {
        '3'
    } else if d == 4 {
        '4'
    } else if d == 5 {
        '5'
    } else if d == 6 {
        '6'
    } else if d == 7 {
        '7'
    } else if d == 8 {
        '8'
    } else {
        '9'
    }
}

pub open spec fn is_digit_char(c: char) -> bool {
    '0' as int <= c as int && c as int <= '9' as int
}

pub open spec fn digit_val(c: char) -> int {
    c as int - '0' as int
}

/// The decimal spelling of `n`, most significant digit first.
pub open spec fn dec_digits(n: int) -> Seq<char>
    decreases n,
{
    if n < 10 {
        seq![digit_char(n)]
    } else {
        dec_digits(n / 10).push(digit_char(n % 10))
    }
}

/// The value of a sequence of decimal digit characters.
pub open spec fn digits_val(s: Seq<char>) -> int
    decreases s.len(),
{
    if s.len() == 0 {
        0
    } else {
        digits_val(s.drop_last()) * 10 + digit_val(s.last())
    }
}

pub open spec fn all_digits(s: Seq<char>) -> bool {
    forall|i: int| 0 <= i < s.len() ==> is_digit_char(#[trigger] s[i])
}

/// What a text field means as a non-negative integer: an optional leading
/// `+`, then at least one decimal digit, with a value that fits in `usize`.
pub open spec fn parse_spec(s: Seq<char>) -> Option<int> {
    let body = if s.len() > 0 && s[0] == '+' {
        s.subrange(1, s.len() as int)
    } else {
        s
    };
    if body.len() > 0 && all_digits(body) && digits_val(body) <= usize::MAX as int {
        Some(digits_val(body))
    } else {
        None
    }
}

/// The display label of the node registered for external identifier `id`.
pub open spec fn label_of(id: int) -> Seq<char> {
    "Node "@ + dec_digits(id)
}

pub proof fn lemma_digits_val_nonneg(s: Seq<char>)
    requires
        all_digits(s),
    ensures
        digits_val(s) >= 0,
    decreases s.len(),
{
    if s.len() > 0 {
        assert(is_digit_char(s[s.len() - 1]));
        lemma_digits_val_nonneg(s.drop_last());
    }
}

pub proof fn lemma_digits_val_take_step(s: Seq<char>, i: int)
    requires
        0 <= i < s.len(),
    ensures
        digits_val(s.take(i + 1)) == digits_val(s.take(i)) * 10 + digit_val(s[i]),
{
    assert(s.take(i + 1).drop_last() =~= s.take(i));
    assert(s.take(i + 1).last() == s[i]);
}

/// Reading more digits never lowers the value: a prefix of a digit string
/// is worth no more than the whole.
pub proof fn lemma_digits_val_mono(s: Seq<char>, i: int)
    requires
        all_digits(s),
        0 <= i <= s.len(),
    ensures
        digits_val(s.take(i)) <= digits_val(s),
    decreases s.len(),
{
    if i == s.len() {
        assert(s.take(i) =~= s);
    } else {
        let t = s.drop_last();
        assert(all_digits(t)) by {
            assert(forall|j: int| 0 <= j < t.len() ==> t[j] == s[j] && is_digit_char(#[trigger] s[j]));
        }
        lemma_digits_val_nonneg(t);
        assert(is_digit_char(s[s.len() - 1]));
        lemma_digits_val_mono(t, i);
        assert(t.take(i) =~= s.take(i));
        assert(digits_val(s) == digits_val(t) * 10 + digit_val(s.last()));
        assert(digits_val(t) * 10 >= digits_val(t)) by (nonlinear_arith)
            requires digits_val(t) >= 0;
    }
}

/// The single-character string for one decimal digit.
fn digit_str(d: usize) -> (s: &'static str)
    requires
        d < 10,
    ensures
        s@ =~= seq![digit_char(d as int)],
{
    match d {
        0 => {
            proof { reveal_strlit("0"); }
            "0"
        },
        1 => {
            proof { reveal_strlit("1"); }
            "1"
        },
        2 => {
            proof { reveal_strlit("2"); }
            "2"
        },
        3 => {
            proof { reveal_strlit("3"); }
            "3"
        },
        4 => {
            proof { reveal_strlit("4"); }
            "4"
        },
        5 => {
            proof { reveal_strlit("5"); }
            "5"
        },
        6 => {
            proof { reveal_strlit("6"); }
            "6"
        },
        7 => {
            proof { reveal_strlit("7"); }
            "7"
        },
        8 => {
            proof { reveal_strlit("8"); }
            "8"
        },
        _ => {
            proof { reveal_strlit("9"); }
            "9"
        },
    }
}

/// Write `n` in decimal, most significant digit first.
pub fn format_usize(n: usize) -> (s: String)
    ensures
        s@ == dec_digits(n as int),
    decreases n,
{
    if n < 10 {
        let s = digit_str(n).to_owned();
        proof {
            assert(s@ =~= dec_digits(n as int));
        }
        s
    } else {
        let mut s = format_usize(n / 10);
        let d = digit_str(n % 10);
        s.append(d);
        proof {
            assert(s@ =~= dec_digits(n as int));
        }
        s
    }
}

/// Build the display label for external identifier `id`.
pub fn label_for(id: usize) -> (s: String)
    ensures
        s@ == label_of(id as int),
{
    let mut s = "Node ".to_owned();
    let digits = format_usize(id);
    s.append(digits.as_str());
    proof {
        assert(s@ =~= label_of(id as int));
    }
    s
}

/// Read a text field as a non-negative integer, exactly as `parse_spec`
/// describes: `None` on an empty or non-numeric field and on overflow.
pub fn parse_usize(s: &str) -> (r: Option<usize>)
    ensures
        match r {
            Some(v) => parse_spec(s@) == Some(v as int),
            None => parse_spec(s@) is None,
        },
{
    let len = s.unicode_len();
    let offset: usize = if len > 0 && s.get_char(0) == '+' {
        1
    } else {
        0
    };
    let ghost body = if s@.len() > 0 && s@[0] == '+' {
        s@.subrange(1, s@.len() as int)
    } else {
        s@
    };
    if offset >= len {
        return None;
    }
    let mut i = offset;
    let mut val: usize = 0;
    while i < len
        invariant
            offset <= i <= len,
            len == s@.len(),
            offset == 1 ==> s@.len() > 0 && s@[0] == '+',
            offset == 0 ==> !(s@.len() > 0 && s@[0] == '+'),
            body == (if s@.len() > 0 && s@[0] == '+' {
                s@.subrange(1, s@.len() as int)
            } else {
                s@
            }),
            offset < len,
            body.len() == len - offset,
            forall|j: int| 0 <= j < body.len() ==> body[j] == s@[j + offset],
            all_digits(body.take(i - offset)),
            val == digits_val(body.take(i - offset)),
        decreases len - i,
    {
        let c = s.get_char(i);
        proof {
            assert(body[i - offset] == c);
        }
        let u = c as u32;
        if u < 48 || u > 57 {
            proof {
                assert(!is_digit_char(body[i - offset]));
                assert(!all_digits(body));
            }
            return None;
        }
        let d = (u - 48) as usize;
        proof {
            assert(is_digit_char(c));
            assert(digit_val(c) == d as int);
        }
        if val > (usize::MAX - d) / 10 {
            proof {
                let k = i - offset;
                lemma_digits_val_take_step(body, k);
                assert(val * 10 + d > usize::MAX) by (nonlinear_arith)
                    requires
                        val > (usize::MAX - d) / 10,
                        0 <= d <= 9,
                ;
                assert(digits_val(body.take(k + 1)) > usize::MAX as int);
                if all_digits(body) {
                    lemma_digits_val_mono(body, k + 1);
                    assert(digits_val(body) > usize::MAX as int);
                }
            }
            return None;
        }
        proof {
            let k = i - offset;
            lemma_digits_val_take_step(body, k);
            lemma_digits_val_nonneg(body.take(k));
            assert(val * 10 + d <= usize::MAX) by (nonlinear_arith)
                requires
                    val <= (usize::MAX - d) / 10,
                    0 <= d <= 9,
                    val >= 0,
            ;
            assert(body.take(k + 1) =~= body.take(k).push(body[k]));
            assert(all_digits(body.take(k + 1))) by {
                assert(forall|j: int| 0 <= j < k ==> is_digit_char(#[trigger] body.take(k)[j]));
                assert(forall|j: int| 0 <= j < k ==> body.take(k + 1)[j] == body.take(k)[j]);
                assert(body.take(k + 1)[k] == body[k]);
            }
        }
        val = val * 10 + d;
        i = i + 1;
    }
    proof {
        assert(body.take(i - offset) =~= body);
        assert(body.len() > 0);
    }
    Some(val)
}

} // verus!
