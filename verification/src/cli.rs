//! Parsing of the player's coordinate input.
//!
//! The interaction loop reads a line that must be either empty (the player
//! wants out) or two decimal numbers joined by a comma, `x,y`. The grammar
//! and the numeric values are specified here and the parser is verified
//! against them.

use vstd::prelude::*;
use vstd::string::StrSliceExecFns;

verus! {

/// A decimal digit.
pub open spec fn is_digit(c: char) -> bool {
    '0' as int <= c as int <= '9' as int
}

/// The numeric value of one decimal digit.
pub open spec fn digit_val(c: char) -> int {
    c as int - '0' as int
}

/// Every character of `s` is a decimal digit.
pub open spec fn all_digits(s: Seq<char>) -> bool {
    forall|i: int| 0 <= i < s.len() ==> is_digit(#[trigger] s[i])
}

/// The number a digit string denotes, most significant digit first.
pub open spec fn digits_val(s: Seq<char>) -> int
    decreases s.len(),
{
    if s.len() == 0 {
        0
    } else {
        digits_val(s.drop_last()) * 10 + digit_val(s.last())
    }
}

/// `s` splits at position `k` into a non-empty run of digits, a comma,
/// and another non-empty run of digits.
pub open spec fn coords_shape_at(s: Seq<char>, k: int) -> bool {
    &&& 1 <= k <= s.len() - 2
    &&& s[k] == ','
    &&& all_digits(s.subrange(0, k))
    &&& all_digits(s.subrange(k + 1, s.len() as int))
}

/// `s` has the shape `x,y` of two comma-joined decimal numbers.
pub open spec fn coords_shape(s: Seq<char>) -> bool {
    exists|k: int| coords_shape_at(s, k)
}

pub proof fn lemma_digits_val_nonneg(s: Seq<char>)
    requires
        all_digits(s),
    ensures
        digits_val(s) >= 0,
    decreases s.len(),
{
    if s.len() > 0 {
        assert(all_digits(s.drop_last()));
        lemma_digits_val_nonneg(s.drop_last());
    }
}

/// A longer digit prefix denotes a number at least as large.
pub proof fn lemma_digits_val_prefix_le(s: Seq<char>, i: int, j: int)
    requires
        all_digits(s),
        0 <= i <= j <= s.len(),
    ensures
        digits_val(s.subrange(0, i)) <= digits_val(s.subrange(0, j)),
    decreases j - i,
{
    if i < j {
        lemma_digits_val_prefix_le(s, i, j - 1);
        assert(s.subrange(0, j).drop_last() =~= s.subrange(0, j - 1));
        assert(all_digits(s.subrange(0, j - 1)));
        lemma_digits_val_nonneg(s.subrange(0, j - 1));
    }
}

/// Parse one line of coordinate input.
///
/// An empty line asks to leave the prompt and parses to `Err("Exit")`.
/// A line of the shape `x,y` parses to the two numbers when they fit in
/// `usize`. Anything else — the wrong shape, or a number too large to
/// represent — is answered with the invalid-coordinates message.
#[verifier::loop_isolation(false)]
pub fn parse_coords(text: &str) -> (r: Result<(usize, usize), &'static str>)
    ensures
        text@.len() == 0 ==> r is Err && r->Err_0@ == "Exit"@,
        text@.len() > 0 && !coords_shape(text@) ==> r is Err && r->Err_0@
            == "Invalid coordinates, please enter in the format x,y"@,
        r is Ok ==> coords_shape(text@),
        forall|k: int|
            coords_shape_at(text@, k) ==> ({
                let xv = digits_val(text@.subrange(0, k));
                let yv = digits_val(text@.subrange(k + 1, text@.len() as int));
                if xv <= usize::MAX && yv <= usize::MAX {
                    r is Ok && r->Ok_0.0 == xv && r->Ok_0.1 == yv
                } else {
                    r is Err && r->Err_0@
                        == "Invalid coordinates, please enter in the format x,y"@
                }
            }),
{
    let ghost s = text@;
    let n = text.unicode_len();
    if n == 0 {
        return Err("Exit");
    }

    // Find the first comma.
    let mut k: usize = 0;
    while k < n && text.get_char(k) != ','
        invariant
            k <= n,
            n == s.len(),
            forall|j: int| 0 <= j < k ==> s[j] != ',',
        decreases n - k,
    {
        k = k + 1;
    }

    if k == n {
        // No comma at all: no split position can work.
        proof {
            assert forall|k2: int| !coords_shape_at(s, k2) by {
                if 1 <= k2 <= s.len() - 2 {
                    assert(s[k2] != ',');
                }
            }
        }
        return Err("Invalid coordinates, please enter in the format x,y");
    }

    if k == 0 || k + 1 == n {
        // The comma starts or ends the line: one side would be empty.
        proof {
            assert forall|k2: int| !coords_shape_at(s, k2) by {
                if coords_shape_at(s, k2) {
                    if k2 < k {
                        assert(s[k2] != ',');
                    } else if k2 > k {
                        assert(is_digit(s.subrange(0, k2)[k as int]));
                    }
                }
            }
        }
        return Err("Invalid coordinates, please enter in the format x,y");
    }

    // From here on, a split can only happen at the comma we found: any
    // earlier position is not a comma, and any later split would need the
    // comma to be a digit of its left-hand number.
    proof {
        assert forall|k2: int| coords_shape_at(s, k2) implies k2 == k by {
            if k2 < k {
                assert(s[k2] != ',');
            } else if k2 > k {
                assert(is_digit(s.subrange(0, k2)[k as int]));
            }
        }
    }

    // Both runs must be all digits.
    let mut i: usize = 0;
    while i < k
        invariant
            i <= k,
            k < n,
            n == s.len(),
            s[k as int] == ',',
            forall|j: int| 0 <= j < i ==> is_digit(#[trigger] s[j]),
        decreases k - i,
    {
        let c = text.get_char(i);
        let v = c as u32;
        if v < 48 || v > 57 {
            proof {
                assert forall|k2: int| !coords_shape_at(s, k2) by {
                    if coords_shape_at(s, k2) {
                        if k2 > i {
                            assert(is_digit(s.subrange(0, k2)[i as int]));
                        } else {
                            assert(s[k2] != ',');
                        }
                    }
                }
            }
            return Err("Invalid coordinates, please enter in the format x,y");
        }
        i = i + 1;
    }

    let mut j: usize = k + 1;
    while j < n
        invariant
            k + 1 <= j <= n,
            n == s.len(),
            s[k as int] == ',',
            forall|m: int| 0 <= m < k ==> s[m] != ',',
            forall|m: int| k + 1 <= m < j ==> is_digit(#[trigger] s[m]),
        decreases n - j,
    {
        let c = text.get_char(j);
        let v = c as u32;
        if v < 48 || v > 57 {
            proof {
                assert forall|k2: int| !coords_shape_at(s, k2) by {
                    if coords_shape_at(s, k2) {
                        if k2 < k {
                            assert(s[k2] != ',');
                        } else if k2 > k {
                            assert(is_digit(s.subrange(0, k2)[k as int]));
                        } else {
                            assert(is_digit(
                                s.subrange(k2 + 1, s.len() as int)[j - k2 - 1],
                            ));
                        }
                    }
                }
            }
            return Err("Invalid coordinates, please enter in the format x,y");
        }
        j = j + 1;
    }

    proof {
        assert(coords_shape_at(s, k as int));
    }

    // Read the left-hand number.
    let ghost left = s.subrange(0, k as int);
    let mut x_val: usize = 0;
    let mut i2: usize = 0;
    while i2 < k
        invariant
            i2 <= k,
            k < n,
            n == s.len(),
            coords_shape_at(s, k as int),
            left == s.subrange(0, k as int),
            x_val == digits_val(left.subrange(0, i2 as int)),
        decreases k - i2,
    {
        let c = text.get_char(i2);
        proof {
            assert(left[i2 as int] == s[i2 as int]);
            assert(is_digit(c));
            assert(left.subrange(0, i2 + 1).drop_last() =~= left.subrange(0, i2 as int));
        }
        let d = (c as u32 - 48) as usize;
        let step = match x_val.checked_mul(10) {
            Some(t) => t.checked_add(d),
            None => None,
        };
        match step {
            Some(t) => {
                x_val = t;
            },
            None => {
                proof {
                    assert(d == digit_val(c));
                    assert(digits_val(left.subrange(0, i2 + 1)) == x_val * 10 + d);
                    assert(x_val * 10 + d > usize::MAX);
                    lemma_digits_val_prefix_le(left, i2 + 1, left.len() as int);
                    assert(left.subrange(0, left.len() as int) =~= left);
                }
                return Err("Invalid coordinates, please enter in the format x,y");
            },
        }
        i2 = i2 + 1;
    }
    proof {
        assert(left.subrange(0, k as int) =~= left);
    }

    // Read the right-hand number.
    let ghost right = s.subrange(k + 1, s.len() as int);
    let mut y_val: usize = 0;
    let mut j2: usize = k + 1;
    while j2 < n
        invariant
            k + 1 <= j2 <= n,
            k < n,
            n == s.len(),
            coords_shape_at(s, k as int),
            right == s.subrange(k + 1, s.len() as int),
            x_val == digits_val(s.subrange(0, k as int)),
            y_val == digits_val(right.subrange(0, j2 - k - 1)),
        decreases n - j2,
    {
        let c = text.get_char(j2);
        proof {
            assert(right[j2 - k - 1] == s[j2 as int]);
            assert(is_digit(c));
            assert(right.subrange(0, j2 - k).drop_last() =~= right.subrange(0, j2 - k - 1));
        }
        let d = (c as u32 - 48) as usize;
        let step = match y_val.checked_mul(10) {
            Some(t) => t.checked_add(d),
            None => None,
        };
        match step {
            Some(t) => {
                y_val = t;
            },
            None => {
                proof {
                    assert(d == digit_val(c));
                    assert(digits_val(right.subrange(0, j2 - k)) == y_val * 10 + d);
                    assert(y_val * 10 + d > usize::MAX);
                    lemma_digits_val_prefix_le(right, j2 - k, right.len() as int);
                    assert(right.subrange(0, right.len() as int) =~= right);
                }
                return Err("Invalid coordinates, please enter in the format x,y");
            },
        }
        j2 = j2 + 1;
    }
    proof {
        assert(right.subrange(0, right.len() as int) =~= right);
    }

    Ok((x_val, y_val))
}

} // verus!
