//! Parsing of the delimiter-separated worker-id lists the edit form submits.
//!
//! The assigned-worker and flat-rate lists arrive as hyphen-separated
//! strings of decimal ids. A token that is not a valid id — empty, signed
//! negative (the delimiter consumes hyphens), non-numeric, or out of range —
//! is silently dropped: an unparseable list simply assigns nobody.

use vstd::prelude::*;
use vstd::string::StrSliceExecFns;

use crate::money::all_digits;
use crate::money::digits_val;
use crate::money::is_digit;

verus! {

/// The id a single token carries: an optional plus sign, then a nonempty
/// digit run whose value fits an `i64`.
pub open spec fn token_value(t: Seq<char>) -> Option<i64> {
    let body = if t.len() > 0 && t[0] == '+' {
        t.subrange(1, t.len() as int)
    } else {
        t
    };
    if body.len() > 0 && all_digits(body) && digits_val(body) <= i64::MAX {
        Some(digits_val(body) as i64)
    } else {
        None
    }
}

/// The ids of one token: one element, or none for an invalid token.
pub open spec fn token_ids(t: Seq<char>) -> Seq<i64> {
    match token_value(t) {
        Some(v) => seq![v],
        None => Seq::empty(),
    }
}

/// Index of the first hyphen, or the length when there is none.
pub open spec fn first_dash(s: Seq<char>) -> int
    decreases s.len(),
{
    if s.len() == 0 {
        0
    } else if s[0] == '-' {
        0
    } else {
        1 + first_dash(s.drop_first())
    }
}

/// The ids of a hyphen-separated list, token by token, invalid tokens
/// dropped.
pub open spec fn ids_in(s: Seq<char>) -> Seq<i64>
    decreases s.len(),
{
    let k = first_dash(s);
    if 0 <= k < s.len() && s[k] == '-' {
        token_ids(s.subrange(0, k)) + ids_in(s.subrange(k + 1, s.len() as int))
    } else {
        token_ids(s)
    }
}

proof fn lemma_first_dash_determined(s: Seq<char>, k: int)
    requires
        0 <= k <= s.len(),
        forall|j: int| 0 <= j < k ==> s[j] != '-',
        k == s.len() || s[k] == '-',
    ensures
        first_dash(s) == k,
    decreases s.len(),
{
    if s.len() > 0 && s[0] != '-' {
        assert(k > 0);
        assert forall|j: int| 0 <= j < k - 1 implies s.drop_first()[j] != '-' by {
            assert(s.drop_first()[j] == s[j + 1]);
        }
        if k - 1 < s.drop_first().len() {
            assert(s.drop_first()[k - 1] == s[k]);
        }
        lemma_first_dash_determined(s.drop_first(), k - 1);
    }
}

proof fn lemma_digits_val_grows(t: Seq<char>, j: int)
    requires
        all_digits(t),
        0 <= j <= t.len(),
    ensures
        digits_val(t) >= digits_val(t.take(j)),
        digits_val(t) >= 0,
    decreases t.len() - j,
{
    if j == t.len() {
        assert(t.take(j) =~= t);
        crate::money::lemma_digits_val_nonneg(t);
    } else {
        lemma_digits_val_grows(t, j + 1);
        let p = t.take(j + 1);
        assert(p.drop_last() =~= t.take(j));
        assert(p.last() == t[j]);
        assert forall|x: int| 0 <= x < t.take(j).len() implies is_digit(
            #[trigger] t.take(j)[x],
        ) by {
            assert(t.take(j)[x] == t[x]);
        }
        crate::money::lemma_digits_val_nonneg(t.take(j));
    }
}

/// Parses one token.
fn parse_token(t: &str) -> (r: Option<i64>)
    ensures
        r == token_value(t@),
{
    let n = t.unicode_len();
    let start: usize = if n > 0 && t.get_char(0) == '+' {
        1
    } else {
        0
    };
    let ghost body = if t@.len() > 0 && t@[0] == '+' {
        t@.subrange(1, t@.len() as int)
    } else {
        t@
    };
    if start >= n {
        return None;
    }
    let mut acc: i64 = 0;
    let mut i: usize = start;
    while i < n
        invariant
            start <= i <= n,
            n == t@.len(),
            start == 1 ==> t@.len() > 0 && t@[0] == '+',
            start == 0 ==> !(t@.len() > 0 && t@[0] == '+'),
            body == (if t@.len() > 0 && t@[0] == '+' {
                t@.subrange(1, t@.len() as int)
            } else {
                t@
            }),
            body.len() == n - start,
            forall|j: int| 0 <= j < body.len() ==> body[j] == t@[j + start],
            all_digits(body.take(i - start)),
            acc == digits_val(body.take(i - start)),
            0 <= acc <= i64::MAX,
        decreases n - i,
    {
        let c = t.get_char(i);
        let u = c as u32;
        proof {
            assert(body[i - start] == t@[i as int]);
            assert(body.take(i + 1 - start).drop_last() =~= body.take(i - start));
            assert(body.take(i + 1 - start).last() == body[i - start]);
        }
        if u < 48 || u > 57 {
            proof {
                assert(!is_digit(body[i - start]));
            }
            return None;
        }
        let d: i64 = (u - 48) as i64;
        proof {
            assert(is_digit(body[i - start]));
            assert forall|x: int| 0 <= x < body.take(i + 1 - start).len() implies is_digit(
                #[trigger] body.take(i + 1 - start)[x],
            ) by {
                if x < i - start {
                    assert(body.take(i + 1 - start)[x] == body.take(i - start)[x]);
                }
            }
        }
        if acc > (i64::MAX - d) / 10 {
            // the digits so far already exceed the id range; any longer
            // token is out of range or malformed either way
            proof {
                assert(digits_val(body.take(i + 1 - start)) == acc * 10 + d);
                if all_digits(body) && digits_val(body) <= i64::MAX {
                    lemma_digits_val_grows(body, i + 1 - start);
                }
            }
            return None;
        }
        acc = acc * 10 + d;
        i += 1;
    }
    proof {
        assert(body.take(n - start) =~= body);
    }
    Some(acc)
}

/// Parses a hyphen-separated id list; tokens that carry no valid id are
/// dropped.
pub fn parse_id_list(s: &str) -> (r: Vec<i64>)
    ensures
        r@ == ids_in(s@),
{
    let n = s.unicode_len();
    let mut r: Vec<i64> = Vec::new();
    let mut tok_start: usize = 0;
    let mut i: usize = 0;
    proof {
        assert(s@.subrange(0, n as int) =~= s@);
        assert(r@ + ids_in(s@) =~= ids_in(s@));
    }
    while i < n
        invariant
            0 <= tok_start <= i <= n,
            n == s@.len(),
            r@ + ids_in(s@.subrange(tok_start as int, n as int)) == ids_in(s@),
            forall|j: int| tok_start <= j < i ==> s@[j] != '-',
        decreases n - i,
    {
        let c = s.get_char(i);
        if c == '-' {
            let token = s.substring_char(tok_start, i);
            proof {
                let suffix = s@.subrange(tok_start as int, n as int);
                assert forall|j: int| 0 <= j < i - tok_start implies suffix[j] != '-' by {
                    assert(suffix[j] == s@[j + tok_start]);
                }
                assert(suffix[i - tok_start] == s@[i as int]);
                lemma_first_dash_determined(suffix, i - tok_start);
                assert(suffix.subrange(0, i - tok_start) =~= s@.subrange(
                    tok_start as int,
                    i as int,
                ));
                assert(suffix.subrange(i - tok_start + 1, suffix.len() as int) =~= s@.subrange(
                    i + 1 as int,
                    n as int,
                ));
                assert(ids_in(suffix) == token_ids(s@.subrange(tok_start as int, i as int))
                    + ids_in(s@.subrange(i + 1 as int, n as int)));
            }
            match parse_token(token) {
                Some(v) => {
                    r.push(v);
                    proof {
                        assert(r@ + ids_in(s@.subrange(i + 1 as int, n as int)) =~= ids_in(s@));
                    }
                },
                None => {
                    proof {
                        assert(r@ + ids_in(s@.subrange(i + 1 as int, n as int)) =~= ids_in(s@));
                    }
                },
            }
            tok_start = i + 1;
        }
        i += 1;
    }
    let token = s.substring_char(tok_start, n);
    proof {
        let suffix = s@.subrange(tok_start as int, n as int);
        assert forall|j: int| 0 <= j < suffix.len() implies suffix[j] != '-' by {
            assert(suffix[j] == s@[j + tok_start]);
        }
        lemma_first_dash_determined(suffix, suffix.len() as int);
    }
    match parse_token(token) {
        Some(v) => {
            r.push(v);
            proof {
                assert(r@ =~= ids_in(s@));
            }
        },
        None => {
            proof {
                assert(r@ =~= ids_in(s@));
            }
        },
    }
    r
}

/// Pairs each assigned worker id with whether the flat-rate list names it.
pub fn pair_with_flat_rate(assigned: &Vec<i64>, flat_rate: &Vec<i64>) -> (r: Vec<(i64, bool)>)
    ensures
        r@.len() == assigned@.len(),
        forall|j: int| 0 <= j < assigned@.len() ==> #[trigger] r@[j] == (
            assigned@[j],
            flat_rate@.contains(assigned@[j]),
        ),
{
    let mut r: Vec<(i64, bool)> = Vec::new();
    let mut i: usize = 0;
    while i < assigned.len()
        invariant
            0 <= i <= assigned@.len(),
            r@.len() == i,
            forall|j: int| 0 <= j < i ==> #[trigger] r@[j] == (
                assigned@[j],
                flat_rate@.contains(assigned@[j]),
            ),
        decreases assigned@.len() - i,
    {
        let id = assigned[i];
        let f = vec_contains(flat_rate, id);
        r.push((id, f));
        i += 1;
    }
    r
}

fn vec_contains(v: &Vec<i64>, x: i64) -> (r: bool)
    ensures
        r == v@.contains(x),
{
    let mut i: usize = 0;
    while i < v.len()
        invariant
            0 <= i <= v@.len(),
            forall|j: int| 0 <= j < i ==> v@[j] != x,
        decreases v@.len() - i,
    {
        if v[i] == x {
            return true;
        }
        i += 1;
    }
    false
}

} // verus!
