//! Cookie-header parsing for the gift endpoint: a header value is a list
//! of `name=value` segments separated by `;`, and the gift is the value of
//! the first segment whose name is exactly `gift`.

use vstd::prelude::*;

use crate::text::str_eq;

verus! {

/// First `;` at or after `i`, or the end of the string.
pub open spec fn seg_end(s: Seq<char>, i: int) -> int
    decreases s.len() - i,
{
    if i < 0 || i >= s.len() {
        s.len() as int
    } else if s[i] == ';' {
        i
    } else {
        seg_end(s, i + 1)
    }
}

/// First `=` at or after `i` but before `e`, or `e`.
pub open spec fn eq_pos(s: Seq<char>, i: int, e: int) -> int
    decreases e - i,
{
    if i < 0 || i >= e || i >= s.len() {
        e
    } else if s[i] == '=' {
        i
    } else {
        eq_pos(s, i + 1, e)
    }
}

/// The gift value carried by the segments from `i` on: the first segment
/// that holds an `=` and whose part before it is exactly `gift` yields the
/// part after it; a segment without `=` or under another name is skipped.
pub open spec fn find_gift(s: Seq<char>, i: int) -> Option<Seq<char>>
    decreases s.len() - i,
    when 0 <= i <= s.len()
    via find_gift_decreases
{
    let e = seg_end(s, i);
    let q = eq_pos(s, i, e);
    if q < e && s.subrange(i, q) == "gift"@ {
        Some(s.subrange(q + 1, e))
    } else if e >= s.len() {
        None
    } else {
        find_gift(s, e + 1)
    }
}

#[via_fn]
proof fn find_gift_decreases(s: Seq<char>, i: int) {
    lemma_seg_end_bounds(s, i);
}

proof fn lemma_seg_end_bounds(s: Seq<char>, i: int)
    requires
        0 <= i <= s.len(),
    ensures
        i <= seg_end(s, i) <= s.len(),
        forall|j: int| i <= j < seg_end(s, i) ==> #[trigger] s[j] != ';',
        seg_end(s, i) < s.len() ==> s[seg_end(s, i)] == ';',
    decreases s.len() - i,
{
    if i < s.len() && s[i] != ';' {
        lemma_seg_end_bounds(s, i + 1);
    }
}

proof fn lemma_seg_end_at(s: Seq<char>, i: int, e: int)
    requires
        0 <= i <= e <= s.len(),
        forall|j: int| i <= j < e ==> #[trigger] s[j] != ';',
        e < s.len() ==> s[e] == ';',
    ensures
        seg_end(s, i) == e,
    decreases e - i,
{
    if i < e {
        lemma_seg_end_at(s, i + 1, e);
    }
}

proof fn lemma_eq_pos_at(s: Seq<char>, i: int, e: int, q: int)
    requires
        0 <= i <= q <= e <= s.len(),
        forall|j: int| i <= j < q ==> #[trigger] s[j] != '=',
        q < e ==> s[q] == '=',
    ensures
        eq_pos(s, i, e) == q,
    decreases q - i,
{
    if i < q {
        lemma_eq_pos_at(s, i + 1, e, q);
    }
}

/// The gift cookie's value inside one header value, if a `gift=` segment
/// is present.
pub fn gift_cookie(cookies: &str) -> (r: Option<String>)
    ensures
        match r {
            Some(v) => find_gift(cookies@, 0) == Some(v@),
            None => find_gift(cookies@, 0) is None,
        },
{
    let ghost s = cookies@;
    let n = cookies.unicode_len();
    let mut i: usize = 0;
    loop
        invariant
            0 <= i <= n,
            n == s.len(),
            s == cookies@,
            find_gift(s, 0) == find_gift(s, i as int),
        decreases n - i,
    {
        let mut e: usize = i;
        while e < n && cookies.get_char(e) != ';'
            invariant
                i <= e <= n,
                n == s.len(),
                s == cookies@,
                forall|j: int| i <= j < e ==> #[trigger] s[j] != ';',
            decreases n - e,
        {
            e = e + 1;
        }
        proof {
            lemma_seg_end_at(s, i as int, e as int);
        }
        let mut q: usize = i;
        while q < e && cookies.get_char(q) != '='
            invariant
                i <= q <= e <= n,
                n == s.len(),
                s == cookies@,
                forall|j: int| i <= j < q ==> #[trigger] s[j] != '=',
            decreases e - q,
        {
            q = q + 1;
        }
        proof {
            lemma_eq_pos_at(s, i as int, e as int, q as int);
        }
        if q < e {
            let key = cookies.substring_char(i, q);
            if str_eq(key, "gift") {
                proof {
                    assert(s.subrange(i as int, q as int) == "gift"@);
                }
                let value = cookies.substring_char(q + 1, e);
                return Some(value.to_owned());
            }
        }
        if e == n {
            proof {
                assert(s.subrange(i as int, q as int) != "gift"@ || q >= e);
            }
            return None;
        }
        proof {
            assert(find_gift(s, i as int) == find_gift(s, e as int + 1));
        }
        i = e + 1;
    }
}

} // verus!
