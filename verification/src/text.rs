//! Text primitives for channel matching: rendering a channel identifier as
//! decimal text, substring search over channel names, and synthesis of a
//! mirror channel's name.

use vstd::prelude::*;

verus! {

/// The decimal digit character for `d`, for `d < 10`.
pub open spec fn digit_char(d: nat) -> char
    recommends
        d < 10,
{
    if d == 0 {
        '0'
    } else if d == 1 {
        '1'
    } else if d == 2 {
        '2'
    } else if d == 3 {
        '3'
    } else if d == 4 {
        '4'
    } else if d == 5 {
        '5'
    } else if d == 6 {
        '6'
    } else if d == 7 {
        '7'
    } else if d == 8 {
        '8'
    } else {
        '9'
    }
}

/// Decimal rendering of `n`: most significant digit first, no leading zeros
/// (and `0` itself renders as the single digit `'0'`).
pub open spec fn dec_rep(n: nat) -> Seq<char>
    decreases n,
{
    if n < 10 {
        seq![digit_char(n)]
    } else {
        dec_rep(n / 10).push(digit_char(n % 10))
    }
}

/// `pat` occurs in `text` starting at position `i`.
pub open spec fn match_at(text: Seq<char>, pat: Seq<char>, i: int) -> bool {
    &&& 0 <= i
    &&& i + pat.len() <= text.len()
    &&& text.subrange(i, i + pat.len() as int) == pat
}

/// `pat` occurs somewhere in `text`.
pub open spec fn contains_seq(text: Seq<char>, pat: Seq<char>) -> bool {
    exists|i: int| match_at(text, pat, i)
}

fn digit_str(d: u64) -> (r: &'static str)
    requires
        d < 10,
    ensures
        r@ =~= seq![digit_char(d as nat)],
{
    proof {
        reveal_strlit("0");
        reveal_strlit("1");
        reveal_strlit("2");
        reveal_strlit("3");
        reveal_strlit("4");
        reveal_strlit("5");
        reveal_strlit("6");
        reveal_strlit("7");
        reveal_strlit("8");
        reveal_strlit("9");
    }
    if d == 0 {
        "0"
    } else if d == 1 {
        "1"
    } else if d == 2 {
        "2"
    } else if d == 3 {
        "3"
    } else if d == 4 {
        "4"
    } else if d == 5 {
        "5"
    } else if d == 6 {
        "6"
    } else if d == 7 {
        "7"
    } else if d == 8 {
        "8"
    } else {
        "9"
    }
}

/// Renders `n` as its decimal text.
pub fn u64_to_dec(n: u64) -> (s: String)
    ensures
        s@ == dec_rep(n as nat),
    decreases n,
{
    if n < 10 {
        String::from_str(digit_str(n))
    } else {
        proof {
            assert(n / 10 < n) by (nonlinear_arith)
                requires
                    n >= 10,
            ;
        }
        let mut s = u64_to_dec(n / 10);
        s.append(digit_str(n % 10));
        proof {
            assert(dec_rep((n / 10) as nat).push(digit_char((n % 10) as nat)) =~= dec_rep(
                (n / 10) as nat,
            ) + seq![digit_char((n % 10) as nat)]);
        }
        s
    }
}

fn match_at_exec(text: &str, pat: &str, i: usize, text_len: usize, pat_len: usize) -> (r: bool)
    requires
        text_len == text@.len(),
        pat_len == pat@.len(),
        i + pat_len <= text_len,
    ensures
        r == match_at(text@, pat@, i as int),
{
    let mut j: usize = 0;
    while j < pat_len
        invariant
            text_len == text@.len(),
            pat_len == pat@.len(),
            i + pat_len <= text_len,
            j <= pat_len,
            forall|k: int| 0 <= k < j ==> text@[i + k] == pat@[k],
        decreases pat_len - j,
    {
        if text.get_char(i + j) != pat.get_char(j) {
            proof {
                let sub = text@.subrange(i as int, i + pat@.len() as int);
                assert(sub[j as int] == text@[i + j]);
                assert(sub != pat@);
            }
            return false;
        }
        j += 1;
    }
    proof {
        assert(text@.subrange(i as int, i + pat@.len() as int) =~= pat@);
    }
    true
}

/// Substring search: does `pat` occur anywhere in `text`?
pub fn str_contains(text: &str, pat: &str) -> (r: bool)
    ensures
        r == contains_seq(text@, pat@),
{
    let text_len = text.unicode_len();
    let pat_len = pat.unicode_len();
    if pat_len > text_len {
        proof {
            assert(forall|i: int| !match_at(text@, pat@, i));
        }
        return false;
    }
    if pat_len == 0 {
        proof {
            assert(text@.subrange(0, 0) =~= pat@);
            assert(match_at(text@, pat@, 0));
        }
        return true;
    }
    let bound = text_len - pat_len;
    let mut i: usize = 0;
    while i <= bound
        invariant
            text_len == text@.len(),
            pat_len == pat@.len(),
            1 <= pat_len <= text_len,
            bound == text_len - pat_len,
            i <= bound + 1,
            forall|k: int| 0 <= k < i ==> !match_at(text@, pat@, k),
        decreases bound + 1 - i,
    {
        if match_at_exec(text, pat, i, text_len, pat_len) {
            return true;
        }
        i += 1;
    }
    proof {
        assert forall|k: int| !match_at(text@, pat@, k) by {
            if 0 <= k <= bound {
                assert(!match_at(text@, pat@, k));
            }
        }
    }
    false
}

/// The name given to a freshly created mirror channel:
/// the source channel's name, a dash, the source channel's identifier.
pub open spec fn mirror_name_spec(name: Seq<char>, id: nat) -> Seq<char> {
    name + seq!['-'] + dec_rep(id)
}

/// Builds the mirror channel name for a source channel.
pub fn mirror_name(name: &str, id: u64) -> (r: String)
    ensures
        r@ == mirror_name_spec(name@, id as nat),
{
    proof {
        reveal_strlit("-");
    }
    let mut s = String::from_str(name);
    s.append("-");
    let digits = u64_to_dec(id);
    s.append(digits.as_str());
    proof {
        assert(s@ =~= mirror_name_spec(name@, id as nat));
    }
    s
}

/// A mirror channel's name embeds the identifier it was built from.
pub proof fn lemma_mirror_name_embeds_id(name: Seq<char>, id: nat)
    ensures
        contains_seq(mirror_name_spec(name, id), dec_rep(id)),
{
    let full = mirror_name_spec(name, id);
    let at = name.len() + 1;
    assert(full.subrange(at as int, at + dec_rep(id).len() as int) =~= dec_rep(id));
    assert(match_at(full, dec_rep(id), at as int));
}

} // verus!
