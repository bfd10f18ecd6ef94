//! The compute behind the query surface: parsing the requested count and
//! rendering the returned lines as a bracketed, quoted list.

use crate::cache_actor::views_of;
use vstd::prelude::*;

verus! {

/// A decimal digit character.
pub open spec fn is_digit_char(c: char) -> bool {
    '0' <= c && c <= '9'
}

/// The value of a decimal digit character.
pub open spec fn digit_val(c: char) -> nat {
    ((c as int) - ('0' as int)) as nat
}

/// Every character of `s` is a decimal digit.
pub open spec fn all_digits(s: Seq<char>) -> bool {
    forall|i: int| 0 <= i < s.len() ==> is_digit_char(#[trigger] s[i])
}

/// The number denoted by a sequence of decimal digits, most significant
/// first.
pub open spec fn dec_value(s: Seq<char>) -> nat
    decreases s.len(),
{
    if s.len() == 0 {
        0
    } else {
        dec_value(s.drop_last()) * 10 + digit_val(s.last())
    }
}

proof fn lemma_dec_value_prefix(s: Seq<char>, k: int)
    requires
        0 <= k <= s.len(),
    ensures
        dec_value(s.take(k)) <= dec_value(s),
    decreases s.len() - k,
{
    if k == s.len() {
        assert(s.take(k) =~= s);
    } else {
        assert(s.take(k + 1).drop_last() =~= s.take(k));
        assert(dec_value(s.take(k + 1)) == dec_value(s.take(k)) * 10 + digit_val(
            s.take(k + 1).last(),
        ));
        lemma_dec_value_prefix(s, k + 1);
    }
}

/// Parse the count parameter of a query: the decimal value of the string,
/// or nothing when the string is empty, holds a non-digit, or denotes a
/// number too large to represent.
pub fn parse_count(s: &str) -> (r: Option<usize>)
    ensures
        (r matches Some(v)) <==> (s@.len() > 0 && all_digits(s@) && dec_value(s@) <= usize::MAX),
        r matches Some(v) ==> v == dec_value(s@),
{
    if !s.is_ascii() {
        proof {
            let i = choose|i: int| 0 <= i < s@.len() && !('\0' <= #[trigger] s@[i] <= '\u{7f}');
            assert(!is_digit_char(s@[i]));
        }
        return None;
    }
    let n = s.unicode_len();
    let mut acc: usize = 0;
    let mut i: usize = 0;
    while i < n
        invariant
            0 <= i <= n == s@.len(),
            s.is_ascii(),
            all_digits(s@.take(i as int)),
            acc == dec_value(s@.take(i as int)),
        decreases n - i,
    {
        let b = s.get_ascii(i);
        if b < 48 || b > 57 {
            proof {
                assert(!is_digit_char(s@[i as int]));
            }
            return None;
        }
        let d = (b - 48) as usize;
        proof {
            assert(s@.take(i + 1).drop_last() =~= s@.take(i as int));
            assert(is_digit_char(s@[i as int]) && digit_val(s@[i as int]) == d);
            vstd::arithmetic::div_mod::lemma_fundamental_div_mod((usize::MAX - d) as int, 10);
        }
        if acc > (usize::MAX - d) / 10 {
            proof {
                assert(dec_value(s@.take(i + 1)) > usize::MAX);
                if all_digits(s@) && dec_value(s@) <= usize::MAX {
                    lemma_dec_value_prefix(s@, i + 1);
                }
            }
            return None;
        }
        acc = acc * 10 + d;
        i += 1;
    }
    proof {
        assert(s@.take(n as int) =~= s@);
    }
    if n == 0 {
        None
    } else {
        Some(acc)
    }
}

/// The comma-separated quoted items of a tail response.
pub open spec fn spec_tail_items(lines: Seq<Seq<char>>) -> Seq<char>
    decreases lines.len(),
{
    if lines.len() == 0 {
        Seq::empty()
    } else if lines.len() == 1 {
        seq!['"'] + lines[0] + seq!['"']
    } else {
        spec_tail_items(lines.drop_last()) + ", "@ + seq!['"'] + lines.last() + seq!['"']
    }
}

/// A tail response: the lines, most recent first, each in quotes, comma
/// separated, in brackets. Quotes inside a line are not escaped.
pub open spec fn spec_render_tail(lines: Seq<Seq<char>>) -> Seq<char> {
    seq!['['] + spec_tail_items(lines) + seq![']']
}

/// Render the lines returned by a last-n query as the response body.
pub fn render_tail(lines: &Vec<String>) -> (r: String)
    ensures
        r@ == spec_render_tail(views_of(lines@)),
{
    proof {
        reveal_strlit("[");
        reveal_strlit("]");
        reveal_strlit("\"");
        reveal_strlit(", ");
    }
    let mut out = String::from_str("[");
    let mut i: usize = 0;
    while i < lines.len()
        invariant
            0 <= i <= lines@.len(),
            out@ == seq!['['] + spec_tail_items(views_of(lines@).take(i as int)),
        decreases lines@.len() - i,
    {
        if i > 0 {
            out.append(", ");
        }
        out.append("\"");
        out.append(lines[i].as_str());
        out.append("\"");
        proof {
            reveal_strlit("[");
            reveal_strlit("\"");
            reveal_strlit(", ");
            let lv = views_of(lines@);
            assert(lv.take(i + 1).drop_last() =~= lv.take(i as int));
            assert(lv.take(i + 1).last() == lines@[i as int]@);
            if i == 0 {
                assert(spec_tail_items(lv.take(1)) == seq!['"'] + lv.take(1)[0] + seq!['"']);
                assert(lv.take(1)[0] == lines@[0]@);
            } else {
                assert(spec_tail_items(lv.take(i + 1)) == spec_tail_items(lv.take(i as int))
                    + ", "@ + seq!['"'] + lines@[i as int]@ + seq!['"']);
            }
            assert(out@ =~= seq!['['] + spec_tail_items(lv.take(i + 1)));
        }
        i += 1;
    }
    proof {
        assert(views_of(lines@).take(lines@.len() as int) =~= views_of(lines@));
    }
    out.append("]");
    out
}

} // verus!
