//! Small verified text utilities: whitespace trimming for header parameter
//! values, and the suffix rewrite applied to human-readable byte counts.

use vstd::prelude::*;

verus! {

/// The characters with the Unicode `White_Space` property, the ones ordinary
/// trimming removes.
pub open spec fn is_ws(c: char) -> bool {
    ||| (0x09 <= c as u32 && c as u32 <= 0x0d)
    ||| c as u32 == 0x20
    ||| c as u32 == 0x85
    ||| c as u32 == 0xa0
    ||| c as u32 == 0x1680
    ||| (0x2000 <= c as u32 && c as u32 <= 0x200a)
    ||| c as u32 == 0x2028
    ||| c as u32 == 0x2029
    ||| c as u32 == 0x202f
    ||| c as u32 == 0x205f
    ||| c as u32 == 0x3000
}

/// Decides `is_ws`.
pub fn check_ws(c: char) -> (r: bool)
    ensures
        r == is_ws(c),
{
    let v = c as u32;
    (0x09 <= v && v <= 0x0d) || v == 0x20 || v == 0x85 || v == 0xa0 || v == 0x1680 || (0x2000 <= v
        && v <= 0x200a) || v == 0x2028 || v == 0x2029 || v == 0x202f || v == 0x205f || v == 0x3000
}

/// Length of the whitespace prefix of `s`.
pub open spec fn ws_prefix(s: Seq<char>) -> int
    decreases s.len(),
{
    if s.len() > 0 && is_ws(s[0]) {
        1 + ws_prefix(s.drop_first())
    } else {
        0
    }
}

/// Length of the whitespace suffix of `s`.
pub open spec fn ws_suffix(s: Seq<char>) -> int
    decreases s.len(),
{
    if s.len() > 0 && is_ws(s.last()) {
        1 + ws_suffix(s.drop_last())
    } else {
        0
    }
}

/// `s` with leading and trailing whitespace removed.
pub open spec fn trimmed(s: Seq<char>) -> Seq<char> {
    if ws_prefix(s) == s.len() {
        Seq::empty()
    } else {
        s.subrange(ws_prefix(s), s.len() - ws_suffix(s))
    }
}

proof fn lemma_ws_prefix_at(s: Seq<char>, i: int)
    requires
        0 <= i <= s.len(),
        forall|k: int| 0 <= k < i ==> is_ws(s[k]),
        i < s.len() ==> !is_ws(s[i]),
    ensures
        ws_prefix(s) == i,
    decreases s.len(),
{
    if s.len() > 0 && is_ws(s[0]) {
        let t = s.drop_first();
        assert(forall|k: int| 0 <= k < i - 1 ==> s[k + 1] == t[k] && is_ws(t[k]));
        lemma_ws_prefix_at(t, i - 1);
    }
}

proof fn lemma_ws_suffix_at(s: Seq<char>, j: int)
    requires
        0 <= j <= s.len(),
        forall|k: int| j <= k < s.len() ==> is_ws(s[k]),
        j > 0 ==> !is_ws(s[j - 1]),
    ensures
        ws_suffix(s) == s.len() - j,
    decreases s.len(),
{
    if s.len() > 0 && is_ws(s.last()) {
        let t = s.drop_last();
        assert(forall|k: int| j <= k < t.len() ==> t[k] == s[k] && is_ws(t[k]));
        lemma_ws_suffix_at(t, j);
    }
}

/// Trims whitespace from both ends, as a header parameter value is trimmed
/// before it is taken as a destination subpath.
pub fn trim(s: &str) -> (r: String)
    ensures
        r@ == trimmed(s@),
{
    let n = s.unicode_len();
    let mut start: usize = 0;
    while start < n && check_ws(s.get_char(start))
        invariant
            0 <= start <= n == s@.len(),
            forall|k: int| 0 <= k < start ==> is_ws(s@[k]),
        decreases n - start,
    {
        start += 1;
    }
    if start == n {
        proof {
            lemma_ws_prefix_at(s@, n as int);
        }
        return String::new();
    }
    let mut end: usize = n;
    while end > start && check_ws(s.get_char(end - 1))
        invariant
            start <= end <= n == s@.len(),
            start < n,
            !is_ws(s@[start as int]),
            forall|k: int| end <= k < n ==> is_ws(s@[k]),
        decreases end,
    {
        end -= 1;
    }
    proof {
        lemma_ws_prefix_at(s@, start as int);
        assert(end > start);
        assert(!is_ws(s@[end - 1]));
        lemma_ws_suffix_at(s@, end as int);
        assert(ws_prefix(s@) < s@.len());
    }
    let r = s.substring_char(start, end);
    proof {
        assert(r@ =~= trimmed(s@));
    }
    String::from_str(r)
}

/// `s` with every occurrence of `" B"` rewritten to `" bytes"`, scanning
/// left to right; this is the touch-up applied to formatted byte counts so
/// that a bare unit `B` reads as `bytes`.
pub open spec fn b_replaced(s: Seq<char>) -> Seq<char>
    decreases s.len(),
{
    if s.len() >= 2 && s[0] == ' ' && s[1] == 'B' {
        seq![' ', 'b', 'y', 't', 'e', 's'] + b_replaced(s.skip(2))
    } else if s.len() == 0 {
        s
    } else {
        seq![s[0]] + b_replaced(s.skip(1))
    }
}

/// Rewrites `" B"` to `" bytes"` throughout `s`.
pub fn replace_b_unit(s: &str) -> (r: String)
    ensures
        r@ == b_replaced(s@),
{
    let n = s.unicode_len();
    let mut out = String::new();
    proof {
        assert(s@.skip(0) =~= s@);
        assert(out@ + b_replaced(s@) =~= b_replaced(s@));
    }
    let mut i: usize = 0;
    while i < n
        invariant
            0 <= i <= n == s@.len(),
            out@ + b_replaced(s@.skip(i as int)) == b_replaced(s@),
        decreases n - i,
    {
        let ghost pre = out@;
        let ghost rest = s@.skip(i as int);
        if i + 1 < n && s.get_char(i) == ' ' && s.get_char(i + 1) == 'B' {
            out.append(" bytes");
            proof {
                reveal_strlit(" bytes");
                assert(rest[0] == ' ' && rest[1] == 'B');
                assert(rest.skip(2) =~= s@.skip(i + 2));
                assert(b_replaced(rest) == seq![' ', 'b', 'y', 't', 'e', 's'] + b_replaced(
                    s@.skip(i + 2),
                ));
                assert(" bytes"@ =~= seq![' ', 'b', 'y', 't', 'e', 's']);
                assert(out@ + b_replaced(s@.skip(i + 2)) =~= pre + b_replaced(rest));
            }
            i += 2;
        } else {
            let piece = s.substring_char(i, i + 1);
            out.append(piece);
            proof {
                assert(rest[0] == s@[i as int]);
                assert(rest.skip(1) =~= s@.skip(i + 1));
                if rest.len() >= 2 && rest[0] == ' ' && rest[1] == 'B' {
                    assert(s@[i as int] == ' ' && s@[i + 1] == 'B');
                    assert(false);
                }
                assert(b_replaced(rest) == seq![rest[0]] + b_replaced(s@.skip(i + 1)));
                assert(piece@ =~= seq![s@[i as int]]);
                assert(out@ + b_replaced(s@.skip(i + 1)) =~= pre + b_replaced(rest));
            }
            i += 1;
        }
    }
    proof {
        assert(s@.skip(n as int) =~= Seq::<char>::empty());
        assert(out@ =~= out@ + b_replaced(s@.skip(n as int)));
    }
    out
}

} // verus!
