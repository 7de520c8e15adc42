//! Whitespace, trimming and word splitting, as `char::is_whitespace`,
//! `str::trim` and `str::split_whitespace` define them.
use vstd::prelude::*;

use crate::strs::{chars_of, string_from_chars};

verus! {

/// The Unicode `White_Space` property (what `char::is_whitespace` tests).
pub open spec fn is_ws(c: char) -> bool {
    let n = c as u32;
    ||| 0x09 <= n <= 0x0D
    ||| n == 0x20
    ||| n == 0x85
    ||| n == 0xA0
    ||| n == 0x1680
    ||| 0x2000 <= n <= 0x200A
    ||| n == 0x2028
    ||| n == 0x2029
    ||| n == 0x202F
    ||| n == 0x205F
    ||| n == 0x3000
}

pub fn is_whitespace(c: char) -> (r: bool)
    ensures
        r == is_ws(c),
{
    let n = c as u32;
    (0x09 <= n && n <= 0x0D) || n == 0x20 || n == 0x85 || n == 0xA0 || n == 0x1680 || (0x2000 <= n
        && n <= 0x200A) || n == 0x2028 || n == 0x2029 || n == 0x202F || n == 0x205F || n == 0x3000
}

/// `s` without leading whitespace.
pub open spec fn trim_start(s: Seq<char>) -> Seq<char>
    decreases s.len(),
{
    if s.len() > 0 && is_ws(s[0]) { trim_start(s.drop_first()) } else { s }
}

/// `s` without trailing whitespace.
pub open spec fn trim_end(s: Seq<char>) -> Seq<char>
    decreases s.len(),
{
    if s.len() > 0 && is_ws(s.last()) { trim_end(s.drop_last()) } else { s }
}

pub open spec fn trim(s: Seq<char>) -> Seq<char> {
    trim_end(trim_start(s))
}

/// Words found so far, and the word being read, after reading `s`.
pub open spec fn split_state(s: Seq<char>) -> (Seq<Seq<char>>, Seq<char>)
    decreases s.len(),
{
    if s.len() == 0 {
        (Seq::empty(), Seq::empty())
    } else {
        let (ws, cur) = split_state(s.drop_last());
        if is_ws(s.last()) {
            if cur.len() > 0 { (ws.push(cur), Seq::empty()) } else { (ws, cur) }
        } else {
            (ws, cur.push(s.last()))
        }
    }
}

/// The maximal runs of non-whitespace characters of `s`, in order.
pub open spec fn words(s: Seq<char>) -> Seq<Seq<char>> {
    let (ws, cur) = split_state(s);
    if cur.len() > 0 { ws.push(cur) } else { ws }
}

proof fn lemma_trim_start_suffix(s: Seq<char>, i: int)
    requires
        0 <= i <= s.len(),
        forall|j: int| 0 <= j < i ==> is_ws(s[j]),
    ensures
        trim_start(s) == trim_start(s.subrange(i, s.len() as int)),
    decreases i,
{
    if i > 0 {
        assert(s.drop_first().subrange(i - 1, s.drop_first().len() as int) =~= s.subrange(i, s.len() as int));
        lemma_trim_start_suffix(s.drop_first(), i - 1);
    } else {
        assert(s.subrange(0, s.len() as int) =~= s);
    }
}

proof fn lemma_trim_end_prefix(s: Seq<char>, k: int)
    requires
        0 <= k <= s.len(),
        forall|j: int| k <= j < s.len() ==> is_ws(s[j]),
    ensures
        trim_end(s) == trim_end(s.subrange(0, k)),
    decreases s.len() - k,
{
    if k < s.len() {
        assert(s.drop_last().subrange(0, k) =~= s.subrange(0, k));
        lemma_trim_end_prefix(s.drop_last(), k);
    } else {
        assert(s.subrange(0, k) =~= s);
    }
}

/// `str::trim`.
pub fn trim_str(s: &str) -> (r: String)
    ensures
        r@ == trim(s@),
{
    let cs = chars_of(s);
    let n = cs.len();
    let mut a: usize = 0;
    while a < n && is_whitespace(cs[a])
        invariant
            cs@ == s@,
            n == cs@.len(),
            a <= n,
            forall|j: int| 0 <= j < a ==> is_ws(cs@[j]),
        decreases n - a,
    {
        a = a + 1;
    }
    proof {
        lemma_trim_start_suffix(s@, a as int);
    }
    let ghost t = s@.subrange(a as int, n as int);
    assert(trim_start(t) == t);
    let mut b: usize = n;
    while b > a && is_whitespace(cs[b - 1])
        invariant
            cs@ == s@,
            n == cs@.len(),
            a <= b <= n,
            t == s@.subrange(a as int, n as int),
            forall|j: int| b <= j < n ==> is_ws(cs@[j]),
        decreases b - a,
    {
        b = b - 1;
    }
    proof {
        assert forall|j: int| (b - a) <= j < t.len() implies is_ws(t[j]) by {
            assert(t[j] == s@[j + a]);
        }
        lemma_trim_end_prefix(t, b - a);
        assert(t.subrange(0, b - a) =~= s@.subrange(a as int, b as int));
    }
    string_from_chars(&cs.as_slice()[a..b])
}

/// `str::split_whitespace`, collected.
pub fn split_words(s: &str) -> (r: Vec<String>)
    ensures
        r@.map_values(|w: String| w@) == words(s@),
{
    let cs = chars_of(s);
    let mut out: Vec<String> = Vec::new();
    let mut cur: Vec<char> = Vec::new();
    for i in 0..cs.len()
        invariant
            cs@ == s@,
            (out@.map_values(|w: String| w@), cur@) == split_state(s@.subrange(0, i as int)),
    {
        let c = cs[i];
        let ghost pre = s@.subrange(0, i as int);
        assert(s@.subrange(0, i + 1).drop_last() =~= pre);
        if is_whitespace(c) {
            if cur.len() > 0 {
                let w = string_from_chars(cur.as_slice());
                out.push(w);
                cur = Vec::new();
                assert(out@.map_values(|w: String| w@) =~= split_state(pre).0.push(split_state(pre).1));
            }
        } else {
            cur.push(c);
        }
    }
    assert(s@.subrange(0, cs@.len() as int) =~= s@);
    if cur.len() > 0 {
        let w = string_from_chars(cur.as_slice());
        let ghost before = out@.map_values(|w: String| w@);
        out.push(w);
        assert(out@.map_values(|w: String| w@) =~= before.push(cur@));
    }
    out
}

/// Among ASCII characters, exactly space, tab, line feed, vertical tab,
/// form feed and carriage return are whitespace.
pub proof fn lemma_ascii_whitespace(c: char)
    ensures
        (c as u32) < 128 ==> (is_ws(c) <==> (c == ' ' || c == '\t' || c == '\n' || c == '\x0B' || c == '\x0C'
            || c == '\r')),
{
}

proof fn lemma_trim_start_shape(s: Seq<char>)
    ensures
        exists|a: int| 0 <= a <= s.len() && trim_start(s) == s.subrange(a, s.len() as int)
            && (forall|i: int| 0 <= i < a ==> is_ws(#[trigger] s[i])),
        trim_start(s).len() > 0 ==> !is_ws(trim_start(s)[0]),
    decreases s.len(),
{
    if s.len() > 0 && is_ws(s[0]) {
        lemma_trim_start_shape(s.drop_first());
        let d = s.drop_first();
        let a = choose|a: int| 0 <= a <= d.len() && trim_start(d) == d.subrange(a, d.len() as int)
            && (forall|i: int| 0 <= i < a ==> is_ws(#[trigger] d[i]));
        assert(d.subrange(a, d.len() as int) =~= s.subrange(a + 1, s.len() as int));
        assert forall|i: int| 0 <= i < a + 1 implies is_ws(#[trigger] s[i]) by {
            if i > 0 {
                assert(s[i] == d[i - 1]);
            }
        }
    } else {
        assert(s.subrange(0, s.len() as int) =~= s);
    }
}

proof fn lemma_trim_end_shape(s: Seq<char>)
    ensures
        exists|b: int| 0 <= b <= s.len() && trim_end(s) == s.subrange(0, b)
            && (forall|i: int| b <= i < s.len() ==> is_ws(#[trigger] s[i])),
        trim_end(s).len() > 0 ==> !is_ws(trim_end(s).last()),
    decreases s.len(),
{
    if s.len() > 0 && is_ws(s.last()) {
        lemma_trim_end_shape(s.drop_last());
        let d = s.drop_last();
        let b = choose|b: int| 0 <= b <= d.len() && trim_end(d) == d.subrange(0, b)
            && (forall|i: int| b <= i < d.len() ==> is_ws(#[trigger] d[i]));
        assert(d.subrange(0, b) =~= s.subrange(0, b));
        assert forall|i: int| b <= i < s.len() implies is_ws(#[trigger] s[i]) by {
            if i < d.len() {
                assert(s[i] == d[i]);
            }
        }
    } else {
        assert(s.subrange(0, s.len() as int) =~= s);
    }
}

/// Trimming removes exactly the whitespace at both ends: the result is a
/// piece of the text that neither starts nor ends with whitespace, and
/// everything cut off before or after it is whitespace.
pub proof fn lemma_trim_cuts_only_whitespace(s: Seq<char>)
    ensures
        trim(s).len() > 0 ==> !is_ws(trim(s)[0]) && !is_ws(trim(s).last()),
        exists|a: int, b: int| 0 <= a <= b <= s.len() && trim(s) == s.subrange(a, b)
            && (forall|i: int| 0 <= i < a ==> is_ws(#[trigger] s[i]))
            && (forall|i: int| b <= i < s.len() ==> is_ws(#[trigger] s[i])),
{
    lemma_trim_start_shape(s);
    let t = trim_start(s);
    lemma_trim_end_shape(t);
    let a = choose|a: int| 0 <= a <= s.len() && t == s.subrange(a, s.len() as int)
        && (forall|i: int| 0 <= i < a ==> is_ws(#[trigger] s[i]));
    let b = choose|b: int| 0 <= b <= t.len() && trim_end(t) == t.subrange(0, b)
        && (forall|i: int| b <= i < t.len() ==> is_ws(#[trigger] t[i]));
    assert(trim(s) =~= s.subrange(a, a + b));
    assert forall|i: int| a + b <= i < s.len() implies is_ws(#[trigger] s[i]) by {
        assert(s[i] == t[i - a]);
    }
    if trim(s).len() > 0 {
        assert(trim(s)[0] == t[0]);
        assert(t.len() > 0);
    }
}

/// Every word is a non-empty run of characters none of which is
/// whitespace.
pub proof fn lemma_words_have_no_whitespace(s: Seq<char>)
    ensures
        forall|k: int, i: int| 0 <= k < words(s).len() && 0 <= i < words(s)[k].len()
            ==> !is_ws(#[trigger] words(s)[k][i]),
        forall|k: int| 0 <= k < words(s).len() ==> (#[trigger] words(s)[k]).len() > 0,
{
    lemma_split_state_words(s);
    let (ws, cur) = split_state(s);
    let w = words(s);
    assert forall|k: int, i: int| 0 <= k < w.len() && 0 <= i < w[k].len() implies !is_ws(#[trigger] w[k][i]) by {
        if k < ws.len() {
            assert(w[k] == ws[k]);
        }
    }
}

proof fn lemma_split_state_words(s: Seq<char>)
    ensures
        forall|k: int, i: int| 0 <= k < split_state(s).0.len() && 0 <= i < split_state(s).0[k].len()
            ==> !is_ws(#[trigger] split_state(s).0[k][i]),
        forall|k: int| 0 <= k < split_state(s).0.len() ==> (#[trigger] split_state(s).0[k]).len() > 0,
        forall|i: int| 0 <= i < split_state(s).1.len() ==> !is_ws(#[trigger] split_state(s).1[i]),
    decreases s.len(),
{
    if s.len() > 0 {
        lemma_split_state_words(s.drop_last());
        let (ws, cur) = split_state(s.drop_last());
        let (ws2, cur2) = split_state(s);
        if is_ws(s.last()) {
            if cur.len() > 0 {
                assert forall|k: int, i: int| 0 <= k < ws2.len() && 0 <= i < ws2[k].len() implies !is_ws(#[trigger] ws2[k][i]) by {
                    if k < ws.len() {
                        assert(ws2[k] == ws[k]);
                    } else {
                        assert(ws2[k] == cur);
                    }
                }
                assert forall|k: int| 0 <= k < ws2.len() implies (#[trigger] ws2[k]).len() > 0 by {
                    if k < ws.len() {
                        assert(ws2[k] == ws[k]);
                    }
                }
            }
        } else {
            assert forall|i: int| 0 <= i < cur2.len() implies !is_ws(#[trigger] cur2[i]) by {
                if i < cur.len() {
                    assert(cur2[i] == cur[i]);
                }
            }
        }
    }
}

proof fn lemma_split_state_keeps(s: Seq<char>)
    ensures
        split_state(s).0.flatten_alt() + split_state(s).1 == s.filter(|c: char| !is_ws(c)),
    decreases s.len(),
{
    reveal_with_fuel(Seq::filter, 1);
    if s.len() > 0 {
        let d = s.drop_last();
        lemma_split_state_keeps(d);
        let (ws, cur) = split_state(d);
        assert(s.drop_last() == d);
        if is_ws(s.last()) {
            if cur.len() > 0 {
                let ws2 = ws.push(cur);
                assert(ws2.drop_last() =~= ws);
                assert(ws2.flatten_alt() == ws.flatten_alt() + cur);
                assert(ws2.flatten_alt() + Seq::<char>::empty() =~= ws.flatten_alt() + cur);
            }
        } else {
            assert(ws.flatten_alt() + cur.push(s.last()) =~= (ws.flatten_alt() + cur).push(s.last()));
        }
    } else {
        assert(Seq::<Seq<char>>::empty().flatten_alt() + Seq::<char>::empty() =~= s);
    }
}

/// Splitting into words loses no character but whitespace: the words, put
/// back together, are the text with its whitespace left out.
pub proof fn lemma_words_keep_all_else(s: Seq<char>)
    ensures
        words(s).flatten() == s.filter(|c: char| !is_ws(c)),
{
    lemma_split_state_keeps(s);
    let (ws, cur) = split_state(s);
    words(s).lemma_flatten_and_flatten_alt_are_equivalent();
    if cur.len() > 0 {
        let w = ws.push(cur);
        assert(w.drop_last() =~= ws);
        assert(w.flatten_alt() == ws.flatten_alt() + cur);
    } else {
        assert(cur =~= Seq::<char>::empty());
        assert(ws.flatten_alt() + cur =~= ws.flatten_alt());
    }
}

} // verus!
