//! Character-level helpers shared by the line transform and the argument
//! grammars: a whitespace test and a bounded whitespace scan.

use vstd::prelude::*;
use vstd::string::StrSliceExecFns;

verus! {

/// The whitespace characters recognised when trimming: the ASCII blanks and
/// the Unicode space separators.
pub open spec fn spec_is_ws(c: char) -> bool {
    c == ' ' || c == '\t' || c == '\n' || c == '\r' || c == '\u{b}' || c == '\u{c}'
        || c == '\u{85}' || c == '\u{a0}' || c == '\u{1680}'
        || (0x2000 <= c as u32 && c as u32 <= 0x200a)
        || c == '\u{2028}' || c == '\u{2029}' || c == '\u{202f}' || c == '\u{205f}'
        || c == '\u{3000}'
}

/// Decides whether `c` is a whitespace character.
pub fn is_ws(c: char) -> (r: bool)
    ensures
        r == spec_is_ws(c),
{
    c == ' ' || c == '\t' || c == '\n' || c == '\r' || c == '\u{b}' || c == '\u{c}'
        || c == '\u{85}' || c == '\u{a0}' || c == '\u{1680}'
        || (0x2000 <= c as u32 && c as u32 <= 0x200a)
        || c == '\u{2028}' || c == '\u{2029}' || c == '\u{202f}' || c == '\u{205f}'
        || c == '\u{3000}'
}

/// Advances `i` past every whitespace character of `s` before position `e`,
/// and returns the first index in `i..e` that holds a non-whitespace
/// character, or `e` when there is none.
pub fn skip_ws_to(s: &str, i: usize, e: usize) -> (r: usize)
    requires
        i <= e <= s@.len(),
    ensures
        i <= r <= e,
        forall|t: int| i <= t < r ==> spec_is_ws(s@[t]),
        r < e ==> !spec_is_ws(s@[r as int]),
    decreases e - i,
{
    if i < e && is_ws(s.get_char(i)) {
        skip_ws_to(s, i + 1, e)
    } else {
        i
    }
}

/// `s` with its leading whitespace removed.
pub open spec fn sp_trim_start(s: Seq<char>) -> Seq<char>
    decreases s.len(),
{
    if s.len() > 0 && spec_is_ws(s[0]) {
        sp_trim_start(s.drop_first())
    } else {
        s
    }
}

/// `s` with its trailing whitespace removed.
pub open spec fn sp_trim_end(s: Seq<char>) -> Seq<char>
    decreases s.len(),
{
    if s.len() > 0 && spec_is_ws(s[s.len() - 1]) {
        sp_trim_end(s.drop_last())
    } else {
        s
    }
}

/// `s` with whitespace removed from both ends.
pub open spec fn sp_trim(s: Seq<char>) -> Seq<char> {
    sp_trim_end(sp_trim_start(s))
}

/// `sp_trim_start` drops exactly the characters before the first
/// non-whitespace position.
pub proof fn lemma_trim_skip(line: Seq<char>, k: nat)
    requires
        k <= line.len(),
        forall|t: int| 0 <= t < k ==> spec_is_ws(line[t]),
        k < line.len() ==> !spec_is_ws(line[k as int]),
    ensures
        sp_trim_start(line) == line.skip(k as int),
    decreases k,
{
    if k == 0 {
        assert(line.skip(0) =~= line);
    } else {
        let l2 = line.drop_first();
        assert(forall|t: int| 0 <= t < k - 1 ==> spec_is_ws(l2[t]));
        lemma_trim_skip(l2, (k - 1) as nat);
        assert(l2.skip(k - 1) =~= line.skip(k as int));
    }
}

/// `sp_trim_end` keeps exactly the characters before the last
/// non-whitespace position.
pub proof fn lemma_trim_take(s: Seq<char>, b: nat)
    requires
        b <= s.len(),
        forall|t: int| b <= t < s.len() ==> spec_is_ws(s[t]),
        b > 0 ==> !spec_is_ws(s[b - 1]),
    ensures
        sp_trim_end(s) == s.take(b as int),
    decreases s.len(),
{
    if s.len() > 0 && spec_is_ws(s[s.len() - 1]) {
        let l2 = s.drop_last();
        assert(forall|t: int| b <= t < l2.len() ==> spec_is_ws(l2[t]));
        lemma_trim_take(l2, b);
        assert(l2.take(b as int) =~= s.take(b as int));
    } else {
        if s.len() == 0 {
            assert(s.take(b as int) =~= s);
        } else {
            assert(b == s.len());
            assert(s.take(b as int) =~= s);
        }
    }
}

fn vec_skip_ws(v: &Vec<char>, i: usize) -> (r: usize)
    requires
        i <= v@.len(),
    ensures
        i <= r <= v@.len(),
        forall|t: int| i <= t < r ==> spec_is_ws(v@[t]),
        r < v@.len() ==> !spec_is_ws(v@[r as int]),
    decreases v@.len() - i,
{
    if i < v.len() && is_ws(v[i]) {
        vec_skip_ws(v, i + 1)
    } else {
        i
    }
}

fn vec_rskip_ws(v: &Vec<char>, a: usize, b: usize) -> (r: usize)
    requires
        a <= b <= v@.len(),
    ensures
        a <= r <= b,
        forall|t: int| r <= t < b ==> spec_is_ws(v@[t]),
        r > a ==> !spec_is_ws(v@[r - 1]),
    decreases b,
{
    if b > a && is_ws(v[b - 1]) {
        vec_rskip_ws(v, a, b - 1)
    } else {
        b
    }
}

fn vec_range(v: &Vec<char>, i: usize, e: usize, acc: Vec<char>) -> (r: Vec<char>)
    requires
        i <= e <= v@.len(),
    ensures
        r@ == acc@ + v@.subrange(i as int, e as int),
    decreases e - i,
{
    if i < e {
        let mut acc2 = acc;
        let ghost acc0 = acc2@;
        acc2.push(v[i]);
        let r = vec_range(v, i + 1, e, acc2);
        proof {
            assert(acc0.push(v@[i as int]) + v@.subrange(i + 1, e as int)
                =~= acc0 + v@.subrange(i as int, e as int));
        }
        r
    } else {
        proof {
            assert(acc@ + v@.subrange(i as int, e as int) =~= acc@);
        }
        acc
    }
}

/// Removes the whitespace at both ends of a character vector.
pub fn trim_chars(v: &Vec<char>) -> (r: Vec<char>)
    ensures
        r@ == sp_trim(v@),
{
    let a = vec_skip_ws(v, 0);
    let b = vec_rskip_ws(v, a, v.len());
    let r = vec_range(v, a, b, Vec::new());
    proof {
        lemma_trim_skip(v@, a as nat);
        let u = v@.skip(a as int);
        assert(forall|t: int| b - a <= t < u.len() ==> spec_is_ws(#[trigger] u[t])) by {
            assert(forall|t: int| b - a <= t < u.len() ==> u[t] == v@[a + t]);
        }
        lemma_trim_take(u, (b - a) as nat);
        assert(u.take(b - a) =~= v@.subrange(a as int, b as int));
        assert(r@ =~= sp_trim(v@));
    }
    r
}

/// The index of the first character of `s` at or after `i` that is not
/// whitespace, or the length of `s` when only whitespace follows.
pub open spec fn sp_skip_ws(s: Seq<char>, i: nat) -> nat
    decreases s.len() - i,
{
    if i < s.len() && spec_is_ws(s[i as int]) {
        sp_skip_ws(s, i + 1)
    } else {
        i
    }
}

pub proof fn lemma_skip_ws(s: Seq<char>, i: nat)
    requires
        i <= s.len(),
    ensures
        i <= sp_skip_ws(s, i) <= s.len(),
    decreases s.len() - i,
{
    if i < s.len() && spec_is_ws(s[i as int]) {
        lemma_skip_ws(s, i + 1);
    }
}

/// Advances past whitespace, mirroring `sp_skip_ws`.
pub fn skip_ws(s: &str, i: usize) -> (r: usize)
    requires
        i <= s@.len(),
    ensures
        r == sp_skip_ws(s@, i as nat),
        i <= r <= s@.len(),
    decreases s@.len() - i,
{
    if i < s.unicode_len() && is_ws(s.get_char(i)) {
        skip_ws(s, i + 1)
    } else {
        i
    }
}

/// Whether `c` may open an identifier: a letter or an underscore.
pub open spec fn spec_is_ident_start(c: char) -> bool {
    (0x41 <= c as u32 && c as u32 <= 0x5a) || (0x61 <= c as u32 && c as u32 <= 0x7a)
        || c == '_'
}

/// Whether `c` may continue an identifier: a letter, a digit or an underscore.
pub open spec fn spec_is_ident_char(c: char) -> bool {
    spec_is_ident_start(c) || (0x30 <= c as u32 && c as u32 <= 0x39)
}

/// Decides whether `c` may open an identifier.
pub fn is_ident_start(c: char) -> (r: bool)
    ensures
        r == spec_is_ident_start(c),
{
    (0x41 <= c as u32 && c as u32 <= 0x5a) || (0x61 <= c as u32 && c as u32 <= 0x7a)
        || c == '_'
}

/// Decides whether `c` may continue an identifier.
pub fn is_ident_char(c: char) -> (r: bool)
    ensures
        r == spec_is_ident_char(c),
{
    is_ident_start(c) || (0x30 <= c as u32 && c as u32 <= 0x39)
}

/// Where the identifier that runs from `i` ends: the first index at or after
/// `i` whose character cannot continue an identifier, or the length of `s`.
pub open spec fn sp_ident_end(s: Seq<char>, i: nat) -> nat
    decreases s.len() - i,
{
    if i < s.len() && spec_is_ident_char(s[i as int]) {
        sp_ident_end(s, i + 1)
    } else {
        i
    }
}

pub proof fn lemma_ident_end(s: Seq<char>, i: nat)
    requires
        i <= s.len(),
    ensures
        i <= sp_ident_end(s, i) <= s.len(),
    decreases s.len() - i,
{
    if i < s.len() && spec_is_ident_char(s[i as int]) {
        lemma_ident_end(s, i + 1);
    }
}

/// Advances past identifier characters, mirroring `sp_ident_end`.
pub fn ident_end(s: &str, i: usize) -> (r: usize)
    requires
        i <= s@.len(),
    ensures
        r == sp_ident_end(s@, i as nat),
        i <= r <= s@.len(),
    decreases s@.len() - i,
{
    if i < s.unicode_len() && is_ident_char(s.get_char(i)) {
        ident_end(s, i + 1)
    } else {
        i
    }
}

fn range_eq_from(s: &str, i: usize, j: usize, t: &str, k: usize) -> (r: bool)
    requires
        i <= j <= s@.len(),
        j - i == t@.len(),
        k <= t@.len(),
    ensures
        r == (forall|q: int| k <= q < t@.len() ==> s@[i + q] == t@[q]),
    decreases t@.len() - k,
{
    let tn = t.unicode_len();
    if k >= tn {
        true
    } else if s.get_char(i + k) == t.get_char(k) {
        range_eq_from(s, i, j, t, k + 1)
    } else {
        false
    }
}

/// Decides whether the characters of `s` in positions `i..j` spell exactly
/// the string `t`.
pub fn range_eq(s: &str, i: usize, j: usize, t: &str) -> (r: bool)
    requires
        i <= j <= s@.len(),
    ensures
        r == (s@.subrange(i as int, j as int) == t@),
{
    let tn = t.unicode_len();
    if j - i != tn {
        proof {
            assert(s@.subrange(i as int, j as int).len() != t@.len());
        }
        false
    } else {
        let r = range_eq_from(s, i, j, t, 0);
        proof {
            let sub = s@.subrange(i as int, j as int);
            if r {
                assert(sub =~= t@);
            } else {
                assert(sub != t@);
            }
        }
        r
    }
}

/// Collects the characters of a vector into a `String`.
///
/// Relies on `String: FromIterator<char>`: collecting an iterator of
/// characters yields the string of exactly those characters in order.
#[verifier::external_body]
pub fn chars_to_string(v: &Vec<char>) -> (r: String)
    ensures
        r@ == v@,
{
    v.iter().collect()
}

} // verus!
