//! The doctest hide transform: every line of a snippet that is not already
//! hidden is prefixed with the marker `# `, so that the line still compiles
//! inside a doctest but does not show in the rendered documentation.

use vstd::prelude::*;
use vstd::string::StrSliceExecFns;
use vstd::string::StringExecFns;
use crate::text::{spec_is_ws, skip_ws_to, chars_to_string, sp_trim_start, lemma_trim_skip};

verus! {

/// The index of the first `'\n'` of `s` at or after `i`, or `s.len()` when
/// no newline follows.
pub open spec fn sp_line_end(s: Seq<char>, i: nat) -> nat
    decreases s.len() - i,
{
    if i >= s.len() {
        s.len()
    } else if s[i as int] == '\n' {
        i
    } else {
        sp_line_end(s, i + 1)
    }
}

proof fn lemma_line_end(s: Seq<char>, i: nat)
    requires
        i <= s.len(),
    ensures
        i <= sp_line_end(s, i) <= s.len(),
        sp_line_end(s, i) < s.len() ==> s[sp_line_end(s, i) as int] == '\n',
        forall|t: int| i <= t < sp_line_end(s, i) ==> s[t] != '\n',
    decreases s.len() - i,
{
    if i < s.len() && s[i as int] != '\n' {
        lemma_line_end(s, i + 1);
    }
}

/// Where the content of the line that starts at `i` ends: at the next
/// newline, with one carriage return stripped when the line is
/// newline-terminated, and at the end of `s` otherwise.
pub open spec fn sp_content_end(s: Seq<char>, i: nat) -> nat {
    let e = sp_line_end(s, i);
    if e < s.len() && e > i && s[e - 1] == '\r' {
        (e - 1) as nat
    } else {
        e
    }
}

/// A line counts as already hidden when, after its leading whitespace, it
/// starts with a hash followed by a space.
pub open spec fn sp_line_hidden(line: Seq<char>) -> bool {
    let t = sp_trim_start(line);
    t.len() >= 2 && t[0] == '#' && t[1] == ' '
}

/// What the transform emits for one line: the line itself when it is already
/// hidden, the line behind a `# ` marker otherwise, and in both cases a
/// terminating newline.
pub open spec fn sp_hide_line(line: Seq<char>) -> Seq<char> {
    if sp_line_hidden(line) {
        line + seq!['\n']
    } else {
        seq!['#', ' '] + line + seq!['\n']
    }
}

/// The hide transform applied to every line of `s` from position `i` on.
pub open spec fn sp_dochide_from(s: Seq<char>, i: nat) -> Seq<char>
    decreases s.len() - i,
    via sp_dochide_from_dec
{
    if i >= s.len() {
        Seq::empty()
    } else {
        let e = sp_line_end(s, i);
        let line = s.subrange(i as int, sp_content_end(s, i) as int);
        if e >= s.len() {
            sp_hide_line(line)
        } else {
            sp_hide_line(line) + sp_dochide_from(s, e + 1)
        }
    }
}

#[via_fn]
proof fn sp_dochide_from_dec(s: Seq<char>, i: nat) {
    if i < s.len() {
        lemma_line_end(s, i);
    }
}

/// The hide transform over a whole snippet, line by line.
pub open spec fn spec_dochide(s: Seq<char>) -> Seq<char> {
    sp_dochide_from(s, 0)
}

fn line_end(s: &str, i: usize) -> (r: usize)
    requires
        i <= s@.len(),
    ensures
        r == sp_line_end(s@, i as nat),
    decreases s@.len() - i,
{
    let n = s.unicode_len();
    if i >= n {
        n
    } else if s.get_char(i) == '\n' {
        i
    } else {
        line_end(s, i + 1)
    }
}

/// Decides whether the slice of `s` from `i` to `e` is an already-hidden line.
fn line_hidden(s: &str, i: usize, e: usize) -> (r: bool)
    requires
        i <= e <= s@.len(),
    ensures
        r == sp_line_hidden(s@.subrange(i as int, e as int)),
{
    let t = skip_ws_to(s, i, e);
    let r = e - t >= 2 && s.get_char(t) == '#' && s.get_char(t + 1) == ' ';
    proof {
        let line = s@.subrange(i as int, e as int);
        assert(forall|q: int| 0 <= q < t - i ==> spec_is_ws(#[trigger] line[q])) by {
            assert(forall|q: int| 0 <= q < t - i ==> line[q] == s@[i + q]);
        }
        lemma_trim_skip(line, (t - i) as nat);
        assert(sp_trim_start(line) =~= s@.subrange(t as int, e as int));
    }
    r
}

/// Appends the characters of `s` in positions `i..e` to `acc`.
fn push_range(s: &str, i: usize, e: usize, acc: Vec<char>) -> (r: Vec<char>)
    requires
        i <= e <= s@.len(),
    ensures
        r@ == acc@ + s@.subrange(i as int, e as int),
    decreases e - i,
{
    if i < e {
        let mut acc2 = acc;
        let ghost acc0 = acc2@;
        acc2.push(s.get_char(i));
        let r = push_range(s, i + 1, e, acc2);
        proof {
            assert(acc0.push(s@[i as int]) + s@.subrange(i + 1, e as int)
                =~= acc0 + s@.subrange(i as int, e as int));
        }
        r
    } else {
        proof {
            assert(acc@ + s@.subrange(i as int, e as int) =~= acc@);
        }
        acc
    }
}

fn dochide_rec(s: &str, i: usize, acc: Vec<char>) -> (r: Vec<char>)
    requires
        i <= s@.len(),
    ensures
        r@ == acc@ + sp_dochide_from(s@, i as nat),
    decreases s@.len() - i,
{
    let ghost acc0 = acc@;
    let n = s.unicode_len();
    if i >= n {
        proof {
            assert(acc@ + sp_dochide_from(s@, i as nat) =~= acc@);
        }
        return acc;
    }
    let e = line_end(s, i);
    proof {
        lemma_line_end(s@, i as nat);
    }
    let ce: usize = if e < n && e > i && s.get_char(e - 1) == '\r' { e - 1 } else { e };
    assert(ce == sp_content_end(s@, i as nat));
    let hidden = line_hidden(s, i, ce);
    let mut acc2 = acc;
    if !hidden {
        acc2.push('#');
        acc2.push(' ');
    }
    let acc3 = push_range(s, i, ce, acc2);
    let mut acc4 = acc3;
    acc4.push('\n');
    proof {
        let line = s@.subrange(i as int, ce as int);
        assert(acc4@ =~= acc0 + sp_hide_line(line));
    }
    if e >= n {
        proof {
            assert(acc4@ =~= acc0 + sp_dochide_from(s@, i as nat));
        }
        acc4
    } else {
        let r = dochide_rec(s, e + 1, acc4);
        proof {
            assert(acc4@ + sp_dochide_from(s@, (e + 1) as nat)
                =~= acc0 + sp_dochide_from(s@, i as nat));
        }
        r
    }
}

/// Prefixes the doctest hide marker `# ` to every line of `input` that does
/// not already carry one after its leading whitespace; every emitted line is
/// newline-terminated.
pub fn dochide_lines(input: &str) -> (out: String)
    ensures
        out@ == spec_dochide(input@),
{
    let v = dochide_rec(input, 0, Vec::new());
    proof {
        assert(v@ =~= sp_dochide_from(input@, 0));
    }
    chars_to_string(&v)
}

proof fn lemma_line_end_at(u: Seq<char>, i: nat, j: nat)
    requires
        i <= j <= u.len(),
        forall|t: int| i <= t < j ==> u[t] != '\n',
        j < u.len() ==> u[j as int] == '\n',
    ensures
        sp_line_end(u, i) == j,
{
    lemma_line_end(u, i);
    let m = sp_line_end(u, i);
    if m < j {
        assert(u[m as int] == '\n');
        assert(u[m as int] != '\n');
    }
    if j < m {
        assert(u[j as int] == '\n');
        assert(u[j as int] != '\n');
    }
}

/// The transform looks at each position only relative to the line starts, so
/// the tail from any position transforms like the suffix taken on its own.
proof fn lemma_dochide_shift(u: Seq<char>, i: nat)
    requires
        i <= u.len(),
    ensures
        sp_dochide_from(u, i) == sp_dochide_from(u.skip(i as int), 0),
    decreases u.len() - i,
{
    let v = u.skip(i as int);
    if i >= u.len() {
        assert(v.len() == 0);
    } else {
        lemma_line_end(u, i);
        let e = sp_line_end(u, i);
        assert(forall|t: int| 0 <= t < e - i ==> v[t] != '\n') by {
            assert(forall|t: int| 0 <= t < e - i ==> v[t] == u[i + t]);
        }
        lemma_line_end_at(v, 0, (e - i) as nat);
        assert(u.subrange(i as int, sp_content_end(u, i) as int)
            =~= v.subrange(0, sp_content_end(v, 0) as int));
        if e < u.len() {
            lemma_dochide_shift(u, e + 1);
            lemma_dochide_shift(v, (e - i + 1) as nat);
            assert(v.skip(e - i + 1) =~= u.skip(e + 1 as int));
        }
    }
}

proof fn lemma_idem_from(s: Seq<char>, i: nat)
    requires
        i <= s.len(),
        forall|t: int| 0 <= t < s.len() ==> s[t] != '\r',
    ensures
        sp_dochide_from(sp_dochide_from(s, i), 0) == sp_dochide_from(s, i),
    decreases s.len() - i,
{
    if i >= s.len() {
    } else {
        lemma_line_end(s, i);
        let e = sp_line_end(s, i);
        assert(sp_content_end(s, i) == e);
        let line = s.subrange(i as int, e as int);
        let chunk = sp_hide_line(line);
        let rest: Seq<char> = if e >= s.len() {
            Seq::empty()
        } else {
            sp_dochide_from(s, e + 1)
        };
        if e < s.len() {
            lemma_idem_from(s, e + 1);
        }
        let out = sp_dochide_from(s, i);
        assert(out =~= chunk + rest);
        let u = chunk + rest;
        let pre: Seq<char> = if sp_line_hidden(line) {
            Seq::empty()
        } else {
            seq!['#', ' ']
        };
        assert(chunk =~= pre + line + seq!['\n']);
        assert(forall|t: int| 0 <= t < chunk.len() - 1 ==> u[t] != '\n') by {
            assert(forall|t: int| 0 <= t < chunk.len() - 1 ==> u[t] == chunk[t]);
            assert(forall|t: int| 0 <= t < pre.len() ==> chunk[t] != '\n');
            assert(forall|t: int| pre.len() <= t < pre.len() + line.len()
                ==> chunk[t] == line[t - pre.len()]);
            assert(forall|t: int| 0 <= t < line.len() ==> line[t] != '\n');
        }
        assert(u[chunk.len() - 1] == '\n');
        lemma_line_end_at(u, 0, (chunk.len() - 1) as nat);
        let e2 = sp_line_end(u, 0);
        // the already-hidden check never strips here: the character before
        // the newline is a space or a line character, never a carriage return
        assert(forall|t: int| 0 <= t < line.len() ==> line[t] != '\r');
        assert(sp_content_end(u, 0) == e2);
        let line2 = u.subrange(0, e2 as int);
        assert(line2 =~= pre + line);
        if sp_line_hidden(line) {
            assert(line2 =~= line);
        } else {
            assert(line2[0] == '#' && line2[1] == ' ');
            assert(sp_trim_start(line2) == line2);
        }
        assert(sp_line_hidden(line2));
        assert(sp_hide_line(line2) =~= chunk);
        assert(e2 < u.len());
        lemma_dochide_shift(u, (e2 + 1) as nat);
        assert(u.skip(e2 + 1 as int) =~= rest);
        if e >= s.len() {
            assert(sp_dochide_from(rest, 0) =~= rest);
        }
        assert(sp_dochide_from(u, 0) =~= chunk + rest);
    }
}

/// The hide transform is idempotent: every line it emits is already hidden,
/// so applying it to its own output changes nothing. This holds of every
/// input free of carriage returns.
pub proof fn lemma_dochide_idempotent(s: Seq<char>)
    requires
        forall|t: int| 0 <= t < s.len() ==> s[t] != '\r',
    ensures
        spec_dochide(spec_dochide(s)) == spec_dochide(s),
{
    lemma_idem_from(s, 0);
}

/// Applies the hide flag to a rendered snippet: the text goes through the
/// hide transform when hiding was asked for and is kept as it is otherwise.
pub fn finalize_contents(rendered: &str, hidden: bool) -> (r: String)
    ensures
        hidden ==> r@ == spec_dochide(rendered@),
        !hidden ==> r@ == rendered@,
{
    if hidden {
        dochide_lines(rendered)
    } else {
        String::from_str(rendered)
    }
}

} // verus!
