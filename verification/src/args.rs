//! The key-value argument grammar: a comma-separated list of `key = value`
//! pairs, where `path` takes a double-quoted string literal, `hidden` takes
//! `true` or `false`, and `toml` takes a braced block of inline data.
//! Later occurrences of a key overwrite earlier ones; `path` is required,
//! `hidden` defaults to false and `toml` to an empty table.

use vstd::prelude::*;
use vstd::string::StrSliceExecFns;
use crate::errors::ArgsError;
use crate::text::{
    spec_is_ident_start, is_ident_start,
    sp_skip_ws, skip_ws, sp_ident_end, ident_end,
    lemma_skip_ws, lemma_ident_end,
    sp_trim, trim_chars, chars_to_string, range_eq,
};
use crate::toml_data::{table_contents, sp_toml_of, sp_empty_contents, to_toml_table, new_table};

verus! {

/// The body of a string literal from position `i` (just past the opening
/// quote) to its closing quote: the value read so far is `acc`, each
/// recognised backslash escape is replaced, and the position just past the
/// closing quote is returned with the value.
pub open spec fn sp_lit_body(s: Seq<char>, i: nat, acc: Seq<char>) -> Result<(Seq<char>, nat), ArgsError>
    decreases s.len() - i,
{
    if i >= s.len() {
        Err(ArgsError::UnterminatedString)
    } else {
        let c = s[i as int];
        if c == '"' {
            Ok((acc, i + 1))
        } else if c == '\\' {
            if i + 1 >= s.len() {
                Err(ArgsError::UnterminatedString)
            } else {
                let d = s[i + 1 as int];
                if d == 'n' {
                    sp_lit_body(s, i + 2, acc.push('\n'))
                } else if d == 't' {
                    sp_lit_body(s, i + 2, acc.push('\t'))
                } else if d == 'r' {
                    sp_lit_body(s, i + 2, acc.push('\r'))
                } else if d == '\\' {
                    sp_lit_body(s, i + 2, acc.push('\\'))
                } else if d == '"' {
                    sp_lit_body(s, i + 2, acc.push('"'))
                } else if d == '\'' {
                    sp_lit_body(s, i + 2, acc.push('\''))
                } else if d == '0' {
                    sp_lit_body(s, i + 2, acc.push('\0'))
                } else {
                    Err(ArgsError::BadEscape)
                }
            }
        } else {
            sp_lit_body(s, i + 1, acc.push(c))
        }
    }
}

proof fn lemma_lit_bounds(s: Seq<char>, i: nat, acc: Seq<char>)
    requires
        i <= s.len(),
    ensures
        sp_lit_body(s, i, acc) matches Ok(q) ==> i < q.1 <= s.len(),
    decreases s.len() - i,
{
    if i < s.len() {
        let c = s[i as int];
        if c == '"' {
        } else if c == '\\' {
            if i + 1 < s.len() {
                let d = s[i + 1 as int];
                if d == 'n' || d == 't' || d == 'r' || d == '\\' || d == '"' || d == '\''
                    || d == '0' {
                    lemma_lit_bounds(s, i + 2, acc.push('\n'));
                    lemma_lit_bounds(s, i + 2, acc.push('\t'));
                    lemma_lit_bounds(s, i + 2, acc.push('\r'));
                    lemma_lit_bounds(s, i + 2, acc.push('\\'));
                    lemma_lit_bounds(s, i + 2, acc.push('"'));
                    lemma_lit_bounds(s, i + 2, acc.push('\''));
                    lemma_lit_bounds(s, i + 2, acc.push('\0'));
                }
            }
        } else {
            lemma_lit_bounds(s, i + 1, acc.push(c));
        }
    }
}

pub(crate) fn lit_body(s: &str, i: usize, acc: Vec<char>) -> (r: Result<(Vec<char>, usize), ArgsError>)
    requires
        i <= s@.len(),
    ensures
        r matches Ok(p) ==> sp_lit_body(s@, i as nat, acc@) matches Ok(q) && q.0 == p.0@
            && q.1 == p.1 && i < p.1 <= s@.len(),
        r matches Err(e) ==> sp_lit_body(s@, i as nat, acc@) matches Err(e2) && e2 == e,
        (r is Ok) == (sp_lit_body(s@, i as nat, acc@) is Ok),
    decreases s@.len() - i,
{
    let n = s.unicode_len();
    if i >= n {
        return Err(ArgsError::UnterminatedString);
    }
    let c = s.get_char(i);
    if c == '"' {
        Ok((acc, i + 1))
    } else if c == '\\' {
        if i + 1 >= n {
            return Err(ArgsError::UnterminatedString);
        }
        let d = s.get_char(i + 1);
        let mut acc2 = acc;
        if d == 'n' {
            acc2.push('\n');
        } else if d == 't' {
            acc2.push('\t');
        } else if d == 'r' {
            acc2.push('\r');
        } else if d == '\\' {
            acc2.push('\\');
        } else if d == '"' {
            acc2.push('"');
        } else if d == '\'' {
            acc2.push('\'');
        } else if d == '0' {
            acc2.push('\0');
        } else {
            return Err(ArgsError::BadEscape);
        }
        lit_body(s, i + 2, acc2)
    } else {
        let mut acc2 = acc;
        acc2.push(c);
        lit_body(s, i + 1, acc2)
    }
}

/// The body of a braced block from position `i` (just past the opening
/// brace) to the brace that matches it. Nested braces must balance; a
/// double-quoted string is copied verbatim, and braces inside it do not
/// count. Newlines and carriage returns outside strings become spaces, so
/// that a block written over several lines still reads as one inline table.
pub open spec fn sp_braced_body(
    s: Seq<char>,
    i: nat,
    depth: nat,
    in_str: bool,
    esc: bool,
    acc: Seq<char>,
) -> Result<(Seq<char>, nat), ArgsError>
    decreases s.len() - i,
{
    if i >= s.len() {
        Err(ArgsError::UnbalancedBraces)
    } else {
        let c = s[i as int];
        if in_str {
            if esc {
                sp_braced_body(s, i + 1, depth, true, false, acc.push(c))
            } else if c == '\\' {
                sp_braced_body(s, i + 1, depth, true, true, acc.push(c))
            } else if c == '"' {
                sp_braced_body(s, i + 1, depth, false, false, acc.push(c))
            } else {
                sp_braced_body(s, i + 1, depth, true, false, acc.push(c))
            }
        } else if c == '"' {
            sp_braced_body(s, i + 1, depth, true, false, acc.push(c))
        } else if c == '{' {
            sp_braced_body(s, i + 1, depth + 1, false, false, acc.push(c))
        } else if c == '}' {
            if depth == 0 {
                Ok((acc, i + 1))
            } else {
                sp_braced_body(s, i + 1, (depth - 1) as nat, false, false, acc.push(c))
            }
        } else if c == '\n' || c == '\r' {
            sp_braced_body(s, i + 1, depth, false, false, acc.push(' '))
        } else {
            sp_braced_body(s, i + 1, depth, false, false, acc.push(c))
        }
    }
}

proof fn lemma_braced_bounds(s: Seq<char>, i: nat, depth: nat, in_str: bool, esc: bool, acc: Seq<char>)
    requires
        i <= s.len(),
    ensures
        sp_braced_body(s, i, depth, in_str, esc, acc) matches Ok(q) ==> i < q.1 <= s.len(),
    decreases s.len() - i,
{
    if i < s.len() {
        let c = s[i as int];
        if in_str {
            if esc {
                lemma_braced_bounds(s, i + 1, depth, true, false, acc.push(c));
            } else if c == '\\' {
                lemma_braced_bounds(s, i + 1, depth, true, true, acc.push(c));
            } else if c == '"' {
                lemma_braced_bounds(s, i + 1, depth, false, false, acc.push(c));
            } else {
                lemma_braced_bounds(s, i + 1, depth, true, false, acc.push(c));
            }
        } else if c == '"' {
            lemma_braced_bounds(s, i + 1, depth, true, false, acc.push(c));
        } else if c == '{' {
            lemma_braced_bounds(s, i + 1, depth + 1, false, false, acc.push(c));
        } else if c == '}' {
            if depth > 0 {
                lemma_braced_bounds(s, i + 1, (depth - 1) as nat, false, false, acc.push(c));
            }
        } else if c == '\n' || c == '\r' {
            lemma_braced_bounds(s, i + 1, depth, false, false, acc.push(' '));
        } else {
            lemma_braced_bounds(s, i + 1, depth, false, false, acc.push(c));
        }
    }
}

pub(crate) fn braced_body(
    s: &str,
    i: usize,
    depth: usize,
    in_str: bool,
    esc: bool,
    acc: Vec<char>,
) -> (r: Result<(Vec<char>, usize), ArgsError>)
    requires
        i <= s@.len(),
        depth <= i,
    ensures
        r matches Ok(p) ==> sp_braced_body(s@, i as nat, depth as nat, in_str, esc, acc@)
            matches Ok(q) && q.0 == p.0@ && q.1 == p.1 && i < p.1 <= s@.len(),
        r matches Err(e) ==> sp_braced_body(s@, i as nat, depth as nat, in_str, esc, acc@)
            matches Err(e2) && e2 == e,
        (r is Ok) == (sp_braced_body(s@, i as nat, depth as nat, in_str, esc, acc@) is Ok),
    decreases s@.len() - i,
{
    let n = s.unicode_len();
    if i >= n {
        return Err(ArgsError::UnbalancedBraces);
    }
    let c = s.get_char(i);
    let mut acc2 = acc;
    if in_str {
        acc2.push(c);
        if esc {
            braced_body(s, i + 1, depth, true, false, acc2)
        } else if c == '\\' {
            braced_body(s, i + 1, depth, true, true, acc2)
        } else if c == '"' {
            braced_body(s, i + 1, depth, false, false, acc2)
        } else {
            braced_body(s, i + 1, depth, true, false, acc2)
        }
    } else if c == '"' {
        acc2.push(c);
        braced_body(s, i + 1, depth, true, false, acc2)
    } else if c == '{' {
        acc2.push(c);
        braced_body(s, i + 1, depth + 1, false, false, acc2)
    } else if c == '}' {
        if depth == 0 {
            Ok((acc2, i + 1))
        } else {
            acc2.push(c);
            braced_body(s, i + 1, depth - 1, false, false, acc2)
        }
    } else if c == '\n' || c == '\r' {
        acc2.push(' ');
        braced_body(s, i + 1, depth, false, false, acc2)
    } else {
        acc2.push(c);
        braced_body(s, i + 1, depth, false, false, acc2)
    }
}

/// The parsed key-value arguments: the template path, the inline data table
/// and the hide flag.
#[derive(Debug)]
pub struct KeyValueArgs {
    pub path: String,
    pub toml: toml::Table,
    pub hidden: bool,
}

impl View for KeyValueArgs {
    type V = (Seq<char>, Map<Seq<char>, Seq<char>>, bool);

    open spec fn view(&self) -> (Seq<char>, Map<Seq<char>, Seq<char>>, bool) {
        (self.path@, table_contents(self.toml), self.hidden)
    }
}

/// Collects the values seen while the pairs are read; `build` turns them
/// into `KeyValueArgs` once the list ends.
#[derive(Debug)]
pub struct KeyValueArgsBuilder {
    pub path: Option<String>,
    pub toml: Option<String>,
    pub hidden: Option<bool>,
}

impl View for KeyValueArgsBuilder {
    type V = (Option<Seq<char>>, Option<Seq<char>>, Option<bool>);

    open spec fn view(&self) -> (Option<Seq<char>>, Option<Seq<char>>, Option<bool>) {
        (
            match self.path {
                Option::Some(p) => Option::Some(p@),
                Option::None => Option::None,
            },
            match self.toml {
                Option::Some(t) => Option::Some(t@),
                Option::None => Option::None,
            },
            self.hidden,
        )
    }
}

/// What `build` yields from the collected values: the path is required, the
/// hide flag defaults to false, and the data block, when present, must stand
/// for a table.
pub open spec fn sp_build(
    path: Option<Seq<char>>,
    toml_src: Option<Seq<char>>,
    hidden: Option<bool>,
) -> Result<(Seq<char>, Map<Seq<char>, Seq<char>>, bool), ArgsError> {
    match path {
        Option::None => Err(ArgsError::MissingPath),
        Option::Some(p) => {
            let h = match hidden {
                Option::Some(b) => b,
                Option::None => false,
            };
            match toml_src {
                Option::None => Ok((p, sp_empty_contents(), h)),
                Option::Some(src) => match sp_toml_of(src) {
                    Option::None => Err(ArgsError::InvalidToml),
                    Option::Some(c) => Ok((p, c, h)),
                },
            }
        },
    }
}

impl KeyValueArgsBuilder {
    /// A builder with nothing collected yet.
    pub fn new() -> (r: Self)
        ensures
            r.path is None,
            r.toml is None,
            r.hidden is None,
    {
        KeyValueArgsBuilder { path: None, toml: None, hidden: None }
    }

    /// Records the template path.
    pub fn path(&mut self, path: String)
        ensures
            final(self)@.0 matches Some(p) && p == path@,
            final(self)@.1 == old(self)@.1,
            final(self)@.2 == old(self)@.2,
    {
        self.path = Some(path);
    }

    /// Records the raw body of the inline data block.
    pub fn toml(&mut self, toml: String)
        ensures
            final(self)@.1 matches Some(t) && t == toml@,
            final(self)@.0 == old(self)@.0,
            final(self)@.2 == old(self)@.2,
    {
        self.toml = Some(toml);
    }

    /// Finishes the collected values into `KeyValueArgs`.
    pub fn build(self) -> (r: Result<KeyValueArgs, ArgsError>)
        ensures
            r matches Ok(a) ==> sp_build(self@.0, self@.1, self@.2) matches Ok(m) && a@ == m,
            r matches Err(e) ==> sp_build(self@.0, self@.1, self@.2) matches Err(e2) && e2 == e,
            (r is Ok) == (sp_build(self@.0, self@.1, self@.2) is Ok),
    {
        match self.path {
            None => Err(ArgsError::MissingPath),
            Some(p) => {
                let h = match self.hidden {
                    Some(b) => b,
                    None => false,
                };
                match self.toml {
                    None => Ok(KeyValueArgs { path: p, toml: new_table(), hidden: h }),
                    Some(src) => match to_toml_table(src.as_str()) {
                        Err(e) => Err(e),
                        Ok(t) => Ok(KeyValueArgs { path: p, toml: t, hidden: h }),
                    },
                }
            },
        }
    }
}

/// One `key = value` pair read at the non-whitespace position `i1`: the
/// updated collected values and the position just past the value.
pub open spec fn sp_pair_step(
    s: Seq<char>,
    i1: nat,
    path: Option<Seq<char>>,
    toml_src: Option<Seq<char>>,
    hidden: Option<bool>,
) -> Result<((Option<Seq<char>>, Option<Seq<char>>, Option<bool>), nat), ArgsError> {
    if i1 >= s.len() || !spec_is_ident_start(s[i1 as int]) {
        Err(ArgsError::ExpectedIdent)
    } else {
        let j = sp_ident_end(s, i1);
        let name = s.subrange(i1 as int, j as int);
        let k = sp_skip_ws(s, j);
        if k >= s.len() || s[k as int] != '=' {
            Err(ArgsError::ExpectedEquals)
        } else {
            let k2 = sp_skip_ws(s, k + 1);
            if name == "path"@ {
                if k2 >= s.len() || s[k2 as int] != '"' {
                    Err(ArgsError::ExpectedString)
                } else {
                    match sp_lit_body(s, k2 + 1, Seq::empty()) {
                        Err(e) => Err(e),
                        Ok(q) => Ok(((Some(q.0), toml_src, hidden), q.1)),
                    }
                }
            } else if name == "hidden"@ {
                if k2 >= s.len() || !spec_is_ident_start(s[k2 as int]) {
                    Err(ArgsError::ExpectedBool)
                } else {
                    let be = sp_ident_end(s, k2);
                    let word = s.subrange(k2 as int, be as int);
                    if word == "true"@ {
                        Ok(((path, toml_src, Some(true)), be))
                    } else if word == "false"@ {
                        Ok(((path, toml_src, Some(false)), be))
                    } else {
                        Err(ArgsError::ExpectedBool)
                    }
                }
            } else if name == "toml"@ {
                if k2 >= s.len() || s[k2 as int] != '{' {
                    Err(ArgsError::ExpectedBrace)
                } else {
                    match sp_braced_body(s, k2 + 1, 0, false, false, Seq::empty()) {
                        Err(e) => Err(e),
                        Ok(q) => Ok(((path, Some(sp_trim(q.0)), hidden), q.1)),
                    }
                }
            } else {
                Err(ArgsError::UnknownKey)
            }
        }
    }
}

proof fn lemma_pair_step_bounds(
    s: Seq<char>,
    i1: nat,
    path: Option<Seq<char>>,
    toml_src: Option<Seq<char>>,
    hidden: Option<bool>,
)
    requires
        i1 <= s.len(),
    ensures
        sp_pair_step(s, i1, path, toml_src, hidden) matches Ok(q) ==> i1 < q.1 <= s.len(),
{
    if i1 < s.len() && spec_is_ident_start(s[i1 as int]) {
        let j = sp_ident_end(s, i1);
        lemma_ident_end(s, i1);
        let k = sp_skip_ws(s, j);
        lemma_skip_ws(s, j);
        if k < s.len() && s[k as int] == '=' {
            let k2 = sp_skip_ws(s, k + 1);
            lemma_skip_ws(s, k + 1);
            if k2 < s.len() {
                lemma_lit_bounds(s, k2 + 1, Seq::empty());
                lemma_braced_bounds(s, k2 + 1, 0, false, false, Seq::empty());
                lemma_ident_end(s, k2);
            }
        }
    }
}

/// The whole list of pairs from position `i` on, given the values collected
/// so far; ends by building the arguments.
pub open spec fn sp_pairs(
    s: Seq<char>,
    i: nat,
    path: Option<Seq<char>>,
    toml_src: Option<Seq<char>>,
    hidden: Option<bool>,
) -> Result<(Seq<char>, Map<Seq<char>, Seq<char>>, bool), ArgsError>
    decreases s.len() - i,
    via sp_pairs_dec
{
    let i1 = sp_skip_ws(s, i);
    if i1 >= s.len() {
        sp_build(path, toml_src, hidden)
    } else {
        match sp_pair_step(s, i1, path, toml_src, hidden) {
            Err(e) => Err(e),
            Ok(q) => {
                let w = sp_skip_ws(s, q.1);
                if w >= s.len() {
                    sp_build(q.0.0, q.0.1, q.0.2)
                } else if s[w as int] == ',' {
                    sp_pairs(s, w + 1, q.0.0, q.0.1, q.0.2)
                } else {
                    Err(ArgsError::ExpectedComma)
                }
            },
        }
    }
}

#[via_fn]
proof fn sp_pairs_dec(
    s: Seq<char>,
    i: nat,
    path: Option<Seq<char>>,
    toml_src: Option<Seq<char>>,
    hidden: Option<bool>,
) {
    if i <= s.len() {
        lemma_skip_ws(s, i);
        let i1 = sp_skip_ws(s, i);
        if i1 < s.len() {
            lemma_pair_step_bounds(s, i1, path, toml_src, hidden);
            match sp_pair_step(s, i1, path, toml_src, hidden) {
                Ok(q) => lemma_skip_ws(s, q.1),
                Err(_) => (),
            }
        }
    }
}

/// What parsing a whole key-value argument list yields.
pub open spec fn sp_parse_kv(s: Seq<char>) -> Result<(Seq<char>, Map<Seq<char>, Seq<char>>, bool), ArgsError> {
    sp_pairs(s, 0, Option::None, Option::None, Option::None)
}

fn pair_step(s: &str, i1: usize, b: KeyValueArgsBuilder) -> (r: Result<(KeyValueArgsBuilder, usize), ArgsError>)
    requires
        i1 < s@.len(),
    ensures
        r matches Ok(p) ==> sp_pair_step(s@, i1 as nat, b@.0, b@.1, b@.2) matches Ok(q)
            && q.0 == p.0@ && q.1 == p.1 && i1 < p.1 <= s@.len(),
        r matches Err(e) ==> sp_pair_step(s@, i1 as nat, b@.0, b@.1, b@.2) matches Err(e2)
            && e2 == e,
        (r is Ok) == (sp_pair_step(s@, i1 as nat, b@.0, b@.1, b@.2) is Ok),
{
    let n = s.unicode_len();
    if !is_ident_start(s.get_char(i1)) {
        return Err(ArgsError::ExpectedIdent);
    }
    let j = ident_end(s, i1);
    let k = skip_ws(s, j);
    if k >= n || s.get_char(k) != '=' {
        return Err(ArgsError::ExpectedEquals);
    }
    let k2 = skip_ws(s, k + 1);
    if range_eq(s, i1, j, "path") {
        if k2 >= n || s.get_char(k2) != '"' {
            Err(ArgsError::ExpectedString)
        } else {
            match lit_body(s, k2 + 1, Vec::new()) {
                Err(e) => Err(e),
                Ok((v, m)) => {
                    let mut b2 = b;
                    b2.path(chars_to_string(&v));
                    Ok((b2, m))
                },
            }
        }
    } else if range_eq(s, i1, j, "hidden") {
        if k2 >= n || !is_ident_start(s.get_char(k2)) {
            Err(ArgsError::ExpectedBool)
        } else {
            let be = ident_end(s, k2);
            if range_eq(s, k2, be, "true") {
                let mut b2 = b;
                b2.hidden = Some(true);
                Ok((b2, be))
            } else if range_eq(s, k2, be, "false") {
                let mut b2 = b;
                b2.hidden = Some(false);
                Ok((b2, be))
            } else {
                Err(ArgsError::ExpectedBool)
            }
        }
    } else if range_eq(s, i1, j, "toml") {
        if k2 >= n || s.get_char(k2) != '{' {
            Err(ArgsError::ExpectedBrace)
        } else {
            match braced_body(s, k2 + 1, 0, false, false, Vec::new()) {
                Err(e) => Err(e),
                Ok((v, m)) => {
                    let mut b2 = b;
                    b2.toml(chars_to_string(&trim_chars(&v)));
                    Ok((b2, m))
                },
            }
        }
    } else {
        Err(ArgsError::UnknownKey)
    }
}

fn pairs_loop(s: &str, i: usize, b: KeyValueArgsBuilder) -> (r: Result<KeyValueArgs, ArgsError>)
    requires
        i <= s@.len(),
    ensures
        r matches Ok(a) ==> sp_pairs(s@, i as nat, b@.0, b@.1, b@.2) matches Ok(m) && a@ == m,
        r matches Err(e) ==> sp_pairs(s@, i as nat, b@.0, b@.1, b@.2) matches Err(e2) && e2 == e,
        (r is Ok) == (sp_pairs(s@, i as nat, b@.0, b@.1, b@.2) is Ok),
    decreases s@.len() - i,
{
    let n = s.unicode_len();
    let i1 = skip_ws(s, i);
    if i1 >= n {
        return b.build();
    }
    match pair_step(s, i1, b) {
        Err(e) => Err(e),
        Ok((b2, m)) => {
            let w = skip_ws(s, m);
            if w >= n {
                b2.build()
            } else if s.get_char(w) == ',' {
                pairs_loop(s, w + 1, b2)
            } else {
                Err(ArgsError::ExpectedComma)
            }
        },
    }
}

impl KeyValueArgs {
    /// Parses a key-value argument list.
    ///
    /// On success the result's path, table contents and hide flag are
    /// exactly what `sp_parse_kv` assigns to the input; every malformed
    /// input is rejected with the error that `sp_parse_kv` names.
    pub fn parse(input: &str) -> (r: Result<KeyValueArgs, ArgsError>)
        ensures
            r matches Ok(a) ==> sp_parse_kv(input@) matches Ok(m) && a@ == m,
            r matches Err(e) ==> sp_parse_kv(input@) matches Err(e2) && e2 == e,
            (r is Ok) == (sp_parse_kv(input@) is Ok),
    {
        pairs_loop(input, 0, KeyValueArgsBuilder::new())
    }
}

} // verus!
