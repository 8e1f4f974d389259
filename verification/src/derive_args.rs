//! The positional argument grammar: a double-quoted path, then optionally a
//! comma and a `context: { ... }` block whose body is kept as text.

use vstd::prelude::*;
use vstd::string::StrSliceExecFns;
use crate::errors::ArgsError;
use crate::text::{
    spec_is_ident_start, is_ident_start,
    sp_skip_ws, skip_ws, sp_ident_end, ident_end,
    sp_trim, trim_chars, chars_to_string, range_eq,
};
use crate::args::{sp_lit_body, lit_body, sp_braced_body, braced_body};

verus! {

/// The parsed positional arguments: the template path and, when one was
/// given, the text of the context block.
#[derive(Debug)]
pub struct DrydocArgs {
    pub path: String,
    pub context: Option<String>,
}

impl View for DrydocArgs {
    type V = (Seq<char>, Option<Seq<char>>);

    open spec fn view(&self) -> (Seq<char>, Option<Seq<char>>) {
        (
            self.path@,
            match self.context {
                Option::Some(c) => Option::Some(c@),
                Option::None => Option::None,
            },
        )
    }
}

/// What parsing a positional argument list yields: the path's value and the
/// trimmed context body. The comma after the path is optional; after the
/// recognised arguments nothing may remain; an identifier that is not
/// followed by a colon counts as trailing input, and the identifier before
/// a colon can only be `context`.
pub open spec fn sp_parse_derive(s: Seq<char>) -> Result<(Seq<char>, Option<Seq<char>>), ArgsError> {
    let i0 = sp_skip_ws(s, 0);
    if i0 >= s.len() || s[i0 as int] != '"' {
        Err(ArgsError::ExpectedString)
    } else {
        match sp_lit_body(s, i0 + 1, Seq::empty()) {
            Err(e) => Err(e),
            Ok(p) => {
                let a = sp_skip_ws(s, p.1);
                let a2: nat = if a < s.len() && s[a as int] == ',' {
                    a + 1
                } else {
                    a
                };
                let k = sp_skip_ws(s, a2);
                if k >= s.len() {
                    Ok((p.0, Option::None))
                } else if !spec_is_ident_start(s[k as int]) {
                    Err(ArgsError::TrailingInput)
                } else {
                    let j = sp_ident_end(s, k);
                    let col = sp_skip_ws(s, j);
                    if col >= s.len() || s[col as int] != ':' {
                        Err(ArgsError::TrailingInput)
                    } else if s.subrange(k as int, j as int) != "context"@ {
                        Err(ArgsError::ExpectedContext)
                    } else {
                        let k2 = sp_skip_ws(s, col + 1);
                        if k2 >= s.len() || s[k2 as int] != '{' {
                            Err(ArgsError::ExpectedBrace)
                        } else {
                            match sp_braced_body(s, k2 + 1, 0, false, false, Seq::empty()) {
                                Err(e) => Err(e),
                                Ok(q) => {
                                    let w = sp_skip_ws(s, q.1);
                                    if w >= s.len() {
                                        Ok((p.0, Option::Some(sp_trim(q.0))))
                                    } else {
                                        Err(ArgsError::TrailingInput)
                                    }
                                },
                            }
                        }
                    }
                }
            },
        }
    }
}

impl DrydocArgs {
    /// Parses a positional argument list.
    ///
    /// On success the result's path and context are exactly what
    /// `sp_parse_derive` assigns to the input; every malformed input is
    /// rejected with the error that `sp_parse_derive` names.
    pub fn parse(input: &str) -> (r: Result<DrydocArgs, ArgsError>)
        ensures
            r matches Ok(a) ==> sp_parse_derive(input@) matches Ok(m) && a@ == m,
            r matches Err(e) ==> sp_parse_derive(input@) matches Err(e2) && e2 == e,
            (r is Ok) == (sp_parse_derive(input@) is Ok),
    {
        let n = input.unicode_len();
        let i0 = skip_ws(input, 0);
        if i0 >= n || input.get_char(i0) != '"' {
            return Err(ArgsError::ExpectedString);
        }
        match lit_body(input, i0 + 1, Vec::new()) {
            Err(e) => Err(e),
            Ok((v, m)) => {
                let a = skip_ws(input, m);
                let a2 = if a < n && input.get_char(a) == ',' {
                    a + 1
                } else {
                    a
                };
                let k = skip_ws(input, a2);
                if k >= n {
                    return Ok(DrydocArgs { path: chars_to_string(&v), context: None });
                }
                if !is_ident_start(input.get_char(k)) {
                    return Err(ArgsError::TrailingInput);
                }
                let j = ident_end(input, k);
                let col = skip_ws(input, j);
                if col >= n || input.get_char(col) != ':' {
                    return Err(ArgsError::TrailingInput);
                }
                if !range_eq(input, k, j, "context") {
                    return Err(ArgsError::ExpectedContext);
                }
                let k2 = skip_ws(input, col + 1);
                if k2 >= n || input.get_char(k2) != '{' {
                    return Err(ArgsError::ExpectedBrace);
                }
                match braced_body(input, k2 + 1, 0, false, false, Vec::new()) {
                    Err(e) => Err(e),
                    Ok((bv, m2)) => {
                        let w = skip_ws(input, m2);
                        if w >= n {
                            Ok(DrydocArgs {
                                path: chars_to_string(&v),
                                context: Some(chars_to_string(&trim_chars(&bv))),
                            })
                        } else {
                            Err(ArgsError::TrailingInput)
                        }
                    },
                }
            },
        }
    }
}

} // verus!
