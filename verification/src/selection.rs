//! Parsing of federation selection-set strings, the `fields` argument of
//! `@key`, `@requires` and `@provides`.
//!
//! Policy (one consistent grammar for all three directives): the string is
//! split on top-level separators only — whitespace or commas that stand at
//! brace depth zero. A brace group keeps its inner separators, so
//! `"a { b c } d"` splits into `a`, `{ b c }`, `d`. A closing brace with no
//! matching opening brace, or an opening brace never closed, makes the
//! whole string malformed and no items are produced.

use vstd::prelude::*;

verus! {

/// Characters that separate top-level items of a selection set.
///
/// Following the GraphQL lexical grammar, commas count as ignored
/// separators alongside ordinary whitespace.
pub open spec fn spec_is_separator(c: char) -> bool {
    c == ' ' || c == '\t' || c == '\n' || c == '\r' || c == ','
}

fn is_separator(c: char) -> (r: bool)
    ensures
        r == spec_is_separator(c),
{
    c == ' ' || c == '\t' || c == '\n' || c == '\r' || c == ','
}

/// What remains of the split when the characters of `s` before index `i`
/// have already been consumed, `depth` open braces surround position `i`,
/// `cur` holds the characters of the item in progress, and `acc` the items
/// already finished. `None` means the braces do not balance.
pub open spec fn split_from(
    s: Seq<char>,
    i: int,
    depth: int,
    cur: Seq<char>,
    acc: Seq<Seq<char>>,
) -> Option<Seq<Seq<char>>>
    decreases s.len() - i,
{
    if i < 0 || i >= s.len() {
        if depth == 0 {
            Some(
                if cur.len() > 0 {
                    acc.push(cur)
                } else {
                    acc
                },
            )
        } else {
            None
        }
    } else {
        let c = s[i];
        if c == '{' {
            split_from(s, i + 1, depth + 1, cur.push(c), acc)
        } else if c == '}' {
            if depth == 0 {
                None
            } else {
                split_from(s, i + 1, depth - 1, cur.push(c), acc)
            }
        } else if spec_is_separator(c) && depth == 0 {
            if cur.len() > 0 {
                split_from(s, i + 1, 0, Seq::<char>::empty(), acc.push(cur))
            } else {
                split_from(s, i + 1, 0, cur, acc)
            }
        } else {
            split_from(s, i + 1, depth, cur.push(c), acc)
        }
    }
}

/// The top-level items of the selection-set string `s`, in order of
/// appearance, or `None` when the braces of `s` do not balance.
pub open spec fn spec_split_selection(s: Seq<char>) -> Option<Seq<Seq<char>>> {
    split_from(s, 0, 0, Seq::<char>::empty(), Seq::<Seq<char>>::empty())
}

/// Splits a selection-set string into its top-level items, or returns
/// `None` when its braces do not balance.
pub fn split_selection(s: &str) -> (r: Option<Vec<String>>)
    ensures
        match r {
            Some(items) => spec_split_selection(s@) == Some(items.deep_view()),
            None => spec_split_selection(s@) is None,
        },
{
    let n = s.unicode_len();
    let mut i: usize = 0;
    let mut depth: usize = 0;
    let mut tok_start: usize = 0;
    let mut acc: Vec<String> = Vec::new();
    proof {
        assert(s@.subrange(0, 0) =~= Seq::<char>::empty());
        assert(acc.deep_view() =~= Seq::<Seq<char>>::empty());
    }
    while i < n
        invariant
            n == s@.len(),
            tok_start <= i <= n,
            depth <= i,
            split_from(
                s@,
                i as int,
                depth as int,
                s@.subrange(tok_start as int, i as int),
                acc.deep_view(),
            ) == spec_split_selection(s@),
        decreases n - i,
    {
        let ghost cur = s@.subrange(tok_start as int, i as int);
        let ghost dv = acc.deep_view();
        let ghost d0 = depth as int;
        let c = s.get_char(i);
        if c == '{' {
            proof {
                assert(s@.subrange(tok_start as int, i + 1) =~= cur.push(c));
                assert(split_from(s@, i as int, d0, cur, dv) == split_from(
                    s@,
                    i + 1,
                    d0 + 1,
                    cur.push(c),
                    dv,
                ));
            }
            depth = depth + 1;
        } else if c == '}' {
            if depth == 0 {
                proof {
                    assert(split_from(s@, i as int, 0, cur, dv) is None);
                }
                return None;
            }
            proof {
                assert(s@.subrange(tok_start as int, i + 1) =~= cur.push(c));
                assert(split_from(s@, i as int, d0, cur, dv) == split_from(
                    s@,
                    i + 1,
                    d0 - 1,
                    cur.push(c),
                    dv,
                ));
            }
            depth = depth - 1;
        } else if is_separator(c) {
            if depth == 0 {
                if tok_start < i {
                    proof {
                        assert(cur.len() > 0);
                        assert(split_from(s@, i as int, 0, cur, dv) == split_from(
                            s@,
                            i + 1,
                            0,
                            Seq::<char>::empty(),
                            dv.push(cur),
                        ));
                    }
                    let tok = s.substring_char(tok_start, i).to_owned();
                    acc.push(tok);
                    proof {
                        assert(acc.deep_view() =~= dv.push(cur));
                    }
                } else {
                    proof {
                        assert(cur =~= Seq::<char>::empty());
                        assert(split_from(s@, i as int, 0, cur, dv) == split_from(
                            s@,
                            i + 1,
                            0,
                            cur,
                            dv,
                        ));
                    }
                }
                tok_start = i + 1;
                proof {
                    assert(s@.subrange(i + 1, i + 1) =~= Seq::<char>::empty());
                }
            } else {
                proof {
                    assert(s@.subrange(tok_start as int, i + 1) =~= cur.push(c));
                    assert(split_from(s@, i as int, d0, cur, dv) == split_from(
                        s@,
                        i + 1,
                        d0,
                        cur.push(c),
                        dv,
                    ));
                }
            }
        } else {
            proof {
                assert(s@.subrange(tok_start as int, i + 1) =~= cur.push(c));
                assert(split_from(s@, i as int, d0, cur, dv) == split_from(
                    s@,
                    i + 1,
                    d0,
                    cur.push(c),
                    dv,
                ));
            }
        }
        i = i + 1;
    }
    if depth != 0 {
        return None;
    }
    if tok_start < i {
        let ghost cur = s@.subrange(tok_start as int, i as int);
        let ghost dv = acc.deep_view();
        let tok = s.substring_char(tok_start, i).to_owned();
        acc.push(tok);
        proof {
            assert(acc.deep_view() =~= dv.push(cur));
        }
    } else {
        proof {
            assert(s@.subrange(tok_start as int, i as int) =~= Seq::<char>::empty());
        }
    }
    Some(acc)
}

/// A selection-set string is well formed exactly when its braces balance.
pub open spec fn selection_well_formed(s: Seq<char>) -> bool {
    spec_split_selection(s) is Some
}

} // verus!
