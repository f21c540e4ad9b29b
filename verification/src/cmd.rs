//! Splitting a command string into its arguments.
//!
//! The string is cut at blanks that stand outside quotes. A single- or
//! double-quoted run is kept together as part of one argument; the quote
//! characters themselves are kept verbatim and no escape processing is done
//! inside quotes. A string with an unclosed quote, or one without any
//! argument, is rejected.

use vstd::prelude::*;

use crate::error::Error;

verus! {

/// The quoting context at a position of the command string.
#[derive(Debug, Clone, Copy, PartialEq, Eq, Structural)]
pub enum Quoting {
    /// Outside any quoted run.
    Outside,
    /// Inside a single-quoted run.
    Single,
    /// Inside a double-quoted run.
    Double,
}

/// The characters that separate arguments outside quotes.
pub open spec fn is_blank(c: char) -> bool {
    c == ' ' || c == '\t' || c == '\n' || c == '\r'
}

/// The quoting context after reading character `c` in context `q`.
pub open spec fn next_quoting(q: Quoting, c: char) -> Quoting {
    match q {
        Quoting::Outside => if c == '\'' {
            Quoting::Single
        } else if c == '"' {
            Quoting::Double
        } else {
            Quoting::Outside
        },
        Quoting::Single => if c == '\'' {
            Quoting::Outside
        } else {
            Quoting::Single
        },
        Quoting::Double => if c == '"' {
            Quoting::Outside
        } else {
            Quoting::Double
        },
    }
}

/// Reads `s` from position `i` in quoting context `q`, with the argument
/// collected so far (`cur`) and the arguments already finished (`acc`);
/// yields every argument, or nothing when a quote stays open.
pub open spec fn spec_split_rec(
    s: Seq<char>,
    i: int,
    q: Quoting,
    cur: Seq<char>,
    acc: Seq<Seq<char>>,
) -> Option<Seq<Seq<char>>>
    decreases s.len() - i,
{
    if i < 0 || i >= s.len() {
        if q != Quoting::Outside {
            None
        } else if cur.len() > 0 {
            Some(acc.push(cur))
        } else {
            Some(acc)
        }
    } else {
        let c = s[i];
        if q == Quoting::Outside && is_blank(c) {
            if cur.len() > 0 {
                spec_split_rec(s, i + 1, q, Seq::empty(), acc.push(cur))
            } else {
                spec_split_rec(s, i + 1, q, cur, acc)
            }
        } else {
            spec_split_rec(s, i + 1, next_quoting(q, c), cur.push(c), acc)
        }
    }
}

/// The arguments of a command string, or nothing when a quote stays open.
pub open spec fn spec_split_command(s: Seq<char>) -> Option<Seq<Seq<char>>> {
    spec_split_rec(s, 0, Quoting::Outside, Seq::empty(), Seq::empty())
}

/// Splits a command string into its arguments: cut at blanks outside
/// quotes, quoted runs kept together with their quote characters. Fails on
/// an unclosed quote and on a string without any argument.
#[verifier::loop_isolation(false)]
pub fn split_command(cmd: &str) -> (r: Result<Vec<String>, Error>)
    ensures
        r matches Ok(v) ==> spec_split_command(cmd@) == Some(v.deep_view()) && v@.len() > 0,
        r matches Err(e) ==> e == Error::CommandParse,
        spec_split_command(cmd@) is None ==> r is Err,
        spec_split_command(cmd@) matches Some(toks) ==> (r is Err <==> toks.len() == 0),
{
    let n = cmd.unicode_len();
    let mut acc: Vec<String> = Vec::new();
    let mut quoting = Quoting::Outside;
    let mut tok_start: usize = 0;
    let mut i: usize = 0;
    proof {
        assert(cmd@.subrange(0, 0) =~= Seq::<char>::empty());
        assert(acc.deep_view() =~= Seq::<Seq<char>>::empty());
    }
    while i < n
        invariant
            0 <= tok_start <= i <= n,
            n == cmd@.len(),
            quoting == Quoting::Outside ==> tok_start == i || cmd@.subrange(
                tok_start as int,
                i as int,
            ).len() > 0,
            spec_split_command(cmd@) == spec_split_rec(
                cmd@,
                i as int,
                quoting,
                cmd@.subrange(tok_start as int, i as int),
                acc.deep_view(),
            ),
        decreases n - i,
    {
        let c = cmd.get_char(i);
        let ghost cur = cmd@.subrange(tok_start as int, i as int);
        let ghost i0 = i as int;
        let ghost q0 = quoting;
        let ghost acc0dv = acc.deep_view();
        let is_sep = quoting == Quoting::Outside && (c == ' ' || c == '\t' || c == '\n' || c
            == '\r');
        if is_sep {
            if tok_start < i {
                let ghost acc0 = acc.deep_view();
                let token = cmd.substring_char(tok_start, i).to_owned();
                acc.push(token);
                proof {
                    assert(acc.deep_view() =~= acc0.push(cur));
                }
            }
            tok_start = i + 1;
            proof {
                assert(cmd@.subrange(i + 1, i + 1) =~= Seq::<char>::empty());
            }
        } else {
            let next = match quoting {
                Quoting::Outside => {
                    if c == '\'' {
                        Quoting::Single
                    } else if c == '"' {
                        Quoting::Double
                    } else {
                        Quoting::Outside
                    }
                },
                Quoting::Single => {
                    if c == '\'' {
                        Quoting::Outside
                    } else {
                        Quoting::Single
                    }
                },
                Quoting::Double => {
                    if c == '"' {
                        Quoting::Outside
                    } else {
                        Quoting::Double
                    }
                },
            };
            proof {
                assert(next == next_quoting(quoting, c));
                assert(cmd@.subrange(tok_start as int, i + 1) =~= cur.push(cmd@[i as int]));
            }
            quoting = next;
        }
        proof {
            if q0 == Quoting::Outside && is_blank(cmd@[i0]) {
                if cur.len() > 0 {
                    assert(spec_split_rec(cmd@, i0, q0, cur, acc0dv) == spec_split_rec(
                        cmd@,
                        i0 + 1,
                        q0,
                        Seq::empty(),
                        acc0dv.push(cur),
                    ));
                    assert(acc.deep_view() == acc0dv.push(cur));
                    assert(cmd@.subrange(tok_start as int, i0 + 1) =~= Seq::<char>::empty());
                    assert(spec_split_rec(cmd@, i0, q0, cur, acc0dv) == spec_split_rec(
                        cmd@,
                        i0 + 1,
                        quoting,
                        cmd@.subrange(tok_start as int, i0 + 1),
                        acc.deep_view(),
                    ));
                } else {
                    assert(cur =~= Seq::<char>::empty());
                    assert(cur =~= cmd@.subrange(tok_start as int, i0 + 1));
                    assert(spec_split_rec(cmd@, i0, q0, cur, acc0dv) == spec_split_rec(
                        cmd@,
                        i0 + 1,
                        quoting,
                        cmd@.subrange(tok_start as int, i0 + 1),
                        acc.deep_view(),
                    ));
                }
            } else {
                assert(spec_split_rec(cmd@, i0, q0, cur, acc0dv) == spec_split_rec(
                    cmd@,
                    i0 + 1,
                    next_quoting(q0, cmd@[i0]),
                    cur.push(cmd@[i0]),
                    acc0dv,
                ));
                assert(spec_split_rec(cmd@, i0, q0, cur, acc0dv) == spec_split_rec(
                    cmd@,
                    i0 + 1,
                    quoting,
                    cmd@.subrange(tok_start as int, i0 + 1),
                    acc.deep_view(),
                ));
            }
        }
        i = i + 1;
    }
    if !matches!(quoting, Quoting::Outside) {
        return Err(Error::CommandParse);
    }
    if tok_start < n {
        let ghost acc0 = acc.deep_view();
        let ghost cur = cmd@.subrange(tok_start as int, n as int);
        let token = cmd.substring_char(tok_start, n).to_owned();
        acc.push(token);
        proof {
            assert(acc.deep_view() =~= acc0.push(cur));
        }
    }
    if acc.len() == 0 {
        return Err(Error::CommandParse);
    }
    Ok(acc)
}

} // verus!
