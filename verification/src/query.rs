//! Resolution of the ticker-search query from the CLI inputs: either
//! the explicit search flag, or positional arguments introduced by a
//! leading `search` keyword.

use vstd::prelude::*;

use crate::engine::targets_view;
use crate::strutil::{trim_spec, trim_ascii, upper_seq, eq_ignore_ascii};

verus! {

/// Tokens trimmed of ASCII whitespace, empties dropped.
pub open spec fn trimmed_tokens(ss: Seq<Seq<char>>) -> Seq<Seq<char>> {
    ss.map_values(|s: Seq<char>| trim_spec(s)).filter(|t: Seq<char>| t.len() != 0)
}

/// The tokens joined with single spaces.
pub open spec fn join_spaced(ts: Seq<Seq<char>>) -> Seq<char>
    decreases ts.len(),
{
    if ts.len() == 0 {
        Seq::empty()
    } else if ts.len() == 1 {
        ts[0]
    } else {
        join_spaced(ts.drop_last()) + seq![' '] + ts.last()
    }
}

/// What `resolve_search_query` returns: the trimmed search flag when it
/// was given; otherwise, when the first positional argument is the
/// `search` keyword (case-insensitively), the remaining arguments
/// trimmed, emptied of blanks, stripped of one further leading
/// `search`, and joined with spaces; otherwise nothing.
pub open spec fn query_spec(search: Option<Seq<char>>, symbols: Seq<Seq<char>>) -> Option<
    Seq<char>,
> {
    match search {
        Some(q) => Some(trim_spec(q)),
        None => if symbols.len() > 0 && upper_seq(symbols[0]) == upper_seq("search"@) {
            let toks = trimmed_tokens(symbols.drop_first());
            let toks2 = if toks.len() > 0 && upper_seq(toks[0]) == upper_seq("search"@) {
                toks.drop_first()
            } else {
                toks
            };
            Some(trim_spec(join_spaced(toks2)))
        } else {
            None
        },
    }
}

/// The view of the optional search flag.
pub open spec fn search_view(s: Option<String>) -> Option<Seq<char>> {
    match s {
        Some(q) => Some(q@),
        None => None,
    }
}

/// Resolve the search query from the search flag and the positional
/// arguments.
pub fn resolve_search_query(search: &Option<String>, symbols: &Vec<String>) -> (r: Option<String>)
    ensures
        match r {
            Some(q) => query_spec(search_view(*search), targets_view(symbols@)) == Some(q@),
            None => query_spec(search_view(*search), targets_view(symbols@)) is None,
        },
{
    if let Some(q) = search {
        return Some(trim_ascii(q.as_str()).to_owned());
    }
    let n = symbols.len();
    if n == 0 {
        return None;
    }
    if !eq_ignore_ascii(symbols[0].as_str(), "search") {
        return None;
    }
    let ghost sv = targets_view(symbols@);
    let ghost trimf = |s: Seq<char>| trim_spec(s);
    let ghost nonempty = |t: Seq<char>| t.len() != 0;
    let mut tokens: Vec<String> = Vec::new();
    proof {
        reveal(Seq::filter);
        assert(sv.drop_first().take(0) =~= Seq::<Seq<char>>::empty());
        assert(targets_view(tokens@) =~= Seq::<Seq<char>>::empty());
        assert(sv.drop_first().take(0).map_values(trimf) =~= Seq::<Seq<char>>::empty());
    }
    let mut i: usize = 1;
    while i < n
        invariant
            1 <= i <= n,
            n == symbols@.len(),
            sv == targets_view(symbols@),
            trimf == (|s: Seq<char>| trim_spec(s)),
            nonempty == (|t: Seq<char>| t.len() != 0),
            targets_view(tokens@) == sv.drop_first().take(i - 1).map_values(trimf).filter(
                nonempty,
            ),
        decreases n - i,
    {
        let t = trim_ascii(symbols[i].as_str());
        let ghost tbefore = targets_view(tokens@);
        proof {
            reveal(Seq::filter);
            let pre = sv.drop_first().take(i as int);
            assert(pre.drop_last() =~= sv.drop_first().take(i - 1));
            assert(pre.last() == sv.drop_first()[i - 1]);
            assert(sv.drop_first()[i - 1] == sv[i as int]);
            assert(sv[i as int] == symbols@[i as int]@);
            let mpre = pre.map_values(trimf);
            assert(mpre.drop_last() =~= sv.drop_first().take(i - 1).map_values(trimf));
            assert(mpre.last() == trim_spec(symbols@[i as int]@));
        }
        if !t.is_empty() {
            tokens.push(t.to_owned());
            proof {
                assert(targets_view(tokens@) =~= tbefore.push(trim_spec(symbols@[i as int]@)));
            }
        }
        i += 1;
    }
    proof {
        assert(sv.drop_first().take(n - 1) =~= sv.drop_first());
    }
    if tokens.len() > 0 && eq_ignore_ascii(tokens[0].as_str(), "search") {
        let ghost tv0 = targets_view(tokens@);
        tokens.remove(0);
        proof {
            assert(targets_view(tokens@) =~= tv0.drop_first());
        }
    }
    let ghost toks2 = targets_view(tokens@);
    let m = tokens.len();
    let mut joined = String::new();
    proof {
        assert(joined@ =~= join_spaced(toks2.take(0)));
    }
    let mut k: usize = 0;
    while k < m
        invariant
            0 <= k <= m,
            m == tokens@.len(),
            toks2 == targets_view(tokens@),
            joined@ == join_spaced(toks2.take(k as int)),
        decreases m - k,
    {
        proof {
            let pre = toks2.take(k + 1);
            assert(pre.drop_last() =~= toks2.take(k as int));
            assert(pre.last() == toks2[k as int]);
            assert(toks2[k as int] == tokens@[k as int]@);
        }
        if k > 0 {
            joined.append(" ");
            proof {
                reveal_strlit(" ");
                assert(" "@ =~= seq![' ']);
            }
        }
        joined.append(tokens[k].as_str());
        proof {
            if k == 0 {
                assert(joined@ =~= toks2.take(1)[0]);
            } else {
                assert(joined@ =~= join_spaced(toks2.take(k as int)) + seq![' ']
                    + toks2[k as int]);
            }
        }
        k += 1;
    }
    proof {
        assert(toks2.take(m as int) =~= toks2);
    }
    Some(trim_ascii(joined.as_str()).to_owned())
}

} // verus!
