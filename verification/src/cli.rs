//! Command-line helpers of the backtest runner: flag values and CSV fields.

use vstd::prelude::*;
use crate::overrides::{lemma_split_step, split_pieces, string_of};
use crate::text::{chars_of, find_char, trim, trim_bounds};

verus! {

/// Position of the last `flag` in `args`.
pub open spec fn last_index_of_flag(args: Seq<String>, flag: Seq<char>) -> Option<int> {
    if exists|i: int| 0 <= i < args.len() && args[i]@ == flag && forall|j: int| i < j < args.len() ==> args[j]@ != flag {
        Some(choose|i: int| 0 <= i < args.len() && args[i]@ == flag && forall|j: int| i < j < args.len() ==> args[j]@ != flag)
    } else {
        None
    }
}

/// The value following the last occurrence of `flag`, if there is one.
pub open spec fn flag_value(args: Seq<String>, flag: Seq<char>) -> Option<Seq<char>> {
    match last_index_of_flag(args, flag) {
        Some(i) => if i + 1 < args.len() {
            Some(args[i + 1]@)
        } else {
            None
        },
        None => None,
    }
}

/// Values following each occurrence of `flag` among the first `n` arguments
/// (a value must itself be one of the arguments).
pub open spec fn flag_values_upto(args: Seq<String>, flag: Seq<char>, n: int) -> Seq<Seq<char>>
    decreases n,
{
    if n <= 0 {
        Seq::empty()
    } else {
        let prev = flag_values_upto(args, flag, n - 1);
        if args[n - 1]@ == flag && n < args.len() {
            prev.push(args[n]@)
        } else {
            prev
        }
    }
}

/// The value of `flag` from the command line: the argument after its last
/// occurrence.
pub fn get_arg(args: &Vec<String>, flag: &str) -> (r: Option<String>)
    ensures
        match r {
            Some(v) => flag_value(args@, flag@) == Some(v@),
            None => flag_value(args@, flag@) is None,
        },
{
    let f = String::from_str(flag);
    let mut i = args.len();
    while i > 0
        invariant
            i <= args.len(),
            f@ == flag@,
            forall|j: int| i <= j < args.len() ==> args@[j]@ != flag@,
        decreases i,
    {
        if args[i - 1] == f {
            let k = i - 1;
            proof {
                let c = choose|c: int| 0 <= c < args@.len() && args@[c]@ == flag@ && forall|j: int| c < j < args@.len() ==> args@[j]@ != flag@;
                assert(0 <= k < args@.len() && args@[k as int]@ == flag@ && forall|j: int| k < j < args@.len() ==> args@[j]@ != flag@);
                if c < k {
                    assert(args@[k as int]@ != flag@);
                } else if c > k {
                    assert(args@[c]@ != flag@);
                }
            }
            if k + 1 < args.len() {
                return Some(args[k + 1].clone());
            } else {
                return None;
            }
        }
        i = i - 1;
    }
    None
}

/// Every value following an occurrence of `flag` (repeatable flags), in order.
pub fn get_all_args(args: &Vec<String>, flag: &str) -> (r: Vec<String>)
    ensures
        r@.map_values(|s: String| s@) == flag_values_upto(args@, flag@, args@.len() as int),
{
    let f = String::from_str(flag);
    let mut r: Vec<String> = Vec::new();
    let mut n: usize = 0;
    while n < args.len()
        invariant
            n <= args.len(),
            f@ == flag@,
            r@.map_values(|s: String| s@) == flag_values_upto(args@, flag@, n as int),
        decreases args.len() - n,
    {
        let ghost before = r@;
        if args[n] == f && n + 1 < args.len() {
            r.push(args[n + 1].clone());
            proof {
                assert(r@.map_values(|s: String| s@) =~= before.map_values(|s: String| s@).push(args@[n + 1]@));
            }
        }
        n = n + 1;
    }
    r
}

/// A field must be quoted when it holds a comma, a quote or a newline.
pub open spec fn needs_quoting(s: Seq<char>) -> bool {
    exists|i: int| 0 <= i < s.len() && (s[i] == ',' || s[i] == '"' || s[i] == '\n')
}

/// `s` with every quote doubled.
pub open spec fn double_quotes(s: Seq<char>) -> Seq<char>
    decreases s.len(),
{
    if s.len() == 0 {
        Seq::empty()
    } else {
        let rest = double_quotes(s.drop_last());
        if s.last() == '"' {
            rest.push('"').push('"')
        } else {
            rest.push(s.last())
        }
    }
}

/// The CSV field for a text: quoted, with quotes doubled, when it holds a comma,
/// a quote or a newline; as it is otherwise.
pub open spec fn csv_field(s: Seq<char>) -> Seq<char> {
    if needs_quoting(s) {
        seq!['"'] + double_quotes(s) + seq!['"']
    } else {
        s
    }
}

pub fn csv_quote(s: &str) -> (r: String)
    ensures
        r@ == csv_field(s@),
{
    let v = chars_of(s);
    let mut needs = false;
    let mut i: usize = 0;
    while i < v.len()
        invariant
            i <= v.len(),
            v@ == s@,
            needs <==> exists|j: int| 0 <= j < i && (v@[j] == ',' || v@[j] == '"' || v@[j] == '\n'),
        decreases v.len() - i,
    {
        if v[i] == ',' || v[i] == '"' || v[i] == '\n' {
            needs = true;
        }
        i = i + 1;
    }
    if !needs {
        return String::from_str(s);
    }
    let mut r = String::new();
    r.push('"');
    let mut k: usize = 0;
    while k < v.len()
        invariant
            k <= v.len(),
            v@ == s@,
            r@ == seq!['"'] + double_quotes(v@.take(k as int)),
        decreases v.len() - k,
    {
        let c = v[k];
        proof {
            assert(v@.take(k + 1).drop_last() == v@.take(k as int));
            assert(v@.take(k + 1).last() == c);
        }
        if c == '"' {
            r.push('"');
            r.push('"');
        } else {
            r.push(c);
        }
        proof {
            assert(r@ =~= seq!['"'] + double_quotes(v@.take(k + 1)));
        }
        k = k + 1;
    }
    r.push('"');
    proof {
        assert(v@.take(v@.len() as int) == v@);
    }
    r
}

/// The trimmed, non-empty items of a list of pieces.
pub open spec fn list_items(pieces: Seq<Seq<char>>) -> Seq<Seq<char>>
    decreases pieces.len(),
{
    if pieces.len() == 0 {
        Seq::empty()
    } else {
        let rest = list_items(pieces.drop_last());
        let t = trim(pieces.last());
        if t.len() > 0 {
            rest.push(t)
        } else {
            rest
        }
    }
}

/// The items of a comma-separated list such as "SPY, QQQ,": each trimmed, empty
/// ones dropped.
pub fn split_list(s: &str) -> (r: Vec<String>)
    ensures
        r@.map_values(|x: String| x@) == list_items(split_pieces(s@, ',')),
{
    let v = chars_of(s);
    let n = v.len();
    let mut r: Vec<String> = Vec::new();
    let ghost mut done: Seq<Seq<char>> = Seq::empty();
    let mut start: usize = 0;
    proof {
        assert(v@.subrange(0, n as int) =~= v@);
    }
    loop
        invariant
            start <= n,
            n == v@.len(),
            v@ == s@,
            done + split_pieces(v@.subrange(start as int, n as int), ',') == split_pieces(s@, ','),
            r@.map_values(|x: String| x@) == list_items(done),
        decreases n - start,
    {
        let ghost rest = v@.subrange(start as int, n as int);
        let found = find_char(&v, start, n, ',');
        let end = match found {
            Some(e) => e,
            None => n,
        };
        let (a, b) = trim_bounds(&v, start, end);
        let ghost piece = v@.subrange(start as int, end as int);
        let ghost old_r = r@;
        if a < b {
            r.push(string_of(&v, a, b));
        }
        proof {
            let nd = done.push(piece);
            assert(nd.drop_last() =~= done);
            assert(nd.last() == piece);
            assert(r@.map_values(|x: String| x@) =~= list_items(nd)) by {
                if a < b {
                    assert(r@ == old_r.push(r@[r@.len() - 1]));
                    assert(r@.map_values(|x: String| x@) =~= old_r.map_values(|x: String| x@).push(
                        v@.subrange(a as int, b as int),
                    ));
                }
            }
            match found {
                Some(e) => {
                    lemma_split_step(rest, e - start);
                    assert(rest.take(e - start) =~= piece);
                    assert(rest.skip(e - start + 1) =~= v@.subrange(e + 1, n as int));
                    assert(nd + split_pieces(v@.subrange(e + 1, n as int), ',') =~= done + (seq![piece]
                        + split_pieces(v@.subrange(e + 1, n as int), ',')));
                },
                None => {
                    assert(piece == rest);
                    assert(split_pieces(rest, ',') == seq![rest]);
                    assert(nd =~= done + seq![rest]);
                },
            }
            done = nd;
        }
        match found {
            Some(e) => {
                start = e + 1;
            },
            None => {
                return r;
            },
        }
    }
}

/// Each comma-separated piece of a list, trimmed (empty pieces kept).
pub open spec fn trimmed_pieces(pieces: Seq<Seq<char>>) -> Seq<Seq<char>> {
    Seq::new(pieces.len(), |i: int| trim(pieces[i]))
}

/// `s.split(',').map(|x| x.trim())`: every piece, trimmed, empty ones included.
pub fn split_trimmed(s: &str) -> (r: Vec<String>)
    ensures
        r@.map_values(|x: String| x@) == trimmed_pieces(split_pieces(s@, ',')),
{
    let v = chars_of(s);
    let n = v.len();
    let mut r: Vec<String> = Vec::new();
    let ghost mut done: Seq<Seq<char>> = Seq::empty();
    let mut start: usize = 0;
    proof {
        assert(v@.subrange(0, n as int) =~= v@);
    }
    loop
        invariant
            start <= n,
            n == v@.len(),
            v@ == s@,
            done + split_pieces(v@.subrange(start as int, n as int), ',') == split_pieces(s@, ','),
            r@.map_values(|x: String| x@) == trimmed_pieces(done),
        decreases n - start,
    {
        let ghost rest = v@.subrange(start as int, n as int);
        let found = find_char(&v, start, n, ',');
        let end = match found {
            Some(e) => e,
            None => n,
        };
        let (a, b) = trim_bounds(&v, start, end);
        let ghost piece = v@.subrange(start as int, end as int);
        let ghost old_r = r@;
        r.push(string_of(&v, a, b));
        proof {
            let nd = done.push(piece);
            assert(r@.map_values(|x: String| x@) =~= old_r.map_values(|x: String| x@).push(v@.subrange(a as int, b as int)));
            assert(r@.map_values(|x: String| x@) =~= trimmed_pieces(nd));
            match found {
                Some(e) => {
                    lemma_split_step(rest, e - start);
                    assert(rest.take(e - start) =~= piece);
                    assert(rest.skip(e - start + 1) =~= v@.subrange(e + 1, n as int));
                    assert(nd + split_pieces(v@.subrange(e + 1, n as int), ',') =~= done + (seq![piece]
                        + split_pieces(v@.subrange(e + 1, n as int), ',')));
                },
                None => {
                    assert(piece == rest);
                    assert(split_pieces(rest, ',') == seq![rest]);
                    assert(nd =~= done + seq![rest]);
                },
            }
            done = nd;
        }
        match found {
            Some(e) => {
                start = e + 1;
            },
            None => {
                return r;
            },
        }
    }
}

} // verus!
