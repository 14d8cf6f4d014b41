use vstd::prelude::*;
use crate::text::{chars_of, string_of};

verus! {

/// Whether an argument names an option: it begins with two dashes.
pub open spec fn is_flag(a: Seq<char>) -> bool {
    a.len() >= 2 && a[0] == '-' && a[1] == '-'
}

/// The index of the first option at or after `j`, or the end.
pub open spec fn value_end(args: Seq<Seq<char>>, j: int) -> int
    decreases args.len() - j,
{
    if j >= args.len() || is_flag(args[j]) {
        j
    } else {
        value_end(args, j + 1)
    }
}

/// `args[first..k]` joined with single spaces.
pub open spec fn joined(args: Seq<Seq<char>>, first: int, k: int) -> Seq<char>
    decreases k - first,
{
    if k <= first + 1 {
        args[first]
    } else {
        joined(args, first, k - 1) + seq![' '] + args[k - 1]
    }
}

/// The pairs read from `args[i..]`: an option followed by at least one more
/// argument takes as its value that argument and every following one up to
/// the next option, joined with spaces; any other argument is skipped.
pub open spec fn pairs_from(args: Seq<Seq<char>>, i: int) -> Seq<(Seq<char>, Seq<char>)>
    decreases args.len() - i,
    via pairs_from_decreases
{
    if i < 0 || i >= args.len() {
        seq![]
    } else if is_flag(args[i]) && i + 1 < args.len() {
        let e = value_end(args, i + 2);
        seq![(args[i], joined(args, i + 1, e))] + pairs_from(args, e)
    } else {
        pairs_from(args, i + 1)
    }
}

#[via_fn]
proof fn pairs_from_decreases(args: Seq<Seq<char>>, i: int) {
    if 0 <= i < args.len() && is_flag(args[i]) && i + 1 < args.len() {
        lemma_value_end_bounds(args, i + 2);
    }
}

pub open spec fn arg_views(args: Seq<String>) -> Seq<Seq<char>> {
    args.map_values(|a: String| a@)
}

pub open spec fn pair_views(ps: Seq<(String, String)>) -> Seq<(Seq<char>, Seq<char>)> {
    ps.map_values(|p: (String, String)| (p.0@, p.1@))
}

proof fn lemma_value_end_bounds(args: Seq<Seq<char>>, j: int)
    requires
        0 <= j <= args.len(),
    ensures
        j <= value_end(args, j) <= args.len(),
    decreases args.len() - j,
{
    if !(j >= args.len() || is_flag(args[j])) {
        lemma_value_end_bounds(args, j + 1);
    }
}

fn flag_exec(a: &Vec<char>) -> (r: bool)
    ensures
        r == is_flag(a@),
{
    a.len() >= 2 && a[0] == '-' && a[1] == '-'
}

/// Groups command-line arguments into (option, value) pairs.
pub fn launch_pairs(args: &Vec<String>) -> (r: Vec<(String, String)>)
    ensures
        pair_views(r@) == pairs_from(arg_views(args@), 0),
{
    let ghost av = arg_views(args@);
    let n: usize = args.len();
    let mut cs: Vec<Vec<char>> = Vec::new();
    let mut m: usize = 0;
    while m < n
        invariant
            n == args@.len(),
            av == arg_views(args@),
            m <= n,
            cs@.len() == m,
            forall|q: int| 0 <= q < m ==> #[trigger] cs@[q]@ == av[q],
        decreases n - m,
    {
        cs.push(chars_of(args[m].as_str()));
        m = m + 1;
    }
    let mut out: Vec<(String, String)> = Vec::new();
    let mut i: usize = 0;
    while i < n
        invariant
            n == args@.len(),
            av == arg_views(args@),
            av.len() == n,
            cs@.len() == n,
            forall|q: int| 0 <= q < n ==> #[trigger] cs@[q]@ == av[q],
            i <= n,
            pairs_from(av, 0) == pair_views(out@) + pairs_from(av, i as int),
        decreases n - i,
    {
        if flag_exec(&cs[i]) && i + 1 < n {
            let mut value: Vec<char> = cs[i + 1].clone();
            let mut e: usize = i + 2;
            assert(value@ == joined(av, i + 1, e as int));
            while e < n && !flag_exec(&cs[e])
                invariant
                    n == av.len(),
                    cs@.len() == n,
                    forall|q: int| 0 <= q < n ==> #[trigger] cs@[q]@ == av[q],
                    i + 2 <= e <= n,
                    value@ == joined(av, i + 1, e as int),
                    value_end(av, i + 2) == value_end(av, e as int),
                decreases n - e,
            {
                value.push(' ');
                let mut k: usize = 0;
                let ghost head = value@;
                while k < cs[e].len()
                    invariant
                        e < n,
                        cs@.len() == n,
                        k <= cs@[e as int]@.len(),
                        value@ == head + cs@[e as int]@.subrange(0, k as int),
                    decreases cs@[e as int]@.len() - k,
                {
                    value.push(cs[e][k]);
                    assert(value@ =~= head + cs@[e as int]@.subrange(0, k + 1));
                    k = k + 1;
                }
                assert(cs@[e as int]@.subrange(0, k as int) =~= cs@[e as int]@);
                assert(value@ == joined(av, i + 1, e + 1));
                e = e + 1;
            }
            let ghost before = out@;
            out.push((string_of(&cs[i]), string_of(&value)));
            proof {
                assert(value_end(av, e as int) == e);
                assert(pair_views(out@) =~= pair_views(before) + seq![(av[i as int], value@)]);
            }
            i = e;
        } else {
            i = i + 1;
        }
    }
    proof {
        assert(pairs_from(av, n as int) =~= seq![]);
        assert(pair_views(out@) + pairs_from(av, n as int) =~= pair_views(out@));
    }
    out
}

} // verus!
