//! Comparing file paths by their components, as Unix paths compare: repeated separators, a
//! trailing separator and `.` segments after the first make no difference.
use vstd::prelude::*;
use vstd::string::{StrSliceExecFns, StringExecFns};

verus! {

/// The segments of `p` from position `i` on, the current one having begun with `cur`: the
/// text between separators, empty ones included.
pub open spec fn split_from(p: Seq<char>, i: int, cur: Seq<char>) -> Seq<Seq<char>>
    decreases p.len() - i,
{
    if i >= p.len() {
        seq![cur]
    } else if p[i] == '/' {
        seq![cur] + split_from(p, i + 1, Seq::empty())
    } else {
        split_from(p, i + 1, cur.push(p[i]))
    }
}

/// The segments of `p`: the text between its separators.
pub open spec fn path_segments(p: Seq<char>) -> Seq<Seq<char>> {
    split_from(p, 0, Seq::empty())
}

/// A segment that names something: neither empty nor `.`.
pub open spec fn is_named(seg: Seq<char>) -> bool {
    seg.len() > 0 && seg != seq!['.']
}

/// The named segments among the first `n` of `segs`, in order.
pub open spec fn named_segments(segs: Seq<Seq<char>>, n: int) -> Seq<Seq<char>>
    decreases n,
{
    if n <= 0 {
        Seq::empty()
    } else if is_named(segs[n - 1]) {
        named_segments(segs, n - 1).push(segs[n - 1])
    } else {
        named_segments(segs, n - 1)
    }
}

/// `p` starts at the root.
pub open spec fn has_root(p: Seq<char>) -> bool {
    p.len() > 0 && p[0] == '/'
}

/// The components of `p` after any root: a leading `.` of a relative path, then its named
/// segments.
pub open spec fn path_components(p: Seq<char>) -> Seq<Seq<char>> {
    let segs = path_segments(p);
    let lead = if !has_root(p) && segs[0] == seq!['.'] {
        seq![seq!['.']]
    } else {
        Seq::<Seq<char>>::empty()
    };
    lead + named_segments(segs, segs.len() as int)
}

/// The first `n` of `c`, joined by separators.
pub open spec fn joined(c: Seq<Seq<char>>, n: int) -> Seq<char>
    decreases n,
{
    if n <= 0 {
        Seq::empty()
    } else if n == 1 {
        c[0]
    } else {
        joined(c, n - 1) + seq!['/'] + c[n - 1]
    }
}

/// The text that stands for the components of `p`: two paths with the same components have
/// the same key, and different components give different keys.
pub open spec fn spec_path_key(p: Seq<char>) -> Seq<char> {
    let c = path_components(p);
    (if has_root(p) {
        seq!['/']
    } else {
        Seq::empty()
    }) + joined(c, c.len() as int)
}

proof fn lemma_split_nonempty(p: Seq<char>, i: int, cur: Seq<char>)
    ensures
        split_from(p, i, cur).len() >= 1,
    decreases p.len() - i,
{
    if i < p.len() && p[i] != '/' {
        lemma_split_nonempty(p, i + 1, cur.push(p[i]));
    }
}

/// The segments of `p`.
fn segments(p: &str) -> (r: Vec<String>)
    ensures
        r@.map_values(|s: String| s@) == path_segments(p@),
{
    let n = p.unicode_len();
    let mut segs: Vec<String> = Vec::new();
    let mut start: usize = 0;
    let mut i: usize = 0;
    assert(p@.subrange(0, 0) =~= Seq::<char>::empty());
    assert(segs@.map_values(|s: String| s@) =~= Seq::<Seq<char>>::empty());
    assert(Seq::<Seq<char>>::empty() + path_segments(p@) =~= path_segments(p@));
    while i < n
        invariant
            n == p@.len(),
            start <= i <= n,
            segs@.map_values(|s: String| s@) + split_from(p@, i as int, p@.subrange(start as int, i as int))
                == path_segments(p@),
        decreases n - i,
    {
        let ghost before = segs@.map_values(|s: String| s@);
        let c = p.get_char(i);
        if c == '/' {
            let seg = String::from_str(p.substring_char(start, i));
            segs.push(seg);
            proof {
                assert(p@.subrange((i + 1) as int, (i + 1) as int) =~= Seq::<char>::empty());
                assert(segs@.map_values(|s: String| s@) =~= before.push(p@.subrange(start as int, i as int)));
                assert(before + split_from(p@, i as int, p@.subrange(start as int, i as int)) =~= segs@.map_values(
                    |s: String| s@,
                ) + split_from(p@, i + 1, Seq::empty()));
            }
            start = i + 1;
        } else {
            proof {
                assert(p@.subrange(start as int, i as int).push(p@[i as int]) =~= p@.subrange(
                    start as int,
                    i + 1,
                ));
            }
        }
        i = i + 1;
    }
    let last = String::from_str(p.substring_char(start, n));
    let ghost before = segs@.map_values(|s: String| s@);
    segs.push(last);
    assert(segs@.map_values(|s: String| s@) =~= before + seq![p@.subrange(start as int, n as int)]);
    segs
}

/// The key that stands for the components of the path `p`; see [`spec_path_key`].
pub fn path_key(p: &str) -> (r: String)
    ensures
        r@ == spec_path_key(p@),
{
    let segs = segments(p);
    let ghost sv = segs@.map_values(|s: String| s@);
    proof {
        lemma_split_nonempty(p@, 0, Seq::empty());
        reveal_strlit(".");
        reveal_strlit("/");
        reveal_strlit("");
    }
    let dot = String::from_str(".");
    assert(dot@ =~= seq!['.']);
    let n = p.unicode_len();
    let root = n > 0 && p.get_char(0) == '/';
    let mut comps: Vec<String> = Vec::new();
    if !root && segs[0] == dot {
        comps.push(dot.clone());
    }
    let ghost lead = comps@.map_values(|s: String| s@);
    assert(lead == (if !has_root(p@) && sv[0] == seq!['.'] {
        seq![seq!['.']]
    } else {
        Seq::<Seq<char>>::empty()
    }));
    let mut k: usize = 0;
    while k < segs.len()
        invariant
            k <= segs@.len(),
            sv == segs@.map_values(|s: String| s@),
            dot@ == seq!['.'],
            comps@.map_values(|s: String| s@) == lead + named_segments(sv, k as int),
        decreases segs@.len() - k,
    {
        let ghost before = comps@.map_values(|s: String| s@);
        let named = segs[k].unicode_len() > 0 && segs[k] != dot;
        if named {
            comps.push(segs[k].clone());
            assert(comps@.map_values(|s: String| s@) =~= before.push(sv[k as int]));
        }
        k = k + 1;
    }
    let ghost cv = comps@.map_values(|s: String| s@);
    assert(cv == path_components(p@));
    let mut key = if root {
        String::from_str("/")
    } else {
        String::from_str("")
    };
    let ghost prefix = key@;
    let mut j: usize = 0;
    while j < comps.len()
        invariant
            j <= comps@.len(),
            cv == comps@.map_values(|s: String| s@),
            key@ == prefix + joined(cv, j as int),
        decreases comps@.len() - j,
    {
        if j > 0 {
            key.append("/");
        }
        key.append(comps[j].as_str());
        proof {
            reveal_strlit("/");
            if j == 0 {
                assert(joined(cv, 1) == cv[0]);
            }
            assert(key@ =~= prefix + joined(cv, j + 1));
        }
        j = j + 1;
    }
    key
}

} // verus!
