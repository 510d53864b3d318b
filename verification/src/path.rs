//! Derives the output path from the input path: the extension of the final
//! path component is replaced by `.qif`, or `.qif` is appended when the
//! component has none; everything before it is kept unchanged.
use vstd::prelude::*;

verus! {

/// The position of the last occurrence of `c` in `s` before index `i`.
pub open spec fn last_pos(s: Seq<char>, c: char, i: int) -> Option<int>
    decreases i,
{
    if i <= 0 {
        None
    } else if s[i - 1] == c {
        Some(i - 1)
    } else {
        last_pos(s, c, i - 1)
    }
}

pub open spec fn qif_ext() -> Seq<char> {
    seq!['.', 'q', 'i', 'f']
}

/// The output path: the input path cut at the dot that starts the final
/// component's extension — a dot after the last separator, but not the
/// component's first character — with `.qif` in its place; a path whose
/// final component has no such dot gets `.qif` appended whole.
pub open spec fn spec_output_path(p: Seq<char>) -> Seq<char> {
    let name_start: int = match last_pos(p, '/', p.len() as int) {
        None => 0,
        Some(k) => k + 1,
    };
    match last_pos(p, '.', p.len() as int) {
        Some(j) => if j > name_start {
            p.subrange(0, j) + qif_ext()
        } else {
            p + qif_ext()
        },
        None => p + qif_ext(),
    }
}

proof fn lemma_last_pos_bound(s: Seq<char>, c: char, i: int)
    requires
        last_pos(s, c, i) is Some,
    ensures
        0 <= last_pos(s, c, i).unwrap() < i,
    decreases i,
{
    if i > 0 && s[i - 1] != c {
        lemma_last_pos_bound(s, c, i - 1);
    }
}

spec fn opt_pos_view(o: Option<usize>) -> Option<int> {
    match o {
        None => None,
        Some(k) => Some(k as int),
    }
}

/// Replaces (or adds) the input path's extension with `.qif`.
pub fn derive_output_path(p: &str) -> (r: String)
    ensures
        r@ == spec_output_path(p@),
{
    let n = p.unicode_len();
    let mut last_slash: Option<usize> = None;
    let mut last_dot: Option<usize> = None;
    let mut i: usize = 0;
    while i < n
        invariant
            0 <= i <= n,
            opt_pos_view(last_slash) == last_pos(p@, '/', i as int),
            opt_pos_view(last_dot) == last_pos(p@, '.', i as int),
        decreases n - i,
    {
        let c = p.get_char(i);
        if c == '/' {
            last_slash = Some(i);
        }
        if c == '.' {
            last_dot = Some(i);
        }
        i += 1;
    }
    proof {
        if last_pos(p@, '/', n as int) is Some {
            lemma_last_pos_bound(p@, '/', n as int);
        }
        if last_pos(p@, '.', n as int) is Some {
            lemma_last_pos_bound(p@, '.', n as int);
        }
    }
    let name_start: usize = match last_slash {
        None => 0,
        Some(k) => k + 1,
    };
    let cut: usize = match last_dot {
        Some(j) => if j > name_start {
            j
        } else {
            n
        },
        None => n,
    };
    let mut r = String::from_str(p.substring_char(0, cut));
    r.append(".qif");
    proof {
        reveal_strlit(".qif");
        assert(p@.subrange(0, n as int) =~= p@);
        assert(r@ =~= spec_output_path(p@));
    }
    r
}

} // verus!
