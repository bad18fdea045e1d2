use vstd::prelude::*;

verus! {

/// Byte value of the path separator `/`.
pub const SLASH: u8 = 47;

/// Byte value of `.`.
pub const DOT: u8 = 46;

/// The output format's file extension, dot included: `.pdf`.
pub open spec fn pdf_extension() -> Seq<u8> {
    seq![DOT, 112u8, 100u8, 102u8]
}

/// Index where the final component of a byte path begins: one past the last
/// separator, or zero when there is none.
pub open spec fn file_name_start(p: Seq<u8>) -> int
    decreases p.len(),
{
    if p.len() == 0 {
        0
    } else if p.last() == SLASH {
        p.len() as int
    } else {
        file_name_start(p.drop_last())
    }
}

/// The largest index at or after `lo` that holds a dot, if any.
pub open spec fn last_dot_from(p: Seq<u8>, lo: int) -> Option<int>
    decreases p.len(),
{
    if p.len() <= lo || p.len() == 0 {
        None
    } else if p.last() == DOT {
        Some(p.len() - 1)
    } else {
        last_dot_from(p.drop_last(), lo)
    }
}

/// How much of the path is kept when its extension is replaced: up to the
/// last dot of the final component, where a dot that opens the component
/// marks no extension; the whole path when the component has none.
pub open spec fn stem_len(p: Seq<u8>) -> int {
    match last_dot_from(p, file_name_start(p) + 1) {
        Some(i) => i,
        None => p.len() as int,
    }
}

/// The output artifact's path: the source path with its extension replaced
/// by `.pdf`.
pub open spec fn output_path_spec(p: Seq<u8>) -> Seq<u8> {
    p.take(stem_len(p)) + pdf_extension()
}

proof fn lemma_file_name_start_step(p: Seq<u8>, j: int)
    requires
        0 <= j < p.len(),
    ensures
        file_name_start(p.take(j + 1)) == (if p[j] == SLASH {
            j + 1
        } else {
            file_name_start(p.take(j))
        }),
{
    let q = p.take(j + 1);
    assert(q.len() == j + 1);
    assert(q.last() == p[j]);
    assert(q.drop_last() =~= p.take(j));
}

proof fn lemma_last_dot_step(p: Seq<u8>, k: int, lo: int)
    requires
        0 <= k < p.len(),
        0 <= lo,
    ensures
        last_dot_from(p.take(k + 1), lo) == (if k + 1 <= lo {
            None::<int>
        } else if p[k] == DOT {
            Some(k)
        } else {
            last_dot_from(p.take(k), lo)
        }),
{
    let q = p.take(k + 1);
    assert(q.len() == k + 1);
    if k + 1 > lo {
        assert(q.last() == p[k]);
        assert(q.drop_last() =~= p.take(k));
    }
}

/// Compute the output artifact's path from the staged source path by
/// replacing the final component's extension with `.pdf`.
pub fn output_path(p: &Vec<u8>) -> (r: Vec<u8>)
    ensures
        r@ == output_path_spec(p@),
{
    let n: usize = p.len();
    let mut start: usize = 0;
    let mut j: usize = 0;
    while j < n
        invariant
            n == p@.len(),
            j <= n,
            start <= j,
            start as int == file_name_start(p@.take(j as int)),
        decreases n - j,
    {
        proof {
            lemma_file_name_start_step(p@, j as int);
        }
        if p[j] == SLASH {
            start = j + 1;
        }
        j = j + 1;
    }
    proof {
        assert(p@.take(n as int) =~= p@);
    }
    let mut cut: usize = n;
    let mut k: usize = start;
    while k < n
        invariant
            n == p@.len(),
            start <= k <= n,
            start as int == file_name_start(p@),
            cut <= n,
            cut as int == (match last_dot_from(p@.take(k as int), start as int + 1) {
                Some(i) => i,
                None => n as int,
            }),
        decreases n - k,
    {
        proof {
            lemma_last_dot_step(p@, k as int, start as int + 1);
        }
        if k > start && p[k] == DOT {
            cut = k;
        }
        k = k + 1;
    }
    proof {
        assert(p@.take(n as int) =~= p@);
        assert(cut as int == stem_len(p@));
    }
    let mut r: Vec<u8> = Vec::new();
    let mut i: usize = 0;
    while i < cut
        invariant
            cut <= n,
            n == p@.len(),
            i <= cut,
            r@ == p@.take(i as int),
        decreases cut - i,
    {
        r.push(p[i]);
        proof {
            assert(r@ =~= p@.take(i as int + 1));
        }
        i = i + 1;
    }
    r.push(DOT);
    r.push(112);
    r.push(100);
    r.push(102);
    proof {
        assert(r@ =~= p@.take(cut as int) + pdf_extension());
    }
    r
}

} // verus!
