//! Path filtering: declarations from implementation files (`.cpp`) or
//! vendored directories (a `thirdparty` path component) are never part of
//! the public surface.

use vstd::prelude::*;
use vstd::string::StrSliceExecFns;
use vstd::string::StringExecFns;

verus! {

/// Index of the last `.` of a file name that can begin an extension, or -1.
/// A dot at position 0 (a hidden file) does not begin an extension.
pub open spec fn last_dot(s: Seq<char>) -> int
    decreases s.len(),
{
    if s.len() <= 1 {
        -1
    } else if s.last() == '.' {
        s.len() - 1
    } else {
        last_dot(s.drop_last())
    }
}

/// Whether a file name ends in the extension `cpp`.
pub open spec fn ext_is_cpp(s: Seq<char>) -> bool {
    let d = last_dot(s);
    d >= 0 && s.subrange(d + 1, s.len() as int) == "cpp"@
}

/// Whether any path component equals `thirdparty`.
pub open spec fn has_thirdparty(segs: Seq<Seq<char>>) -> bool {
    exists|i: int| 0 <= i < segs.len() && segs[i] == "thirdparty"@
}

/// Whether the walker skips a declaration at this location: it lies in a
/// system header, its file has a `.cpp` extension, or its path runs through
/// a `thirdparty` component.
pub open spec fn spec_loc_skipped(l: crate::input::SpecLoc) -> bool {
    ||| l.in_system_header
    ||| (l.segments.len() > 0 && ext_is_cpp(l.segments.last()))
    ||| has_thirdparty(l.segments)
}

/// Decides whether a file name ends in `.cpp`, exactly as `ext_is_cpp`
/// states.
pub fn name_ext_is_cpp(seg: &str) -> (b: bool)
    ensures
        b == ext_is_cpp(seg@),
{
    let n = seg.unicode_len();
    if n < 2 {
        return false;
    }
    let mut j: usize = n;
    proof {
        assert(seg@.take(n as int) =~= seg@);
    }
    while j > 1 && seg.get_char(j - 1) != '.'
        invariant
            1 <= j <= n,
            n == seg@.len(),
            n >= 2,
            last_dot(seg@) == last_dot(seg@.take(j as int)),
        decreases j,
    {
        proof {
            assert(seg@.take(j as int).drop_last() =~= seg@.take(j - 1));
        }
        j = j - 1;
    }
    if j == 1 {
        proof {
            assert(last_dot(seg@.take(1int)) == -1);
        }
        return false;
    }
    let d = j - 1;
    proof {
        assert(seg@.take(j as int).last() == seg@[j - 1]);
        assert(last_dot(seg@) == j - 1);
    }
    if n - d - 1 != 3 {
        proof {
            reveal_strlit("cpp");
            assert(seg@.subrange(d + 1, seg@.len() as int).len() != "cpp"@.len());
        }
        return false;
    }
    let c0 = seg.get_char(d + 1);
    let c1 = seg.get_char(d + 2);
    let c2 = seg.get_char(d + 3);
    let r = c0 == 'c' && c1 == 'p' && c2 == 'p';
    proof {
        reveal_strlit("cpp");
        if r {
            assert(seg@.subrange(d + 1, seg@.len() as int) =~= "cpp"@);
        } else {
            assert(seg@.subrange(d + 1, seg@.len() as int) != "cpp"@) by {
                if seg@.subrange(d + 1, seg@.len() as int) == "cpp"@ {
                    assert(seg@.subrange(d + 1, seg@.len() as int)[0] == 'c');
                    assert(seg@.subrange(d + 1, seg@.len() as int)[1] == 'p');
                    assert(seg@.subrange(d + 1, seg@.len() as int)[2] == 'p');
                }
            }
        }
    }
    r
}

/// Decides whether the walker skips this location, exactly as
/// `spec_loc_skipped` states.
pub fn loc_skipped(l: &crate::input::Loc) -> (b: bool)
    ensures
        b == spec_loc_skipped(l@),
{
    if l.in_system_header {
        return true;
    }
    let nsegs = l.segments.len();
    if nsegs > 0 {
        proof {
            crate::schema::lemma_seq_view_index(l.segments@, nsegs - 1);
        }
        if name_ext_is_cpp(l.segments[nsegs - 1].as_str()) {
            return true;
        }
    }
    let needle: String = String::from_str("thirdparty");
    let mut i: usize = 0;
    while i < l.segments.len()
        invariant
            0 <= i <= l.segments.len(),
            needle@ == "thirdparty"@,
            forall|j: int|
                0 <= j < i ==> crate::schema::seq_view(l.segments@)[j] != "thirdparty"@,
        decreases l.segments.len() - i,
    {
        proof {
            crate::schema::lemma_seq_view_index(l.segments@, i as int);
        }
        if l.segments[i] == needle {
            return true;
        }
        i = i + 1;
    }
    proof {
        crate::schema::lemma_seq_view_len(l.segments@);
    }
    false
}

} // verus!
