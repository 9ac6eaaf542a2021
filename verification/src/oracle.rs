//! Parsing the external backup tool's answers.
//!
//! The tool answers a status query with a line of text; a path is excluded
//! exactly when the answer contains the `[Excluded]` token.  The binary
//! captures the tool's output and hands the text here; whether the token
//! occurs is decided (and verified) in this module.

use vstd::prelude::*;

verus! {

/// Whether `needle` occurs in `hay` starting at position `i`.
pub open spec fn spec_contains_at(hay: Seq<char>, needle: Seq<char>, i: int) -> bool {
    0 <= i && i + needle.len() <= hay.len() && hay.subrange(i, i + needle.len()) == needle
}

/// Whether `needle` occurs somewhere in `hay` as a contiguous run of
/// characters.
pub open spec fn spec_contains(hay: Seq<char>, needle: Seq<char>) -> bool {
    exists|i: int| spec_contains_at(hay, needle, i)
}

fn str_contains(hay: &str, needle: &str) -> (r: bool)
    ensures
        r == spec_contains(hay@, needle@),
{
    let hn = hay.unicode_len();
    let nn = needle.unicode_len();
    if nn > hn {
        return false;
    }
    let mut i: usize = 0;
    while i <= hn - nn
        invariant
            nn <= hn,
            hn == hay@.len(),
            nn == needle@.len(),
            0 <= i <= hn - nn + 1,
            forall|k: int| 0 <= k < i ==> !spec_contains_at(hay@, needle@, k),
        decreases hn - nn - i + 1,
    {
        let mut j: usize = 0;
        while j < nn && hay.get_char(i + j) == needle.get_char(j)
            invariant
                0 <= j <= nn,
                i + nn <= hn,
                hn == hay@.len(),
                nn == needle@.len(),
                forall|t: int| 0 <= t < j ==> hay@[i + t] == needle@[t],
            decreases nn - j,
        {
            j = j + 1;
        }
        if j == nn {
            proof {
                assert(hay@.subrange(i as int, i as int + nn as int) =~= needle@);
                assert(spec_contains_at(hay@, needle@, i as int));
            }
            return true;
        }
        proof {
            assert(hay@[i + j] != needle@[j as int]);
            assert(!spec_contains_at(hay@, needle@, i as int)) by {
                if spec_contains_at(hay@, needle@, i as int) {
                    assert(hay@.subrange(i as int, i as int + nn as int)[j as int]
                        == needle@[j as int]);
                }
            }
        }
        i = i + 1;
    }
    proof {
        assert forall|k: int| !spec_contains_at(hay@, needle@, k) by {
            if k >= i {
                assert(k + needle@.len() > hay@.len());
            }
        }
    }
    false
}

/// Whether the external tool's status answer marks the queried path as
/// excluded: the answer contains the `[Excluded]` token.
pub fn output_marks_excluded(output: &str) -> (r: bool)
    ensures
        r == spec_contains(output@, "[Excluded]"@),
{
    str_contains(output, "[Excluded]")
}

} // verus!
