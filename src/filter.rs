use vstd::prelude::*;
use vstd::string::StrSliceExecFns;
use crate::submission::{SubmissionData, strings_of};

verus! {

/// A character's code once ASCII upper case is folded to lower case.
pub open spec fn fold_code(c: char) -> u32 {
    if 65 <= c as u32 && c as u32 <= 90 {
        (c as u32 + 32) as u32
    } else {
        c as u32
    }
}

/// A text with ASCII case folded away.
pub open spec fn folded(s: Seq<char>) -> Seq<u32> {
    s.map_values(|c: char| fold_code(c))
}

/// Whether some tag matches some excluded tag once case is folded on both.
pub open spec fn excluded(tags: Seq<Seq<char>>, blacklist: Seq<Seq<char>>) -> bool {
    exists|i: int, j: int|
        0 <= i < tags.len() && 0 <= j < blacklist.len() && #[trigger] folded(tags[i]) == #[trigger] folded(blacklist[j])
}

fn fold_char(c: char) -> (r: u32)
    ensures
        r == fold_code(c),
{
    let code = c as u32;
    if 65 <= code && code <= 90 {
        code + 32
    } else {
        code
    }
}

/// Whether two texts are equal but for ASCII case.
pub fn same_folded(a: &str, b: &str) -> (r: bool)
    ensures
        r == (folded(a@) == folded(b@)),
{
    let n = a.unicode_len();
    if n != b.unicode_len() {
        assert(folded(a@).len() != folded(b@).len());
        return false;
    }
    let mut i: usize = 0;
    while i < n
        invariant
            n == a@.len() == b@.len(),
            i <= n,
            forall|k: int| 0 <= k < i ==> folded(a@)[k] == folded(b@)[k],
        decreases n - i,
    {
        if fold_char(a.get_char(i)) != fold_char(b.get_char(i)) {
            assert(folded(a@)[i as int] != folded(b@)[i as int]);
            return false;
        }
        i = i + 1;
    }
    assert(folded(a@) =~= folded(b@));
    true
}

/// Whether a submission carries a tag of the exclusion list, ignoring case.
pub fn is_blacklisted(info: &SubmissionData, blacklist: &[String]) -> (r: bool)
    ensures
        r == excluded(info@.tags, strings_of(blacklist@)),
{
    let ghost tags = info@.tags;
    let ghost bl = strings_of(blacklist@);
    let mut i: usize = 0;
    while i < info.tags.len()
        invariant
            tags == strings_of(info.tags@),
            bl == strings_of(blacklist@),
            i <= info.tags@.len(),
            forall|a: int, b: int| 0 <= a < i && 0 <= b < bl.len() ==> folded(tags[a]) != folded(bl[b]),
        decreases info.tags@.len() - i,
    {
        let mut j: usize = 0;
        while j < blacklist.len()
            invariant
                tags == strings_of(info.tags@),
                bl == strings_of(blacklist@),
                i < info.tags@.len(),
                j <= blacklist@.len(),
                forall|a: int, b: int| 0 <= a < i && 0 <= b < bl.len() ==> folded(tags[a]) != folded(bl[b]),
                forall|b: int| 0 <= b < j ==> folded(tags[i as int]) != folded(bl[b]),
            decreases blacklist@.len() - j,
        {
            if same_folded(info.tags[i].as_str(), blacklist[j].as_str()) {
                assert(folded(tags[i as int]) == folded(bl[j as int]));
                return true;
            }
            j = j + 1;
        }
        i = i + 1;
    }
    false
}

/// Exclusion does not depend on the order of the tags, nor on repeats: two
/// tag lists holding the same tags are excluded alike.
pub proof fn lemma_exclusion_ignores_order(
    tags: Seq<Seq<char>>,
    other: Seq<Seq<char>>,
    blacklist: Seq<Seq<char>>,
)
    requires
        forall|t: Seq<char>| tags.contains(t) <==> other.contains(t),
    ensures
        excluded(tags, blacklist) == excluded(other, blacklist),
{
    if excluded(tags, blacklist) {
        let (i, j) = choose|i: int, j: int|
            0 <= i < tags.len() && 0 <= j < blacklist.len() && #[trigger] folded(tags[i]) == #[trigger] folded(blacklist[j]);
        assert(tags.contains(tags[i]));
        let k = choose|k: int| 0 <= k < other.len() && other[k] == tags[i];
        assert(folded(other[k]) == folded(blacklist[j]));
    }
    if excluded(other, blacklist) {
        let (i, j) = choose|i: int, j: int|
            0 <= i < other.len() && 0 <= j < blacklist.len() && #[trigger] folded(other[i]) == #[trigger] folded(blacklist[j]);
        assert(other.contains(other[i]));
        let k = choose|k: int| 0 <= k < tags.len() && tags[k] == other[i];
        assert(folded(tags[k]) == folded(blacklist[j]));
    }
}

} // verus!
