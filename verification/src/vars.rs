use vstd::prelude::*;
use vstd::string::StrSliceExecFns;

verus! {

/// One entry of the trace's variable list, in decoder-native order: the
/// full dotted name, the opaque handle (a non-zero 32-bit identifier the
/// external decoder issued; never interpreted here), and the raw
/// signal-kind tag.
pub struct VarInfo {
    pub name: String,
    pub handle: u32,
    pub ty: u32,
}

/// The position of the first variable with the given name, if any.
pub open spec fn first_match_index(vars: Seq<VarInfo>, name: Seq<char>) -> Option<int>
    decreases vars.len(),
{
    if vars.len() == 0 {
        None
    } else if vars[0].name@ == name {
        Some(0)
    } else {
        match first_match_index(vars.skip(1), name) {
            Some(i) => Some(i + 1),
            None => None,
        }
    }
}

/// What `first_match_index` finds is a match, and the earliest one.
pub proof fn lemma_first_match_characterization(vars: Seq<VarInfo>, name: Seq<char>)
    ensures
        first_match_index(vars, name) is Some <==> exists|j: int|
            0 <= j < vars.len() && vars[j].name@ == name,
        first_match_index(vars, name) matches Some(i) ==> 0 <= i < vars.len()
            && vars[i].name@ == name && forall|j: int| 0 <= j < i ==> vars[j].name@ != name,
    decreases vars.len(),
{
    if vars.len() > 0 && vars[0].name@ != name {
        lemma_first_match_characterization(vars.skip(1), name);
        if first_match_index(vars.skip(1), name) is Some {
            let i = first_match_index(vars.skip(1), name)->0;
            assert(vars.skip(1)[i] == vars[i + 1]);
            assert forall|j: int| 0 <= j < i + 1 implies vars[j].name@ != name by {
                if j > 0 {
                    assert(vars.skip(1)[j - 1] == vars[j]);
                }
            }
        }
        if exists|j: int| 0 <= j < vars.len() && vars[j].name@ == name {
            let j = choose|j: int| 0 <= j < vars.len() && vars[j].name@ == name;
            assert(vars.skip(1)[j - 1] == vars[j]);
        }
    }
}

/// Law: variable lookup is first-match under duplicate names. If position
/// `i` carries the name and no earlier position does, every lookup
/// resolves to position `i`, whatever later duplicates exist.
pub proof fn lemma_duplicate_names_first_wins(vars: Seq<VarInfo>, name: Seq<char>, i: int)
    requires
        0 <= i < vars.len(),
        vars[i].name@ == name,
        forall|j: int| 0 <= j < i ==> vars[j].name@ != name,
    ensures
        first_match_index(vars, name) == Some(i),
    decreases i,
{
    if i == 0 {
    } else {
        assert(vars.skip(1)[i - 1] == vars[i]);
        assert forall|j: int| 0 <= j < i - 1 implies vars.skip(1)[j].name@ != name by {
            assert(vars.skip(1)[j] == vars[j + 1]);
        }
        lemma_duplicate_names_first_wins(vars.skip(1), name, i - 1);
    }
}

/// Scans the variable list in native order and returns the position of
/// the first exact, whole-string, case-sensitive match.
pub fn find_variable(vars: &Vec<VarInfo>, name: &str) -> (r: Option<usize>)
    ensures
        r matches Some(i) ==> first_match_index(vars@, name@) == Some(i as int),
        r is None ==> first_match_index(vars@, name@) is None,
{
    let key: String = name.to_owned();
    let mut i: usize = 0;
    while i < vars.len()
        invariant
            i <= vars@.len(),
            key@ == name@,
            forall|j: int| 0 <= j < i ==> vars@[j].name@ != name@,
        decreases vars@.len() - i,
    {
        if key == vars[i].name {
            proof {
                lemma_duplicate_names_first_wins(vars@, name@, i as int);
            }
            return Some(i);
        }
        i = i + 1;
    }
    proof {
        lemma_first_match_characterization(vars@, name@);
    }
    None
}

} // verus!
