use vstd::prelude::*;

verus! {

/// The raw value in effect at `time`, given a variable's value changes in
/// the order the trace records them (time-ascending): the value of the
/// last change at or before `time`, or nothing when no change has
/// happened yet.
pub open spec fn spec_value_at(changes: Seq<(u64, String)>, time: u64) -> Option<Seq<char>>
    decreases changes.len(),
{
    if changes.len() == 0 {
        None
    } else if changes.last().0 <= time {
        Some(changes.last().1@)
    } else {
        spec_value_at(changes.drop_last(), time)
    }
}

/// The time of the first change strictly after `start`, or nothing when
/// the variable never changes again.
pub open spec fn spec_next_change(changes: Seq<(u64, String)>, start: u64) -> Option<u64>
    decreases changes.len(),
{
    if changes.len() == 0 {
        None
    } else if changes[0].0 > start {
        Some(changes[0].0)
    } else {
        spec_next_change(changes.skip(1), start)
    }
}

/// Law: what `spec_value_at` picks, spelled out. Nothing comes back
/// exactly when every recorded change lies after `time`; otherwise the
/// result is the value of the last change (in recorded order) at or
/// before `time`.
pub proof fn lemma_value_at_characterization(changes: Seq<(u64, String)>, time: u64)
    ensures
        spec_value_at(changes, time) is None <==> (forall|i: int|
            0 <= i < changes.len() ==> (#[trigger] changes[i]).0 > time),
        spec_value_at(changes, time) matches Some(v) ==> exists|i: int|
            0 <= i < changes.len() && (#[trigger] changes[i]).0 <= time && changes[i].1@ == v
                && (forall|j: int| i < j < changes.len() ==> (#[trigger] changes[j]).0 > time),
    decreases changes.len(),
{
    if changes.len() == 0 {
    } else if changes.last().0 <= time {
        let n = changes.len() as int;
        assert(changes[n - 1].0 <= time);
        assert(changes[n - 1].0 <= time && changes[n - 1].1@ == changes.last().1@ && (forall|
            j: int,
        |
            n - 1 < j < n ==> (#[trigger] changes[j]).0 > time));
    } else {
        let n = changes.len() as int;
        lemma_value_at_characterization(changes.drop_last(), time);
        assert(forall|i: int|
            0 <= i < n - 1 ==> changes.drop_last()[i] == (#[trigger] changes[i]));
        assert(forall|i: int|
            0 <= i < n - 1 ==> (#[trigger] changes.drop_last()[i]) == changes[i]);
        if spec_value_at(changes, time) is Some {
            let v = spec_value_at(changes, time)->0;
            let i = choose|i: int|
                0 <= i < n - 1 && (#[trigger] changes.drop_last()[i]).0 <= time
                    && changes.drop_last()[i].1@ == v && (forall|j: int|
                    i < j < n - 1 ==> (#[trigger] changes.drop_last()[j]).0 > time);
            assert(changes[i].0 <= time && changes[i].1@ == v && (forall|j: int|
                i < j < n ==> (#[trigger] changes[j]).0 > time));
        }
    }
}

/// Law: what `spec_next_change` picks, spelled out. Nothing comes back
/// exactly when no recorded change lies strictly after `start`; otherwise
/// the result is the time of the first such change in recorded order.
pub proof fn lemma_next_change_characterization(changes: Seq<(u64, String)>, start: u64)
    ensures
        spec_next_change(changes, start) is None <==> (forall|i: int|
            0 <= i < changes.len() ==> (#[trigger] changes[i]).0 <= start),
        spec_next_change(changes, start) matches Some(t) ==> exists|i: int|
            0 <= i < changes.len() && (#[trigger] changes[i]).0 == t && t > start && (forall|
                j: int,
            | 0 <= j < i ==> (#[trigger] changes[j]).0 <= start),
    decreases changes.len(),
{
    if changes.len() == 0 {
    } else if changes[0].0 > start {
        assert(changes[0].0 == spec_next_change(changes, start)->0 && changes[0].0 > start && (
        forall|j: int| 0 <= j < 0 ==> (#[trigger] changes[j]).0 <= start));
    } else {
        let n = changes.len() as int;
        lemma_next_change_characterization(changes.skip(1), start);
        assert(forall|i: int|
            0 <= i < n - 1 ==> changes.skip(1)[i] == (#[trigger] changes[i + 1]));
        assert(forall|i: int|
            0 <= i < n - 1 ==> (#[trigger] changes.skip(1)[i]) == changes[i + 1]);
        if spec_next_change(changes, start) is None {
            assert(forall|i: int|
                1 <= i < n ==> (#[trigger] changes[i]).0 == changes.skip(1)[i - 1].0);
        } else {
            let t = spec_next_change(changes, start)->0;
            let i = choose|i: int|
                0 <= i < n - 1 && (#[trigger] changes.skip(1)[i]).0 == t && t > start && (forall|
                    j: int,
                | 0 <= j < i ==> (#[trigger] changes.skip(1)[j]).0 <= start);
            assert(changes[i + 1].0 == t && t > start && (forall|j: int|
                0 <= j < i + 1 ==> (#[trigger] changes[j]).0 <= start)) by {
                assert(forall|j: int|
                    1 <= j < i + 1 ==> (#[trigger] changes[j]).0 == changes.skip(1)[j - 1].0);
            }
        }
    }
}

/// Returns the raw value a variable held at `time`: the value of the last
/// change at or before `time` in the recorded order.
pub fn value_at(changes: &Vec<(u64, String)>, time: u64) -> (r: Option<&String>)
    ensures
        r is Some <==> spec_value_at(changes@, time) is Some,
        r matches Some(v) ==> Some(v@) == spec_value_at(changes@, time),
{
    proof {
        assert(changes@.take(changes@.len() as int) =~= changes@);
    }
    let mut j = changes.len();
    while j > 0
        invariant
            j <= changes@.len(),
            spec_value_at(changes@, time) == spec_value_at(changes@.take(j as int), time),
        decreases j,
    {
        proof {
            assert(changes@.take(j as int).last() == changes@[j - 1]);
            assert(changes@.take(j as int).drop_last() =~= changes@.take(j as int - 1));
        }
        j = j - 1;
        if changes[j].0 <= time {
            return Some(&changes[j].1);
        }
    }
    None
}

/// Returns the time of the first recorded change strictly after `start`.
pub fn next_change(changes: &Vec<(u64, String)>, start: u64) -> (r: Option<u64>)
    ensures
        r == spec_next_change(changes@, start),
{
    proof {
        assert(changes@.skip(0) =~= changes@);
    }
    let mut i: usize = 0;
    while i < changes.len()
        invariant
            i <= changes@.len(),
            spec_next_change(changes@, start) == spec_next_change(changes@.skip(i as int), start),
        decreases changes@.len() - i,
    {
        proof {
            assert(changes@.skip(i as int)[0] == changes@[i as int]);
            assert(changes@.skip(i as int).skip(1) =~= changes@.skip(i as int + 1));
        }
        if changes[i].0 > start {
            return Some(changes[i].0);
        }
        i = i + 1;
    }
    None
}

} // verus!
