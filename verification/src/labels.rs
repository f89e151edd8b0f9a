//! Lists of text labels (capability names, robot ids) and their models.

use vstd::prelude::*;

verus! {

/// A label as contracts see it.
pub type Label = Seq<char>;

/// The labels that a list of strings holds, in order.
pub open spec fn labels_of(list: Seq<String>) -> Seq<Label> {
    list.map_values(|s: String| s@)
}

/// Whether every label of `required` occurs in `available`.
pub open spec fn covers(available: Seq<Label>, required: Seq<Label>) -> bool {
    forall|i: int| 0 <= i < required.len() ==> available.contains(#[trigger] required[i])
}

/// The labels of `required`, in order, that do not occur in `available`.
pub open spec fn missing_from(available: Seq<Label>, required: Seq<Label>) -> Seq<Label> {
    required.filter(|l: Label| !available.contains(l))
}

/// Nothing is missing exactly when the available labels cover the required ones.
pub proof fn lemma_missing_empty_iff_covers(available: Seq<Label>, required: Seq<Label>)
    ensures
        missing_from(available, required).len() == 0 <==> covers(available, required),
    decreases required.len(),
{
    let pred = |l: Label| !available.contains(l);
    reveal(Seq::filter);
    if required.len() > 0 {
        let front = required.drop_last();
        lemma_missing_empty_iff_covers(available, front);
        if covers(available, required) {
            assert forall|i: int| 0 <= i < front.len() implies available.contains(
                #[trigger] front[i],
            ) by {
                assert(front[i] == required[i]);
            }
            assert(available.contains(required[required.len() - 1]));
        }
        if missing_from(available, required).len() == 0 {
            assert(!pred(required.last()));
            assert forall|i: int| 0 <= i < required.len() implies available.contains(
                #[trigger] required[i],
            ) by {
                if i < front.len() {
                    assert(front[i] == required[i]);
                }
            }
        }
    }
}

/// Tells whether `label` occurs in `list`.
pub fn contains_label(list: &Vec<String>, label: &String) -> (found: bool)
    ensures
        found == labels_of(list@).contains(label@),
{
    let mut i: usize = 0;
    while i < list.len()
        invariant
            i <= list.len(),
            forall|k: int| 0 <= k < i ==> labels_of(list@)[k] != label@,
        decreases list.len() - i,
    {
        if list[i] == *label {
            assert(labels_of(list@)[i as int] == label@);
            return true;
        }
        i += 1;
    }
    false
}

/// Copies a list of labels.
pub fn copy_labels(list: &Vec<String>) -> (copy: Vec<String>)
    ensures
        labels_of(copy@) == labels_of(list@),
{
    let mut copy: Vec<String> = Vec::new();
    let mut i: usize = 0;
    while i < list.len()
        invariant
            i <= list.len(),
            copy.len() == i,
            forall|k: int| 0 <= k < i ==> copy@[k]@ == list@[k]@,
        decreases list.len() - i,
    {
        copy.push(list[i].clone());
        i += 1;
    }
    assert(labels_of(copy@) =~= labels_of(list@));
    copy
}

/// Tells whether every label of `required` occurs in `available`.
pub fn covers_all(available: &Vec<String>, required: &Vec<String>) -> (all: bool)
    ensures
        all == covers(labels_of(available@), labels_of(required@)),
{
    let mut i: usize = 0;
    while i < required.len()
        invariant
            i <= required.len(),
            forall|k: int|
                0 <= k < i ==> labels_of(available@).contains(#[trigger] labels_of(required@)[k]),
        decreases required.len() - i,
    {
        if !contains_label(available, &required[i]) {
            assert(!labels_of(available@).contains(labels_of(required@)[i as int]));
            return false;
        }
        i += 1;
    }
    true
}

/// Collects, in order, the labels of `required` that `available` lacks.
pub fn collect_missing(available: &Vec<String>, required: &Vec<String>) -> (missing: Vec<String>)
    ensures
        labels_of(missing@) == missing_from(labels_of(available@), labels_of(required@)),
{
    let ghost have = labels_of(available@);
    let ghost need = labels_of(required@);
    let ghost pred = |l: Label| !have.contains(l);
    let mut missing: Vec<String> = Vec::new();
    let mut i: usize = 0;
    proof {
        assert(need.take(0) =~= Seq::<Label>::empty());
        reveal(Seq::filter);
        assert(labels_of(missing@) =~= need.take(0).filter(pred));
    }
    while i < required.len()
        invariant
            i <= required.len(),
            have == labels_of(available@),
            need == labels_of(required@),
            pred == |l: Label| !have.contains(l),
            labels_of(missing@) == need.take(i as int).filter(pred),
        decreases required.len() - i,
    {
        let ghost before = labels_of(missing@);
        let absent = !contains_label(available, &required[i]);
        if absent {
            missing.push(required[i].clone());
        }
        proof {
            let head = need.take(i as int);
            assert(need.take(i + 1) =~= head.push(need[i as int]));
            Seq::lemma_filter_push(head, need[i as int], pred);
            assert(pred(need[i as int]) == absent);
            if absent {
                assert(labels_of(missing@) =~= before.push(need[i as int]));
            }
        }
        i += 1;
    }
    assert(need.take(i as int) =~= need);
    missing
}

} // verus!
