//! The layers of an image: in which order they are fetched, and how the results
//! are put back into the order of the image.

use vstd::prelude::*;

use crate::manifest::{Descriptor, ManifestLayer};
use crate::text::append_decimal;

verus! {

/// The fetch of one layer.
#[derive(Debug)]
pub struct LayerTask {
    /// Which layer this is, counting the pairs of a manifest layer and a `diff_id`.
    pub slot: usize,
    /// The first layer of the manifest that is the same, by which uncompressed layers
    /// are found.
    pub layer_idx: usize,
    /// The digest of the uncompressed layer.
    pub diff_id: String,
    /// What to fetch.
    pub descriptor: Descriptor,
}

/// How many layers there are to fetch: one for each manifest layer that has a
/// `diff_id`.
pub open spec fn pair_count(layers: Seq<ManifestLayer>, diff_ids: Seq<String>) -> nat {
    if layers.len() <= diff_ids.len() {
        layers.len()
    } else {
        diff_ids.len()
    }
}

/// Whether layer `a` is fetched before layer `b`: the larger first, and of layers of
/// the same size the one that the manifest lists first.
pub open spec fn fetched_before(layers: Seq<ManifestLayer>, a: int, b: int) -> bool {
    let (x, y) = (layers[a].descriptor.size, layers[b].descriptor.size);
    x > y || (x == y && a < b)
}

/// Whether `first` is the first layer that is the same as layer `slot`.
pub open spec fn first_same(layers: Seq<ManifestLayer>, slot: int, first: int) -> bool {
    &&& 0 <= first <= slot
    &&& layers[first]@ == layers[slot]@
    &&& forall|i: int| 0 <= i < first ==> (#[trigger] layers[i])@ != layers[slot]@
}

/// Whether a task fetches the layer that its slot names.
pub open spec fn fetches_slot(
    layers: Seq<ManifestLayer>,
    diff_ids: Seq<String>,
    task: LayerTask,
) -> bool {
    &&& task.slot < pair_count(layers, diff_ids)
    &&& first_same(layers, task.slot as int, task.layer_idx as int)
    &&& task.diff_id@ == diff_ids[task.slot as int]@
    &&& task.descriptor@ == layers[task.slot as int].descriptor@
}

/// Whether `tasks` fetch the first `count` layers once each, the larger before the
/// smaller.
pub open spec fn is_schedule(
    layers: Seq<ManifestLayer>,
    diff_ids: Seq<String>,
    count: nat,
    tasks: Seq<LayerTask>,
) -> bool {
    &&& tasks.len() == count
    &&& forall|i: int|
        0 <= i < tasks.len() ==> fetches_slot(layers, diff_ids, #[trigger] tasks[i])
            && tasks[i].slot < count
    &&& forall|i: int, j: int|
        0 <= i < j < tasks.len() ==> fetched_before(
            layers,
            (#[trigger] tasks[i]).slot as int,
            (#[trigger] tasks[j]).slot as int,
        )
}

fn same_layer(a: &ManifestLayer, b: &ManifestLayer) -> (same: bool)
    ensures
        same == (a@ == b@),
{
    a.descriptor.media_type == b.descriptor.media_type && a.descriptor.digest
        == b.descriptor.digest && a.descriptor.size == b.descriptor.size && a.properties
        == b.properties
}

fn first_same_layer(layers: &[ManifestLayer], slot: usize) -> (first: usize)
    requires
        slot < layers@.len(),
    ensures
        first_same(layers@, slot as int, first as int),
{
    let mut i: usize = 0;
    while i < slot
        invariant
            i <= slot < layers@.len(),
            forall|j: int| 0 <= j < i ==> (#[trigger] layers@[j])@ != layers@[slot as int]@,
        decreases slot - i,
    {
        if same_layer(&layers[i], &layers[slot]) {
            return i;
        }
        i = i + 1;
    }
    slot
}

/// A copy of a descriptor.
pub fn copy_descriptor(descriptor: &Descriptor) -> (copy: Descriptor)
    ensures
        copy@ == descriptor@,
{
    Descriptor {
        media_type: descriptor.media_type.clone(),
        digest: descriptor.digest.clone(),
        size: descriptor.size,
    }
}

/// The order in which the layers of a manifest are fetched, given the digests of the
/// uncompressed layers in the order of the image: larger layers first, so that they
/// overlap with the smaller ones.
pub fn fetch_schedule(layers: &[ManifestLayer], diff_ids: &[String]) -> (tasks: Vec<LayerTask>)
    ensures
        is_schedule(layers@, diff_ids@, pair_count(layers@, diff_ids@), tasks@),
{
    let count: usize = if layers.len() <= diff_ids.len() {
        layers.len()
    } else {
        diff_ids.len()
    };
    let mut tasks: Vec<LayerTask> = Vec::new();
    let mut slot: usize = 0;
    while slot < count
        invariant
            slot <= count,
            count == pair_count(layers@, diff_ids@),
            is_schedule(layers@, diff_ids@, slot as nat, tasks@),
        decreases count - slot,
    {
        let size: u64 = layers[slot].descriptor.size;
        let mut place: usize = 0;
        while place < tasks.len() && tasks[place].descriptor.size >= size
            invariant
                slot < count,
                count == pair_count(layers@, diff_ids@),
                size == layers@[slot as int].descriptor.size,
                place <= tasks@.len(),
                is_schedule(layers@, diff_ids@, slot as nat, tasks@),
                forall|i: int|
                    0 <= i < place ==> fetched_before(
                        layers@,
                        (#[trigger] tasks@[i]).slot as int,
                        slot as int,
                    ),
            decreases tasks@.len() - place,
        {
            assert(fetches_slot(layers@, diff_ids@, tasks@[place as int]));
            place = place + 1;
        }
        let ghost before = tasks@;
        let task = LayerTask {
            slot,
            layer_idx: first_same_layer(layers, slot),
            diff_id: diff_ids[slot].clone(),
            descriptor: copy_descriptor(&layers[slot].descriptor),
        };
        proof {
            assert forall|i: int| place <= i < before.len() implies fetched_before(
                layers@,
                slot as int,
                (#[trigger] before[i]).slot as int,
            ) by {
                let p = before[place as int];
                assert(fetches_slot(layers@, diff_ids@, p));
                assert(fetches_slot(layers@, diff_ids@, before[i]));
                if i > place {
                    assert(fetched_before(layers@, p.slot as int, before[i].slot as int));
                }
            }
        }
        tasks.insert(place, task);
        proof {
            let after = tasks@;
            assert forall|i: int| 0 <= i < after.len() implies fetches_slot(
                layers@,
                diff_ids@,
                #[trigger] after[i],
            ) && after[i].slot < slot + 1 by {
                if i < place {
                    assert(after[i] == before[i]);
                } else if i > place {
                    assert(after[i] == before[i - 1]);
                }
            }
            assert forall|i: int, j: int| 0 <= i < j < after.len() implies fetched_before(
                layers@,
                (#[trigger] after[i]).slot as int,
                (#[trigger] after[j]).slot as int,
            ) by {
                let old_i = if i < place {
                    before[i]
                } else {
                    before[i - 1]
                };
                let old_j = if j < place {
                    before[j]
                } else {
                    before[j - 1]
                };
                if i != place && j != place {
                    assert(fetched_before(layers@, old_i.slot as int, old_j.slot as int));
                } else if i == place {
                    assert(fetched_before(layers@, slot as int, old_j.slot as int));
                } else {
                    assert(fetched_before(layers@, old_i.slot as int, slot as int));
                }
            }
        }
        slot = slot + 1;
    }
    tasks
}

/// Every layer is fetched exactly once.
pub proof fn law_every_layer_is_fetched_once(
    layers: Seq<ManifestLayer>,
    diff_ids: Seq<String>,
    tasks: Seq<LayerTask>,
    slot: int,
)
    requires
        is_schedule(layers, diff_ids, pair_count(layers, diff_ids), tasks),
        0 <= slot < pair_count(layers, diff_ids),
    ensures
        exists|i: int| 0 <= i < tasks.len() && (#[trigger] tasks[i]).slot == slot,
        forall|i: int, j: int|
            0 <= i < tasks.len() && 0 <= j < tasks.len() && (#[trigger] tasks[i]).slot == slot && (
            #[trigger] tasks[j]).slot == slot ==> i == j,
{
    let count = pair_count(layers, diff_ids) as int;
    let slots = tasks.map_values(|task: LayerTask| task.slot as int);
    assert forall|i: int, j: int| 0 <= i < j < slots.len() implies slots[i] != slots[j] by {
        assert(fetched_before(layers, tasks[i].slot as int, tasks[j].slot as int));
    }
    assert(slots.no_duplicates());
    slots.unique_seq_to_set();
    let all = vstd::set_lib::set_int_range(0, count);
    vstd::set_lib::lemma_int_range(0, count);
    assert forall|s: int| slots.to_set().contains(s) implies all.contains(s) by {
        let i = choose|i: int| 0 <= i < slots.len() && slots[i] == s;
        assert(fetches_slot(layers, diff_ids, tasks[i]));
    }
    vstd::set_lib::lemma_subset_equality(slots.to_set(), all);
    assert(slots.to_set().contains(slot));
    let i = choose|i: int| 0 <= i < slots.len() && slots[i] == slot;
    assert(tasks[i].slot == slot);
}

/// The order is determined: two schedules for the same layers fetch them in the same
/// order.
pub proof fn law_schedule_is_determined(
    layers: Seq<ManifestLayer>,
    diff_ids: Seq<String>,
    a: Seq<LayerTask>,
    b: Seq<LayerTask>,
    i: int,
)
    requires
        is_schedule(layers, diff_ids, pair_count(layers, diff_ids), a),
        is_schedule(layers, diff_ids, pair_count(layers, diff_ids), b),
        0 <= i < a.len(),
    ensures
        a[i].slot == b[i].slot,
        a[i].layer_idx == b[i].layer_idx,
        a[i].diff_id@ == b[i].diff_id@,
        a[i].descriptor@ == b[i].descriptor@,
    decreases i,
{
    assert forall|j: int| 0 <= j < i implies (#[trigger] a[j]).slot == b[j].slot by {
        law_schedule_is_determined(layers, diff_ids, a, b, j);
    }
    let (x, y) = (a[i].slot as int, b[i].slot as int);
    assert(fetches_slot(layers, diff_ids, a[i]));
    assert(fetches_slot(layers, diff_ids, b[i]));
    if x != y {
        law_every_layer_is_fetched_once(layers, diff_ids, a, y);
        law_every_layer_is_fetched_once(layers, diff_ids, b, x);
        let p = choose|p: int| 0 <= p < a.len() && (#[trigger] a[p]).slot == y;
        let q = choose|q: int| 0 <= q < b.len() && (#[trigger] b[q]).slot == x;
        if p < i {
            assert(b[p].slot == y);
            assert(fetched_before(layers, b[p].slot as int, b[i].slot as int));
        } else {
            assert(fetched_before(layers, a[i].slot as int, a[p].slot as int));
        }
        if q < i {
            assert(a[q].slot == b[q].slot);
            assert(fetched_before(layers, a[q].slot as int, a[i].slot as int));
        } else {
            assert(fetched_before(layers, b[i].slot as int, b[q].slot as int));
        }
    }
}

/// The last entry under a key, as when later entries replace earlier ones.
pub open spec fn last_under<V>(entries: Seq<(String, V)>, key: Seq<char>) -> Option<V>
    decreases entries.len(),
{
    if entries.len() == 0 {
        None
    } else if entries.last().0@ == key {
        Some(entries.last().1)
    } else {
        last_under(entries.drop_last(), key)
    }
}

/// Why the references to the layers of an image could not be collected.
#[derive(Debug)]
pub enum LayerRefsError {
    /// No stream is known for this `diff_id`.
    Missing(String),
    /// There are not as many layers as the manifest lists.
    Count {
        /// How many the manifest lists.
        expected: usize,
        /// How many there are.
        got: usize,
    },
}

/// The message of such an error.
pub open spec fn layer_refs_text(err: LayerRefsError) -> Seq<char> {
    match err {
        LayerRefsError::Missing(diff_id) => "missing layer verity for diff_id "@ + diff_id@,
        LayerRefsError::Count { expected, got } => "expected "@ + crate::text::decimal(
            expected as nat,
        ) + " layer refs but got "@ + crate::text::decimal(got as nat),
    }
}

impl LayerRefsError {
    /// The message of the error.
    pub fn message(&self) -> (message: String)
        ensures
            message@ == layer_refs_text(*self),
    {
        match self {
            LayerRefsError::Missing(diff_id) => {
                let mut message = "missing layer verity for diff_id ".to_owned();
                message.append(diff_id.as_str());
                message
            },
            LayerRefsError::Count { expected, got } => {
                let mut message = "expected ".to_owned();
                append_decimal(&mut message, *expected as u64);
                message.append(" layer refs but got ");
                append_decimal(&mut message, *got as u64);
                message
            },
        }
    }
}

/// Whether the references are those of the layers: one for each `diff_id`, in that
/// order, with the stream that was last put under it.
pub open spec fn are_layer_refs<V: Clone>(
    diff_ids: Seq<String>,
    verities: Seq<(String, V)>,
    refs: Seq<(String, V)>,
) -> bool {
    &&& refs.len() == diff_ids.len()
    &&& forall|i: int|
        0 <= i < refs.len() ==> {
            &&& (#[trigger] refs[i]).0@ == diff_ids[i]@
            &&& last_under(verities, diff_ids[i]@) matches Some(v) && cloned(v, refs[i].1)
        }
}

/// Whether the first `diff_id` without a stream is the one at `i`.
pub open spec fn first_missing<V>(
    diff_ids: Seq<String>,
    verities: Seq<(String, V)>,
    i: int,
) -> bool {
    &&& 0 <= i < diff_ids.len()
    &&& last_under(verities, diff_ids[i]@) is None
    &&& forall|j: int|
        0 <= j < i ==> last_under(verities, (#[trigger] diff_ids[j])@) is Some
}

/// Whether a `diff_id` has no stream.
pub open spec fn some_missing<V>(diff_ids: Seq<String>, verities: Seq<(String, V)>) -> bool {
    exists|i: int|
        0 <= i < diff_ids.len() && last_under(verities, (#[trigger] diff_ids[i])@) is None
}

fn find_last<'a, V>(entries: &'a [(String, V)], key: &String) -> (found: Option<&'a V>)
    ensures
        found is Some <==> last_under(entries@, key@) is Some,
        found matches Some(v) ==> *v == last_under(entries@, key@)->0,
{
    let mut i: usize = entries.len();
    assert(entries@.take(i as int) =~= entries@);
    while i > 0
        invariant
            i <= entries@.len(),
            last_under(entries@.take(i as int), key@) == last_under(entries@, key@),
        decreases i,
    {
        assert(entries@.take(i as int).drop_last() =~= entries@.take(i - 1));
        assert(entries@.take(i as int).last() == entries@[i - 1]);
        if entries[i - 1].0 == *key {
            return Some(&entries[i - 1].1);
        }
        i = i - 1;
    }
    None
}

/// Collects the references to the layers of an image in the order of their
/// `diff_id`s, from streams in any order. There must be one for each, and as many as
/// the manifest lists.
pub fn layer_refs<V: Clone>(
    diff_ids: &[String],
    verities: &[(String, V)],
    expected: usize,
) -> (refs: Result<Vec<(String, V)>, LayerRefsError>)
    ensures
        refs is Ok <==> !some_missing(diff_ids@, verities@) && diff_ids@.len() == expected,
        refs matches Ok(refs) ==> are_layer_refs(diff_ids@, verities@, refs@),
        refs matches Err(LayerRefsError::Missing(diff_id)) ==> exists|i: int|
            #[trigger] first_missing(diff_ids@, verities@, i) && diff_id@ == diff_ids@[i]@,
        refs matches Err(LayerRefsError::Count { expected: e, got }) ==> {
            &&& !some_missing(diff_ids@, verities@)
            &&& e == expected
            &&& got == diff_ids@.len()
            &&& got != expected
        },
{
    let mut refs: Vec<(String, V)> = Vec::new();
    let mut i: usize = 0;
    while i < diff_ids.len()
        invariant
            i <= diff_ids@.len(),
            refs@.len() == i,
            forall|j: int|
                0 <= j < i ==> last_under(verities@, (#[trigger] diff_ids@[j])@) is Some,
            forall|j: int|
                0 <= j < i ==> {
                    &&& (#[trigger] refs@[j]).0@ == diff_ids@[j]@
                    &&& last_under(verities@, diff_ids@[j]@) matches Some(v) && cloned(
                        v,
                        refs@[j].1,
                    )
                },
        decreases diff_ids@.len() - i,
    {
        match find_last(verities, &diff_ids[i]) {
            Some(verity) => {
                refs.push((diff_ids[i].clone(), verity.clone()));
            },
            None => {
                assert(first_missing(diff_ids@, verities@, i as int));
                return Err(LayerRefsError::Missing(diff_ids[i].clone()));
            },
        }
        i = i + 1;
    }
    if refs.len() != expected {
        return Err(LayerRefsError::Count { expected, got: refs.len() });
    }
    Ok(refs)
}

/// Fetching every scheduled layer is enough: where each `diff_id` has its manifest
/// layer and each task has left a stream under its `diff_id`, no reference is missing.
pub proof fn law_finished_schedule_misses_nothing<V>(
    layers: Seq<ManifestLayer>,
    diff_ids: Seq<String>,
    tasks: Seq<LayerTask>,
    verities: Seq<(String, V)>,
)
    requires
        is_schedule(layers, diff_ids, pair_count(layers, diff_ids), tasks),
        diff_ids.len() <= layers.len(),
        forall|i: int|
            0 <= i < tasks.len() ==> exists|j: int|
                0 <= j < verities.len() && (#[trigger] verities[j]).0@ == (
                #[trigger] tasks[i]).diff_id@,
    ensures
        !some_missing(diff_ids, verities),
{
    assert forall|slot: int| 0 <= slot < diff_ids.len() implies last_under(
        verities,
        (#[trigger] diff_ids[slot])@,
    ) is Some by {
        law_every_layer_is_fetched_once(layers, diff_ids, tasks, slot);
        let i = choose|i: int| 0 <= i < tasks.len() && (#[trigger] tasks[i]).slot == slot;
        assert(fetches_slot(layers, diff_ids, tasks[i]));
        let j = choose|j: int|
            0 <= j < verities.len() && (#[trigger] verities[j]).0@ == tasks[i].diff_id@;
        lemma_last_under_is_an_entry(verities, diff_ids[slot]@);
        assert(verities[j].0@ == diff_ids[slot]@);
    }
}

/// A configuration that is there already gives back the layers that were written with
/// it: the references that were collected once are themselves complete, and each
/// `diff_id` finds in them the stream that it was given.
pub proof fn law_written_refs_are_read_back<V: Clone>(
    diff_ids: Seq<String>,
    verities: Seq<(String, V)>,
    refs: Seq<(String, V)>,
)
    requires
        are_layer_refs(diff_ids, verities, refs),
    ensures
        !some_missing(diff_ids, refs),
        forall|i: int|
            0 <= i < diff_ids.len() ==> cloned(
                last_under(verities, (#[trigger] diff_ids[i])@)->0,
                last_under(refs, diff_ids[i]@)->0,
            ),
{
    assert forall|i: int| 0 <= i < diff_ids.len() implies last_under(
        refs,
        (#[trigger] diff_ids[i])@,
    ) is Some && cloned(
        last_under(verities, diff_ids[i]@)->0,
        last_under(refs, diff_ids[i]@)->0,
    ) by {
        lemma_last_under_is_an_entry(refs, diff_ids[i]@);
        assert(refs[i].0@ == diff_ids[i]@);
        let j = choose|j: int|
            0 <= j < refs.len() && (#[trigger] refs[j]).0@ == diff_ids[i]@ && last_under(
                refs,
                diff_ids[i]@,
            ) == Some(refs[j].1);
        assert(diff_ids[j]@ == diff_ids[i]@);
    }
}

/// Whether two lists hold the same entries, in whatever order and however often.
pub open spec fn same_entries<V>(a: Seq<(String, V)>, b: Seq<(String, V)>) -> bool {
    &&& forall|i: int|
        0 <= i < a.len() ==> exists|j: int|
            0 <= j < b.len() && (#[trigger] b[j]).0@ == (#[trigger] a[i]).0@ && b[j].1 == a[i].1
    &&& forall|j: int|
        0 <= j < b.len() ==> exists|i: int|
            0 <= i < a.len() && (#[trigger] a[i]).0@ == (#[trigger] b[j]).0@ && a[i].1 == b[j].1
}

/// Whether two lists of references are the same, in the same order.
pub open spec fn same_refs<V>(a: Seq<(String, V)>, b: Seq<(String, V)>) -> bool {
    &&& a.len() == b.len()
    &&& forall|i: int| 0 <= i < a.len() ==> (#[trigger] a[i]).0@ == b[i].0@ && a[i].1 == b[i].1
}

/// Where cloning keeps a stream's identifier, each `diff_id` finds in references that
/// were written, in whatever order they are read, the very stream that it was
/// given, and none is missing.
pub proof fn law_refs_are_read_back_in_order<V: Clone>(
    diff_ids: Seq<String>,
    verities: Seq<(String, V)>,
    refs: Seq<(String, V)>,
    read: Seq<(String, V)>,
)
    requires
        forall|a: V, b: V| #[trigger] cloned(a, b) ==> a == b,
        are_layer_refs(diff_ids, verities, refs),
        same_entries(read, refs),
    ensures
        !some_missing(diff_ids, read),
        refs.len() == diff_ids.len(),
        forall|i: int|
            0 <= i < diff_ids.len() ==> last_under(read, (#[trigger] diff_ids[i])@) == Some(
                refs[i].1,
            ),
{
    assert forall|i: int| 0 <= i < diff_ids.len() implies last_under(
        read,
        (#[trigger] diff_ids[i])@,
    ) == Some(refs[i].1) by {
        let key = diff_ids[i]@;
        assert(refs[i].0@ == key);
        let at = choose|k: int|
            0 <= k < read.len() && (#[trigger] read[k]).0@ == refs[i].0@ && read[k].1 == refs[i].1;
        assert(read[at].0@ == key);
        lemma_last_under_is_an_entry(read, key);
        let k = choose|k: int|
            0 <= k < read.len() && (#[trigger] read[k]).0@ == key && last_under(read, key) == Some(
                read[k].1,
            );
        let j = choose|j: int|
            0 <= j < refs.len() && (#[trigger] refs[j]).0@ == read[k].0@ && refs[j].1 == read[k].1;
        assert(diff_ids[j]@ == key);
    }
}

/// The order in which layers finish does not matter, as long as no two have the same
/// `diff_id`: any rearrangement of the streams gives each `diff_id` the same one.
pub proof fn law_layer_refs_ignore_completion_order<V>(
    a: Seq<(String, V)>,
    b: Seq<(String, V)>,
    key: Seq<char>,
)
    requires
        a.to_multiset() == b.to_multiset(),
        forall|i: int, j: int|
            0 <= i < j < a.len() ==> (#[trigger] a[i]).0@ != (#[trigger] a[j]).0@,
    ensures
        last_under(a, key) == last_under(b, key),
{
    lemma_last_under_is_an_entry(a, key);
    lemma_last_under_is_an_entry(b, key);
    a.to_multiset_ensures();
    b.to_multiset_ensures();
    if last_under(b, key) is Some {
        let i = choose|i: int|
            0 <= i < b.len() && (#[trigger] b[i]).0@ == key && last_under(b, key) == Some(b[i].1);
        assert(b.contains(b[i]));
        assert(b.to_multiset().contains(b[i]));
        assert(a.contains(b[i]));
        let k = choose|k: int| 0 <= k < a.len() && a[k] == b[i];
        let m = choose|m: int|
            0 <= m < a.len() && (#[trigger] a[m]).0@ == key && last_under(a, key) == Some(a[m].1);
        assert(a[k].0@ == a[m].0@);
    } else if last_under(a, key) is Some {
        let m = choose|m: int|
            0 <= m < a.len() && (#[trigger] a[m]).0@ == key && last_under(a, key) == Some(a[m].1);
        assert(a.contains(a[m]));
        assert(a.to_multiset().contains(a[m]));
        assert(b.contains(a[m]));
        let k = choose|k: int| 0 <= k < b.len() && b[k] == a[m];
        assert(b[k].0@ == key);
    }
}

/// What is last under a key is one of the entries under it; there is none exactly
/// when no entry has the key.
proof fn lemma_last_under_is_an_entry<V>(entries: Seq<(String, V)>, key: Seq<char>)
    ensures
        last_under(entries, key) is Some ==> exists|i: int|
            0 <= i < entries.len() && (#[trigger] entries[i]).0@ == key && last_under(entries, key)
                == Some(entries[i].1),
        last_under(entries, key) is None ==> forall|i: int|
            0 <= i < entries.len() ==> (#[trigger] entries[i]).0@ != key,
    decreases entries.len(),
{
    if entries.len() > 0 {
        let before = entries.drop_last();
        lemma_last_under_is_an_entry(before, key);
        if entries.last().0@ == key {
            assert(entries[entries.len() - 1].0@ == key);
        } else if last_under(before, key) is Some {
            let i = choose|i: int|
                0 <= i < before.len() && (#[trigger] before[i]).0@ == key && last_under(before, key)
                    == Some(before[i].1);
            assert(entries[i].0@ == key);
        } else {
            assert forall|i: int| 0 <= i < entries.len() implies (#[trigger] entries[i]).0@
                != key by {
                if i < entries.len() - 1 {
                    assert(before[i] == entries[i]);
                }
            }
        }
    }
}

/// Whether one of the tasks fetches the layer with this index.
pub open spec fn has_slot(tasks: Seq<LayerTask>, slot: int) -> bool {
    exists|i: int| 0 <= i < tasks.len() && (#[trigger] tasks[i]).slot == slot
}

/// How a schedule fetches the layers: as many as there are both manifest layers and
/// `diff_id`s; each under its own `diff_id` and descriptor, and with the index of the
/// first layer of the manifest that is the same; never a larger one after a smaller
/// one, and of two of one size the one that the manifest lists first.
pub proof fn law_how_layers_are_scheduled(
    layers: Seq<ManifestLayer>,
    diff_ids: Seq<String>,
    tasks: Seq<LayerTask>,
)
    requires
        is_schedule(layers, diff_ids, pair_count(layers, diff_ids), tasks),
    ensures
        tasks.len() == layers.len() || tasks.len() == diff_ids.len(),
        tasks.len() <= layers.len(),
        tasks.len() <= diff_ids.len(),
        forall|i: int|
            0 <= i < tasks.len() ==> {
                let slot = (#[trigger] tasks[i]).slot as int;
                let index = tasks[i].layer_idx as int;
                &&& slot < tasks.len()
                &&& tasks[i].diff_id@ == diff_ids[slot]@
                &&& tasks[i].descriptor.digest@ == layers[slot].descriptor.digest@
                &&& tasks[i].descriptor.media_type@ == layers[slot].descriptor.media_type@
                &&& tasks[i].descriptor.size == layers[slot].descriptor.size
                &&& 0 <= index <= slot
                &&& layers[index]@ == layers[slot]@
                &&& forall|k: int| 0 <= k < index ==> (#[trigger] layers[k])@ != layers[slot]@
            },
        forall|i: int, j: int|
            0 <= i < j < tasks.len() ==> {
                &&& (#[trigger] tasks[i]).descriptor.size >= (#[trigger] tasks[j]).descriptor.size
                &&& tasks[i].descriptor.size == tasks[j].descriptor.size ==> tasks[i].slot
                    < tasks[j].slot
            },
        forall|slot: int| 0 <= slot < tasks.len() ==> #[trigger] has_slot(tasks, slot),
{
    assert forall|i: int| 0 <= i < tasks.len() implies fetches_slot(
        layers,
        diff_ids,
        #[trigger] tasks[i],
    ) by {}
    assert forall|i: int, j: int| 0 <= i < j < tasks.len() implies {
        &&& (#[trigger] tasks[i]).descriptor.size >= (#[trigger] tasks[j]).descriptor.size
        &&& tasks[i].descriptor.size == tasks[j].descriptor.size ==> tasks[i].slot < tasks[j].slot
    } by {
        assert(fetches_slot(layers, diff_ids, tasks[i]));
        assert(fetches_slot(layers, diff_ids, tasks[j]));
        assert(fetched_before(layers, tasks[i].slot as int, tasks[j].slot as int));
    }
    assert forall|slot: int| 0 <= slot < tasks.len() implies #[trigger] has_slot(tasks, slot) by {
        law_every_layer_is_fetched_once(layers, diff_ids, tasks, slot);
    }
}

/// What is under a key is the value of the last entry that has it, and there is nothing
/// exactly when no entry has it.
pub proof fn law_the_last_entry_counts<V>(entries: Seq<(String, V)>, key: Seq<char>, at: int)
    ensures
        last_under(entries, key) is None <==> forall|i: int|
            0 <= i < entries.len() ==> (#[trigger] entries[i]).0@ != key,
        0 <= at < entries.len() && entries[at].0@ == key && (forall|i: int|
            at < i < entries.len() ==> (#[trigger] entries[i]).0@ != key) ==> last_under(
            entries,
            key,
        ) == Some(entries[at].1),
    decreases entries.len(),
{
    lemma_last_under_is_an_entry(entries, key);
    if last_under(entries, key) is Some {
        let k = choose|k: int| 0 <= k < entries.len() && (#[trigger] entries[k]).0@ == key;
        assert(entries[k].0@ == key);
    }
    if 0 <= at < entries.len() && entries[at].0@ == key && forall|i: int|
        at < i < entries.len() ==> (#[trigger] entries[i]).0@ != key {
        let last = entries.len() - 1;
        if at < last {
            assert(entries[last].0@ != key);
            let before = entries.drop_last();
            assert forall|i: int| at < i < before.len() implies (#[trigger] before[i]).0@ != key by {
                assert(before[i] == entries[i]);
            }
            law_the_last_entry_counts(before, key, at);
        }
    }
}

/// The references to the layers are as many as the `diff_id`s and in their order, each
/// with the stream of an entry under its `diff_id` that no later one replaces. One is
/// missing exactly when some `diff_id` has no entry, and the first such is named.
pub proof fn law_layer_refs_follow_the_diff_ids<V: Clone>(
    diff_ids: Seq<String>,
    verities: Seq<(String, V)>,
    refs: Seq<(String, V)>,
    missing: int,
)
    ensures
        some_missing(diff_ids, verities) <==> exists|i: int|
            0 <= i < diff_ids.len() && forall|j: int|
                0 <= j < verities.len() ==> (#[trigger] verities[j]).0@ != (
                #[trigger] diff_ids[i])@,
        first_missing(diff_ids, verities, missing) ==> {
            &&& 0 <= missing < diff_ids.len()
            &&& forall|j: int|
                0 <= j < verities.len() ==> (#[trigger] verities[j]).0@ != diff_ids[missing]@
            &&& forall|i: int|
                0 <= i < missing ==> exists|j: int|
                    0 <= j < verities.len() && (#[trigger] verities[j]).0@ == (
                    #[trigger] diff_ids[i])@
        },
        are_layer_refs(diff_ids, verities, refs) ==> {
            &&& refs.len() == diff_ids.len()
            &&& forall|i: int| 0 <= i < refs.len() ==> (#[trigger] refs[i]).0@ == diff_ids[i]@
            &&& forall|i: int, j: int|
                0 <= i < refs.len() && 0 <= j < verities.len() && (#[trigger] verities[j]).0@
                    == diff_ids[i]@ && (forall|k: int|
                    j < k < verities.len() ==> (#[trigger] verities[k]).0@ != diff_ids[i]@)
                    ==> cloned(verities[j].1, (#[trigger] refs[i]).1)
        },
{
    assert forall|i: int| 0 <= i < diff_ids.len() implies (last_under(
        verities,
        (#[trigger] diff_ids[i])@,
    ) is None <==> forall|j: int|
        0 <= j < verities.len() ==> (#[trigger] verities[j]).0@ != diff_ids[i]@) by {
        law_the_last_entry_counts(verities, diff_ids[i]@, 0);
    }
    if are_layer_refs(diff_ids, verities, refs) {
        assert forall|i: int, j: int|
            0 <= i < refs.len() && 0 <= j < verities.len() && (#[trigger] verities[j]).0@
                == diff_ids[i]@ && (forall|k: int|
                j < k < verities.len() ==> (#[trigger] verities[k]).0@ != diff_ids[i]@) implies cloned(
            verities[j].1,
            (#[trigger] refs[i]).1,
        ) by {
            law_the_last_entry_counts(verities, diff_ids[i]@, j);
        }
    }
}

/// The messages of these errors name the `diff_id`, or both numbers.
pub proof fn law_layer_refs_messages(diff_id: String, expected: usize, got: usize)
    ensures
        layer_refs_text(LayerRefsError::Missing(diff_id)) == "missing layer verity for diff_id "@
            + diff_id@,
        layer_refs_text(LayerRefsError::Count { expected, got }) == "expected "@ + (
        crate::text::decimal(expected as nat) + (" layer refs but got "@ + crate::text::decimal(
            got as nat,
        ))),
{
    assert(layer_refs_text(LayerRefsError::Count { expected, got }) =~= "expected "@ + (
    crate::text::decimal(expected as nat) + (" layer refs but got "@ + crate::text::decimal(
        got as nat,
    ))));
}

} // verus!
