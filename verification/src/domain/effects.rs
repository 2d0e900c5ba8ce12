//! What a file effect is, apart from whether it is wanted or recorded, and lists of effects.

use vstd::prelude::*;
use crate::domain::paths::{path_key, same_path};
use crate::text::{lemma_precedes_irreflexive, lemma_precedes_transitive, precedes};

verus! {

/// A file link: the resource, its source, where the link stands, and what the link holds.
pub struct LinkView {
    pub resource_id: Seq<char>,
    pub source_path: Seq<char>,
    pub target_path: Seq<char>,
    pub link_target: Seq<char>,
}

/// A file copy: the resource, its source, where the copy stands, and the fingerprint of its bytes.
pub struct CopyView {
    pub resource_id: Seq<char>,
    pub source_path: Seq<char>,
    pub target_path: Seq<char>,
    pub content_fingerprint: Seq<char>,
}

/// One of the two file effects.
pub enum EffectView {
    Link(LinkView),
    Copy(CopyView),
}

impl EffectView {
    /// The resource that has the effect.
    pub open spec fn resource_id(self) -> Seq<char> {
        match self {
            EffectView::Link(link) => link.resource_id,
            EffectView::Copy(copy) => copy.resource_id,
        }
    }

    /// Where the effect stands.
    pub open spec fn target_path(self) -> Seq<char> {
        match self {
            EffectView::Link(link) => link.target_path,
            EffectView::Copy(copy) => copy.target_path,
        }
    }

    /// What tells the place where the effect stands from others.
    pub open spec fn target_key(self) -> Seq<char> {
        path_key(self.target_path())
    }
}

/// Whether two links are the same: their resources, and the paths that they speak of.
pub open spec fn same_link(left: LinkView, right: LinkView) -> bool {
    &&& left.resource_id == right.resource_id
    &&& same_path(left.source_path, right.source_path)
    &&& same_path(left.target_path, right.target_path)
    &&& same_path(left.link_target, right.link_target)
}

/// Whether two copies are the same: their resources, the paths that they speak of, and their bytes.
pub open spec fn same_copy(left: CopyView, right: CopyView) -> bool {
    &&& left.resource_id == right.resource_id
    &&& same_path(left.source_path, right.source_path)
    &&& same_path(left.target_path, right.target_path)
    &&& left.content_fingerprint == right.content_fingerprint
}

/// Whether two effects are the same.
pub open spec fn same_effect(left: EffectView, right: EffectView) -> bool {
    match (left, right) {
        (EffectView::Link(left), EffectView::Link(right)) => same_link(left, right),
        (EffectView::Copy(left), EffectView::Copy(right)) => same_copy(left, right),
        _ => false,
    }
}

/// Whether an effect before `i` has the resource of the effect at `i`.
pub open spec fn id_taken(list: Seq<EffectView>, i: int) -> bool {
    exists|j: int| 0 <= j < i && (#[trigger] list[j]).resource_id() == list[i].resource_id()
}

/// Whether an effect before `i` stands at the target of the effect at `i`.
pub open spec fn target_taken(list: Seq<EffectView>, i: int) -> bool {
    exists|j: int| 0 <= j < i && (#[trigger] list[j]).target_key() == list[i].target_key()
}

/// Whether the first `n` effects have different resources and different targets.
pub open spec fn distinct_until(list: Seq<EffectView>, n: int) -> bool {
    forall|i: int|
        #![trigger id_taken(list, i)]
        #![trigger target_taken(list, i)]
        0 <= i < n ==> !id_taken(list, i) && !target_taken(list, i)
}

/// Whether all effects have different resources and different targets.
pub open spec fn distinct(list: Seq<EffectView>) -> bool {
    distinct_until(list, list.len() as int)
}

/// Whether the effect at `i` is the first to repeat the resource of an earlier one.
pub open spec fn repeats_id(list: Seq<EffectView>, i: int) -> bool {
    0 <= i < list.len() && distinct_until(list, i) && id_taken(list, i)
}

/// Whether the effect at `i` is the first to clash with an earlier one, by its target alone, and
/// the effect at `j` is the one it clashes with.
pub open spec fn repeats_target(list: Seq<EffectView>, i: int, j: int) -> bool {
    &&& 0 <= j < i < list.len()
    &&& distinct_until(list, i)
    &&& !id_taken(list, i)
    &&& list[j].target_key() == list[i].target_key()
}

/// Whether effects are listed in the order of their resources, each resource once.
pub open spec fn sorted(list: Seq<EffectView>) -> bool {
    forall|i: int, j: int|
        0 <= i < j < list.len() ==> precedes(
            (#[trigger] list[i]).resource_id(),
            (#[trigger] list[j]).resource_id(),
        )
}

/// The effects of a list by resource.
pub open spec fn by_id(list: Seq<EffectView>) -> Map<Seq<char>, EffectView> {
    Map::new(
        |id: Seq<char>| exists|i: int| 0 <= i < list.len() && (#[trigger] list[i]).resource_id() == id,
        |id: Seq<char>|
            list[choose|i: int| 0 <= i < list.len() && (#[trigger] list[i]).resource_id() == id],
    )
}

/// Whether no two effects of a map stand at one target.
pub open spec fn targets_differ(effects: Map<Seq<char>, EffectView>) -> bool {
    forall|a: Seq<char>, b: Seq<char>|
        #![trigger effects[a], effects[b]]
        effects.contains_key(a) && effects.contains_key(b) && effects[a].target_key()
            == effects[b].target_key() ==> a == b
}

/// Whether every effect of a map is held under its own resource.
pub open spec fn keyed(effects: Map<Seq<char>, EffectView>) -> bool {
    forall|a: Seq<char>| effects.contains_key(a) ==> (#[trigger] effects[a]).resource_id() == a
}

/// Two different effects of a distinct list have different resources and targets.
pub proof fn lemma_distinct(list: Seq<EffectView>, i: int, j: int)
    requires
        distinct(list),
        0 <= i < list.len(),
        0 <= j < list.len(),
        list[i].resource_id() == list[j].resource_id() || list[i].target_key()
            == list[j].target_key(),
    ensures
        i == j,
{
    if i < j {
        assert(!id_taken(list, j));
        assert(!target_taken(list, j));
    } else if j < i {
        assert(!id_taken(list, i));
        assert(!target_taken(list, i));
    }
}

/// A list with different resources gives every effect under its resource.
pub proof fn lemma_by_id(list: Seq<EffectView>)
    requires
        distinct(list),
    ensures
        keyed(by_id(list)),
        targets_differ(by_id(list)),
        forall|i: int|
            0 <= i < list.len() ==> by_id(list).contains_key((#[trigger] list[i]).resource_id())
                && by_id(list)[list[i].resource_id()] == list[i],
{
    assert forall|i: int| 0 <= i < list.len() implies by_id(list).contains_key(
        (#[trigger] list[i]).resource_id(),
    ) && by_id(list)[list[i].resource_id()] == list[i] by {
        let id = list[i].resource_id();
        let k = choose|k: int| 0 <= k < list.len() && (#[trigger] list[k]).resource_id() == id;
        lemma_distinct(list, i, k);
    }
    let effects = by_id(list);
    assert forall|a: Seq<char>, b: Seq<char>|
        #![trigger effects[a], effects[b]]
        effects.contains_key(a) && effects.contains_key(b) && effects[a].target_key()
            == effects[b].target_key() implies a == b by {
        let i = choose|i: int| 0 <= i < list.len() && (#[trigger] list[i]).resource_id() == a;
        let j = choose|j: int| 0 <= j < list.len() && (#[trigger] list[j]).resource_id() == b;
        lemma_distinct(list, i, j);
    }
}

/// In a sorted list an effect is found at one place only.
pub proof fn lemma_sorted(list: Seq<EffectView>, i: int, j: int)
    requires
        sorted(list),
        0 <= i < list.len(),
        0 <= j < list.len(),
        list[i].resource_id() == list[j].resource_id(),
    ensures
        i == j,
{
    lemma_precedes_irreflexive(list[i].resource_id());
    if i < j {
        assert(precedes(list[i].resource_id(), list[j].resource_id()));
    } else if j < i {
        assert(precedes(list[j].resource_id(), list[i].resource_id()));
    }
}

/// Sorted lists with the same effects are the same list.
pub proof fn lemma_sorted_unique(left: Seq<EffectView>, right: Seq<EffectView>)
    requires
        sorted(left),
        sorted(right),
        by_id(left) == by_id(right),
    ensures
        left == right,
    decreases left.len(),
{
    if left.len() == 0 {
        if right.len() > 0 {
            assert(by_id(right).contains_key(right[0].resource_id()));
            assert(false);
        }
        assert(left =~= right);
    } else {
        assert(by_id(left).contains_key(left[0].resource_id()));
        let l = left.last();
        assert(left[left.len() - 1] == l);
        assert(by_id(left).contains_key(l.resource_id()));
        assert(by_id(right).contains_key(l.resource_id()));
        let i = choose|i: int|
            0 <= i < right.len() && (#[trigger] right[i]).resource_id() == l.resource_id();
        let r = right.last();
        assert(right[right.len() - 1] == r);
        assert(by_id(right).contains_key(r.resource_id()));
        assert(by_id(left).contains_key(r.resource_id()));
        let j = choose|j: int|
            0 <= j < left.len() && (#[trigger] left[j]).resource_id() == r.resource_id();
        lemma_precedes_irreflexive(l.resource_id());
        if i < right.len() - 1 {
            assert(precedes(right[i].resource_id(), right[right.len() - 1].resource_id()));
            if j < left.len() - 1 {
                assert(precedes(left[j].resource_id(), left[left.len() - 1].resource_id()));
                lemma_precedes_transitive(l.resource_id(), r.resource_id(), l.resource_id());
            } else {
                assert(l.resource_id() == r.resource_id());
            }
        }
        assert(r.resource_id() == l.resource_id());
        lemma_sorted_at(left, left.len() - 1);
        lemma_sorted_at(right, right.len() - 1);
        assert(l == r);
        let a = left.drop_last();
        let b = right.drop_last();
        assert(by_id(a) =~= by_id(left).remove(l.resource_id())) by {
            lemma_by_id_drop_last(left);
        }
        assert(by_id(b) =~= by_id(right).remove(r.resource_id())) by {
            lemma_by_id_drop_last(right);
        }
        assert(sorted(a)) by {
            assert forall|x: int, y: int| 0 <= x < y < a.len() implies precedes(
                (#[trigger] a[x]).resource_id(),
                (#[trigger] a[y]).resource_id(),
            ) by {
                assert(a[x] == left[x] && a[y] == left[y]);
            }
        }
        assert(sorted(b)) by {
            assert forall|x: int, y: int| 0 <= x < y < b.len() implies precedes(
                (#[trigger] b[x]).resource_id(),
                (#[trigger] b[y]).resource_id(),
            ) by {
                assert(b[x] == right[x] && b[y] == right[y]);
            }
        }
        lemma_sorted_unique(a, b);
        assert(left =~= a.push(l));
        assert(right =~= b.push(r));
    }
}

/// In a sorted list the map gives every effect under its resource.
pub proof fn lemma_sorted_at(list: Seq<EffectView>, i: int)
    requires
        sorted(list),
        0 <= i < list.len(),
    ensures
        by_id(list).contains_key(list[i].resource_id()),
        by_id(list)[list[i].resource_id()] == list[i],
{
    let id = list[i].resource_id();
    assert(list[i].resource_id() == id);
    let k = choose|k: int| 0 <= k < list.len() && (#[trigger] list[k]).resource_id() == id;
    lemma_sorted(list, i, k);
}

proof fn lemma_by_id_drop_last(list: Seq<EffectView>)
    requires
        sorted(list),
        list.len() > 0,
    ensures
        by_id(list.drop_last()) == by_id(list).remove(list.last().resource_id()),
{
    let front = list.drop_last();
    let a = by_id(front);
    let b = by_id(list).remove(list.last().resource_id());
    assert forall|x: int, y: int| 0 <= x < y < front.len() implies precedes(
        (#[trigger] front[x]).resource_id(),
        (#[trigger] front[y]).resource_id(),
    ) by {
        assert(front[x] == list[x] && front[y] == list[y]);
    }
    assert forall|id: Seq<char>| a.contains_key(id) <==> #[trigger] b.contains_key(id) by {
        if a.contains_key(id) {
            let i = choose|i: int| 0 <= i < front.len() && (#[trigger] front[i]).resource_id() == id;
            assert(list[i].resource_id() == id);
            if id == list.last().resource_id() {
                lemma_sorted(list, i, list.len() - 1);
            }
        }
        if b.contains_key(id) {
            let i = choose|i: int| 0 <= i < list.len() && (#[trigger] list[i]).resource_id() == id;
            assert(i < list.len() - 1);
            assert(front[i].resource_id() == id);
        }
    }
    assert forall|id: Seq<char>| #[trigger] a.contains_key(id) implies a[id] == b[id] by {
        let i = choose|i: int| 0 <= i < front.len() && (#[trigger] front[i]).resource_id() == id;
        lemma_sorted_at(front, i);
        assert(list[i] == front[i]);
        lemma_sorted_at(list, i);
        assert(b.contains_key(id));
    }
    assert(a =~= b);
}

/// Whether `place` is where an effect belongs in a sorted list.
pub open spec fn belongs_at(list: Seq<EffectView>, place: int, id: Seq<char>) -> bool {
    &&& 0 <= place <= list.len()
    &&& forall|i: int| 0 <= i < place ==> precedes((#[trigger] list[i]).resource_id(), id)
    &&& forall|i: int| place <= i < list.len() ==> precedes(id, (#[trigger] list[i]).resource_id())
}

/// An effect put where it belongs keeps the list sorted and adds itself to the map.
pub proof fn lemma_insert(list: Seq<EffectView>, place: int, effect: EffectView)
    requires
        sorted(list),
        belongs_at(list, place, effect.resource_id()),
    ensures
        sorted(list.insert(place, effect)),
        !by_id(list).contains_key(effect.resource_id()),
        by_id(list.insert(place, effect)) == by_id(list).insert(effect.resource_id(), effect),
{
    let longer = list.insert(place, effect);
    let id = effect.resource_id();
    assert(sorted(longer)) by {
        assert forall|x: int, y: int| 0 <= x < y < longer.len() implies precedes(
            (#[trigger] longer[x]).resource_id(),
            (#[trigger] longer[y]).resource_id(),
        ) by {
            let p = if x < place { x } else { x - 1 };
            let q = if y < place { y } else { y - 1 };
            if x != place && y != place {
                assert(longer[x] == list[p] && longer[y] == list[q]);
            } else if x == place {
                assert(longer[y] == list[q]);
            } else {
                assert(longer[x] == list[p]);
            }
        }
    }
    if by_id(list).contains_key(id) {
        let i = choose|i: int| 0 <= i < list.len() && (#[trigger] list[i]).resource_id() == id;
        lemma_precedes_irreflexive(id);
    }
    let a = by_id(longer);
    let b = by_id(list).insert(id, effect);
    assert forall|key: Seq<char>| a.contains_key(key) <==> #[trigger] b.contains_key(key) by {
        if a.contains_key(key) {
            let i = choose|i: int| 0 <= i < longer.len() && (#[trigger] longer[i]).resource_id() == key;
            if i < place {
                assert(list[i].resource_id() == key);
            } else if i > place {
                assert(list[i - 1].resource_id() == key);
            }
        }
        if b.contains_key(key) {
            if key == id {
                assert(longer[place].resource_id() == key);
            } else {
                let i = choose|i: int| 0 <= i < list.len() && (#[trigger] list[i]).resource_id() == key;
                if i < place {
                    assert(longer[i].resource_id() == key);
                } else {
                    assert(longer[i + 1].resource_id() == key);
                }
            }
        }
    }
    assert forall|key: Seq<char>| #[trigger] a.contains_key(key) implies a[key] == b[key] by {
        let i = choose|i: int| 0 <= i < longer.len() && (#[trigger] longer[i]).resource_id() == key;
        lemma_sorted_at(longer, i);
        if i < place {
            lemma_sorted_at(list, i);
        } else if i > place {
            lemma_sorted_at(list, i - 1);
        }
    }
    assert(a =~= b);
}

/// An effect taken out of a sorted list keeps it sorted and takes its resource out of the map.
pub proof fn lemma_remove(list: Seq<EffectView>, place: int)
    requires
        sorted(list),
        0 <= place < list.len(),
    ensures
        sorted(list.remove(place)),
        by_id(list.remove(place)) == by_id(list).remove(list[place].resource_id()),
{
    let shorter = list.remove(place);
    let id = list[place].resource_id();
    assert forall|x: int, y: int| 0 <= x < y < shorter.len() implies precedes(
        (#[trigger] shorter[x]).resource_id(),
        (#[trigger] shorter[y]).resource_id(),
    ) by {
        let p = if x < place { x } else { x + 1 };
        let q = if y < place { y } else { y + 1 };
        assert(shorter[x] == list[p] && shorter[y] == list[q]);
    }
    let a = by_id(shorter);
    let b = by_id(list).remove(id);
    assert forall|key: Seq<char>| a.contains_key(key) <==> #[trigger] b.contains_key(key) by {
        if a.contains_key(key) {
            let i = choose|i: int| 0 <= i < shorter.len() && (#[trigger] shorter[i]).resource_id() == key;
            let p = if i < place { i } else { i + 1 };
            assert(list[p].resource_id() == key);
            if key == id {
                lemma_sorted(list, p, place);
            }
        }
        if b.contains_key(key) {
            let i = choose|i: int| 0 <= i < list.len() && (#[trigger] list[i]).resource_id() == key;
            if i < place {
                assert(shorter[i].resource_id() == key);
            } else if i > place {
                assert(shorter[i - 1].resource_id() == key);
            }
        }
    }
    assert forall|key: Seq<char>| #[trigger] a.contains_key(key) implies a[key] == b[key] by {
        let i = choose|i: int| 0 <= i < shorter.len() && (#[trigger] shorter[i]).resource_id() == key;
        lemma_sorted_at(shorter, i);
        let p = if i < place { i } else { i + 1 };
        lemma_sorted_at(list, p);
        assert(b.contains_key(key));
    }
    assert(a =~= b);
}

/// A resource whose place lies between two others is not in the list.
pub proof fn lemma_absent(list: Seq<EffectView>, place: int, id: Seq<char>)
    requires
        belongs_at(list, place, id),
    ensures
        !by_id(list).contains_key(id),
{
    if by_id(list).contains_key(id) {
        let k = choose|k: int| 0 <= k < list.len() && (#[trigger] list[k]).resource_id() == id;
        lemma_precedes_irreflexive(id);
        if k < place {
            assert(precedes(list[k].resource_id(), id));
        } else {
            assert(precedes(id, list[k].resource_id()));
        }
    }
}

/// A sorted list at different targets is distinct.
pub proof fn lemma_sorted_distinct(list: Seq<EffectView>)
    requires
        sorted(list),
        targets_differ(by_id(list)),
    ensures
        distinct(list),
        keyed(by_id(list)),
{
    let effects = by_id(list);
    assert forall|i: int|
        #![trigger id_taken(list, i)]
        #![trigger target_taken(list, i)]
        0 <= i < list.len() implies !id_taken(list, i) && !target_taken(list, i) by {
        if id_taken(list, i) {
            let j = choose|j: int|
                0 <= j < i && (#[trigger] list[j]).resource_id() == list[i].resource_id();
            lemma_sorted(list, i, j);
        }
        if target_taken(list, i) {
            let j = choose|j: int|
                0 <= j < i && (#[trigger] list[j]).target_key() == list[i].target_key();
            lemma_sorted_at(list, i);
            lemma_sorted_at(list, j);
            let a = list[i].resource_id();
            let b = list[j].resource_id();
            assert(effects[a].target_key() == effects[b].target_key());
            lemma_sorted(list, i, j);
        }
    }
    lemma_by_id(list);
}

/// The first effects of a list are distinct as far as the list is.
pub proof fn lemma_distinct_take(list: Seq<EffectView>, n: int)
    requires
        0 <= n <= list.len(),
        distinct_until(list, n),
    ensures
        distinct(list.take(n)),
{
    let front = list.take(n);
    assert forall|i: int|
        #![trigger id_taken(front, i)]
        #![trigger target_taken(front, i)]
        0 <= i < n implies !id_taken(front, i) && !target_taken(front, i) by {
        assert(!id_taken(list, i));
        assert(!target_taken(list, i));
        if id_taken(front, i) {
            let j = choose|j: int|
                0 <= j < i && (#[trigger] front[j]).resource_id() == front[i].resource_id();
            assert(list[j].resource_id() == list[i].resource_id());
        }
        if target_taken(front, i) {
            let j = choose|j: int|
                0 <= j < i && (#[trigger] front[j]).target_key() == front[i].target_key();
            assert(list[j].target_key() == list[i].target_key());
        }
    }
}

/// One effect more adds itself to the map.
pub proof fn lemma_by_id_take(list: Seq<EffectView>, n: int)
    requires
        0 <= n < list.len(),
        distinct_until(list, n + 1),
    ensures
        by_id(list.take(n + 1)) == by_id(list.take(n)).insert(list[n].resource_id(), list[n]),
{
    let before = list.take(n);
    let after = list.take(n + 1);
    assert(distinct_until(list, n));
    lemma_distinct_take(list, n);
    lemma_distinct_take(list, n + 1);
    lemma_by_id(before);
    lemma_by_id(after);
    let a = by_id(after);
    let b = by_id(before).insert(list[n].resource_id(), list[n]);
    assert forall|id: Seq<char>| a.contains_key(id) <==> #[trigger] b.contains_key(id) by {
        if a.contains_key(id) {
            let i = choose|i: int| 0 <= i < after.len() && (#[trigger] after[i]).resource_id() == id;
            if i < n {
                assert(before[i].resource_id() == id);
            }
        }
        if b.contains_key(id) {
            if id == list[n].resource_id() {
                assert(after[n].resource_id() == id);
            } else {
                let i = choose|i: int|
                    0 <= i < before.len() && (#[trigger] before[i]).resource_id() == id;
                assert(after[i].resource_id() == id);
            }
        }
    }
    assert forall|id: Seq<char>| #[trigger] a.contains_key(id) implies a[id] == b[id] by {
        let i = choose|i: int| 0 <= i < after.len() && (#[trigger] after[i]).resource_id() == id;
        assert(a[after[i].resource_id()] == after[i]);
        if i < n {
            assert(before[i] == after[i]);
            assert(by_id(before)[before[i].resource_id()] == before[i]);
            if id == list[n].resource_id() {
                assert(after[n].resource_id() == id);
                lemma_distinct(after, i, n);
            }
        }
    }
    assert(a =~= b);
}

} // verus!
