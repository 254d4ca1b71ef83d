//! Raw blocks grouped by name, names in order of first appearance, payloads in file order.

use crate::bpk1::{blocks_view, BPK1Block, BlockModel};
use vstd::prelude::*;
use vstd::slice::slice_to_vec;

verus! {

/// One name and every payload stored under it, in file order.
pub struct BlockEntry {
    pub name: Vec<u8>,
    pub payloads: Vec<Vec<u8>>,
}

/// Every block of a container, grouped by name. Names are distinct and appear in the order
/// in which the file first uses them.
pub struct BlockMap {
    pub entries: Vec<BlockEntry>,
}

/// An entry as the contracts see it: the name and its payloads.
pub type GroupModel = (Seq<u8>, Seq<Seq<u8>>);

/// A group as the contracts see it.
pub open spec fn entry_model(e: BlockEntry) -> GroupModel {
    (e.name@, e.payloads@.map_values(|p: Vec<u8>| p@))
}

impl View for BlockMap {
    type V = Seq<GroupModel>;

    open spec fn view(&self) -> Seq<GroupModel> {
        self.entries@.map_values(|e: BlockEntry| entry_model(e))
    }
}

/// Whether no two groups share a name.
pub open spec fn names_distinct(gs: Seq<GroupModel>) -> bool {
    forall|i: int, j: int| 0 <= i < j < gs.len() ==> gs[i].0 != gs[j].0
}

/// Adds one block: its payload joins the group of its name, or starts a new group at the end.
pub open spec fn add_to_groups(gs: Seq<GroupModel>, b: BlockModel) -> Seq<GroupModel> {
    if exists|k: int| 0 <= k < gs.len() && gs[k].0 == b.name {
        let k = choose|k: int| 0 <= k < gs.len() && gs[k].0 == b.name;
        gs.update(k, (b.name, gs[k].1.push(b.data)))
    } else {
        gs.push((b.name, seq![b.data]))
    }
}

/// The blocks grouped by name, taken in list order.
pub open spec fn group_blocks(bs: Seq<BlockModel>) -> Seq<GroupModel>
    decreases bs.len(),
{
    if bs.len() == 0 {
        Seq::empty()
    } else {
        add_to_groups(group_blocks(bs.drop_last()), bs.last())
    }
}

/// The payloads of the blocks named `name`, in list order.
pub open spec fn payloads_named(bs: Seq<BlockModel>, name: Seq<u8>) -> Seq<Seq<u8>>
    decreases bs.len(),
{
    if bs.len() == 0 {
        Seq::empty()
    } else if bs.last().name == name {
        payloads_named(bs.drop_last(), name).push(bs.last().data)
    } else {
        payloads_named(bs.drop_last(), name)
    }
}

/// A name that no block has collects no payloads.
proof fn lemma_payloads_named_absent(bs: Seq<BlockModel>, name: Seq<u8>)
    requires
        forall|i: int| 0 <= i < bs.len() ==> bs[i].name != name,
    ensures
        payloads_named(bs, name) == Seq::<Seq<u8>>::empty(),
    decreases bs.len(),
{
    if bs.len() > 0 {
        lemma_payloads_named_absent(bs.drop_last(), name);
    }
}

/// Whether some group has the name `name`.
pub open spec fn has_group(gs: Seq<GroupModel>, name: Seq<u8>) -> bool {
    exists|k: int| 0 <= k < gs.len() && gs[k].0 == name
}

/// Grouping gives one group per name that occurs, the names distinct, and each group holds
/// the payloads of its name in file order.
pub proof fn lemma_groups_keep_file_order(bs: Seq<BlockModel>)
    ensures
        names_distinct(group_blocks(bs)),
        forall|k: int|
            0 <= k < group_blocks(bs).len() ==> (#[trigger] group_blocks(bs)[k]).1
                == payloads_named(bs, group_blocks(bs)[k].0),
        forall|i: int| 0 <= i < bs.len() ==> has_group(group_blocks(bs), #[trigger] bs[i].name),
    decreases bs.len(),
{
    if bs.len() > 0 {
        let dl = bs.drop_last();
        let b = bs.last();
        let gs = group_blocks(dl);
        lemma_groups_keep_file_order(dl);
        let ng = group_blocks(bs);
        assert(forall|i: int| 0 <= i < dl.len() ==> dl[i] == bs[i]);
        if has_group(gs, b.name) {
            let c = choose|k: int| 0 <= k < gs.len() && gs[k].0 == b.name;
            assert(ng == gs.update(c, (b.name, gs[c].1.push(b.data))));
            assert forall|k: int| 0 <= k < ng.len() implies (#[trigger] ng[k]).1 == payloads_named(
                bs,
                ng[k].0,
            ) by {
                if k != c {
                    assert(gs[k].0 != b.name);
                }
            }
            assert forall|i: int|
                0 <= i < bs.len() implies has_group(ng, #[trigger] bs[i].name) by {
                if i < dl.len() {
                    assert(has_group(gs, dl[i].name));
                    let k = choose|k: int| 0 <= k < gs.len() && gs[k].0 == dl[i].name;
                    assert(ng[k].0 == bs[i].name);
                } else {
                    assert(ng[c].0 == bs[i].name);
                }
            }
        } else {
            assert(ng == gs.push((b.name, seq![b.data])));
            assert forall|i: int| 0 <= i < dl.len() implies #[trigger] dl[i].name != b.name by {
                assert(has_group(gs, dl[i].name));
            }
            lemma_payloads_named_absent(dl, b.name);
            assert(payloads_named(bs, b.name) =~= seq![b.data]);
            assert forall|k: int| 0 <= k < ng.len() implies (#[trigger] ng[k]).1 == payloads_named(
                bs,
                ng[k].0,
            ) by {
                if k < gs.len() {
                    assert(gs[k].0 != b.name);
                }
            }
            assert forall|i: int|
                0 <= i < bs.len() implies has_group(ng, #[trigger] bs[i].name) by {
                if i < dl.len() {
                    assert(has_group(gs, dl[i].name));
                    let k = choose|k: int| 0 <= k < gs.len() && gs[k].0 == dl[i].name;
                    assert(ng[k].0 == bs[i].name);
                } else {
                    assert(ng[gs.len() as int].0 == bs[i].name);
                }
            }
        }
    }
}

/// Whether two byte slices hold the same bytes.
pub fn bytes_equal(a: &[u8], b: &[u8]) -> (r: bool)
    ensures
        r == (a@ == b@),
{
    if a.len() != b.len() {
        return false;
    }
    let mut i: usize = 0;
    while i < a.len()
        invariant
            a.len() == b.len(),
            i <= a.len(),
            forall|j: int| 0 <= j < i ==> a@[j] == b@[j],
        decreases a.len() - i,
    {
        if a[i] != b[i] {
            return false;
        }
        i = i + 1;
    }
    assert(a@ =~= b@);
    true
}

impl BlockMap {
    /// Groups blocks by name, keeping file order among the payloads of a name.
    pub fn new_from_bpk1_blocks(blocks: &[BPK1Block]) -> (m: BlockMap)
        ensures
            m@ == group_blocks(blocks_view(blocks@)),
            names_distinct(m@),
    {
        let ghost bs = blocks_view(blocks@);
        let mut entries: Vec<BlockEntry> = Vec::new();
        let mut i: usize = 0;
        assert(bs.take(0) =~= Seq::<BlockModel>::empty());
        while i < blocks.len()
            invariant
                bs == blocks_view(blocks@),
                i <= blocks.len(),
                entries@.map_values(|e: BlockEntry| entry_model(e)) == group_blocks(
                    bs.take(i as int),
                ),
                names_distinct(entries@.map_values(|e: BlockEntry| entry_model(e))),
            decreases blocks.len() - i,
        {
            let ghost gs = entries@.map_values(|e: BlockEntry| entry_model(e));
            let ghost b = bs[i as int];
            assert(bs.take(i + 1).drop_last() =~= bs.take(i as int));
            assert(bs.take(i + 1).last() == b);
            let mut k: usize = 0;
            while k < entries.len()
                invariant
                    gs == entries@.map_values(|e: BlockEntry| entry_model(e)),
                    b == blocks@[i as int]@,
                    i < blocks.len(),
                    k <= entries.len(),
                    forall|j: int| 0 <= j < k ==> gs[j].0 != b.name,
                ensures
                    k <= entries.len(),
                    forall|j: int| 0 <= j < k ==> gs[j].0 != b.name,
                    k < entries.len() ==> gs[k as int].0 == b.name,
                decreases entries.len() - k,
            {
                if bytes_equal(entries[k].name.as_slice(), blocks[i].name.as_slice()) {
                    break;
                }
                k = k + 1;
            }
            let payload = slice_to_vec(blocks[i].data.as_slice());
            if k < entries.len() {
                proof {
                    assert(gs[k as int].0 == b.name);
                    assert(exists|q: int| 0 <= q < gs.len() && gs[q].0 == b.name);
                    let c = choose|q: int| 0 <= q < gs.len() && gs[q].0 == b.name;
                    assert(c == k);
                }
                entries[k].payloads.push(payload);
                let ghost gs2 = entries@.map_values(|e: BlockEntry| entry_model(e));
                assert(gs2[k as int].1 =~= gs[k as int].1.push(b.data));
                assert(gs2 =~= gs.update(k as int, (b.name, gs[k as int].1.push(b.data))));
            } else {
                let name = slice_to_vec(blocks[i].name.as_slice());
                let mut payloads: Vec<Vec<u8>> = Vec::new();
                payloads.push(payload);
                entries.push(BlockEntry { name, payloads });
                let ghost gs2 = entries@.map_values(|e: BlockEntry| entry_model(e));
                assert(gs2.last().1 =~= seq![b.data]);
                assert(gs2 =~= gs.push((b.name, seq![b.data])));
            }
            i = i + 1;
        }
        assert(bs.take(blocks.len() as int) =~= bs);
        BlockMap { entries }
    }

    /// The payloads stored under `name`, in file order, if the name occurs.
    pub fn get(&self, name: &[u8]) -> (r: Option<&Vec<Vec<u8>>>)
        ensures
            match r {
                Some(ps) => exists|k: int|
                    0 <= k < self@.len() && self@[k].0 == name@ && self@[k].1 == ps@.map_values(
                        |p: Vec<u8>| p@,
                    ),
                None => forall|k: int| 0 <= k < self@.len() ==> self@[k].0 != name@,
            },
    {
        let mut k: usize = 0;
        while k < self.entries.len()
            invariant
                k <= self.entries.len(),
                forall|j: int| 0 <= j < k ==> self@[j].0 != name@,
            decreases self.entries.len() - k,
        {
            if bytes_equal(self.entries[k].name.as_slice(), name) {
                assert(self@[k as int].0 == name@);
                assert(self@[k as int].1 == self.entries@[k as int].payloads@.map_values(
                    |p: Vec<u8>| p@,
                ));
                return Some(&self.entries[k].payloads);
            }
            k = k + 1;
        }
        None
    }
}

} // verus!
