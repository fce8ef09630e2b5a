//! The two address tables through which a draw finds its geometry on the
//! GPU: mesh index and level index lead to three buffer addresses.
use vstd::prelude::*;

verus! {

/// The device addresses of one level's three buffers.
#[derive(Clone, Copy, Debug, PartialEq, Eq)]
pub struct LevelAddresses {
    pub vertices: u64,
    pub meshlets: u64,
    pub meshlet_data: u64,
}

/// Field `f` of a level's addresses: vertices, meshlets, then meshlet data.
pub open spec fn address_field(a: LevelAddresses, f: int) -> u64 {
    if f == 0 {
        a.vertices
    } else if f == 1 {
        a.meshlets
    } else {
        a.meshlet_data
    }
}

/// The level-address table: three consecutive addresses per level.
pub open spec fn level_table(levels: Seq<LevelAddresses>) -> Seq<u64> {
    Seq::new(3 * levels.len(), |k: int| address_field(levels[k / 3], k % 3))
}

/// Sum of a sequence of counts.
pub open spec fn total(s: Seq<u64>) -> nat
    decreases s.len(),
{
    if s.len() == 0 {
        0
    } else {
        total(s.drop_last()) + s.last() as nat
    }
}

proof fn lemma_total_prefix(s: Seq<u64>, i: int, j: int)
    requires
        0 <= i <= j <= s.len(),
    ensures
        total(s.take(i)) <= total(s.take(j)),
    decreases j - i,
{
    if i < j {
        lemma_total_prefix(s, i, j - 1);
        assert(s.take(j).drop_last() =~= s.take(j - 1));
    }
}

/// Lays out the level-address table: for every level, in the order given,
/// the addresses of its vertex, meshlet and meshlet-data buffers.
pub fn level_address_table(levels: &Vec<LevelAddresses>) -> (r: Vec<u64>)
    requires
        3 * levels@.len() <= usize::MAX,
    ensures
        r@ == level_table(levels@),
{
    let mut out: Vec<u64> = Vec::new();
    let mut i: usize = 0;
    while i < levels.len()
        invariant
            i <= levels@.len(),
            3 * levels@.len() <= usize::MAX,
            out@ =~= level_table(levels@.take(i as int)),
        decreases levels@.len() - i,
    {
        let a = levels[i];
        out.push(a.vertices);
        out.push(a.meshlets);
        out.push(a.meshlet_data);
        assert(out@ =~= level_table(levels@.take(i + 1)));
        i += 1;
    }
    assert(levels@.take(levels@.len() as int) =~= levels@);
    out
}

/// Lays out the mesh-address table for meshes of `level_counts` levels
/// each, whose entries start the level-address table at `table_address`:
/// for every mesh, the address of its first level's entry, then its level
/// count. A level's entry is three 8-byte addresses, 24 bytes.
pub fn mesh_address_table(table_address: u64, level_counts: &Vec<u64>) -> (r: Vec<u64>)
    requires
        table_address + 24 * total(level_counts@) <= u64::MAX,
        2 * level_counts@.len() <= usize::MAX,
    ensures
        r@.len() == 2 * level_counts@.len(),
        forall|m: int|
            0 <= m < level_counts@.len() ==> {
                &&& #[trigger] r@[2 * m] == table_address + 24 * total(level_counts@.take(m))
                &&& r@[2 * m + 1] == level_counts@[m]
            },
{
    let mut out: Vec<u64> = Vec::new();
    let mut offset: u64 = 0;
    let mut m: usize = 0;
    while m < level_counts.len()
        invariant
            m <= level_counts@.len(),
            table_address + 24 * total(level_counts@) <= u64::MAX,
            offset == total(level_counts@.take(m as int)),
            out@.len() == 2 * m,
            forall|k: int|
                0 <= k < m ==> {
                    &&& #[trigger] out@[2 * k] == table_address + 24 * total(
                        level_counts@.take(k),
                    )
                    &&& out@[2 * k + 1] == level_counts@[k]
                },
        decreases level_counts@.len() - m,
    {
        proof {
            lemma_total_prefix(level_counts@, m + 1, level_counts@.len() as int);
            assert(level_counts@.take(level_counts@.len() as int) =~= level_counts@);
            assert(level_counts@.take(m + 1).drop_last() =~= level_counts@.take(m as int));
            assert(level_counts@.take(m + 1).last() == level_counts@[m as int]);
            assert(total(level_counts@.take(m + 1)) == offset + level_counts@[m as int]);
        }
        let ghost prev = out@;
        out.push(table_address + 24 * offset);
        out.push(level_counts[m]);
        assert(out@[2 * m as int] == table_address + 24 * total(level_counts@.take(m as int)));
        assert(out@[2 * m + 1] == level_counts@[m as int]);
        assert forall|k: int| 0 <= k < m implies #[trigger] out@[2 * k] == prev[2 * k] && out@[2 * k + 1]
            == prev[2 * k + 1] by {}
        offset = offset + level_counts[m];
        m += 1;
    }
    out
}

} // verus!
