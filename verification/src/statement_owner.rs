//! Which basic block a statement belongs to, computed once and kept.

use vstd::prelude::*;

verus! {

/// Index of a statement.
#[derive(Debug, Clone, Copy, PartialEq, Eq, Hash, PartialOrd, Ord, Structural)]
pub struct StatementId(pub u32);

/// Index of a basic block of a control flow graph.
#[derive(Debug, Clone, Copy, PartialEq, Eq, Hash, PartialOrd, Ord, Structural)]
pub struct BasicBlockId(pub u16);

/// For each statement, by its index, the block that owns it, if any does.
pub type StatementOwners = Vec<Option<BasicBlockId>>;

/// Whether the block at position `block` lists the statement `stmt`.
pub open spec fn block_holds(blocks: Seq<Vec<StatementId>>, block: int, stmt: int) -> bool {
    &&& 0 <= block < blocks.len()
    &&& exists|i: int| 0 <= i < blocks[block]@.len() && (#[trigger] blocks[block]@[i]).0 == stmt
}

/// Whether no block from position `from` on lists the statement `stmt`.
pub open spec fn unheld_from(blocks: Seq<Vec<StatementId>>, from: int, stmt: int) -> bool {
    forall|block: int| from <= block ==> !#[trigger] block_holds(blocks, block, stmt)
}

/// Whether `owner` is the owner of `stmt`: the last block that lists it, and
/// nothing where no block does.
pub open spec fn owns(
    blocks: Seq<Vec<StatementId>>,
    stmt: int,
    owner: Option<BasicBlockId>,
) -> bool {
    match owner {
        Some(block) => block_holds(blocks, block.0 as int, stmt) && unheld_from(
            blocks,
            block.0 + 1,
            stmt,
        ),
        None => unheld_from(blocks, 0, stmt),
    }
}

/// Whether `owners` gives each of `stmt_count` statements its owner.
pub open spec fn owners_of(
    blocks: Seq<Vec<StatementId>>,
    stmt_count: int,
    owners: Seq<Option<BasicBlockId>>,
) -> bool {
    &&& owners.len() == stmt_count
    &&& forall|stmt: int| 0 <= stmt < stmt_count ==> owns(blocks, stmt, #[trigger] owners[stmt])
}

/// Whether the blocks can be numbered and list no statement beyond
/// `stmt_count`.
pub open spec fn blocks_fit(blocks: Seq<Vec<StatementId>>, stmt_count: int) -> bool {
    &&& blocks.len() <= 0x1_0000
    &&& forall|block: int, i: int|
        0 <= block < blocks.len() && 0 <= i < blocks[block]@.len() ==> (
        #[trigger] blocks[block]@[i]).0 < stmt_count
}

/// A statement has one owner: what [`owns`] admits is settled by the blocks.
pub proof fn lemma_owner_is_unique(
    blocks: Seq<Vec<StatementId>>,
    stmt: int,
    one: Option<BasicBlockId>,
    other: Option<BasicBlockId>,
)
    requires
        owns(blocks, stmt, one),
        owns(blocks, stmt, other),
    ensures
        one == other,
{
    match (one, other) {
        (Some(a), Some(b)) => {
            if a.0 < b.0 {
                assert(!block_holds(blocks, b.0 as int, stmt));
            }
            if b.0 < a.0 {
                assert(!block_holds(blocks, a.0 as int, stmt));
            }
        },
        (Some(a), None) => {
            assert(!block_holds(blocks, a.0 as int, stmt));
        },
        (None, Some(b)) => {
            assert(!block_holds(blocks, b.0 as int, stmt));
        },
        (None, None) => {},
    }
}

/// The owners of the statements `0..stmt_count` in a graph whose blocks list
/// the statements in `blocks`, block by block.  A statement that several
/// blocks list belongs to the last of them.
pub fn compute_owners(stmt_count: usize, blocks: &Vec<Vec<StatementId>>) -> (owners:
    StatementOwners)
    requires
        blocks_fit(blocks@, stmt_count as int),
    ensures
        owners_of(blocks@, stmt_count as int, owners@),
{
    let mut owners: StatementOwners = vec![None; stmt_count];
    let mut block: usize = 0;
    while block < blocks.len()
        invariant
            block <= blocks@.len(),
            blocks_fit(blocks@, stmt_count as int),
            owners@.len() == stmt_count,
            forall|stmt: int|
                0 <= stmt < stmt_count ==> match #[trigger] owners@[stmt] {
                    Some(owner) => owner.0 < block && block_holds(blocks@, owner.0 as int, stmt)
                        && forall|later: int|
                        owner.0 < later < block ==> !#[trigger] block_holds(blocks@, later, stmt),
                    None => forall|earlier: int|
                        0 <= earlier < block ==> !#[trigger] block_holds(blocks@, earlier, stmt),
                },
        decreases blocks@.len() - block,
    {
        let statements = &blocks[block];
        let ghost before = owners@;
        let mut i: usize = 0;
        while i < statements.len()
            invariant
                i <= statements@.len(),
                block < blocks@.len(),
                statements@ == blocks@[block as int]@,
                blocks_fit(blocks@, stmt_count as int),
                owners@.len() == stmt_count,
                forall|stmt: int|
                    0 <= stmt < stmt_count ==> #[trigger] owners@[stmt] == if exists|k: int|
                        0 <= k < i && (#[trigger] statements@[k]).0 == stmt {
                        Some(BasicBlockId(block as u16))
                    } else {
                        before[stmt]
                    },
            decreases statements@.len() - i,
        {
            let stmt = statements[i];
            assert(blocks@[block as int]@[i as int].0 < stmt_count);
            owners[stmt.0 as usize] = Some(BasicBlockId(block as u16));
            i += 1;
            proof {
                assert forall|other: int| 0 <= other < stmt_count implies #[trigger] owners@[other]
                    == if exists|k: int| 0 <= k < i && (#[trigger] statements@[k]).0 == other {
                    Some(BasicBlockId(block as u16))
                } else {
                    before[other]
                } by {
                    if other == stmt.0 {
                        assert(statements@[i - 1].0 == other);
                    } else if exists|k: int|
                        0 <= k < i && (#[trigger] statements@[k]).0 == other {
                        let k = choose|k: int|
                            0 <= k < i && (#[trigger] statements@[k]).0 == other;
                        assert(k < i - 1);
                    }
                }
            }
        }
        block += 1;
    }
    owners
}

/// The owners of the statements of one graph, computed when they are first
/// asked for and kept until the graph changes.
#[derive(Clone, Debug)]
pub struct StatementOwnerCache {
    cache: Option<StatementOwners>,
    pub stmt_count: usize,
}

impl StatementOwnerCache {
    /// What the cache holds, if it holds anything.
    pub closed spec fn cached(&self) -> Option<Seq<Option<BasicBlockId>>> {
        match self.cache {
            Some(owners) => Some(owners@),
            None => None,
        }
    }

    /// The number of statements of the graph.
    pub closed spec fn statements(&self) -> usize {
        self.stmt_count
    }

    /// An empty cache for a graph of `stmt_count` statements.
    #[inline]
    pub fn new(stmt_count: usize) -> (cache: Self)
        ensures
            cache.cached() is None,
            cache.statements() == stmt_count,
    {
        StatementOwnerCache { cache: None, stmt_count }
    }

    /// Forgets what was computed.  To be called whenever the graph changes.
    #[inline]
    pub fn invalidate(&mut self)
        ensures
            final(self).cached() is None,
            final(self).statements() == old(self).statements(),
    {
        self.cache = None;
    }

    /// The owners of the statements: those the cache holds, and where it
    /// holds none, those of `blocks`, which it holds from then on.
    #[inline]
    pub fn compute(&mut self, blocks: &Vec<Vec<StatementId>>) -> (owners: &StatementOwners)
        requires
            blocks_fit(blocks@, old(self).statements() as int),
        ensures
            final(self).statements() == old(self).statements(),
            final(self).cached() == Some(owners@),
            match old(self).cached() {
                Some(kept) => owners@ == kept,
                None => owners_of(blocks@, old(self).statements() as int, owners@),
            },
    {
        if self.cache.is_none() {
            self.cache = Some(compute_owners(self.stmt_count, blocks));
        }
        self.cache.as_ref().unwrap()
    }
}

} // verus!
