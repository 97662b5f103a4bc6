//! Fixed-depth incremental Merkle tree with root history.
//!
//! Each call of [`insert`] adds one leaf and returns the new root. The last
//! [`ROOT_HISTORY_SIZE`] roots are kept, so that a proof made just before
//! another deposit can still be checked.
use crate::bytes::{concat_words, same_word, zero32, Bytes32};
use crate::host::{set_slot, sha256, sha256_digest, slot, slots, Slots};
use soroban_sdk::Env;
use vstd::arithmetic::div_mod::lemma_div_denominator;
use vstd::arithmetic::power2::{lemma2_to64, lemma_pow2_pos, lemma_pow2_unfold, pow2};
use vstd::prelude::*;

verus! {

/// Depth of the tree: it has room for `2^20` leaves.
pub const LEVELS: u32 = 20;

/// Number of leaves that the tree has room for.
pub const CAPACITY: u32 = 0x10_0000;

/// Number of recent roots that stay acceptable.
pub const ROOT_HISTORY_SIZE: u32 = 30;

// ---------------------------------------------------------------------------
// The tree, as a function of its leaves
// ---------------------------------------------------------------------------

/// The parent of two nodes.
pub open spec fn parent(left: Bytes32, right: Bytes32) -> Bytes32 {
    sha256_digest(left@ + right@)
}

/// The root of a subtree of height `level` without leaves.
pub open spec fn zero_at(level: nat) -> Bytes32
    decreases level,
{
    if level == 0 {
        zero32()
    } else {
        parent(zero_at((level - 1) as nat), zero_at((level - 1) as nat))
    }
}

/// The node of the tree over `leaves` that stands `level` steps above the
/// leaves, `index` places from the left. Missing leaves are zero words.
pub open spec fn node(leaves: Seq<Bytes32>, level: nat, index: nat) -> Bytes32
    decreases level,
{
    if level == 0 {
        if index < leaves.len() {
            leaves[index as int]
        } else {
            zero32()
        }
    } else {
        parent(
            node(leaves, (level - 1) as nat, 2 * index),
            node(leaves, (level - 1) as nat, 2 * index + 1),
        )
    }
}

/// The root of the tree over `leaves`.
pub open spec fn tree_root(leaves: Seq<Bytes32>) -> Bytes32 {
    node(leaves, LEVELS as nat, 0)
}

/// Position, `level` steps up, of the node above the leaf at `index`.
pub open spec fn ancestor(index: nat, level: nat) -> nat
    decreases level,
{
    if level == 0 {
        index
    } else {
        ancestor(index, (level - 1) as nat) / 2
    }
}

// ---------------------------------------------------------------------------
// One insertion
// ---------------------------------------------------------------------------

/// The left sibling remembered for `level`, or the empty subtree.
pub open spec fn remembered(filled: Map<u32, Bytes32>, level: nat) -> Bytes32 {
    if filled.contains_key(level as u32) {
        filled[level as u32]
    } else {
        zero_at(level)
    }
}

/// The node `level` steps above a leaf that is put at `index`, computed from the
/// remembered left siblings.
pub open spec fn path_node(
    filled: Map<u32, Bytes32>,
    leaf: Bytes32,
    index: nat,
    level: nat,
) -> Bytes32
    decreases level,
{
    if level == 0 {
        leaf
    } else {
        let below = (level - 1) as nat;
        if ancestor(index, below) % 2 == 0 {
            parent(path_node(filled, leaf, index, below), zero_at(below))
        } else {
            parent(remembered(filled, below), path_node(filled, leaf, index, below))
        }
    }
}

/// What is remembered once a leaf has been put at `index`: on each of the first
/// `levels` levels where the new path is a left child, the node of that path.
pub open spec fn remembered_after(
    filled: Map<u32, Bytes32>,
    leaf: Bytes32,
    index: nat,
    levels: nat,
) -> Map<u32, Bytes32> {
    Map::new(
        |i: u32| filled.contains_key(i) || (i < levels && ancestor(index, i as nat) % 2 == 0),
        |i: u32|
            if i < levels && ancestor(index, i as nat) % 2 == 0 {
                path_node(filled, leaf, index, i as nat)
            } else {
                filled[i]
            },
    )
}

/// Inserts a leaf at `next_index`.
///
/// Returns the new root, the next free index and the slot of the root ring that
/// the new root was written to. The leaf's path replaces what `filled_subtrees`
/// remembers on the levels where it is a left child.
pub fn insert(
    env: &Env,
    leaf: Bytes32,
    filled_subtrees: &mut Slots,
    roots: &mut Slots,
    next_index: u32,
    current_root_index: u32,
) -> (r: (Bytes32, u32, u32))
    requires
        next_index < u32::MAX,
        current_root_index < u32::MAX,
    ensures
        r.0 == path_node(slots(*old(filled_subtrees)), leaf, next_index as nat, LEVELS as nat),
        r.1 == next_index + 1,
        r.2 == (current_root_index + 1) % (ROOT_HISTORY_SIZE as int),
        slots(*final(filled_subtrees)) == remembered_after(
            slots(*old(filled_subtrees)),
            leaf,
            next_index as nat,
            LEVELS as nat,
        ),
        slots(*final(roots)) == slots(*old(roots)).insert(r.2, r.0),
{
    let ghost filled = slots(*filled_subtrees);
    let ghost index = next_index as nat;
    let mut current_index: u32 = next_index;
    let mut current_level_hash: Bytes32 = leaf;
    let mut i: u32 = 0;
    assert(slots(*filled_subtrees) =~= remembered_after(filled, leaf, index, 0));
    while i < LEVELS
        invariant
            i <= LEVELS,
            current_index == ancestor(index, i as nat),
            current_level_hash == path_node(filled, leaf, index, i as nat),
            slots(*filled_subtrees) == remembered_after(filled, leaf, index, i as nat),
        decreases LEVELS - i,
    {
        let (left, right) = if current_index % 2 == 0 {
            let zero = zero_value(env, i);
            set_slot(filled_subtrees, i, &current_level_hash);
            (current_level_hash, zero)
        } else {
            let left = match slot(filled_subtrees, i) {
                Some(word) => word,
                None => zero_value(env, i),
            };
            (left, current_level_hash)
        };
        current_level_hash = hash_pair(env, &left, &right);
        current_index = current_index / 2;
        i += 1;
        assert(slots(*filled_subtrees) =~= remembered_after(filled, leaf, index, i as nat));
    }
    let new_root_index: u32 = (current_root_index + 1) % ROOT_HISTORY_SIZE;
    set_slot(roots, new_root_index, &current_level_hash);
    (current_level_hash, next_index + 1, new_root_index)
}

/// Whether one of the slots of the root ring holds `root`.
pub open spec fn root_in_ring(roots: Map<u32, Bytes32>, root: Bytes32) -> bool {
    exists|k: u32| k < ROOT_HISTORY_SIZE && #[trigger] roots.contains_key(k) && roots[k] == root
}

/// True if `root` is among the last [`ROOT_HISTORY_SIZE`] roots.
pub fn is_known_root(roots: &Slots, root: &Bytes32) -> (r: bool)
    ensures
        r == root_in_ring(slots(*roots), *root),
{
    let mut i: u32 = 0;
    while i < ROOT_HISTORY_SIZE
        invariant
            i <= ROOT_HISTORY_SIZE,
            forall|k: u32| k < i && #[trigger] slots(*roots).contains_key(k) ==> slots(*roots)[k]
                != *root,
        decreases ROOT_HISTORY_SIZE - i,
    {
        if let Some(word) = slot(roots, i) {
            if same_word(&word, root) {
                return true;
            }
        }
        i += 1;
    }
    false
}

/// SHA-256 of the left word followed by the right word.
pub fn hash_pair(env: &Env, left: &Bytes32, right: &Bytes32) -> (r: Bytes32)
    ensures
        r == parent(*left, *right),
        r == sha256_digest(left@ + right@),
{
    let buf = concat_words(left, right);
    sha256(env, &buf)
}

/// The root of an empty subtree of height `level`.
fn zero_value(env: &Env, level: u32) -> (r: Bytes32)
    ensures
        r == zero_at(level as nat),
{
    let mut current: Bytes32 = [0u8; 32];
    assert(current =~= zero32());
    let mut i: u32 = 0;
    while i < level
        invariant
            i <= level,
            current == zero_at(i as nat),
        decreases level - i,
    {
        current = hash_pair(env, &current, &current);
        i += 1;
    }
    current
}

// ---------------------------------------------------------------------------
// The tree that insertions build
// ---------------------------------------------------------------------------

/// `filled` holds what the next insertion needs of the tree over `leaves`: on
/// each level where its path will be a right child, the left sibling.
pub open spec fn remembers(filled: Map<u32, Bytes32>, leaves: Seq<Bytes32>) -> bool {
    forall|i: u32|
        i < LEVELS && #[trigger] ancestor(leaves.len(), i as nat) % 2 == 1
            ==> filled.contains_key(i) && filled[i] == node(
            leaves,
            i as nat,
            (ancestor(leaves.len(), i as nat) - 1) as nat,
        )
}

/// A new leaf leaves every subtree that it is not in unchanged.
proof fn lemma_node_elsewhere(leaves: Seq<Bytes32>, leaf: Bytes32, level: nat, index: nat)
    requires
        index != ancestor(leaves.len(), level),
    ensures
        node(leaves.push(leaf), level, index) == node(leaves, level, index),
    decreases level,
{
    if level > 0 {
        let below = (level - 1) as nat;
        lemma_node_elsewhere(leaves, leaf, below, 2 * index);
        lemma_node_elsewhere(leaves, leaf, below, 2 * index + 1);
    }
}

/// A subtree to the right of the last leaf is empty.
proof fn lemma_node_empty(leaves: Seq<Bytes32>, level: nat, index: nat)
    requires
        leaves.len() > 0,
        index > ancestor((leaves.len() - 1) as nat, level),
    ensures
        node(leaves, level, index) == zero_at(level),
    decreases level,
{
    if level > 0 {
        let below = (level - 1) as nat;
        lemma_node_empty(leaves, below, 2 * index);
        lemma_node_empty(leaves, below, 2 * index + 1);
    }
}

/// The path computed from the remembered siblings is the path of the new leaf in
/// the extended tree.
proof fn lemma_path_node(
    filled: Map<u32, Bytes32>,
    leaves: Seq<Bytes32>,
    leaf: Bytes32,
    level: nat,
)
    requires
        remembers(filled, leaves),
        level <= LEVELS,
    ensures
        path_node(filled, leaf, leaves.len(), level) == node(
            leaves.push(leaf),
            level,
            ancestor(leaves.len(), level),
        ),
    decreases level,
{
    let grown = leaves.push(leaf);
    if level > 0 {
        let below = (level - 1) as nat;
        let a = ancestor(leaves.len(), below);
        lemma_path_node(filled, leaves, leaf, below);
        if a % 2 == 0 {
            assert(a == 2 * (a / 2));
            lemma_node_empty(grown, below, a + 1);
        } else {
            assert(a == 2 * (a / 2) + 1);
            lemma_node_elsewhere(leaves, leaf, below, (a - 1) as nat);
            let i = below as u32;
            assert(ancestor(leaves.len(), i as nat) % 2 == 1);
        }
    }
}

/// One more leaf moves each ancestor position by at most one.
proof fn lemma_ancestor_step(index: nat, level: nat)
    ensures
        ancestor(index, level) <= ancestor(index + 1, level) <= ancestor(index, level) + 1,
    decreases level,
{
    if level > 0 {
        lemma_ancestor_step(index, (level - 1) as nat);
    }
}

/// The whole tree hangs below one root.
proof fn lemma_ancestor_root(index: nat)
    requires
        index < CAPACITY,
    ensures
        ancestor(index, LEVELS as nat) == 0,
{
    reveal_with_fuel(ancestor, 21);
}

/// An empty tree needs nothing remembered.
pub proof fn law_empty_tree_remembers(filled: Map<u32, Bytes32>)
    ensures
        remembers(filled, Seq::empty()),
{
    assert forall|i: u32| i < LEVELS implies #[trigger] ancestor(0, i as nat) == 0 by {
        lemma_ancestor_of_zero(i as nat);
    }
}

proof fn lemma_ancestor_of_zero(level: nat)
    ensures
        ancestor(0, level) == 0,
    decreases level,
{
    if level > 0 {
        lemma_ancestor_of_zero((level - 1) as nat);
    }
}

/// As long as the tree has room, inserting a leaf gives the root of the full
/// tree over all leaves so far, and what is then remembered serves the next
/// insertion.
pub proof fn law_insert_builds_tree(
    filled: Map<u32, Bytes32>,
    leaves: Seq<Bytes32>,
    leaf: Bytes32,
)
    requires
        remembers(filled, leaves),
        leaves.len() < CAPACITY,
    ensures
        path_node(filled, leaf, leaves.len(), LEVELS as nat) == tree_root(leaves.push(leaf)),
        remembers(
            remembered_after(filled, leaf, leaves.len(), LEVELS as nat),
            leaves.push(leaf),
        ),
{
    let n = leaves.len();
    let grown = leaves.push(leaf);
    lemma_path_node(filled, leaves, leaf, LEVELS as nat);
    lemma_ancestor_root(n);
    let after = remembered_after(filled, leaf, n, LEVELS as nat);
    assert forall|i: u32|
        i < LEVELS && #[trigger] ancestor(grown.len(), i as nat) % 2 == 1 implies after.contains_key(
        i,
    ) && after[i] == node(grown, i as nat, (ancestor(grown.len(), i as nat) - 1) as nat) by {
        let b = ancestor(n + 1, i as nat);
        let a = ancestor(n, i as nat);
        lemma_ancestor_step(n, i as nat);
        if a == b {
            lemma_node_elsewhere(leaves, leaf, i as nat, (b - 1) as nat);
            assert(filled.contains_key(i));
        } else {
            assert(a == b - 1);
            assert(a % 2 == 0);
            lemma_path_node(filled, leaves, leaf, i as nat);
        }
    }
}

/// The root that a leaf at `index` and the given siblings, from the bottom up,
/// hash to.
pub open spec fn path_root(leaf: Bytes32, index: nat, siblings: Seq<Bytes32>) -> Bytes32
    decreases siblings.len(),
{
    if siblings.len() == 0 {
        leaf
    } else {
        let below = path_root(leaf, index, siblings.drop_last());
        if ancestor(index, (siblings.len() - 1) as nat) % 2 == 0 {
            parent(below, siblings.last())
        } else {
            parent(siblings.last(), below)
        }
    }
}

/// The siblings, on the first `levels` levels, of the path of the leaf at `index`.
pub open spec fn siblings_of(leaves: Seq<Bytes32>, index: nat, levels: nat) -> Seq<Bytes32> {
    Seq::new(
        levels,
        |i: int|
            {
                let a = ancestor(index, i as nat);
                node(
                    leaves,
                    i as nat,
                    if a % 2 == 0 {
                        a + 1
                    } else {
                        (a - 1) as nat
                    },
                )
            },
    )
}

proof fn lemma_path_root(leaves: Seq<Bytes32>, index: nat, levels: nat)
    requires
        index < leaves.len(),
    ensures
        path_root(leaves[index as int], index, siblings_of(leaves, index, levels)) == node(
            leaves,
            levels,
            ancestor(index, levels),
        ),
    decreases levels,
{
    if levels > 0 {
        let below = (levels - 1) as nat;
        lemma_path_root(leaves, index, below);
        assert(siblings_of(leaves, index, levels).drop_last() =~= siblings_of(
            leaves,
            index,
            below,
        ));
        let a = ancestor(index, below);
        assert(a == 2 * (a / 2) || a == 2 * (a / 2) + 1);
    }
}

/// Every leaf of the tree has an authentication path: its siblings on the 20
/// levels hash it up to the root.
pub proof fn law_every_leaf_has_a_path(leaves: Seq<Bytes32>, index: nat)
    requires
        index < leaves.len() <= CAPACITY,
    ensures
        path_root(
            leaves[index as int],
            index,
            siblings_of(leaves, index, LEVELS as nat),
        ) == tree_root(leaves),
{
    lemma_path_root(leaves, index, LEVELS as nat);
    lemma_ancestor_root(index);
}

// ---------------------------------------------------------------------------
// What the nodes are
// ---------------------------------------------------------------------------

/// The nodes of the tree: at the bottom the leaves, then zero words; above, the SHA-256 of
/// the left child followed by the right one; and the root is 20 levels up.
pub proof fn law_nodes_hash_their_children(leaves: Seq<Bytes32>, level: nat, index: nat)
    ensures
        index < leaves.len() ==> node(leaves, 0, index) == leaves[index as int],
        index >= leaves.len() ==> forall|j: int|
            0 <= j < 32 ==> #[trigger] node(leaves, 0, index)@[j] == 0,
        node(leaves, level + 1, index) == sha256_digest(
            node(leaves, level, 2 * index)@ + node(leaves, level, 2 * index + 1)@,
        ),
        tree_root(leaves) == node(leaves, 20, 0),
{
}

/// The empty subtrees: a zero word at the bottom; above, the SHA-256 of the one below
/// twice.
pub proof fn law_empty_subtrees_hash_themselves(level: nat)
    ensures
        forall|j: int| 0 <= j < 32 ==> #[trigger] zero_at(0)@[j] == 0,
        zero_at(level + 1) == sha256_digest(zero_at(level)@ + zero_at(level)@),
{
}

/// The node above a leaf, `level` steps up, stands at the leaf's position divided by
/// `2^level`.
pub proof fn law_positions_halve(index: nat, level: nat)
    ensures
        ancestor(index, level) == index / pow2(level),
    decreases level,
{
    if level == 0 {
        lemma2_to64();
    } else {
        let below = (level - 1) as nat;
        law_positions_halve(index, below);
        lemma_pow2_unfold(level);
        lemma_pow2_pos(below);
        lemma_div_denominator(index as int, pow2(below) as int, 2);
    }
}

/// How an insertion hashes its leaf up: where the position is even, with the empty subtree
/// on the right; where it is odd, with what is remembered for the level on the left, or the
/// empty subtree where nothing is.
pub proof fn law_how_a_leaf_is_hashed_up(
    filled: Map<u32, Bytes32>,
    leaf: Bytes32,
    index: nat,
    level: nat,
)
    requires
        level < 20,
    ensures
        ({
            let here = path_node(filled, leaf, index, level);
            let above = path_node(filled, leaf, index, level + 1);
            let left = if filled.contains_key(level as u32) {
                filled[level as u32]
            } else {
                zero_at(level)
            };
            &&& path_node(filled, leaf, index, 0) == leaf
            &&& (index / pow2(level)) % 2 == 0 ==> above == sha256_digest(
                here@ + zero_at(level)@,
            )
            &&& (index / pow2(level)) % 2 == 1 ==> above == sha256_digest(left@ + here@)
        }),
{
    law_positions_halve(index, level);
}

/// What an insertion remembers: on each of the 20 levels where its position is even, the
/// node of its own path; on the others, and on no others, what was there.
pub proof fn law_what_is_remembered(
    filled: Map<u32, Bytes32>,
    leaf: Bytes32,
    index: nat,
    i: u32,
)
    ensures
        ({
            let after = remembered_after(filled, leaf, index, 20);
            if i < 20 && (index / pow2(i as nat)) % 2 == 0 {
                after.contains_key(i) && after[i] == path_node(filled, leaf, index, i as nat)
            } else {
                &&& after.contains_key(i) == filled.contains_key(i)
                &&& filled.contains_key(i) ==> after[i] == filled[i]
            }
        }),
{
    law_positions_halve(index, i as nat);
}

// ---------------------------------------------------------------------------
// The ring of recent roots
// ---------------------------------------------------------------------------

/// The slot that the root of insertion number `j`, counted from zero, goes to.
pub open spec fn ring_slot(j: int) -> u32 {
    ((j + 1) % (ROOT_HISTORY_SIZE as int)) as u32
}

/// The ring holds exactly the last [`ROOT_HISTORY_SIZE`] of the roots in
/// `history`, and `current` is the slot of the last one.
pub open spec fn ring_holds(
    roots: Map<u32, Bytes32>,
    current: u32,
    history: Seq<Bytes32>,
) -> bool {
    &&& current == history.len() % (ROOT_HISTORY_SIZE as nat)
    &&& forall|j: int|
        #![trigger recent(history, j)]
        recent(history, j) ==> roots.contains_key(ring_slot(j)) && roots[ring_slot(j)]
            == history[j]
    &&& forall|k: u32|
        k < ROOT_HISTORY_SIZE && #[trigger] roots.contains_key(k) ==> exists|j: int|
            #![trigger recent(history, j)]
            recent(history, j) && ring_slot(j) == k
}

/// Root number `j` is among the last [`ROOT_HISTORY_SIZE`].
pub open spec fn recent(history: Seq<Bytes32>, j: int) -> bool {
    0 <= j < history.len() && history.len() - ROOT_HISTORY_SIZE <= j
}

/// A ring without roots holds the empty history.
pub proof fn law_empty_ring()
    ensures
        ring_holds(Map::empty(), 0, Seq::empty()),
{
}

/// Writing a new root into the next slot keeps the ring in step with the
/// history: only a root that was the oldest of a full window drops out.
pub proof fn law_ring_advances(
    roots: Map<u32, Bytes32>,
    current: u32,
    history: Seq<Bytes32>,
    root: Bytes32,
)
    requires
        ring_holds(roots, current, history),
    ensures
        ({
            let next = ((current + 1) % (ROOT_HISTORY_SIZE as int)) as u32;
            ring_holds(roots.insert(next, root), next, history.push(root))
        }),
{
    let n = history.len() as int;
    let next = ((current + 1) % (ROOT_HISTORY_SIZE as int)) as u32;
    let grown = history.push(root);
    let after = roots.insert(next, root);
    assert(next == ring_slot(n));
    assert(next == grown.len() % (ROOT_HISTORY_SIZE as nat));
    assert forall|j: int| #![trigger recent(grown, j)] recent(grown, j) implies after.contains_key(
        ring_slot(j),
    ) && after[ring_slot(j)] == grown[j] by {
        if j < n {
            assert(recent(history, j));
            assert(history[j] == grown[j]);
            assert(ring_slot(j) != next);
        }
    }
    assert forall|k: u32|
        k < ROOT_HISTORY_SIZE && #[trigger] after.contains_key(k) implies exists|j: int|
        #![trigger recent(grown, j)]
        recent(grown, j) && ring_slot(j) == k by {
        if k == next {
            assert(grown[n] == root);
            assert(recent(grown, n));
        } else {
            assert(roots.contains_key(k));
            let j = choose|j: int|
                #![trigger recent(history, j)]
                recent(history, j) && ring_slot(j) == k;
            assert(grown[j] == history[j]);
            assert(recent(grown, j));
        }
    }
}

/// A root is accepted exactly when it is among the last [`ROOT_HISTORY_SIZE`].
pub proof fn law_known_roots_are_the_recent_ones(
    roots: Map<u32, Bytes32>,
    current: u32,
    history: Seq<Bytes32>,
    root: Bytes32,
)
    requires
        ring_holds(roots, current, history),
    ensures
        root_in_ring(roots, root) <==> exists|j: int|
            #![trigger recent(history, j)]
            recent(history, j) && history[j] == root,
{
    if root_in_ring(roots, root) {
        let k = choose|k: u32|
            k < ROOT_HISTORY_SIZE && #[trigger] roots.contains_key(k) && roots[k] == root;
        let j = choose|j: int|
            #![trigger recent(history, j)]
            recent(history, j) && ring_slot(j) == k;
        assert(history[j] == root);
    }
    if exists|j: int|
        #![trigger recent(history, j)]
        recent(history, j) && history[j] == root {
        let j = choose|j: int|
            #![trigger recent(history, j)]
            recent(history, j) && history[j] == root;
        assert(roots.contains_key(ring_slot(j)));
    }
}

} // verus!
