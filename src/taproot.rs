//! Taproot trees: leaf and branch hashes, the Merkle root, the tweak of the
//! internal key, the output key and the control block of each leaf.
use crate::error::{CompileFault, PolicyFault, SpendError};
use crate::hashes::{tag_bytes, tagged_hash, tagged_hash_of, Tag};
use crate::keys::{tweak_x_only, xonly_tweak_of};
use crate::script::append_bytes;
use crate::tx::{push_var_bytes, var_bytes};
use vstd::prelude::*;

verus! {

/// The leaf version of Tapscript.
pub const TAPSCRIPT_LEAF_VERSION: u8 = 0xc0;

/// The deepest tree the builder accepts.
pub const MAX_TREE_DEPTH: u8 = 8;

/// A binary tree of Tapscript leaves.
#[derive(Debug)]
pub enum TapTree {
    Leaf(Vec<u8>),
    Branch(Box<TapTree>, Box<TapTree>),
}

/// Byte-wise order of byte strings, a proper prefix first.
pub open spec fn lex_le(a: Seq<u8>, b: Seq<u8>) -> bool
    decreases a.len(),
{
    if a.len() == 0 {
        true
    } else if b.len() == 0 {
        false
    } else if a[0] < b[0] {
        true
    } else if a[0] > b[0] {
        false
    } else {
        lex_le(a.skip(1), b.skip(1))
    }
}

pub open spec fn leaf_hash_of(script: Seq<u8>) -> Seq<u8> {
    tagged_hash_of(tag_bytes(Tag::TapLeaf), seq![TAPSCRIPT_LEAF_VERSION] + var_bytes(script))
}

/// The hash of two siblings, the smaller one first.
pub open spec fn branch_hash_of(a: Seq<u8>, b: Seq<u8>) -> Seq<u8> {
    tagged_hash_of(
        tag_bytes(Tag::TapBranch),
        if lex_le(a, b) {
            a + b
        } else {
            b + a
        },
    )
}

pub open spec fn root_of(t: TapTree) -> Seq<u8>
    decreases t,
{
    match t {
        TapTree::Leaf(s) => leaf_hash_of(s@),
        TapTree::Branch(l, r) => branch_hash_of(root_of(*l), root_of(*r)),
    }
}

pub open spec fn depth(t: TapTree) -> nat
    decreases t,
{
    match t {
        TapTree::Leaf(_) => 0,
        TapTree::Branch(l, r) => {
            let a = depth(*l);
            let b = depth(*r);
            1 + if a >= b {
                a
            } else {
                b
            }
        },
    }
}

pub open spec fn leaf_count(t: TapTree) -> nat
    decreases t,
{
    match t {
        TapTree::Leaf(_) => 1,
        TapTree::Branch(l, r) => leaf_count(*l) + leaf_count(*r),
    }
}

/// The script of leaf `i`, counting leaves from the left.
pub open spec fn leaf_at(t: TapTree, i: nat) -> Seq<u8>
    decreases t,
{
    match t {
        TapTree::Leaf(s) => s@,
        TapTree::Branch(l, r) => if i < leaf_count(*l) {
            leaf_at(*l, i)
        } else {
            leaf_at(*r, (i - leaf_count(*l)) as nat)
        },
    }
}

/// The hashes of the siblings on the way from leaf `i` up to the root.
pub open spec fn path_of(t: TapTree, i: nat) -> Seq<u8>
    decreases t,
{
    match t {
        TapTree::Leaf(_) => Seq::empty(),
        TapTree::Branch(l, r) => if i < leaf_count(*l) {
            path_of(*l, i) + root_of(*r)
        } else {
            path_of(*r, (i - leaf_count(*l)) as nat) + root_of(*l)
        },
    }
}

/// The tweak of an internal key by a Merkle root, or by nothing.
pub open spec fn tweak_of(internal: Seq<u8>, root: Option<Seq<u8>>) -> Seq<u8> {
    tagged_hash_of(
        tag_bytes(Tag::TapTweak),
        match root {
            Some(h) => internal + h,
            None => internal,
        },
    )
}

pub open spec fn tree_root(tree: Option<TapTree>) -> Option<Seq<u8>> {
    match tree {
        Some(t) => Some(root_of(t)),
        None => None,
    }
}

/// The control block of a leaf: the leaf version with the parity of the
/// output key in its low bit, the internal key, then the Merkle path.
pub open spec fn control_block_of(internal: Seq<u8>, odd: bool, t: TapTree, i: nat) -> Seq<u8> {
    seq![
        if odd {
            TAPSCRIPT_LEAF_VERSION | 1
        } else {
            TAPSCRIPT_LEAF_VERSION
        },
    ] + internal + path_of(t, i)
}

proof fn lemma_lex_total(a: Seq<u8>, b: Seq<u8>)
    ensures
        lex_le(a, b) || lex_le(b, a),
        lex_le(a, b) && lex_le(b, a) ==> a == b,
    decreases a.len(),
{
    if a.len() > 0 && b.len() > 0 && a[0] == b[0] {
        lemma_lex_total(a.skip(1), b.skip(1));
        if lex_le(a, b) && lex_le(b, a) {
            assert(a =~= seq![a[0]] + a.skip(1));
            assert(b =~= seq![b[0]] + b.skip(1));
        }
    }
}

/// The hash of two siblings does not depend on which of them comes first.
pub proof fn lemma_branch_hash_symmetric(a: Seq<u8>, b: Seq<u8>)
    ensures
        branch_hash_of(a, b) == branch_hash_of(b, a),
{
    lemma_lex_total(a, b);
}

/// Swapping the two subtrees of a branch changes neither the Merkle root nor
/// the tweak nor the output key: siblings are hashed in byte order.
pub proof fn lemma_output_key_order_free(internal: Seq<u8>, l: TapTree, r: TapTree)
    ensures
        root_of(TapTree::Branch(Box::new(l), Box::new(r))) == root_of(
            TapTree::Branch(Box::new(r), Box::new(l)),
        ),
        tweak_of(internal, Some(root_of(TapTree::Branch(Box::new(l), Box::new(r))))) == tweak_of(
            internal,
            Some(root_of(TapTree::Branch(Box::new(r), Box::new(l)))),
        ),
        xonly_tweak_of(
            internal,
            tweak_of(internal, Some(root_of(TapTree::Branch(Box::new(l), Box::new(r))))),
        ) == xonly_tweak_of(
            internal,
            tweak_of(internal, Some(root_of(TapTree::Branch(Box::new(r), Box::new(l))))),
        ),
{
    lemma_branch_hash_symmetric(root_of(l), root_of(r));
}

/// Mirroring a whole tree, at every branch, leaves its Merkle root as it is.
pub open spec fn mirror(t: TapTree) -> TapTree
    decreases t,
{
    match t {
        TapTree::Leaf(s) => TapTree::Leaf(s),
        TapTree::Branch(l, r) => TapTree::Branch(Box::new(mirror(*r)), Box::new(mirror(*l))),
    }
}

/// The Merkle root of a tree is that of its mirror image.
pub proof fn lemma_mirror_root(t: TapTree)
    ensures
        root_of(mirror(t)) == root_of(t),
    decreases t,
{
    match t {
        TapTree::Leaf(_) => {},
        TapTree::Branch(l, r) => {
            lemma_mirror_root(*l);
            lemma_mirror_root(*r);
            lemma_branch_hash_symmetric(root_of(*l), root_of(*r));
        },
    }
}

// ---------------------------------------------------------------------------
// Executable parts
/// Whether `a` comes no later than `b` in byte order.
pub fn bytes_le(a: &[u8], b: &[u8]) -> (r: bool)
    ensures
        r == lex_le(a@, b@),
{
    let mut i: usize = 0;
    assert(a@.skip(0) =~= a@);
    assert(b@.skip(0) =~= b@);
    while i < a.len()
        invariant
            i <= a@.len(),
            i <= b@.len(),
            a@.take(i as int) == b@.take(i as int),
            lex_le(a@, b@) == lex_le(a@.skip(i as int), b@.skip(i as int)),
        decreases a@.len() - i,
    {
        if i >= b.len() {
            return false;
        }
        if a[i] < b[i] {
            return true;
        }
        if a[i] > b[i] {
            return false;
        }
        assert(a@.skip(i as int).skip(1) =~= a@.skip(i + 1));
        assert(b@.skip(i as int).skip(1) =~= b@.skip(i + 1));
        assert(a@.take(i + 1) =~= a@.take(i as int).push(a@[i as int]));
        assert(b@.take(i + 1) =~= b@.take(i as int).push(b@[i as int]));
        i = i + 1;
    }
    true
}

/// The tap-leaf hash of a Tapscript.
pub fn leaf_hash(script: &[u8]) -> (r: Vec<u8>)
    ensures
        r@ == leaf_hash_of(script@),
        r@.len() == 32,
{
    let mut m: Vec<u8> = Vec::new();
    m.push(TAPSCRIPT_LEAF_VERSION);
    push_var_bytes(&mut m, script);
    assert(m@ =~= seq![TAPSCRIPT_LEAF_VERSION] + var_bytes(script@));
    tagged_hash(Tag::TapLeaf, m.as_slice())
}

/// The tap-branch hash of two siblings.
pub fn branch_hash(a: &[u8], b: &[u8]) -> (r: Vec<u8>)
    ensures
        r@ == branch_hash_of(a@, b@),
        r@.len() == 32,
{
    let mut m: Vec<u8> = Vec::new();
    if bytes_le(a, b) {
        append_bytes(&mut m, a);
        append_bytes(&mut m, b);
    } else {
        append_bytes(&mut m, b);
        append_bytes(&mut m, a);
    }
    tagged_hash(Tag::TapBranch, m.as_slice())
}

/// The Merkle root of a tree.
pub fn merkle_root(t: &TapTree) -> (r: Vec<u8>)
    ensures
        r@ == root_of(*t),
        r@.len() == 32,
    decreases t,
{
    match t {
        TapTree::Leaf(s) => leaf_hash(s.as_slice()),
        TapTree::Branch(l, r) => {
            let a = merkle_root(l);
            let b = merkle_root(r);
            branch_hash(a.as_slice(), b.as_slice())
        },
    }
}

/// Whether the tree is at most `limit` deep.
pub fn depth_within(t: &TapTree, limit: u8) -> (r: bool)
    ensures
        r == (depth(*t) <= limit),
    decreases t,
{
    match t {
        TapTree::Leaf(_) => true,
        TapTree::Branch(l, r) => limit > 0 && depth_within(l, limit - 1) && depth_within(
            r,
            limit - 1,
        ),
    }
}

proof fn lemma_leaf_count_bound(t: TapTree)
    ensures
        1 <= leaf_count(t) <= pow2(depth(t)),
    decreases t,
{
    match t {
        TapTree::Leaf(_) => {
            assert(pow2(0) == 1) by {
                reveal_with_fuel(pow2, 1);
            }
        },
        TapTree::Branch(l, r) => {
            lemma_leaf_count_bound(*l);
            lemma_leaf_count_bound(*r);
            lemma_pow2_mono(depth(*l), (depth(t) - 1) as nat);
            lemma_pow2_mono(depth(*r), (depth(t) - 1) as nat);
        },
    }
}

pub open spec fn pow2(k: nat) -> nat
    decreases k,
{
    if k == 0 {
        1
    } else {
        2 * pow2((k - 1) as nat)
    }
}

proof fn lemma_pow2_mono(a: nat, b: nat)
    requires
        a <= b,
    ensures
        pow2(a) <= pow2(b),
    decreases b,
{
    if a < b {
        lemma_pow2_mono(a, (b - 1) as nat);
    }
}

/// The number of leaves of a tree no deeper than the limit.
pub fn count_leaves(t: &TapTree) -> (r: u64)
    requires
        depth(*t) <= MAX_TREE_DEPTH,
    ensures
        r == leaf_count(*t),
        r <= 256,
    decreases t,
{
    proof {
        lemma_leaf_count_bound(*t);
        lemma_pow2_mono(depth(*t), 8);
        reveal_with_fuel(pow2, 9);
    }
    match t {
        TapTree::Leaf(_) => 1,
        TapTree::Branch(l, r) => count_leaves(l) + count_leaves(r),
    }
}

/// The script of leaf `i`, counting from the left.
pub fn leaf_script(t: &TapTree, i: u64) -> (r: Vec<u8>)
    requires
        depth(*t) <= MAX_TREE_DEPTH,
        i < leaf_count(*t),
    ensures
        r@ == leaf_at(*t, i as nat),
    decreases t,
{
    match t {
        TapTree::Leaf(s) => {
            let c = crate::script::copy_range(s.as_slice(), 0, s.len());
            assert(c@ =~= s@);
            c
        },
        TapTree::Branch(l, r) => {
            let n = count_leaves(l);
            if i < n {
                leaf_script(l, i)
            } else {
                leaf_script(r, i - n)
            }
        },
    }
}

/// The Merkle path of leaf `i`: its siblings' hashes from the leaf upwards.
pub fn merkle_path(t: &TapTree, i: u64) -> (r: Vec<u8>)
    requires
        depth(*t) <= MAX_TREE_DEPTH,
        i < leaf_count(*t),
    ensures
        r@ == path_of(*t, i as nat),
    decreases t,
{
    match t {
        TapTree::Leaf(_) => Vec::new(),
        TapTree::Branch(l, r) => {
            let n = count_leaves(l);
            if i < n {
                let mut p = merkle_path(l, i);
                let h = merkle_root(r);
                append_bytes(&mut p, h.as_slice());
                p
            } else {
                let mut p = merkle_path(r, i - n);
                let h = merkle_root(l);
                append_bytes(&mut p, h.as_slice());
                p
            }
        },
    }
}

/// The TapTweak hash of an internal key and an optional Merkle root.
pub fn tap_tweak(internal: &[u8], root: Option<&Vec<u8>>) -> (r: Vec<u8>)
    ensures
        r@ == tweak_of(
            internal@,
            match root {
                Some(h) => Some(h@),
                None => None,
            },
        ),
        r@.len() == 32,
{
    let mut m: Vec<u8> = Vec::new();
    append_bytes(&mut m, internal);
    match root {
        Some(h) => append_bytes(&mut m, h.as_slice()),
        None => {},
    }
    tagged_hash(Tag::TapTweak, m.as_slice())
}

/// What a Taproot output commits to: the internal key, the Merkle root of
/// its tree if it has one, and the tweaked output key with its parity.
#[derive(Clone, Debug, PartialEq, Eq)]
pub struct TaprootSpendInfo {
    pub internal_key: Vec<u8>,
    pub merkle_root: Option<Vec<u8>>,
    pub output_key: Vec<u8>,
    /// Whether the output key's point has odd Y.
    pub output_odd: bool,
}

impl TaprootSpendInfo {
    pub open spec fn root_view(&self) -> Option<Seq<u8>> {
        match self.merkle_root {
            Some(h) => Some(h@),
            None => None,
        }
    }

    /// The spend information is that of its internal key and of `tree`.
    pub open spec fn wf(&self, tree: Option<TapTree>) -> bool {
        &&& self.internal_key@.len() == 32
        &&& self.output_key@.len() == 32
        &&& (tree matches Some(t) ==> depth(t) <= MAX_TREE_DEPTH)
        &&& self.root_view() == tree_root(tree)
        &&& xonly_tweak_of(self.internal_key@, tweak_of(self.internal_key@, self.root_view()))
            == Some((self.output_key@, self.output_odd))
    }

    /// The spend information of an x-only internal key and a tree of leaves.
    /// Fails on a tree deeper than the limit, and where the tweak gives no
    /// key.
    pub fn new(internal: &[u8], tree: Option<&TapTree>) -> (r: Result<TaprootSpendInfo, SpendError>)
        requires
            internal@.len() == 32,
        ensures
            match r {
                Ok(info) => info.wf(opt_tree(tree)) && info.internal_key@ == internal@,
                Err(e) => {
                    ||| (tree matches Some(t) && depth(*t) > MAX_TREE_DEPTH && e
                        == SpendError::PolicyInvalid(PolicyFault::TreeTooDeep))
                    ||| ((tree matches Some(t) ==> depth(*t) <= MAX_TREE_DEPTH) && xonly_tweak_of(
                        internal@,
                        tweak_of(internal@, tree_root(opt_tree(tree))),
                    ) is None && e == SpendError::CompileError(CompileFault::BadTweak))
                },
            },
    {
        let root: Option<Vec<u8>> = match tree {
            Some(t) => {
                if !depth_within(t, MAX_TREE_DEPTH) {
                    return Err(SpendError::PolicyInvalid(PolicyFault::TreeTooDeep));
                }
                Some(merkle_root(t))
            },
            None => None,
        };
        let tweak = tap_tweak(internal, root.as_ref());
        match tweak_x_only(internal, tweak.as_slice()) {
            Some((k, odd)) => {
                let internal_key = crate::script::copy_range(internal, 0, internal.len());
                assert(internal_key@ =~= internal@);
                Ok(TaprootSpendInfo { internal_key, merkle_root: root, output_key: k, output_odd: odd })
            },
            None => Err(SpendError::CompileError(CompileFault::BadTweak)),
        }
    }

    /// The control block of leaf `i` of `tree`.
    pub fn control_block(&self, tree: &TapTree, i: u64) -> (r: Result<Vec<u8>, SpendError>)
        requires
            self.wf(Some(*tree)),
        ensures
            match r {
                Ok(cb) => i < leaf_count(*tree) && cb@ == control_block_of(
                    self.internal_key@,
                    self.output_odd,
                    *tree,
                    i as nat,
                ),
                Err(e) => i >= leaf_count(*tree) && e == SpendError::CompileError(
                    CompileFault::UnknownLeaf,
                ),
            },
    {
        if i >= count_leaves(tree) {
            return Err(SpendError::CompileError(CompileFault::UnknownLeaf));
        }
        let mut cb: Vec<u8> = Vec::new();
        if self.output_odd {
            cb.push(TAPSCRIPT_LEAF_VERSION | 1);
        } else {
            cb.push(TAPSCRIPT_LEAF_VERSION);
        }
        append_bytes(&mut cb, self.internal_key.as_slice());
        let p = merkle_path(tree, i);
        append_bytes(&mut cb, p.as_slice());
        assert(cb@ =~= control_block_of(self.internal_key@, self.output_odd, *tree, i as nat));
        Ok(cb)
    }
}

pub open spec fn opt_tree(tree: Option<&TapTree>) -> Option<TapTree> {
    match tree {
        Some(t) => Some(*t),
        None => None,
    }
}

/// The output script of a Taproot output key: `OP_1` and a push of the key.
pub open spec fn p2tr_script(output_key: Seq<u8>) -> Seq<u8> {
    seq![0x51u8, 0x20u8] + output_key
}

} // verus!
