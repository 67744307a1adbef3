//! Blocks: a list of entries, its Merkle commitment, and the hash that links
//! a block to the one before it.

use crate::hashing::{calculate_hash, collision_free, digest_of, DIGEST_LENGTH};
use crate::sources::{current_timestamp, random_below, DRAW_RANGE};
use crate::text::{
    amount_text, decimal, lemma_texts_push, push_text, signed_decimal, texts, write_amount,
    write_decimal, write_signed_decimal,
};
use crate::transaction::{clone_transactions, tx_views, Transaction, TransactionView};
use vstd::prelude::*;
use vstd::string::{StrSliceExecFns, StringExecFns};

verus! {

/// A block of the chain.
#[derive(Debug)]
pub struct Block {
    pub index: u64,
    pub timestamp: i64,
    pub transactions: Vec<Transaction>,
    pub merkle_root: String,
    pub previous_hash: String,
    pub hash: String,
    pub nonce: u64,
    pub difficulty: usize,
    pub validator: Option<String>,
}

/// A block with its texts as sequences of characters.
pub struct BlockView {
    pub index: u64,
    pub timestamp: i64,
    pub transactions: Seq<TransactionView>,
    pub merkle_root: Seq<char>,
    pub previous_hash: Seq<char>,
    pub hash: Seq<char>,
    pub nonce: u64,
    pub difficulty: usize,
    pub validator: Option<Seq<char>>,
}

impl View for Block {
    type V = BlockView;

    open spec fn view(&self) -> BlockView {
        BlockView {
            index: self.index,
            timestamp: self.timestamp,
            transactions: tx_views(self.transactions@),
            merkle_root: self.merkle_root@,
            previous_hash: self.previous_hash@,
            hash: self.hash@,
            nonce: self.nonce,
            difficulty: self.difficulty,
            validator: match self.validator {
                Some(v) => Some(v@),
                None => None,
            },
        }
    }
}

impl Clone for Block {
    fn clone(&self) -> (copy: Self)
        ensures
            copy@ == self@,
    {
        Block {
            index: self.index,
            timestamp: self.timestamp,
            transactions: clone_transactions(&self.transactions),
            merkle_root: self.merkle_root.clone(),
            previous_hash: self.previous_hash.clone(),
            hash: self.hash.clone(),
            nonce: self.nonce,
            difficulty: self.difficulty,
            validator: match &self.validator {
                Some(v) => Some(v.clone()),
                None => None,
            },
        }
    }
}

/// The text that an entry contributes to the commitment: who pays, who is
/// paid, and how much. Fee, time and identifier are left out.
pub open spec fn leaf_text(t: TransactionView) -> Seq<char> {
    t.sender + t.receiver + amount_text(t.amount as nat)
}

/// The leaf digests of a list of entries, in order.
pub open spec fn leaves(txs: Seq<TransactionView>) -> Seq<Seq<char>> {
    txs.map_values(|t: TransactionView| digest_of(leaf_text(t)))
}

/// One level up: neighbours are joined and hashed, left to right; a last
/// digest without a neighbour is carried over as it is.
pub open spec fn pair_up(level: Seq<Seq<char>>) -> Seq<Seq<char>> {
    Seq::new(
        ((level.len() + 1) / 2) as nat,
        |k: int|
            if 2 * k + 1 < level.len() {
                digest_of(level[2 * k] + level[2 * k + 1])
            } else {
                level[2 * k]
            },
    )
}

/// The digest that remains when a level is paired up until one is left. No
/// digest at all gives the text `0`.
pub open spec fn merkle_fold(level: Seq<Seq<char>>) -> Seq<char>
    decreases level.len(),
{
    if level.len() == 0 {
        "0"@
    } else if level.len() == 1 {
        level[0]
    } else {
        merkle_fold(pair_up(level))
    }
}

/// The Merkle root of a list of entries.
pub open spec fn merkle_root(txs: Seq<TransactionView>) -> Seq<char> {
    merkle_fold(leaves(txs))
}

/// The root of one entry is its leaf digest, and the root of two entries is
/// the digest of their leaf digests joined in their order.
pub proof fn lemma_small_roots(a: TransactionView, b: TransactionView)
    ensures
        merkle_root(seq![a]) == digest_of(leaf_text(a)),
        merkle_root(seq![a, b]) == digest_of(
            digest_of(leaf_text(a)) + digest_of(leaf_text(b)),
        ),
{
    let one = leaves(seq![a]);
    assert(one.len() == 1 && one[0] == digest_of(leaf_text(a)));
    let two = leaves(seq![a, b]);
    assert(two.len() == 2);
    assert(two[0] == digest_of(leaf_text(a)) && two[1] == digest_of(leaf_text(b)));
    let up = pair_up(two);
    assert(up.len() == 1);
    assert(up[0] == digest_of(two[0] + two[1]));
    assert(merkle_fold(two) == merkle_fold(up)) by {
        reveal_with_fuel(merkle_fold, 2);
    }
}

/// Two entries in the other order have another root, unless the digest of
/// their leaf digests joined one way is that of them joined the other way.
pub proof fn lemma_pair_order(a: TransactionView, b: TransactionView)
    requires
        digest_of(digest_of(leaf_text(a)) + digest_of(leaf_text(b))) != digest_of(
            digest_of(leaf_text(b)) + digest_of(leaf_text(a)),
        ),
    ensures
        merkle_root(seq![a, b]) != merkle_root(seq![b, a]),
{
    lemma_small_roots(a, b);
    lemma_small_roots(b, a);
}

/// Whether every digest of a level has the length of a digest.
pub open spec fn digest_sized(level: Seq<Seq<char>>) -> bool {
    forall|i: int| 0 <= i < level.len() ==> (#[trigger] level[i]).len() == DIGEST_LENGTH
}

/// Two levels of one length that differ somewhere fold to different digests,
/// where no two texts have one digest.
pub proof fn lemma_fold_tells_levels_apart(a: Seq<Seq<char>>, b: Seq<Seq<char>>, i: int)
    requires
        collision_free(),
        a.len() == b.len(),
        digest_sized(a),
        digest_sized(b),
        0 <= i < a.len(),
        a[i] != b[i],
    ensures
        merkle_fold(a) != merkle_fold(b),
    decreases a.len(),
{
    if a.len() >= 2 {
        let k = i / 2;
        let up_a = pair_up(a);
        let up_b = pair_up(b);
        assert(digest_sized(up_a)) by {
            assert forall|j: int| 0 <= j < up_a.len() implies (#[trigger] up_a[j]).len()
                == DIGEST_LENGTH by {
                assert(a[2 * j].len() == DIGEST_LENGTH);
            }
        }
        assert(digest_sized(up_b)) by {
            assert forall|j: int| 0 <= j < up_b.len() implies (#[trigger] up_b[j]).len()
                == DIGEST_LENGTH by {
                assert(b[2 * j].len() == DIGEST_LENGTH);
            }
        }
        if 2 * k + 1 < a.len() {
            let joined_a = a[2 * k] + a[2 * k + 1];
            let joined_b = b[2 * k] + b[2 * k + 1];
            assert(a[2 * k].len() == DIGEST_LENGTH && b[2 * k].len() == DIGEST_LENGTH);
            if joined_a == joined_b {
                assert(joined_a.subrange(0, 64) =~= a[2 * k]);
                assert(joined_b.subrange(0, 64) =~= b[2 * k]);
                assert(joined_a.subrange(64, joined_a.len() as int) =~= a[2 * k + 1]);
                assert(joined_b.subrange(64, joined_b.len() as int) =~= b[2 * k + 1]);
                assert(false);
            }
            assert(digest_of(joined_a) != digest_of(joined_b));
            assert(up_a[k] != up_b[k]);
        } else {
            assert(up_a[k] == a[i] && up_b[k] == b[i]);
        }
        lemma_fold_tells_levels_apart(up_a, up_b, k);
    }
}

/// The root tells lists of entries apart, where no two texts have one
/// digest: two lists of one length, of which some entry of the one has
/// another leaf text than the entry in its place in the other, have
/// different roots. So has a list and a reordering of it that moves an
/// entry to the place of one with another leaf text.
pub proof fn lemma_root_is_order_sensitive(
    a: Seq<TransactionView>,
    b: Seq<TransactionView>,
    i: int,
)
    requires
        collision_free(),
        a.len() == b.len(),
        0 <= i < a.len(),
        leaf_text(a[i]) != leaf_text(b[i]),
    ensures
        merkle_root(a) != merkle_root(b),
{
    assert(leaves(a)[i] == digest_of(leaf_text(a[i])));
    assert(leaves(b)[i] == digest_of(leaf_text(b[i])));
    lemma_fold_tells_levels_apart(leaves(a), leaves(b), i);
}

/// Reordering changes the root, where no two texts have one digest: a
/// permutation of a list that puts an entry in the place of one with another
/// leaf text has another root than the list.
pub proof fn lemma_permutation_changes_root(
    txs: Seq<TransactionView>,
    permuted: Seq<TransactionView>,
    i: int,
)
    requires
        collision_free(),
        permuted.to_multiset() == txs.to_multiset(),
        0 <= i < txs.len(),
        leaf_text(permuted[i]) != leaf_text(txs[i]),
    ensures
        merkle_root(permuted) != merkle_root(txs),
{
    vstd::seq_lib::to_multiset_len(txs);
    vstd::seq_lib::to_multiset_len(permuted);
    lemma_root_is_order_sensitive(permuted, txs, i);
}

/// The text whose digest is a block's hash.
pub open spec fn hash_preimage(b: BlockView) -> Seq<char> {
    decimal(b.index as nat) + signed_decimal(b.timestamp as int) + b.merkle_root + b.previous_hash
        + decimal(b.nonce as nat) + decimal(b.difficulty as nat)
}

/// The hash that a block's fields call for.
pub open spec fn block_hash(b: BlockView) -> Seq<char> {
    digest_of(hash_preimage(b))
}

/// Whether a block's stored hash is the hash of its fields.
pub open spec fn sealed(b: BlockView) -> bool {
    b.hash == block_hash(b)
}

/// Whether a block's stored root is the root of its entries.
pub open spec fn committed(b: BlockView) -> bool {
    b.merkle_root == merkle_root(b.transactions)
}

/// Whether a hash begins with `difficulty` zero characters.
pub open spec fn meets_target(hash: Seq<char>, difficulty: usize) -> bool {
    difficulty <= hash.len() && forall|i: int| 0 <= i < difficulty ==> hash[i] == '0'
}

/// The block that is assembled from the given parts at the given time.
pub open spec fn assembled(
    index: u64,
    timestamp: i64,
    transactions: Seq<TransactionView>,
    previous_hash: Seq<char>,
    difficulty: usize,
) -> BlockView {
    let unsealed = BlockView {
        index,
        timestamp,
        transactions,
        merkle_root: merkle_root(transactions),
        previous_hash,
        hash: Seq::empty(),
        nonce: 0,
        difficulty,
        validator: None,
    };
    BlockView { hash: block_hash(unsealed), ..unsealed }
}

/// A block with another nonce, sealed anew.
pub open spec fn with_nonce(b: BlockView, nonce: u64) -> BlockView {
    let moved = BlockView { nonce, ..b };
    BlockView { hash: block_hash(moved), ..moved }
}

/// One line that describes a block: index, hash, time, the number of its
/// entries, nonce and difficulty.
pub open spec fn block_summary(b: BlockView) -> Seq<char> {
    "Block["@ + decimal(b.index as nat) + "]: "@ + b.hash + " at: "@ + signed_decimal(
        b.timestamp as int,
    ) + ", with: "@ + decimal(b.transactions.len()) + " transactions, nonce: "@ + decimal(
        b.nonce as nat,
    ) + ", difficulty: "@ + decimal(b.difficulty as nat)
}

/// Sealing a block anew with another nonce leaves it sealed, and committed
/// if it was.
pub proof fn lemma_with_nonce_sealed(b: BlockView, nonce: u64)
    ensures
        sealed(with_nonce(b, nonce)),
        committed(b) ==> committed(with_nonce(b, nonce)),
{
    let moved = BlockView { nonce, ..b };
    assert(hash_preimage(with_nonce(b, nonce)) == hash_preimage(moved));
}

/// Whether `b` is what a search for a proof of work makes of `start`: `start`
/// itself where its hash meets the target, and otherwise `start` sealed with
/// the first nonce above its own whose hash does.
pub open spec fn first_proof(start: BlockView, b: BlockView) -> bool {
    &&& meets_target(b.hash, start.difficulty)
    &&& b.nonce >= start.nonce
    &&& if b.nonce == start.nonce {
        b == start
    } else {
        b == with_nonce(start, b.nonce) && !meets_target(start.hash, start.difficulty)
    }
    &&& forall|n: u64|
        start.nonce < n < b.nonce ==> !meets_target(
            #[trigger] with_nonce(start, n).hash,
            start.difficulty,
        )
}

/// Whether no nonce from that of `start` upwards gives a hash that meets the
/// target.
pub open spec fn exhausted(start: BlockView) -> bool {
    &&& !meets_target(start.hash, start.difficulty)
    &&& forall|n: u64|
        start.nonce < n ==> !meets_target(
            #[trigger] with_nonce(start, n).hash,
            start.difficulty,
        )
}

/// A target of more zeros than a digest has characters is met by no nonce:
/// the search is exhausted unless the block's stored hash meets the target.
pub proof fn lemma_target_beyond_digest(start: BlockView)
    requires
        start.difficulty > DIGEST_LENGTH,
    ensures
        exhausted(start) == !meets_target(start.hash, start.difficulty),
{
    assert forall|n: u64| start.nonce < n implies !meets_target(
        #[trigger] with_nonce(start, n).hash,
        start.difficulty,
    ) by {
        assert(with_nonce(start, n).hash.len() == DIGEST_LENGTH);
    }
}

/// Whether a hash begins with `difficulty` zero characters.
pub fn has_leading_zeros(hash: &String, difficulty: usize) -> (ok: bool)
    ensures
        ok == meets_target(hash@, difficulty),
{
    let text = hash.as_str();
    if difficulty > text.unicode_len() {
        return false;
    }
    let mut i: usize = 0;
    while i < difficulty
        invariant
            i <= difficulty <= text@.len(),
            text@ == hash@,
            forall|j: int| 0 <= j < i ==> hash@[j] == '0',
        decreases difficulty - i,
    {
        if text.get_char(i) != '0' {
            return false;
        }
        i = i + 1;
    }
    true
}

impl Block {
    /// Assembles a block stamped with the current time.
    pub fn new(
        index: u64,
        transactions: Vec<Transaction>,
        previous_hash: String,
        difficulty: usize,
    ) -> (block: Self)
        ensures
            block@ == assembled(
                index,
                block.timestamp,
                tx_views(transactions@),
                previous_hash@,
                difficulty,
            ),
            sealed(block@),
            committed(block@),
    {
        let now = current_timestamp();
        Block::at(index, now, transactions, previous_hash, difficulty)
    }

    /// Assembles the block that the given parts make at the given time: the
    /// root commits to the entries, the nonce is zero, no validator is set,
    /// and the hash is that of the fields.
    pub fn at(
        index: u64,
        timestamp: i64,
        transactions: Vec<Transaction>,
        previous_hash: String,
        difficulty: usize,
    ) -> (block: Self)
        ensures
            block@ == assembled(
                index,
                timestamp,
                tx_views(transactions@),
                previous_hash@,
                difficulty,
            ),
            sealed(block@),
            committed(block@),
    {
        let merkle_root = Block::calculate_merkle_root(transactions.as_slice());
        let mut block = Block {
            index,
            timestamp,
            transactions,
            merkle_root,
            previous_hash,
            hash: String::new(),
            nonce: 0,
            difficulty,
            validator: None,
        };
        block.hash = block.calculate_hash();
        block
    }

    /// The Merkle root of a list of entries.
    pub fn calculate_merkle_root(transactions: &[Transaction]) -> (root: String)
        ensures
            root@ == merkle_root(tx_views(transactions@)),
    {
        let ghost all = leaves(tx_views(transactions@));
        let mut hashes: Vec<String> = Vec::new();
        let mut i: usize = 0;
        while i < transactions.len()
            invariant
                i <= transactions.len(),
                all == leaves(tx_views(transactions@)),
                texts(hashes@) == all.take(i as int),
            decreases transactions.len() - i,
        {
            let tx = &transactions[i];
            let mut data = tx.sender.clone();
            push_text(&mut data, &tx.receiver);
            write_amount(&mut data, tx.amount);
            let leaf = calculate_hash(data.as_str());
            proof {
                lemma_texts_push(hashes@, leaf);
                assert(data@ =~= leaf_text(tx@));
            }
            hashes.push(leaf);
            assert(texts(hashes@) =~= all.take(i + 1));
            i = i + 1;
        }
        assert(all.take(i as int) =~= all);
        if hashes.len() == 0 {
            return "0".to_owned();
        }
        while hashes.len() > 1
            invariant
                hashes.len() >= 1,
                merkle_fold(texts(hashes@)) == merkle_fold(all),
            decreases hashes.len(),
        {
            let ghost level = texts(hashes@);
            let half: usize = hashes.len() / 2 + hashes.len() % 2;
            let mut next_level: Vec<String> = Vec::new();
            let mut k: usize = 0;
            while k < half
                invariant
                    k <= half,
                    half == (hashes.len() + 1) / 2,
                    level == texts(hashes@),
                    texts(next_level@) == pair_up(level).take(k as int),
                decreases half - k,
            {
                let digest = if 2 * k + 1 < hashes.len() {
                    let mut combined = hashes[2 * k].clone();
                    push_text(&mut combined, &hashes[2 * k + 1]);
                    calculate_hash(combined.as_str())
                } else {
                    hashes[2 * k].clone()
                };
                proof {
                    lemma_texts_push(next_level@, digest);
                    assert(digest@ == pair_up(level)[k as int]);
                }
                next_level.push(digest);
                assert(texts(next_level@) =~= pair_up(level).take(k + 1));
                k = k + 1;
            }
            assert(pair_up(level).take(k as int) =~= pair_up(level));
            hashes = next_level;
        }
        hashes[0].clone()
    }

    /// One line that describes this block.
    pub fn describe(&self) -> (line: String)
        ensures
            line@ == block_summary(self@),
    {
        let mut line = "Block[".to_owned();
        write_decimal(&mut line, self.index);
        line.append("]: ");
        push_text(&mut line, &self.hash);
        line.append(" at: ");
        write_signed_decimal(&mut line, self.timestamp);
        line.append(", with: ");
        write_decimal(&mut line, self.transactions.len() as u64);
        line.append(" transactions, nonce: ");
        write_decimal(&mut line, self.nonce);
        line.append(", difficulty: ");
        write_decimal(&mut line, self.difficulty as u64);
        line
    }

    /// The hash that this block's fields call for.
    pub fn calculate_hash(&self) -> (digest: String)
        ensures
            digest@ == block_hash(self@),
    {
        let mut data = String::new();
        write_decimal(&mut data, self.index);
        write_signed_decimal(&mut data, self.timestamp);
        push_text(&mut data, &self.merkle_root);
        push_text(&mut data, &self.previous_hash);
        write_decimal(&mut data, self.nonce);
        write_decimal(&mut data, self.difficulty as u64);
        assert(data@ =~= hash_preimage(self@));
        calculate_hash(data.as_str())
    }

    /// Searches for a proof of work. The block is left as it is where its
    /// hash already meets the target, and also where the difficulty asks for
    /// more zeros than a digest has characters, in which case the search
    /// fails at once. Otherwise the nonce is raised one by one, and the block
    /// sealed anew each time, until the hash begins with `difficulty` zeros
    /// or the nonce cannot be raised further. Returns whether a proof was
    /// found, which it is unless no nonce from the block's own upwards gives
    /// one.
    pub fn mine_block(&mut self) -> (found: bool)
        ensures
            found == !exhausted(old(self)@),
            found ==> first_proof(old(self)@, final(self)@),
            !found ==> final(self)@ == (if old(self).nonce == u64::MAX || old(self).difficulty
                > DIGEST_LENGTH {
                old(self)@
            } else {
                with_nonce(old(self)@, u64::MAX)
            }),
            sealed(old(self)@) ==> sealed(final(self)@),
    {
        let mut found = has_leading_zeros(&self.hash, self.difficulty);
        if !found && self.difficulty > DIGEST_LENGTH {
            proof {
                lemma_target_beyond_digest(self@);
            }
            return false;
        }
        while !found && self.nonce < u64::MAX
            invariant
                found == meets_target(self.hash@, old(self).difficulty),
                self.nonce >= old(self).nonce,
                self.nonce == old(self).nonce ==> self@ == old(self)@,
                self.nonce > old(self).nonce ==> self@ == with_nonce(old(self)@, self.nonce)
                    && !meets_target(old(self).hash@, old(self).difficulty),
                forall|n: u64|
                    old(self).nonce < n < self.nonce ==> !meets_target(
                        #[trigger] with_nonce(old(self)@, n).hash,
                        old(self).difficulty,
                    ),
            decreases u64::MAX - self.nonce,
        {
            self.nonce = self.nonce + 1;
            self.hash = self.calculate_hash();
            found = has_leading_zeros(&self.hash, self.difficulty);
        }
        proof {
            if found && self.nonce > old(self).nonce {
                assert(meets_target(
                    with_nonce(old(self)@, self.nonce).hash,
                    old(self).difficulty,
                ));
            }
        }
        found
    }

    /// Proof of stake with a fresh draw: see `validate_with_draw`. A stake of
    /// a thousand coins or more always succeeds.
    pub fn validate_with_pos(&mut self, validator: String, stake_amount: u64) -> (ok: bool)
        ensures
            ok ==> final(self)@ == (BlockView {
                validator: Some(validator@),
                hash: block_hash(old(self)@),
                ..old(self)@
            }),
            !ok ==> *final(self) == *old(self),
            stake_amount >= DRAW_RANGE - 1 ==> ok,
            sealed(old(self)@) ==> sealed(final(self)@),
    {
        let draw = random_below(DRAW_RANGE);
        self.validate_with_draw(validator, stake_amount, draw)
    }

    /// Proof of stake for a given draw. The draw stands for a point of the
    /// unit interval, in steps of one over `DRAW_RANGE`; the validator
    /// succeeds where that point is at most a thousandth of its stake in
    /// coins, which is where the draw is at most the stake in units. On
    /// success the validator is set and the block sealed anew; otherwise the
    /// block stays as it was.
    pub fn validate_with_draw(&mut self, validator: String, stake_amount: u64, draw: u64) -> (ok:
        bool)
        ensures
            ok == (draw <= stake_amount),
            ok ==> final(self)@ == (BlockView {
                validator: Some(validator@),
                hash: block_hash(old(self)@),
                ..old(self)@
            }),
            !ok ==> *final(self) == *old(self),
            sealed(old(self)@) ==> sealed(final(self)@),
    {
        if draw <= stake_amount {
            self.validator = Some(validator);
            self.hash = self.calculate_hash();
            return true;
        }
        false
    }
}

} // verus!
