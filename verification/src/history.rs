//! The history walker's records: what a walk over a repository hands in,
//! and the rows that are made of it, one for each commit.

use crate::object_id::ObjectId;
use crate::text::{copy_text, text_of};
use std::collections::HashMap;
use vstd::prelude::*;

verus! {

/// Who made or committed a change, and when, in seconds since the epoch.
/// Name and address are absent where the repository holds none that can be
/// read as text.
#[derive(Clone, Debug, PartialEq, Eq)]
pub struct Signature {
    pub name: Option<String>,
    pub email: Option<String>,
    pub when: i64,
}

/// A signature, its texts as characters.
pub struct SignerView {
    pub name: Option<Seq<char>>,
    pub email: Option<Seq<char>>,
    pub when: i64,
}

impl View for Signature {
    type V = SignerView;

    open spec fn view(&self) -> SignerView {
        SignerView { name: text_of(self.name), email: text_of(self.email), when: self.when }
    }
}

/// A commit as the walk over the repository met it.
#[derive(Clone, Debug, PartialEq, Eq)]
pub struct WalkedCommit {
    pub id: ObjectId,
    pub message: Option<String>,
    pub author: Signature,
    pub committer: Signature,
    pub parents: Vec<ObjectId>,
}

/// A walked commit, its names as bytes and its texts as characters.
pub struct WalkedView {
    pub id: Seq<u8>,
    pub message: Option<Seq<char>>,
    pub author: SignerView,
    pub committer: SignerView,
    pub parents: Seq<Seq<u8>>,
}

impl View for WalkedCommit {
    type V = WalkedView;

    open spec fn view(&self) -> WalkedView {
        WalkedView {
            id: self.id@,
            message: text_of(self.message),
            author: self.author@,
            committer: self.committer@,
            parents: self.parents@.map_values(|p: ObjectId| p@),
        }
    }
}

/// The row of one commit: a snapshot that no longer refers to the
/// repository.
#[derive(Clone, Debug, PartialEq, Eq)]
pub struct CommitRecord {
    pub hash: ObjectId,
    pub message: Option<String>,
    pub author_name: Option<String>,
    pub author_email: Option<String>,
    pub author_when: i64,
    pub committer_name: Option<String>,
    pub committer_email: Option<String>,
    pub committer_when: i64,
    pub is_merge: bool,
    pub parent_1: Option<ObjectId>,
    pub parent_2: Option<ObjectId>,
}

/// A row, its names as bytes and its texts as characters.
pub struct CommitView {
    pub hash: Seq<u8>,
    pub message: Option<Seq<char>>,
    pub author_name: Option<Seq<char>>,
    pub author_email: Option<Seq<char>>,
    pub author_when: i64,
    pub committer_name: Option<Seq<char>>,
    pub committer_email: Option<Seq<char>>,
    pub committer_when: i64,
    pub is_merge: bool,
    pub parent_1: Option<Seq<u8>>,
    pub parent_2: Option<Seq<u8>>,
}

/// The bytes of an optional name.
pub open spec fn id_of(id: Option<ObjectId>) -> Option<Seq<u8>> {
    match id {
        Some(id) => Some(id@),
        None => None,
    }
}

impl View for CommitRecord {
    type V = CommitView;

    open spec fn view(&self) -> CommitView {
        CommitView {
            hash: self.hash@,
            message: text_of(self.message),
            author_name: text_of(self.author_name),
            author_email: text_of(self.author_email),
            author_when: self.author_when,
            committer_name: text_of(self.committer_name),
            committer_email: text_of(self.committer_email),
            committer_when: self.committer_when,
            is_merge: self.is_merge,
            parent_1: id_of(self.parent_1),
            parent_2: id_of(self.parent_2),
        }
    }
}

/// The parent at `k`, where the commit has that many.
pub open spec fn parent_at(parents: Seq<Seq<u8>>, k: int) -> Option<Seq<u8>> {
    if 0 <= k < parents.len() {
        Some(parents[k])
    } else {
        None
    }
}

/// The row of a walked commit. It is a merge when it has exactly two
/// parents; the row keeps the first two parents and no more.
pub open spec fn record_of(commit: WalkedView) -> CommitView {
    CommitView {
        hash: commit.id,
        message: commit.message,
        author_name: commit.author.name,
        author_email: commit.author.email,
        author_when: commit.author.when,
        committer_name: commit.committer.name,
        committer_email: commit.committer.email,
        committer_when: commit.committer.when,
        is_merge: commit.parents.len() == 2,
        parent_1: parent_at(commit.parents, 0),
        parent_2: parent_at(commit.parents, 1),
    }
}

impl CommitRecord {
    /// Takes the snapshot of a walked commit.
    pub fn from_walked(commit: &WalkedCommit) -> (record: CommitRecord)
        ensures
            record@ == record_of(commit@),
    {
        let count = commit.parents.len();
        let parent_1 = if count > 0 {
            Some(commit.parents[0])
        } else {
            None
        };
        let parent_2 = if count > 1 {
            Some(commit.parents[1])
        } else {
            None
        };
        CommitRecord {
            hash: commit.id,
            message: copy_text(&commit.message),
            author_name: copy_text(&commit.author.name),
            author_email: copy_text(&commit.author.email),
            author_when: commit.author.when,
            committer_name: copy_text(&commit.committer.name),
            committer_email: copy_text(&commit.committer.email),
            committer_when: commit.committer.when,
            is_merge: count == 2,
            parent_1,
            parent_2,
        }
    }

    /// A copy of the row.
    pub fn duplicate(&self) -> (copy: CommitRecord)
        ensures
            copy@ == self@,
    {
        CommitRecord {
            hash: self.hash,
            message: copy_text(&self.message),
            author_name: copy_text(&self.author_name),
            author_email: copy_text(&self.author_email),
            author_when: self.author_when,
            committer_name: copy_text(&self.committer_name),
            committer_email: copy_text(&self.committer_email),
            committer_when: self.committer_when,
            is_merge: self.is_merge,
            parent_1: self.parent_1,
            parent_2: self.parent_2,
        }
    }
}

/// The commits of a walk as values.
pub open spec fn walk_view(walk: Seq<WalkedCommit>) -> Seq<WalkedView> {
    walk.map_values(|c: WalkedCommit| c@)
}

/// The rows as values.
pub open spec fn rows_view(rows: Seq<CommitRecord>) -> Seq<CommitView> {
    rows.map_values(|r: CommitRecord| r@)
}

/// Whether the walk met the commit at `i` at an earlier place too.
pub open spec fn met_before(walk: Seq<WalkedView>, i: int) -> bool {
    exists|j: int| 0 <= j < i && (#[trigger] walk[j]).id == walk[i].id
}

/// The rows of a walk: one for each commit, in the order in which the walk
/// first met them.
pub open spec fn history(walk: Seq<WalkedView>) -> Seq<CommitView>
    decreases walk.len(),
{
    if walk.len() == 0 {
        Seq::empty()
    } else if met_before(walk, walk.len() - 1) {
        history(walk.drop_last())
    } else {
        history(walk.drop_last()).push(record_of(walk.last()))
    }
}

/// Whether some row among `rows` is the commit `id`.
pub open spec fn has_row(rows: Seq<CommitView>, id: Seq<u8>) -> bool {
    exists|k: int| 0 <= k < rows.len() && (#[trigger] rows[k]).hash == id
}

/// No two rows are the same commit.
pub open spec fn distinct_rows(rows: Seq<CommitView>) -> bool {
    forall|a: int, b: int|
        0 <= a < b < rows.len() ==> (#[trigger] rows[a]).hash != (#[trigger] rows[b]).hash
}

/// Whether the walk met the commit `id`.
pub open spec fn walk_meets(walk: Seq<WalkedView>, id: Seq<u8>) -> bool {
    exists|i: int| 0 <= i < walk.len() && (#[trigger] walk[i]).id == id
}

/// A commit has a row exactly when the walk met it.
pub proof fn lemma_row_for_each_commit(walk: Seq<WalkedView>, id: Seq<u8>)
    ensures
        has_row(history(walk), id) <==> walk_meets(walk, id),
    decreases walk.len(),
{
    if walk.len() > 0 {
        let n = walk.len() - 1;
        let init = walk.drop_last();
        let before = history(init);
        let rows = history(walk);
        lemma_row_for_each_commit(init, id);
        lemma_row_for_each_commit(init, walk[n].id);
        assert forall|i: int| 0 <= i < n implies init[i] == walk[i] by {}
        if walk_meets(init, id) {
            let i = choose|i: int| 0 <= i < init.len() && (#[trigger] init[i]).id == id;
            assert(walk[i].id == id);
        }
        if walk_meets(walk, id) && !walk_meets(init, id) {
            let i = choose|i: int| 0 <= i < walk.len() && (#[trigger] walk[i]).id == id;
            if i < n {
                assert(init[i].id == id);
            }
            assert(i == n);
        }
        if met_before(walk, n) {
            let j = choose|j: int| 0 <= j < n && (#[trigger] walk[j]).id == walk[n].id;
            assert(init[j].id == walk[n].id);
            assert(walk_meets(init, walk[n].id));
        } else {
            if has_row(before, id) {
                let k = choose|k: int| 0 <= k < before.len() && (#[trigger] before[k]).hash == id;
                assert(rows[k].hash == id);
            }
            if has_row(rows, id) && !has_row(before, id) {
                let k = choose|k: int| 0 <= k < rows.len() && (#[trigger] rows[k]).hash == id;
                if k < before.len() {
                    assert(before[k].hash == id);
                }
                assert(walk[n].id == id);
            }
            if id == walk[n].id {
                assert(rows[before.len() as int].hash == id);
            }
        }
    }
}

/// The rows of a walk hold each commit that the walk met, once, and nothing
/// else.
pub proof fn law_one_row_per_commit(walk: Seq<WalkedView>)
    ensures
        distinct_rows(history(walk)),
        history(walk).len() <= walk.len(),
        forall|id: Seq<u8>| #[trigger] has_row(history(walk), id) <==> walk_meets(walk, id),
    decreases walk.len(),
{
    assert forall|id: Seq<u8>| #[trigger] has_row(history(walk), id) <==> walk_meets(
        walk,
        id,
    ) by {
        lemma_row_for_each_commit(walk, id);
    }
    if walk.len() > 0 {
        let n = walk.len() - 1;
        let init = walk.drop_last();
        let before = history(init);
        let rows = history(walk);
        law_one_row_per_commit(init);
        if !met_before(walk, n) {
            lemma_row_for_each_commit(init, walk[n].id);
            if walk_meets(init, walk[n].id) {
                let i = choose|i: int| 0 <= i < init.len() && (#[trigger] init[i]).id == walk[n].id;
                assert(walk[i].id == walk[n].id);
            }
            assert(!has_row(before, walk[n].id));
            assert forall|a: int, b: int| 0 <= a < b < rows.len() implies (#[trigger] rows[a]).hash
                != (#[trigger] rows[b]).hash by {
                if b == before.len() {
                    assert(rows[a] == before[a]);
                } else {
                    assert(rows[a] == before[a] && rows[b] == before[b]);
                }
            }
        }
    }
}

/// No commit occurs twice in the walk.
pub open spec fn walk_without_repeats(walk: Seq<WalkedView>) -> bool {
    forall|i: int, j: int|
        0 <= i < j < walk.len() ==> (#[trigger] walk[i]).id != (#[trigger] walk[j]).id
}

/// A walk that meets no commit twice gives its rows one for one, in its own
/// order.
pub proof fn law_walk_without_repeats_kept(walk: Seq<WalkedView>)
    requires
        walk_without_repeats(walk),
    ensures
        history(walk) == walk.map_values(|c: WalkedView| record_of(c)),
    decreases walk.len(),
{
    let mapped = walk.map_values(|c: WalkedView| record_of(c));
    if walk.len() > 0 {
        let init = walk.drop_last();
        assert forall|i: int, j: int| 0 <= i < j < init.len() implies (#[trigger] init[i]).id != (
        #[trigger] init[j]).id by {
            assert(init[i] == walk[i] && init[j] == walk[j]);
        }
        law_walk_without_repeats_kept(init);
        assert(!met_before(walk, walk.len() - 1));
        assert(history(walk) =~= mapped);
    } else {
        assert(history(walk) =~= mapped);
    }
}

/// The number that stands for the first eight bytes of a name.
spec fn short_key(id: Seq<u8>) -> int {
    id[0] as int + id[1] as int * 0x100 + id[2] as int * 0x1_0000 + id[3] as int * 0x100_0000
        + id[4] as int * 0x1_0000_0000 + id[5] as int * 0x100_0000_0000 + id[6] as int
        * 0x1_0000_0000_0000 + id[7] as int * 0x100_0000_0000_0000
}

/// The short key of a name.
fn key_of(id: &ObjectId) -> (key: u64)
    ensures
        key == short_key(id@),
{
    let b = &id.bytes;
    let low: u64 = b[0] as u64 + b[1] as u64 * 0x100 + b[2] as u64 * 0x1_0000 + b[3] as u64
        * 0x100_0000;
    let high: u64 = b[4] as u64 + b[5] as u64 * 0x100 + b[6] as u64 * 0x1_0000 + b[7] as u64
        * 0x100_0000;
    low + high * 0x1_0000_0000
}

/// Whether `places` finds the rows: under the short key of each row stands
/// the place of that row, and every place that it holds is one of a row.
spec fn finds_rows(places: Map<u64, Vec<usize>>, rows: Seq<CommitView>) -> bool {
    &&& forall|k: int|
        0 <= k < rows.len() ==> places.contains_key(short_key((#[trigger] rows[k]).hash) as u64)
            && places[short_key(rows[k].hash) as u64]@.contains(k as usize)
    &&& forall|key: u64, p: int|
        places.contains_key(key) && 0 <= p < places[key]@.len() ==> (
        #[trigger] places[key]@[p]) < rows.len()
}

/// Whether a row of `rows` is the commit `id`, looked up under its short
/// key.
fn holds(places: &HashMap<u64, Vec<usize>>, rows: &Vec<CommitRecord>, id: &ObjectId) -> (found:
    bool)
    requires
        finds_rows(places@, rows_view(rows@)),
    ensures
        found == has_row(rows_view(rows@), id@),
{
    broadcast use vstd::std_specs::hash::group_hash_axioms;

    let ghost all = rows_view(rows@);
    let key = key_of(id);
    match places.get(&key) {
        None => {
            assert(!has_row(all, id@)) by {
                if has_row(all, id@) {
                    let k = choose|k: int| 0 <= k < all.len() && (#[trigger] all[k]).hash == id@;
                    assert(places@.contains_key(short_key(all[k].hash) as u64));
                }
            }
            false
        },
        Some(bucket) => {
            assert(places@.contains_key(key) && places@[key] == *bucket);
            let mut p: usize = 0;
            while p < bucket.len()
                invariant
                    p <= bucket.len(),
                    all == rows_view(rows@),
                    places@.contains_key(key),
                    places@[key] == *bucket,
                    finds_rows(places@, all),
                    forall|q: int| 0 <= q < p ==> all[(#[trigger] bucket@[q]) as int].hash != id@,
                decreases bucket.len() - p,
            {
                let place = bucket[p];
                assert(places@[key]@[p as int] < all.len());
                if rows[place].hash.same(id) {
                    assert(all[place as int].hash == id@);
                    return true;
                }
                p = p + 1;
            }
            assert(!has_row(all, id@)) by {
                if has_row(all, id@) {
                    let k = choose|k: int| 0 <= k < all.len() && (#[trigger] all[k]).hash == id@;
                    assert(all.len() == rows.len());
                    assert(short_key(all[k].hash) as u64 == key);
                    assert(bucket@.contains(k as usize));
                    let q = choose|q: int| 0 <= q < bucket@.len() && bucket@[q] == k as usize;
                    assert(all[bucket@[q] as int].hash != id@);
                }
            }
            false
        },
    }
}

/// Notes that the row at `place` stands under `key`.
fn remember(places: &mut HashMap<u64, Vec<usize>>, key: u64, place: usize)
    ensures
        final(places)@.contains_key(key),
        final(places)@[key]@ == (if old(places)@.contains_key(key) {
            old(places)@[key]@
        } else {
            Seq::empty()
        }).push(place),
        forall|other: u64|
            other != key ==> (#[trigger] final(places)@.contains_key(other)) == old(
                places,
            )@.contains_key(other),
        forall|other: u64|
            other != key && old(places)@.contains_key(other) ==> #[trigger] final(places)@[other]
                == old(places)@[other],
{
    broadcast use vstd::std_specs::hash::group_hash_axioms;

    let mut bucket = match places.remove(&key) {
        Some(bucket) => bucket,
        None => Vec::new(),
    };
    bucket.push(place);
    places.insert(key, bucket);
}

/// Turns a walk into rows: each commit that the walk met becomes one row,
/// at the place where the walk met it first.
pub fn materialize(walk: &Vec<WalkedCommit>) -> (rows: Vec<CommitRecord>)
    ensures
        rows_view(rows@) == history(walk_view(walk@)),
{
    let ghost all = walk_view(walk@);
    let mut rows: Vec<CommitRecord> = Vec::new();
    let mut places: HashMap<u64, Vec<usize>> = HashMap::new();
    let mut i: usize = 0;
    assert(rows_view(rows@) =~= history(all.take(0)));
    while i < walk.len()
        invariant
            i <= walk.len(),
            all == walk_view(walk@),
            rows_view(rows@) == history(all.take(i as int)),
            finds_rows(places@, rows_view(rows@)),
        decreases walk.len() - i,
    {
        let ghost prefix = all.take(i as int);
        let ghost next = all.take(i + 1);
        proof {
            assert(next.drop_last() =~= prefix);
            assert(next.last() == walk@[i as int]@);
            lemma_row_for_each_commit(prefix, next[i as int].id);
            assert(met_before(next, i as int) <==> walk_meets(prefix, next[i as int].id)) by {
                if met_before(next, i as int) {
                    let j = choose|j: int|
                        0 <= j < i && (#[trigger] next[j]).id == next[i as int].id;
                    assert(prefix[j].id == next[i as int].id);
                }
                if walk_meets(prefix, next[i as int].id) {
                    let j = choose|j: int|
                        0 <= j < prefix.len() && (#[trigger] prefix[j]).id == next[i as int].id;
                    assert(next[j].id == next[i as int].id);
                }
            }
        }
        if !holds(&places, &rows, &walk[i].id) {
            let record = CommitRecord::from_walked(&walk[i]);
            let ghost before = rows_view(rows@);
            let ghost found = places@;
            let place = rows.len();
            let key = key_of(&record.hash);
            rows.push(record);
            remember(&mut places, key, place);
            proof {
                let after = rows_view(rows@);
                assert(after =~= before.push(record@));
                assert forall|k: int| 0 <= k < after.len() implies places@.contains_key(
                    short_key((#[trigger] after[k]).hash) as u64,
                ) && places@[short_key(after[k].hash) as u64]@.contains(k as usize) by {
                    let own = short_key(after[k].hash) as u64;
                    if k < before.len() {
                        assert(after[k] == before[k]);
                        assert(found.contains_key(own) && found[own]@.contains(k as usize));
                        if own == key {
                            let q = choose|q: int|
                                0 <= q < found[own]@.len() && found[own]@[q] == k as usize;
                            assert(places@[own]@[q] == k as usize);
                        }
                    } else {
                        assert(own == key);
                        assert(places@[own]@[places@[own]@.len() - 1] == place);
                    }
                }
                assert forall|other: u64, p: int|
                    places@.contains_key(other) && 0 <= p < places@[other]@.len() implies (
                #[trigger] places@[other]@[p]) < after.len() by {
                    if other == key {
                        if p < places@[other]@.len() - 1 {
                            assert(found.contains_key(key));
                            assert(places@[other]@[p] == found[key]@[p]);
                        }
                    } else {
                        assert(found.contains_key(other));
                        assert(places@[other]@[p] == found[other]@[p]);
                    }
                }
            }
        }
        i = i + 1;
    }
    assert(all.take(i as int) =~= all);
    rows
}

} // verus!
