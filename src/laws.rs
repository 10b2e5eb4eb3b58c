//! Properties of the store that relate several operations, proved over the
//! spec functions that the operations' own contracts use.
use crate::store::{
    after_delete, after_download, after_upload, delete_result, download_result, owned_by,
    readable_by, upload_result, StoreView,
};
use crate::types::{FileMetadataView, StoreError, UploadRequestView};
use vstd::prelude::*;

verus! {

/// One call on the store, with what the environment supplied to it.
pub enum StoreOp {
    Upload { req: UploadRequestView, caller: Seq<u8>, now: u64, entropy: Seq<u8> },
    Download { id: Seq<char>, caller: Seq<u8> },
    Delete { id: Seq<char>, caller: Seq<u8> },
}

/// The store after one call.
pub open spec fn step(s: StoreView, op: StoreOp) -> StoreView {
    match op {
        StoreOp::Upload { req, caller, now, entropy } => after_upload(s, req, caller, now, entropy),
        StoreOp::Download { id, caller } => after_download(s, id, caller),
        StoreOp::Delete { id, caller } => after_delete(s, id, caller),
    }
}

/// The store after a sequence of calls, in order.
pub open spec fn run(s: StoreView, ops: Seq<StoreOp>) -> StoreView
    decreases ops.len(),
{
    if ops.len() == 0 {
        s
    } else {
        step(run(s, ops.drop_last()), ops.last())
    }
}

/// The ids that the successful uploads of a sequence of calls returned, in order.
pub open spec fn granted(s: StoreView, ops: Seq<StoreOp>) -> Seq<Seq<char>>
    decreases ops.len(),
{
    if ops.len() == 0 {
        Seq::empty()
    } else {
        let before = run(s, ops.drop_last());
        let earlier = granted(s, ops.drop_last());
        match ops.last() {
            StoreOp::Upload { req, caller, now, entropy } => match upload_result(
                before,
                req,
                entropy,
            ) {
                Ok(id) => earlier.push(id),
                Err(_) => earlier,
            },
            _ => earlier,
        }
    }
}

/// No two successful uploads return the same id, over any sequence of calls,
/// and none returns an id handed out before the sequence began.
pub proof fn lemma_upload_ids_unique(s: StoreView, ops: Seq<StoreOp>)
    requires
        s.issued.no_duplicates(),
    ensures
        granted(s, ops).no_duplicates(),
        run(s, ops).issued == s.issued + granted(s, ops),
    decreases ops.len(),
{
    if ops.len() > 0 {
        let prev = ops.drop_last();
        lemma_upload_ids_unique(s, prev);
        let before = run(s, prev);
        let g = granted(s, prev);
        assert(before.issued == s.issued + g);
        match ops.last() {
            StoreOp::Upload { req, caller, now, entropy } => {
                match upload_result(before, req, entropy) {
                    Ok(id) => {
                        assert(!before.issued.contains(id));
                        assert(run(s, ops).issued =~= s.issued + g.push(id));
                        assert forall|a: int, b: int|
                            0 <= a < b < g.push(id).len() implies g.push(id)[a] != g.push(
                            id,
                        )[b] by {
                            if b == g.len() {
                                assert(before.issued[s.issued.len() + a] == g[a]);
                            }
                        }
                    },
                    Err(_) => {},
                }
            },
            _ => {},
        }
    }
}

/// Uploading a payload and fetching it back as the uploader gives the same
/// bytes, public file or not.
pub proof fn lemma_round_trip(
    s: StoreView,
    req: UploadRequestView,
    caller: Seq<u8>,
    now: u64,
    entropy: Seq<u8>,
)
    requires
        s.valid(),
        upload_result(s, req, entropy) is Ok,
    ensures
        download_result(
            after_upload(s, req, caller, now, entropy),
            upload_result(s, req, entropy)->Ok_0,
            caller,
        ) == Ok::<Seq<u8>, StoreError>(req.data),
{
    let id = upload_result(s, req, entropy)->Ok_0;
    let s1 = after_upload(s, req, caller, now, entropy);
    let n = s.files.len() as int;
    assert(s1.files[n].id == id);
    assert(s1.has(id));
    let j = s1.slot(id);
    if j < n {
        assert(s.files[j].id == id);
        assert(s.issued.contains(s.files[j].id));
    }
    assert(j == n);
}

/// A private file's content is refused to every caller but its owner, and
/// its owner always gets it, public or not.
pub proof fn lemma_visibility(s: StoreView, id: Seq<char>, caller: Seq<u8>)
    requires
        s.has(id),
    ensures
        !s.meta(id).is_public && caller != s.meta(id).owner ==> download_result(s, id, caller)
            == Err::<Seq<u8>, StoreError>(StoreError::AccessDenied),
        download_result(s, id, s.meta(id).owner) == Ok::<Seq<u8>, StoreError>(s.content(id)),
{
}

/// A delete by anyone but the owner is refused with `NotOwner` and leaves the
/// record, the content and the index as they were.
pub proof fn lemma_only_owner_deletes(s: StoreView, id: Seq<char>, caller: Seq<u8>)
    requires
        s.has(id),
        caller != s.meta(id).owner,
    ensures
        delete_result(s, id, caller) == Err::<(), StoreError>(StoreError::NotOwner),
        after_delete(s, id, caller) == s,
{
}

/// Listing an owner's files gives exactly the stored files with that owner,
/// each once.
pub proof fn lemma_owner_listing(s: StoreView, owner: Seq<u8>, id: Seq<char>)
    requires
        s.valid(),
    ensures
        s.files.filter(owned_by(owner)).map_values(|m: FileMetadataView| m.id).contains(id) <==> (
        s.has(id) && s.meta(id).owner == owner),
        s.files.filter(owned_by(owner)).map_values(|m: FileMetadataView| m.id).no_duplicates(),
{
    let f = s.files.filter(owned_by(owner));
    let ids = f.map_values(|m: FileMetadataView| m.id);
    broadcast use vstd::seq_lib::group_filter_ensures;
    lemma_filter_ids_distinct(s.files, owner);
    if ids.contains(id) {
        let k = choose|k: int| 0 <= k < ids.len() && ids[k] == id;
        assert(f.contains(f[k]));
        let i = choose|i: int| 0 <= i < s.files.len() && s.files[i] == f[k];
        assert(s.files[i].id == id);
        assert(s.has(id));
        let j = s.slot(id);
        assert(s.files[j].id == id);
        assert(i == j);
    }
    if s.has(id) && s.meta(id).owner == owner {
        let j = s.slot(id);
        assert(owned_by(owner)(s.files[j]));
        assert(f.contains(s.files[j]));
        let k = choose|k: int| 0 <= k < f.len() && f[k] == s.files[j];
        assert(ids[k] == id);
    }
}

/// Every call keeps the store valid.
pub proof fn lemma_step_keeps_valid(s: StoreView, op: StoreOp)
    requires
        s.valid(),
    ensures
        step(s, op).valid(),
{
    let t = step(s, op);
    match op {
        StoreOp::Upload { req, caller, now, entropy } => {
            if let Ok(id) = upload_result(s, req, entropy) {
                let n = s.files.len() as int;
                assert forall|a: int, b: int| 0 <= a < b < t.files.len() implies (
                #[trigger] t.files[a]).id != (#[trigger] t.files[b]).id by {
                    if b == n {
                        assert(s.issued.contains(s.files[a].id));
                    } else {
                        assert(s.files[a].id != s.files[b].id);
                    }
                }
                assert forall|a: int| 0 <= a < t.files.len() implies t.issued.contains(
                    (#[trigger] t.files[a]).id,
                ) && t.files[a].size == t.blobs[a].len() by {
                    if a < n {
                        let k = choose|k: int|
                            0 <= k < s.issued.len() && s.issued[k] == s.files[a].id;
                        assert(t.issued[k] == s.issued[k]);
                        assert(s.files[a].size == s.blobs[a].len());
                    } else {
                        assert(t.issued[s.issued.len() as int] == id);
                    }
                }
                assert forall|a: int, b: int|
                    0 <= a < b < t.issued.len() implies t.issued[a] != t.issued[b] by {
                    if b == s.issued.len() {
                        assert(s.issued.contains(s.issued[a]));
                    }
                }
            }
        },
        StoreOp::Download { id, caller } => {
            if s.has(id) && readable_by(s.meta(id), caller) {
                assert forall|a: int, b: int| 0 <= a < b < t.files.len() implies (
                #[trigger] t.files[a]).id != (#[trigger] t.files[b]).id by {
                    assert(s.files[a].id != s.files[b].id);
                }
                assert forall|a: int| 0 <= a < t.files.len() implies t.issued.contains(
                    (#[trigger] t.files[a]).id,
                ) && t.files[a].size == t.blobs[a].len() by {
                    assert(s.issued.contains(s.files[a].id));
                    assert(s.files[a].size == s.blobs[a].len());
                }
            }
        },
        StoreOp::Delete { id, caller } => {
            if s.has(id) && s.meta(id).owner == caller {
                let i = s.slot(id);
                s.files.remove_ensures(i);
                s.blobs.remove_ensures(i);
                assert forall|a: int, b: int| 0 <= a < b < t.files.len() implies (
                #[trigger] t.files[a]).id != (#[trigger] t.files[b]).id by {
                    let a0 = if a < i { a } else { a + 1 };
                    let b0 = if b < i { b } else { b + 1 };
                    assert(s.files[a0].id != s.files[b0].id);
                }
                assert forall|a: int| 0 <= a < t.files.len() implies t.issued.contains(
                    (#[trigger] t.files[a]).id,
                ) && t.files[a].size == t.blobs[a].len() by {
                    let a0 = if a < i { a } else { a + 1 };
                    assert(s.issued.contains(s.files[a0].id));
                    assert(s.files[a0].size == s.blobs[a0].len());
                }
            }
        },
    }
}

/// Every sequence of calls keeps the store valid.
pub proof fn lemma_run_keeps_valid(s: StoreView, ops: Seq<StoreOp>)
    requires
        s.valid(),
    ensures
        run(s, ops).valid(),
    decreases ops.len(),
{
    if ops.len() > 0 {
        lemma_run_keeps_valid(s, ops.drop_last());
        lemma_step_keeps_valid(run(s, ops.drop_last()), ops.last());
    }
}

/// After any sequence of uploads, fetches and deletes, listing an owner's
/// files gives exactly the stored files with that owner, each once.
pub proof fn lemma_index_consistency(s: StoreView, ops: Seq<StoreOp>, owner: Seq<u8>, id: Seq<char>)
    requires
        s.valid(),
    ensures
        run(s, ops).files.filter(owned_by(owner)).map_values(|m: FileMetadataView| m.id).contains(
            id,
        ) <==> (run(s, ops).has(id) && run(s, ops).meta(id).owner == owner),
        run(s, ops).files.filter(owned_by(owner)).map_values(
            |m: FileMetadataView| m.id,
        ).no_duplicates(),
{
    lemma_run_keeps_valid(s, ops);
    lemma_owner_listing(run(s, ops), owner, id);
}

/// Filtering a sequence of records with distinct ids keeps the ids distinct.
proof fn lemma_filter_ids_distinct(files: Seq<FileMetadataView>, owner: Seq<u8>)
    requires
        forall|i: int, j: int|
            0 <= i < j < files.len() ==> (#[trigger] files[i]).id != (#[trigger] files[j]).id,
    ensures
        files.filter(owned_by(owner)).map_values(|m: FileMetadataView| m.id).no_duplicates(),
        forall|m: FileMetadataView| #[trigger]
            files.filter(owned_by(owner)).contains(m) ==> files.contains(m),
    decreases files.len(),
{
    reveal(Seq::filter);
    if files.len() > 0 {
        let prev = files.drop_last();
        lemma_filter_ids_distinct(prev, owner);
        let last = files.last();
        let f0 = prev.filter(owned_by(owner));
        if owned_by(owner)(last) {
            let ids = files.filter(owned_by(owner)).map_values(|m: FileMetadataView| m.id);
            assert(files.filter(owned_by(owner)) == f0.push(last));
            let ids0 = f0.map_values(|m: FileMetadataView| m.id);
            assert forall|a: int, b: int| 0 <= a < b < ids.len() implies ids[a] != ids[b] by {
                assert(ids[a] == f0.push(last)[a].id);
                assert(ids[b] == f0.push(last)[b].id);
                if b < f0.len() {
                    assert(ids0[a] != ids0[b]);
                } else {
                    assert(f0.contains(f0[a]));
                    let i = choose|i: int| 0 <= i < prev.len() && prev[i] == f0[a];
                    assert(files[i] == prev[i]);
                    assert(files[files.len() - 1] == last);
                    assert(files[i].id != files[files.len() - 1].id);
                }
            }
            assert forall|m: FileMetadataView| #[trigger]
                files.filter(owned_by(owner)).contains(m) implies files.contains(m) by {
                if m != last {
                    let k = choose|k: int| 0 <= k < f0.push(last).len() && f0.push(last)[k] == m;
                    assert(f0.contains(m));
                    let i = choose|i: int| 0 <= i < prev.len() && prev[i] == m;
                    assert(files[i] == m);
                } else {
                    assert(files[files.len() - 1] == m);
                }
            }
        } else {
            assert forall|m: FileMetadataView| #[trigger]
                files.filter(owned_by(owner)).contains(m) implies files.contains(m) by {
                let i = choose|i: int| 0 <= i < prev.len() && prev[i] == m;
                assert(files[i] == m);
            }
        }
    }
}

/// The store after the same file is fetched by each caller in turn.
pub open spec fn fetches(s: StoreView, id: Seq<char>, callers: Seq<Seq<u8>>) -> StoreView
    decreases callers.len(),
{
    if callers.len() == 0 {
        s
    } else {
        after_download(fetches(s, id, callers.drop_last()), id, callers.last())
    }
}

/// How many of the callers may fetch a file with this record.
pub open spec fn allowed_count(m: FileMetadataView, callers: Seq<Seq<u8>>) -> nat
    decreases callers.len(),
{
    if callers.len() == 0 {
        0
    } else {
        allowed_count(m, callers.drop_last()) + if readable_by(m, callers.last()) {
            1nat
        } else {
            0nat
        }
    }
}

/// After a run of fetches of one file, its download counter has grown by the
/// number of fetches that were allowed, and refused ones counted nothing
/// (while the counter stays below `u64::MAX`). Nothing else of the record
/// changes, nor does which file the id names.
pub proof fn lemma_download_counter(s: StoreView, id: Seq<char>, callers: Seq<Seq<u8>>)
    requires
        s.valid(),
        s.has(id),
        s.meta(id).download_count + allowed_count(s.meta(id), callers) <= u64::MAX,
    ensures
        fetches(s, id, callers).has(id),
        fetches(s, id, callers).slot(id) == s.slot(id),
        fetches(s, id, callers).meta(id).download_count == s.meta(id).download_count
            + allowed_count(s.meta(id), callers),
        fetches(s, id, callers).meta(id).is_public == s.meta(id).is_public,
        fetches(s, id, callers).meta(id).owner == s.meta(id).owner,
        fetches(s, id, callers).files.len() == s.files.len(),
        forall|i: int|
            0 <= i < s.files.len() ==> (#[trigger] fetches(s, id, callers).files[i]).id
                == s.files[i].id,
    decreases callers.len(),
{
    if callers.len() > 0 {
        let prev = callers.drop_last();
        lemma_download_counter(s, id, prev);
        let p = fetches(s, id, prev);
        let j = s.slot(id);
        assert(p.files[j].id == id);
        let c = callers.last();
        let q = after_download(p, id, c);
        assert forall|i: int| 0 <= i < s.files.len() implies (#[trigger] q.files[i]).id
            == s.files[i].id by {
            assert(p.files[i].id == s.files[i].id);
        }
        assert(q.files[j].id == id);
        assert(q.has(id));
        let k = q.slot(id);
        assert(q.files[k].id == id);
        if k != j {
            assert(s.files[k].id == s.files[j].id);
            if k < j {
                assert(s.files[k].id != s.files[j].id);
            } else {
                assert(s.files[j].id != s.files[k].id);
            }
        }
    }
}

} // verus!
