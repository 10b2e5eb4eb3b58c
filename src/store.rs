//! The storage engine: a metadata store, a content store and an owner index,
//! kept consistent with each other, and the access rules on them.
use crate::file_id::{file_id_of, generate_file_id};
use crate::types::{
    copy_bytes, same_bytes, FileMetadata, FileMetadataView, StoreError, UploadRequest,
    UploadRequestView, DEFAULT_REPLICAS, MAX_PAYLOAD,
};
use vstd::prelude::*;

verus! {

/// Raw bytes of one file, under its id.
struct Blob {
    id: String,
    data: Vec<u8>,
}

/// One entry of the owner index: a file id under its owner.
struct IndexEntry {
    owner: Vec<u8>,
    id: String,
}

/// The three stores and the log of every id handed out. Position `i` of the
/// metadata store, the content store and the owner index speak of one file.
pub struct FileStore {
    files: Vec<FileMetadata>,
    blobs: Vec<Blob>,
    index: Vec<IndexEntry>,
    issued: Vec<String>,
}

/// The store as a reader sees it: file records and their contents, position
/// for position, and every id handed out, in the order it was.
pub struct StoreView {
    pub files: Seq<FileMetadataView>,
    pub blobs: Seq<Seq<u8>>,
    pub issued: Seq<Seq<char>>,
}

impl StoreView {
    pub open spec fn has(self, id: Seq<char>) -> bool {
        exists|i: int| 0 <= i < self.files.len() && self.files[i].id == id
    }

    /// Position of the file with this id.
    pub open spec fn slot(self, id: Seq<char>) -> int {
        choose|i: int| 0 <= i < self.files.len() && self.files[i].id == id
    }

    pub open spec fn meta(self, id: Seq<char>) -> FileMetadataView {
        self.files[self.slot(id)]
    }

    pub open spec fn content(self, id: Seq<char>) -> Seq<u8> {
        self.blobs[self.slot(id)]
    }

    /// Every file has content of its recorded size, ids are distinct, every
    /// id in use was handed out, and no id was handed out twice.
    pub open spec fn valid(self) -> bool {
        &&& self.blobs.len() == self.files.len()
        &&& self.issued.no_duplicates()
        &&& forall|i: int, j: int|
            0 <= i < j < self.files.len() ==> (#[trigger] self.files[i]).id != (
            #[trigger] self.files[j]).id
        &&& forall|i: int|
            0 <= i < self.files.len() ==> self.issued.contains((#[trigger] self.files[i]).id)
        &&& forall|i: int|
            0 <= i < self.files.len() ==> (#[trigger] self.files[i]).size == self.blobs[i].len()
    }
}

/// The view of an outcome, with its error kept as it is.
pub open spec fn result_view<T: View>(r: Result<T, StoreError>) -> Result<T::V, StoreError> {
    match r {
        Ok(v) => Ok(v@),
        Err(e) => Err(e),
    }
}

/// Who may fetch a file's content: anyone if it is public, else its owner.
pub open spec fn readable_by(m: FileMetadataView, caller: Seq<u8>) -> bool {
    m.is_public || m.owner == caller
}

/// The record an upload creates.
pub open spec fn new_record(
    id: Seq<char>,
    req: UploadRequestView,
    caller: Seq<u8>,
    now: u64,
) -> FileMetadataView {
    FileMetadataView {
        id,
        name: req.name,
        size: req.data.len() as u64,
        content_type: req.content_type,
        upload_time: now,
        owner: caller,
        download_count: 0,
        replica_count: DEFAULT_REPLICAS,
        is_public: req.is_public,
    }
}

/// What an upload returns: a validation error, a collision with an id
/// handed out before, or the id drawn from the random bytes.
pub open spec fn upload_result(s: StoreView, req: UploadRequestView, entropy: Seq<u8>) -> Result<
    Seq<char>,
    StoreError,
> {
    if req.data.len() == 0 {
        Err(StoreError::EmptyPayload)
    } else if req.data.len() > MAX_PAYLOAD {
        Err(StoreError::PayloadTooLarge)
    } else if s.issued.contains(file_id_of(entropy)) {
        Err(StoreError::IdCollision)
    } else {
        Ok(file_id_of(entropy))
    }
}

/// The store after an upload: on success the record, the content and the id
/// are appended; on failure nothing changes.
pub open spec fn after_upload(
    s: StoreView,
    req: UploadRequestView,
    caller: Seq<u8>,
    now: u64,
    entropy: Seq<u8>,
) -> StoreView {
    match upload_result(s, req, entropy) {
        Ok(id) => StoreView {
            files: s.files.push(new_record(id, req, caller, now)),
            blobs: s.blobs.push(req.data),
            issued: s.issued.push(id),
        },
        Err(_) => s,
    }
}

/// What a metadata fetch returns: the record, or `NotFound`. Anyone may ask.
pub open spec fn metadata_result(s: StoreView, id: Seq<char>) -> Result<
    FileMetadataView,
    StoreError,
> {
    if s.has(id) {
        Ok(s.meta(id))
    } else {
        Err(StoreError::NotFound)
    }
}

/// `n` plus one, staying at `u64::MAX` once there.
pub open spec fn bump(n: u64) -> u64 {
    if n < u64::MAX {
        (n + 1) as u64
    } else {
        n
    }
}

/// A record with one more download counted.
pub open spec fn counted(m: FileMetadataView) -> FileMetadataView {
    FileMetadataView {
        id: m.id,
        name: m.name,
        size: m.size,
        content_type: m.content_type,
        upload_time: m.upload_time,
        owner: m.owner,
        download_count: bump(m.download_count),
        replica_count: m.replica_count,
        is_public: m.is_public,
    }
}

/// What a content fetch returns: `NotFound`, `AccessDenied` for a private
/// file and a caller who does not own it, else the file's bytes.
pub open spec fn download_result(s: StoreView, id: Seq<char>, caller: Seq<u8>) -> Result<
    Seq<u8>,
    StoreError,
> {
    if !s.has(id) {
        Err(StoreError::NotFound)
    } else if !readable_by(s.meta(id), caller) {
        Err(StoreError::AccessDenied)
    } else {
        Ok(s.content(id))
    }
}

/// The store after a content fetch: an allowed fetch counts one download,
/// a refused one changes nothing.
pub open spec fn after_download(s: StoreView, id: Seq<char>, caller: Seq<u8>) -> StoreView {
    if s.has(id) && readable_by(s.meta(id), caller) {
        StoreView { files: s.files.update(s.slot(id), counted(s.meta(id))), ..s }
    } else {
        s
    }
}

/// What a delete returns: `NotFound`, `NotOwner` for anyone but the owner
/// (public or not), else success.
pub open spec fn delete_result(s: StoreView, id: Seq<char>, caller: Seq<u8>) -> Result<
    (),
    StoreError,
> {
    if !s.has(id) {
        Err(StoreError::NotFound)
    } else if s.meta(id).owner != caller {
        Err(StoreError::NotOwner)
    } else {
        Ok(())
    }
}

/// The store after a delete: on success the record and its content go
/// together; the id stays in the log of handed-out ids.
pub open spec fn after_delete(s: StoreView, id: Seq<char>, caller: Seq<u8>) -> StoreView {
    if s.has(id) && s.meta(id).owner == caller {
        StoreView {
            files: s.files.remove(s.slot(id)),
            blobs: s.blobs.remove(s.slot(id)),
            issued: s.issued,
        }
    } else {
        s
    }
}

/// Records owned by `owner`.
pub open spec fn owned_by(owner: Seq<u8>) -> spec_fn(FileMetadataView) -> bool {
    |m: FileMetadataView| m.owner == owner
}

/// Public records.
pub open spec fn is_public_record() -> spec_fn(FileMetadataView) -> bool {
    |m: FileMetadataView| m.is_public
}

/// Sum of the sizes of the records.
pub open spec fn size_total(files: Seq<FileMetadataView>) -> int
    decreases files.len(),
{
    if files.len() == 0 {
        0
    } else {
        size_total(files.drop_last()) + files.last().size
    }
}

/// Sum of the download counters of the records.
pub open spec fn downloads_total(files: Seq<FileMetadataView>) -> int
    decreases files.len(),
{
    if files.len() == 0 {
        0
    } else {
        downloads_total(files.drop_last()) + files.last().download_count
    }
}

/// The views of a list of records.
pub open spec fn records_view(v: Seq<FileMetadata>) -> Seq<FileMetadataView> {
    v.map_values(|m: FileMetadata| m@)
}

impl View for FileStore {
    type V = StoreView;

    closed spec fn view(&self) -> StoreView {
        StoreView {
            files: self.files@.map_values(|f: FileMetadata| f@),
            blobs: self.blobs@.map_values(|b: Blob| b.data@),
            issued: self.issued@.map_values(|s: String| s@),
        }
    }
}

impl FileStore {
    /// The content store and the owner index hold, position for position,
    /// the ids and owners of the metadata store.
    closed spec fn aligned(&self) -> bool {
        &&& self.blobs@.len() == self.files@.len()
        &&& self.index@.len() == self.files@.len()
        &&& forall|i: int|
            0 <= i < self.files@.len() ==> (#[trigger] self.blobs@[i]).id@ == self.files@[i].id@
        &&& forall|i: int|
            0 <= i < self.files@.len() ==> (#[trigger] self.index@[i]).id@ == self.files@[i].id@
                && self.index@[i].owner@ == self.files@[i].owner@
    }

    pub closed spec fn wf(&self) -> bool {
        self@.valid() && self.aligned()
    }

    /// An empty store.
    pub fn new() -> (r: FileStore)
        ensures
            r.wf(),
            r@.files.len() == 0,
            r@.issued.len() == 0,
    {
        let r = FileStore { files: Vec::new(), blobs: Vec::new(), index: Vec::new(), issued: Vec::new() };
        assert(r@.files =~= Seq::empty());
        r
    }

    /// How many files are stored.
    pub fn file_count(&self) -> (r: usize)
        ensures
            r == self@.files.len(),
    {
        self.files.len()
    }

    /// Bytes stored over all files, stopping at `u64::MAX`.
    pub fn storage_total(&self) -> (r: u64)
        ensures
            r == crate::stats::capped(size_total(self@.files)),
    {
        let mut acc: u64 = 0;
        let mut i: usize = 0;
        while i < self.files.len()
            invariant
                i <= self@.files.len(),
                acc == crate::stats::capped(size_total(self@.files.take(i as int))),
                size_total(self@.files.take(i as int)) >= 0,
            decreases self.files.len() - i,
        {
            let ghost t = self@.files.take(i + 1);
            assert(t.drop_last() =~= self@.files.take(i as int));
            assert(t.last() == self@.files[i as int]);
            assert(self@.files[i as int].size == self.files@[i as int].size);
            acc = acc.saturating_add(self.files[i].size);
            i = i + 1;
        }
        assert(self@.files.take(i as int) =~= self@.files);
        acc
    }

    /// Downloads counted over all files, stopping at `u64::MAX`.
    pub fn download_total(&self) -> (r: u64)
        ensures
            r == crate::stats::capped(downloads_total(self@.files)),
    {
        let mut acc: u64 = 0;
        let mut i: usize = 0;
        while i < self.files.len()
            invariant
                i <= self@.files.len(),
                acc == crate::stats::capped(downloads_total(self@.files.take(i as int))),
                downloads_total(self@.files.take(i as int)) >= 0,
            decreases self.files.len() - i,
        {
            let ghost t = self@.files.take(i + 1);
            assert(t.drop_last() =~= self@.files.take(i as int));
            assert(t.last() == self@.files[i as int]);
            assert(self@.files[i as int].download_count == self.files@[i as int].download_count);
            acc = acc.saturating_add(self.files[i].download_count);
            i = i + 1;
        }
        assert(self@.files.take(i as int) =~= self@.files);
        acc
    }

    /// Whether this id was ever handed out.
    fn was_issued(&self, id: &String) -> (r: bool)
        ensures
            r == self@.issued.contains(id@),
    {
        let mut i: usize = 0;
        while i < self.issued.len()
            invariant
                i <= self.issued@.len(),
                forall|k: int| 0 <= k < i ==> self.issued@[k]@ != id@,
            decreases self.issued.len() - i,
        {
            if self.issued[i] == *id {
                assert(self@.issued[i as int] == id@);
                return true;
            }
            i = i + 1;
        }
        assert forall|k: int| 0 <= k < self@.issued.len() implies self@.issued[k] != id@ by {
            assert(self@.issued[k] == self.issued@[k]@);
        }
        false
    }

    /// Position of the file with this id, if there is one.
    fn find_slot(&self, id: &String) -> (r: Option<usize>)
        requires
            self.wf(),
        ensures
            match r {
                Some(i) => self@.has(id@) && i as int == self@.slot(id@) && i < self@.files.len(),
                None => !self@.has(id@),
            },
    {
        let mut i: usize = 0;
        while i < self.files.len()
            invariant
                self.wf(),
                i <= self.files@.len(),
                forall|k: int| 0 <= k < i ==> self@.files[k].id != id@,
            decreases self.files.len() - i,
        {
            if self.files[i].id == *id {
                assert(self@.files[i as int].id == id@);
                assert(self@.has(id@));
                let ghost j = self@.slot(id@);
                assert(self@.files[j].id == id@);
                return Some(i);
            }
            assert(self@.files[i as int] == self.files@[i as int]@);
            i = i + 1;
        }
        proof {
            false_has(self@, id@);
        }
        None
    }
}

proof fn false_has(s: StoreView, id: Seq<char>)
    requires
        forall|k: int| 0 <= k < s.files.len() ==> s.files[k].id != id,
    ensures
        !s.has(id),
{
}

/// Stores a new file for `caller`, under an id drawn from `entropy`.
///
/// Refuses an empty or oversized payload, and an id that was ever handed out
/// before (the caller retries with fresh random bytes). On success the
/// record (with no downloads yet), the content and the index entry are added
/// together; on failure nothing changes.
pub fn upload_file(
    store: &mut FileStore,
    request: UploadRequest,
    caller: &Vec<u8>,
    now: u64,
    entropy: &Vec<u8>,
) -> (r: Result<String, StoreError>)
    requires
        old(store).wf(),
    ensures
        final(store).wf(),
        result_view(r) == upload_result(old(store)@, request@, entropy@),
        final(store)@ == after_upload(old(store)@, request@, caller@, now, entropy@),
{
    let ghost s0 = store@;
    let ghost req = request@;
    let len = request.data.len();
    if len == 0 {
        return Err(StoreError::EmptyPayload);
    }
    if len > MAX_PAYLOAD {
        return Err(StoreError::PayloadTooLarge);
    }
    let id = generate_file_id(entropy);
    if store.was_issued(&id) {
        return Err(StoreError::IdCollision);
    }
    let UploadRequest { name, content_type, data, is_public } = request;
    let meta = FileMetadata {
        id: id.clone(),
        name,
        size: len as u64,
        content_type,
        upload_time: now,
        owner: copy_bytes(caller),
        download_count: 0,
        replica_count: DEFAULT_REPLICAS,
        is_public,
    };
    assert(meta@ == new_record(id@, req, caller@, now));
    store.files.push(meta);
    store.blobs.push(Blob { id: id.clone(), data });
    store.index.push(IndexEntry { owner: copy_bytes(caller), id: id.clone() });
    store.issued.push(id.clone());
    proof {
        let s1 = after_upload(s0, req, caller@, now, entropy@);
        assert(store@.files =~= s1.files);
        assert(store@.blobs =~= s1.blobs);
        assert(store@.issued =~= s1.issued);
        assert forall|i: int| 0 <= i < store@.files.len() implies store@.issued.contains(
            #[trigger] store@.files[i].id,
        ) by {
            if i < s0.files.len() {
                let k = choose|k: int| 0 <= k < s0.issued.len() && s0.issued[k] == s0.files[i].id;
                assert(store@.issued[k] == s0.issued[k]);
            } else {
                assert(store@.issued[s0.issued.len() as int] == id@);
            }
        }
        assert forall|a: int, b: int|
            0 <= a < b < store@.issued.len() implies store@.issued[a] != store@.issued[b] by {
            if b == s0.issued.len() {
                assert(s0.issued.contains(s0.issued[a]));
            }
        }
    }
    Ok(id)
}

/// The record of a file, whoever asks, or `NotFound`.
pub fn get_file_metadata(store: &FileStore, file_id: String) -> (r: Result<
    FileMetadata,
    StoreError,
>)
    requires
        store.wf(),
    ensures
        result_view(r) == metadata_result(store@, file_id@),
{
    match store.find_slot(&file_id) {
        Some(i) => {
            let m = store.files[i].copy();
            assert(m@ == store@.files[i as int]);
            Ok(m)
        },
        None => Err(StoreError::NotFound),
    }
}

/// The content of a file, for anyone if it is public and only for its owner
/// if not. An allowed fetch counts one more download (the counter stays at
/// `u64::MAX` once there); a refused one changes nothing.
pub fn download_file(store: &mut FileStore, file_id: String, caller: &Vec<u8>) -> (r: Result<
    Vec<u8>,
    StoreError,
>)
    requires
        old(store).wf(),
    ensures
        final(store).wf(),
        result_view(r) == download_result(old(store)@, file_id@, caller@),
        final(store)@ == after_download(old(store)@, file_id@, caller@),
{
    let ghost s0 = store@;
    let i = match store.find_slot(&file_id) {
        Some(i) => i,
        None => return Err(StoreError::NotFound),
    };
    if !store.files[i].is_public && !same_bytes(&store.files[i].owner, caller) {
        return Err(StoreError::AccessDenied);
    }
    let mut rec = store.files.remove(i);
    if rec.download_count < u64::MAX {
        rec.download_count = rec.download_count + 1;
    }
    store.files.insert(i, rec);
    // The content store holds this id's bytes at the same position, so the
    // record can never be found without its content.
    let data = copy_bytes(&store.blobs[i].data);
    proof {
        let s1 = after_download(s0, file_id@, caller@);
        assert(store@.files =~= s1.files);
        assert(store@.blobs =~= s1.blobs);
        assert(store@.issued =~= s1.issued);
        assert(store.files@[i as int].id@ == s0.files[i as int].id);
        assert forall|a: int, b: int| 0 <= a < b < store@.files.len() implies (
        #[trigger] store@.files[a]).id != (#[trigger] store@.files[b]).id by {
            assert(s0.files[a].id != s0.files[b].id);
        }
        assert forall|a: int| 0 <= a < store@.files.len() implies store@.issued.contains(
            (#[trigger] store@.files[a]).id,
        ) && store@.files[a].size == store@.blobs[a].len() by {
            assert(s0.issued.contains(s0.files[a].id));
            assert(s0.files[a].size == s0.blobs[a].len());
        }
    }
    Ok(data)
}

/// Removes a file, its content and its index entry together. Only the owner
/// may, public file or not; a second delete of the same id finds nothing.
pub fn delete_file(store: &mut FileStore, file_id: String, caller: &Vec<u8>) -> (r: Result<
    (),
    StoreError,
>)
    requires
        old(store).wf(),
    ensures
        final(store).wf(),
        r == delete_result(old(store)@, file_id@, caller@),
        final(store)@ == after_delete(old(store)@, file_id@, caller@),
{
    let ghost s0 = store@;
    let i = match store.find_slot(&file_id) {
        Some(i) => i,
        None => return Err(StoreError::NotFound),
    };
    if !same_bytes(&store.files[i].owner, caller) {
        return Err(StoreError::NotOwner);
    }
    let ghost f0 = store.files@;
    let ghost b0 = store.blobs@;
    let ghost x0 = store.index@;
    store.files.remove(i);
    store.blobs.remove(i);
    store.index.remove(i);
    proof {
        let s1 = after_delete(s0, file_id@, caller@);
        f0.remove_ensures(i as int);
        b0.remove_ensures(i as int);
        x0.remove_ensures(i as int);
        s0.files.remove_ensures(i as int);
        s0.blobs.remove_ensures(i as int);
        assert(store@.files =~= s1.files);
        assert(store@.blobs =~= s1.blobs);
        assert(store@.issued =~= s1.issued);
        assert forall|a: int, b: int| 0 <= a < b < store@.files.len() implies (
        #[trigger] store@.files[a]).id != (#[trigger] store@.files[b]).id by {
            let a0 = if a < i { a } else { a + 1 };
            let b0 = if b < i { b } else { b + 1 };
            assert(s0.files[a0].id != s0.files[b0].id);
        }
        assert forall|a: int| 0 <= a < store@.files.len() implies store@.issued.contains(
            (#[trigger] store@.files[a]).id,
        ) && store@.files[a].size == store@.blobs[a].len() by {
            let a0 = if a < i { a } else { a + 1 };
            assert(s0.issued.contains(s0.files[a0].id));
            assert(s0.files[a0].size == s0.blobs[a0].len());
        }
        assert forall|a: int| 0 <= a < store.files@.len() implies (#[trigger] store.blobs@[a]).id@
            == store.files@[a].id@ && store.index@[a].id@ == store.files@[a].id@
            && store.index@[a].owner@ == store.files@[a].owner@ by {
            let a0 = if a < i { a } else { a + 1 };
            assert(b0[a0].id@ == f0[a0].id@);
            assert(x0[a0].id@ == f0[a0].id@);
        }
    }
    Ok(())
}

/// Every file the caller owns, found through the owner index, in the order
/// they were uploaded.
pub fn list_user_files(store: &FileStore, caller: &Vec<u8>) -> (r: Vec<FileMetadata>)
    requires
        store.wf(),
    ensures
        records_view(r@) == store@.files.filter(owned_by(caller@)),
{
    let mut out: Vec<FileMetadata> = Vec::new();
    let mut i: usize = 0;
    while i < store.index.len()
        invariant
            store.wf(),
            i <= store@.files.len(),
            records_view(out@) == store@.files.take(i as int).filter(owned_by(caller@)),
        decreases store.index.len() - i,
    {
        let ghost prev = out@;
        let mine = same_bytes(&store.index[i].owner, caller);
        if mine {
            out.push(store.files[i].copy());
        }
        proof {
            let t = store@.files.take(i + 1);
            assert(t.drop_last() =~= store@.files.take(i as int));
            assert(t.last() == store@.files[i as int]);
            reveal(Seq::filter);
            if mine {
                assert(records_view(out@) =~= records_view(prev).push(store@.files[i as int]));
            } else {
                assert(records_view(out@) =~= records_view(prev));
            }
        }
        i = i + 1;
    }
    assert(store@.files.take(i as int) =~= store@.files);
    out
}

/// Every public file, from a scan of the whole metadata store.
pub fn list_public_files(store: &FileStore) -> (r: Vec<FileMetadata>)
    requires
        store.wf(),
    ensures
        records_view(r@) == store@.files.filter(is_public_record()),
{
    let mut out: Vec<FileMetadata> = Vec::new();
    let mut i: usize = 0;
    while i < store.files.len()
        invariant
            store.wf(),
            i <= store@.files.len(),
            records_view(out@) == store@.files.take(i as int).filter(is_public_record()),
        decreases store.files.len() - i,
    {
        let ghost prev = out@;
        let public = store.files[i].is_public;
        if public {
            out.push(store.files[i].copy());
        }
        proof {
            let t = store@.files.take(i + 1);
            assert(t.drop_last() =~= store@.files.take(i as int));
            assert(t.last() == store@.files[i as int]);
            reveal(Seq::filter);
            if public {
                assert(records_view(out@) =~= records_view(prev).push(store@.files[i as int]));
            } else {
                assert(records_view(out@) =~= records_view(prev));
            }
        }
        i = i + 1;
    }
    assert(store@.files.take(i as int) =~= store@.files);
    out
}

} // verus!
