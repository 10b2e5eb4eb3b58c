//! The records the store and the node registry keep, and their views.
use vstd::prelude::*;

verus! {

/// Largest payload an upload accepts, in bytes.
pub const MAX_PAYLOAD: usize = 100_000_000;

/// Replication factor recorded on every new file; nothing acts on it.
pub const DEFAULT_REPLICAS: u8 = 3;

/// Why an operation was refused. Every refusal leaves the state unchanged.
#[derive(Clone, Copy, Debug, PartialEq, Eq, Structural)]
pub enum StoreError {
    EmptyPayload,
    PayloadTooLarge,
    /// The id drawn for an upload was handed out before; retry with fresh bytes.
    IdCollision,
    NotFound,
    AccessDenied,
    NotOwner,
}

/// Descriptive record of one stored file. `owner` holds the uploader's
/// principal as bytes.
#[derive(Clone, Debug)]
pub struct FileMetadata {
    pub id: String,
    pub name: String,
    pub size: u64,
    pub content_type: String,
    pub upload_time: u64,
    pub owner: Vec<u8>,
    pub download_count: u64,
    pub replica_count: u8,
    pub is_public: bool,
}

pub struct FileMetadataView {
    pub id: Seq<char>,
    pub name: Seq<char>,
    pub size: u64,
    pub content_type: Seq<char>,
    pub upload_time: u64,
    pub owner: Seq<u8>,
    pub download_count: u64,
    pub replica_count: u8,
    pub is_public: bool,
}

impl View for FileMetadata {
    type V = FileMetadataView;

    open spec fn view(&self) -> FileMetadataView {
        FileMetadataView {
            id: self.id@,
            name: self.name@,
            size: self.size,
            content_type: self.content_type@,
            upload_time: self.upload_time,
            owner: self.owner@,
            download_count: self.download_count,
            replica_count: self.replica_count,
            is_public: self.is_public,
        }
    }
}

/// What a caller hands in to store a file.
#[derive(Clone, Debug)]
pub struct UploadRequest {
    pub name: String,
    pub content_type: String,
    pub data: Vec<u8>,
    pub is_public: bool,
}

pub struct UploadRequestView {
    pub name: Seq<char>,
    pub content_type: Seq<char>,
    pub data: Seq<u8>,
    pub is_public: bool,
}

impl View for UploadRequest {
    type V = UploadRequestView;

    open spec fn view(&self) -> UploadRequestView {
        UploadRequestView {
            name: self.name@,
            content_type: self.content_type@,
            data: self.data@,
            is_public: self.is_public,
        }
    }
}

/// One piece of a file sent in parts. No operation assembles them.
#[derive(Clone, Debug)]
pub struct FileChunk {
    pub file_id: String,
    pub chunk_index: u32,
    pub data: Vec<u8>,
    pub total_chunks: u32,
}

/// What a storage node advertises. The uptime percentage is kept as the
/// bit pattern of its IEEE-754 double; nothing here reads it.
#[derive(Clone, Debug)]
pub struct NodeInfo {
    pub id: String,
    pub location: String,
    pub storage_capacity: u64,
    pub used_storage: u64,
    pub uptime_percentage_bits: u64,
    pub last_seen: u64,
    pub node_type: String,
}

pub struct NodeInfoView {
    pub id: Seq<char>,
    pub location: Seq<char>,
    pub storage_capacity: u64,
    pub used_storage: u64,
    pub uptime_percentage_bits: u64,
    pub last_seen: u64,
    pub node_type: Seq<char>,
}

impl View for NodeInfo {
    type V = NodeInfoView;

    open spec fn view(&self) -> NodeInfoView {
        NodeInfoView {
            id: self.id@,
            location: self.location@,
            storage_capacity: self.storage_capacity,
            used_storage: self.used_storage,
            uptime_percentage_bits: self.uptime_percentage_bits,
            last_seen: self.last_seen,
            node_type: self.node_type@,
        }
    }
}

/// Totals over the store and the registry, computed afresh on each call.
/// Sums that would pass `u64::MAX` stop there.
#[derive(Clone, Copy, Debug, PartialEq, Eq, Structural)]
pub struct NetworkStats {
    pub total_files: u64,
    pub total_storage: u64,
    pub total_downloads: u64,
    pub active_nodes: u64,
}

/// A copy of a byte vector.
pub fn copy_bytes(v: &Vec<u8>) -> (r: Vec<u8>)
    ensures
        r@ == v@,
{
    let mut r: Vec<u8> = Vec::new();
    let mut i: usize = 0;
    while i < v.len()
        invariant
            i <= v@.len(),
            r@ == v@.take(i as int),
        decreases v.len() - i,
    {
        r.push(v[i]);
        assert(v@.take(i + 1) =~= v@.take(i as int).push(v@[i as int]));
        i = i + 1;
    }
    assert(v@.take(v@.len() as int) =~= v@);
    r
}

/// Whether two byte vectors hold the same bytes.
pub fn same_bytes(a: &Vec<u8>, b: &Vec<u8>) -> (r: bool)
    ensures
        r == (a@ == b@),
{
    if a.len() != b.len() {
        return false;
    }
    let mut i: usize = 0;
    while i < a.len()
        invariant
            i <= a@.len() == b@.len(),
            forall|k: int| 0 <= k < i ==> a@[k] == b@[k],
        decreases a.len() - i,
    {
        if a[i] != b[i] {
            return false;
        }
        i = i + 1;
    }
    assert(a@ =~= b@);
    true
}

impl FileMetadata {
    /// A field-for-field copy.
    pub fn copy(&self) -> (r: FileMetadata)
        ensures
            r@ == self@,
    {
        FileMetadata {
            id: self.id.clone(),
            name: self.name.clone(),
            size: self.size,
            content_type: self.content_type.clone(),
            upload_time: self.upload_time,
            owner: copy_bytes(&self.owner),
            download_count: self.download_count,
            replica_count: self.replica_count,
            is_public: self.is_public,
        }
    }
}

impl NodeInfo {
    /// A field-for-field copy.
    pub fn copy(&self) -> (r: NodeInfo)
        ensures
            r@ == self@,
    {
        NodeInfo {
            id: self.id.clone(),
            location: self.location.clone(),
            storage_capacity: self.storage_capacity,
            used_storage: self.used_storage,
            uptime_percentage_bits: self.uptime_percentage_bits,
            last_seen: self.last_seen,
            node_type: self.node_type.clone(),
        }
    }
}

} // verus!
