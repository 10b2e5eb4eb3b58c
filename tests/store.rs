use dcdn_backend::file_id::{generate_file_id, id_from_digest};
use dcdn_backend::registry::{list_nodes, register_node, update_node_heartbeat, NodeRegistry};
use dcdn_backend::stats::get_network_stats;
use dcdn_backend::store::{
    delete_file, download_file, get_file_metadata, list_public_files, list_user_files,
    upload_file, FileStore,
};
use dcdn_backend::types::{NodeInfo, StoreError, UploadRequest, MAX_PAYLOAD};

fn request(name: &str, data: Vec<u8>, is_public: bool) -> UploadRequest {
    UploadRequest {
        name: name.to_string(),
        content_type: "text/plain".to_string(),
        data,
        is_public,
    }
}

fn u1() -> Vec<u8> {
    vec![1, 1, 1]
}

fn u2() -> Vec<u8> {
    vec![2, 2]
}

fn node(id: &str, last_seen: u64) -> NodeInfo {
    NodeInfo {
        id: id.to_string(),
        location: "eu-west".to_string(),
        storage_capacity: 1000,
        used_storage: 10,
        uptime_percentage_bits: 99.5f64.to_bits(),
        last_seen,
        node_type: "edge".to_string(),
    }
}

#[test]
fn id_is_hex_of_digest_prefix() {
    let digest: Vec<u8> = vec![0x00, 0x0f, 0xa0, 0xff, 0x12, 0x34, 0xab, 0xcd, 0x99, 0x88];
    assert_eq!(id_from_digest(&digest), "000fa0ff1234abcd");
}

#[test]
fn id_comes_from_sha256_of_entropy() {
    // SHA-256 of the empty input starts with e3b0c44298fc1c14.
    assert_eq!(generate_file_id(&Vec::new()), "e3b0c44298fc1c14");
    // SHA-256 of "abc" starts with ba7816bf8f01cfea.
    assert_eq!(generate_file_id(&b"abc".to_vec()), "ba7816bf8f01cfea");
}

#[test]
fn private_file_scenario() {
    let mut store = FileStore::new();
    let x = upload_file(&mut store, request("a.txt", vec![1, 2, 3], false), &u1(), 7, &vec![9])
        .unwrap();
    assert_eq!(x.len(), 16);
    assert_eq!(download_file(&mut store, x.clone(), &u1()), Ok(vec![1, 2, 3]));
    assert_eq!(get_file_metadata(&store, x.clone()).unwrap().download_count, 1);
    assert_eq!(download_file(&mut store, x.clone(), &u2()), Err(StoreError::AccessDenied));
    assert_eq!(delete_file(&mut store, x.clone(), &u2()), Err(StoreError::NotOwner));
    assert_eq!(delete_file(&mut store, x.clone(), &u1()), Ok(()));
    assert_eq!(get_file_metadata(&store, x.clone()).unwrap_err(), StoreError::NotFound);
}

#[test]
fn empty_payload_allocates_nothing() {
    let mut store = FileStore::new();
    assert_eq!(
        upload_file(&mut store, request("e", vec![], true), &u1(), 1, &vec![1]),
        Err(StoreError::EmptyPayload)
    );
    assert!(list_user_files(&store, &u1()).is_empty());
    // The id that upload would have drawn is still free.
    assert!(upload_file(&mut store, request("e", vec![5], true), &u1(), 1, &vec![1]).is_ok());
}

#[test]
fn oversized_payload_is_refused() {
    let mut store = FileStore::new();
    let big = vec![0u8; MAX_PAYLOAD + 1];
    assert_eq!(
        upload_file(&mut store, request("big", big, true), &u1(), 1, &vec![1]),
        Err(StoreError::PayloadTooLarge)
    );
    assert_eq!(get_network_stats(&store, &NodeRegistry::new()).total_files, 0);
}

#[test]
fn metadata_records_the_upload() {
    let mut store = FileStore::new();
    let x = upload_file(&mut store, request("a.txt", vec![4, 5], true), &u1(), 42, &vec![3])
        .unwrap();
    let m = get_file_metadata(&store, x.clone()).unwrap();
    assert_eq!(m.id, x);
    assert_eq!(m.name, "a.txt");
    assert_eq!(m.content_type, "text/plain");
    assert_eq!(m.size, 2);
    assert_eq!(m.upload_time, 42);
    assert_eq!(m.owner, u1());
    assert_eq!(m.download_count, 0);
    assert_eq!(m.replica_count, 3);
    assert!(m.is_public);
}

#[test]
fn ids_are_never_handed_out_twice() {
    let mut store = FileStore::new();
    let a = upload_file(&mut store, request("a", vec![1], false), &u1(), 1, &vec![1]).unwrap();
    assert_eq!(
        upload_file(&mut store, request("b", vec![2], false), &u2(), 2, &vec![1]),
        Err(StoreError::IdCollision)
    );
    let b = upload_file(&mut store, request("b", vec![2], false), &u2(), 2, &vec![2]).unwrap();
    assert_ne!(a, b);
    assert_eq!(delete_file(&mut store, a.clone(), &u1()), Ok(()));
    // Even after its file is gone, the id stays taken.
    assert_eq!(
        upload_file(&mut store, request("c", vec![3], false), &u1(), 3, &vec![1]),
        Err(StoreError::IdCollision)
    );
}

#[test]
fn round_trip_returns_the_payload() {
    let mut store = FileStore::new();
    let payload: Vec<u8> = (0..=255).collect();
    let x = upload_file(&mut store, request("p", payload.clone(), false), &u2(), 5, &vec![8])
        .unwrap();
    assert_eq!(download_file(&mut store, x, &u2()), Ok(payload));
}

#[test]
fn public_file_is_readable_by_anyone() {
    let mut store = FileStore::new();
    let x = upload_file(&mut store, request("p", vec![7], true), &u1(), 5, &vec![8]).unwrap();
    assert_eq!(download_file(&mut store, x.clone(), &u2()), Ok(vec![7]));
    assert_eq!(download_file(&mut store, x.clone(), &u1()), Ok(vec![7]));
    assert_eq!(get_file_metadata(&store, x).unwrap().download_count, 2);
}

#[test]
fn public_file_is_deleted_by_owner_only() {
    let mut store = FileStore::new();
    let x = upload_file(&mut store, request("p", vec![7], true), &u1(), 5, &vec![8]).unwrap();
    assert_eq!(delete_file(&mut store, x.clone(), &u2()), Err(StoreError::NotOwner));
    assert_eq!(download_file(&mut store, x.clone(), &u2()), Ok(vec![7]));
    assert_eq!(list_user_files(&store, &u1()).len(), 1);
    assert_eq!(delete_file(&mut store, x.clone(), &u1()), Ok(()));
    assert_eq!(delete_file(&mut store, x.clone(), &u1()), Err(StoreError::NotFound));
}

#[test]
fn missing_file_is_not_found() {
    let mut store = FileStore::new();
    assert_eq!(
        download_file(&mut store, "0123456789abcdef".to_string(), &u1()),
        Err(StoreError::NotFound)
    );
    assert_eq!(
        delete_file(&mut store, "0123456789abcdef".to_string(), &u1()),
        Err(StoreError::NotFound)
    );
}

#[test]
fn listings_follow_uploads_and_deletes() {
    let mut store = FileStore::new();
    let a = upload_file(&mut store, request("a", vec![1], false), &u1(), 1, &vec![1]).unwrap();
    let b = upload_file(&mut store, request("b", vec![2], true), &u2(), 2, &vec![2]).unwrap();
    let c = upload_file(&mut store, request("c", vec![3], true), &u1(), 3, &vec![3]).unwrap();
    let mine: Vec<String> = list_user_files(&store, &u1()).into_iter().map(|m| m.id).collect();
    assert_eq!(mine, vec![a.clone(), c.clone()]);
    let theirs: Vec<String> = list_user_files(&store, &u2()).into_iter().map(|m| m.id).collect();
    assert_eq!(theirs, vec![b.clone()]);
    let public: Vec<String> = list_public_files(&store).into_iter().map(|m| m.id).collect();
    assert_eq!(public, vec![b.clone(), c.clone()]);
    assert_eq!(delete_file(&mut store, c.clone(), &u1()), Ok(()));
    let mine: Vec<String> = list_user_files(&store, &u1()).into_iter().map(|m| m.id).collect();
    assert_eq!(mine, vec![a]);
    let public: Vec<String> = list_public_files(&store).into_iter().map(|m| m.id).collect();
    assert_eq!(public, vec![b]);
    assert!(list_user_files(&store, &vec![3]).is_empty());
}

#[test]
fn counter_counts_allowed_fetches_only() {
    let mut store = FileStore::new();
    let x = upload_file(&mut store, request("a", vec![1], false), &u1(), 1, &vec![1]).unwrap();
    for _ in 0..3 {
        assert!(download_file(&mut store, x.clone(), &u1()).is_ok());
        assert!(download_file(&mut store, x.clone(), &u2()).is_err());
    }
    assert_eq!(get_file_metadata(&store, x).unwrap().download_count, 3);
}

#[test]
fn stats_sum_over_files_and_nodes() {
    let mut store = FileStore::new();
    let mut registry = NodeRegistry::new();
    let a = upload_file(&mut store, request("a", vec![1, 2, 3], true), &u1(), 1, &vec![1])
        .unwrap();
    upload_file(&mut store, request("b", vec![4, 5], true), &u2(), 2, &vec![2]).unwrap();
    download_file(&mut store, a.clone(), &u2()).unwrap();
    download_file(&mut store, a, &u1()).unwrap();
    register_node(&mut registry, node("n1", 0), 10).unwrap();
    let s = get_network_stats(&store, &registry);
    assert_eq!(s.total_files, 2);
    assert_eq!(s.total_storage, 5);
    assert_eq!(s.total_downloads, 2);
    assert_eq!(s.active_nodes, 1);
}

#[test]
fn register_stamps_and_overwrites() {
    let mut registry = NodeRegistry::new();
    assert_eq!(register_node(&mut registry, node("n1", 999), 10), Ok(()));
    assert_eq!(register_node(&mut registry, node("n2", 5), 11), Ok(()));
    let mut again = node("n1", 3);
    again.location = "us-east".to_string();
    assert_eq!(register_node(&mut registry, again, 12), Ok(()));
    let nodes = list_nodes(&registry);
    assert_eq!(nodes.len(), 2);
    assert_eq!(nodes[0].id, "n1");
    assert_eq!(nodes[0].location, "us-east");
    assert_eq!(nodes[0].last_seen, 12);
    assert_eq!(nodes[1].last_seen, 11);
    assert_eq!(nodes[1].uptime_percentage_bits, 99.5f64.to_bits());
}

#[test]
fn heartbeat_refreshes_known_nodes_only() {
    let mut registry = NodeRegistry::new();
    register_node(&mut registry, node("n1", 0), 10).unwrap();
    assert_eq!(update_node_heartbeat(&mut registry, "n1".to_string(), 20), Ok(()));
    assert_eq!(
        update_node_heartbeat(&mut registry, "nx".to_string(), 21),
        Err(StoreError::NotFound)
    );
    let nodes = list_nodes(&registry);
    assert_eq!(nodes.len(), 1);
    assert_eq!(nodes[0].last_seen, 20);
    assert_eq!(nodes[0].location, "eu-west");
}
