use interlink::blob_space::BlobSpaceManager;


#[test]
fn test_calldata_vs_blob() {
    let (call, blob) = BlobSpaceManager::measure_calldata_vs_blob(1024);
    assert!(blob < call);
    assert_eq!(blob, call / 10);
}

#[test]
fn test_benchmark_proof_submission() {
    let duration_ms = BlobSpaceManager::benchmark_proof_submission();
    assert!(duration_ms < 500); // 150ms
    assert_eq!(duration_ms, 150);
}

