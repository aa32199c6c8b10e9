use interlink::explorer::BlockExplorer;


#[test]
fn test_explorer() {
    assert_eq!(BlockExplorer::track_transfer([0; 32]), "pending");
}
