use interlink::formal_verification::VerificationAuditor;


#[test]
fn test_verification() {
    assert!(VerificationAuditor::verify_constraint_satisfiability());
    assert!(VerificationAuditor::parse_third_party_audit());
}
