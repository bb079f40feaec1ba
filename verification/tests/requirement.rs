use freeq::requirement::{describe_requirement, extract_accept_hash, Requirement};

fn accept(h: &str) -> Requirement {
    Requirement::Accept { hash: h.to_string() }
}

#[test]
fn accept_hashes_are_collected_once() {
    let r = Requirement::All {
        requirements: vec![
            accept("aaa"),
            Requirement::Any {
                requirements: vec![
                    accept("bbb"),
                    Requirement::Not { requirement: Box::new(accept("aaa")) },
                ],
            },
            Requirement::Prove { proof_type: "x".into() },
        ],
    };
    let mut hs = extract_accept_hash(&r);
    hs.sort();
    assert_eq!(hs, vec!["aaa".to_string(), "bbb".to_string()]);
    assert!(extract_accept_hash(&Requirement::Prove { proof_type: "p".into() }).is_empty());
}

#[test]
fn requirement_descriptions() {
    assert_eq!(
        describe_requirement(&accept("0123456789abcdef")),
        "ACCEPT(0123456789ab...)"
    );
    assert_eq!(describe_requirement(&accept("abc")), "ACCEPT(abc...)");
    let r = Requirement::All {
        requirements: vec![
            accept("0123456789abcdef"),
            Requirement::Present { credential_type: "github_membership".into(), issuer: Some("github".into()) },
        ],
    };
    assert_eq!(
        describe_requirement(&r),
        "ALL(ACCEPT(0123456789ab...), PRESENT(github_membership, issuer=github))"
    );
    let n = Requirement::Not {
        requirement: Box::new(Requirement::Any {
            requirements: vec![
                Requirement::Prove { proof_type: "pow".into() },
                Requirement::Present { credential_type: "t".into(), issuer: None },
            ],
        }),
    };
    assert_eq!(describe_requirement(&n), "NOT(ANY(PROVE(pow), PRESENT(t)))");
    assert_eq!(describe_requirement(&Requirement::All { requirements: vec![] }), "ALL()");
}
