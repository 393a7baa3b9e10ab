use gatekeeper::error::ErrorKind;
use gatekeeper::winner::{
    generate_voter_id, pick, pick_at, pick_winner, uppercase_ascii, VotingSession, VOTER_ID_LEN,
};

#[test]
fn empty_pool_and_single_participant() {
    let empty: Vec<i32> = Vec::new();
    assert_eq!(pick(&empty), Err(ErrorKind::EmptyPool));
    let one = vec![42];
    for _ in 0..20 {
        assert_eq!(pick(&one), Ok(&42));
    }
}

#[test]
fn pick_returns_a_member() {
    let pool: Vec<i32> = (0..100).collect();
    let mut seen = std::collections::HashSet::new();
    for _ in 0..200 {
        let x = *pick(&pool).unwrap();
        assert!((0..100).contains(&x));
        seen.insert(x);
    }
    assert!(seen.len() > 1);
}

#[test]
fn pick_at_is_exact() {
    let pool = vec!["a", "b", "c"];
    assert_eq!(pick_at(&pool, 0), Ok(&"a"));
    assert_eq!(pick_at(&pool, 2), Ok(&"c"));
    let empty: Vec<&str> = Vec::new();
    assert_eq!(pick_at(&empty, 0), Err(ErrorKind::EmptyPool));
}

#[test]
fn lottery_names_a_participant() {
    assert_eq!(pick_winner(&Vec::new()).err(), Some(ErrorKind::EmptyPool));
    let sessions = vec![VotingSession {
        session_token: "tok".to_string(),
        display_name: "Ada".to_string(),
        voter_id: "AB12C".to_string(),
    }];
    let w = pick_winner(&sessions).unwrap();
    assert_eq!(w.name, "Ada");
    assert_eq!(w.voter_id, "AB12C");
}

#[test]
fn uppercase_only_changes_lower_case_letters() {
    assert_eq!(uppercase_ascii(&b"aZ9z_m".to_vec()), b"AZ9Z_M".to_vec());
    assert_eq!(uppercase_ascii(&Vec::new()), Vec::<u8>::new());
}

#[test]
fn voter_ids_are_upper_case_alphanumerics() {
    let mut distinct = std::collections::HashSet::new();
    for _ in 0..50 {
        let id = generate_voter_id();
        assert_eq!(id.len(), VOTER_ID_LEN);
        assert!(id.chars().all(|c| c.is_ascii_digit() || c.is_ascii_uppercase()));
        distinct.insert(id);
    }
    assert!(distinct.len() > 1);
}

#[test]
fn created_session_keeps_the_name() {
    let s = VotingSession::create("Grace".to_string());
    assert_eq!(s.display_name, "Grace");
    assert_eq!(s.session_token.len(), 36);
    assert_eq!(s.voter_id.len(), VOTER_ID_LEN);
    let t = VotingSession::create("Grace".to_string());
    assert_ne!(s.session_token, t.session_token);
}
