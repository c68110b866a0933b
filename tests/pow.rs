use wasm_pow::get_version;
use wasm_pow::hash::digest_meets_difficulty;
use wasm_pow::message::pow_message;
use wasm_pow::solver::compute_pow_solution;
use wasm_pow::solver::verify_solution;
use wasm_pow::solver::POWSolver;
use wasm_pow::solver::PowError;

#[test]
fn test_solve_single() {
    let solver = POWSolver::new("test-uuid-123".to_string(), 2);
    let solution = solver.solve_single(0).unwrap();

    assert!(verify_solution("test-uuid-123", 0, solution, 2));
}

#[test]
fn test_solve_batch() {
    let solver = POWSolver::new("test-uuid-456".to_string(), 2);
    let solutions = solver.solve_batch(0, 5);

    assert_eq!(solutions.len(), 5);

    for (i, outcome) in solutions.iter().enumerate() {
        let solution = outcome.unwrap();
        assert!(verify_solution("test-uuid-456", i as u32, solution, 2));
    }
}

#[test]
fn test_compute_pow_solution() {
    let solution = compute_pow_solution("test-uuid-789", 0, 2).unwrap();
    assert!(verify_solution("test-uuid-789", 0, solution, 2));
}

#[test]
fn least_solution_is_returned() {
    let c = compute_pow_solution("test-uuid-123", 0, 2).unwrap();
    assert!(verify_solution("test-uuid-123", 0, c, 2));
    for k in 0..c {
        assert!(!verify_solution("test-uuid-123", 0, k, 2));
    }
}

#[test]
fn fixed_vectors_pin_the_message_format() {
    assert_eq!(compute_pow_solution("test-uuid-123", 0, 2), Ok(114));
    assert_eq!(compute_pow_solution("test-uuid-123", 0, 3), Ok(238));
    assert_eq!(compute_pow_solution("test-uuid-123", 7, 1), Ok(22));
    assert_eq!(compute_pow_solution("test-uuid-789", 0, 2), Ok(9));
}

#[test]
fn batch_fixed_vector() {
    let solver = POWSolver::new("test-uuid-456".to_string(), 2);
    let expected: Vec<Result<u32, PowError>> = vec![Ok(107), Ok(26), Ok(173), Ok(82), Ok(190)];
    assert_eq!(solver.solve_batch(0, 5), expected);
}

#[test]
fn difficulty_zero_gives_candidate_zero() {
    assert_eq!(compute_pow_solution("test-uuid-123", 0, 0), Ok(0));
    assert_eq!(compute_pow_solution("another", 4_000_000_000, 0), Ok(0));
    let solver = POWSolver::new("x".to_string(), 0);
    assert_eq!(solver.solve_single(u32::MAX), Ok(0));
}

#[test]
fn difficulty_beyond_digest_is_exhausted() {
    assert_eq!(compute_pow_solution("test-uuid-123", 0, 65), Err(PowError::SearchExhausted));
    assert_eq!(compute_pow_solution("test-uuid-123", 0, usize::MAX), Err(PowError::SearchExhausted));
    assert!(!verify_solution("test-uuid-123", 0, 114, 65));
}

#[test]
fn repeated_calls_agree() {
    let a = compute_pow_solution("test-uuid-789", 3, 2);
    let b = compute_pow_solution("test-uuid-789", 3, 2);
    assert_eq!(a, b);
    let solver = POWSolver::new("test-uuid-789".to_string(), 2);
    assert_eq!(solver.solve_single(3), a);
}

#[test]
fn batch_keeps_index_order() {
    let solver = POWSolver::new("test-uuid-456".to_string(), 2);
    let batch = solver.solve_batch(3, 4);
    assert_eq!(batch.len(), 4);
    for k in 0..4u32 {
        assert_eq!(batch[k as usize], compute_pow_solution("test-uuid-456", 3 + k, 2));
    }
}

#[test]
fn solve_all_starts_at_zero() {
    let solver = POWSolver::new("test-uuid-456".to_string(), 2);
    assert_eq!(solver.solve_all(3), solver.solve_batch(0, 3));
    assert_eq!(solver.solve_all(0), Vec::new());
}

#[test]
fn batch_at_top_of_index_range() {
    let solver = POWSolver::new("s".to_string(), 1);
    let batch = solver.solve_batch(u32::MAX, 1);
    assert_eq!(batch, vec![compute_pow_solution("s", u32::MAX, 1)]);
}

#[test]
fn message_concatenates_index_session_candidate() {
    assert_eq!(pow_message("test-uuid-123", 0, 114), b"0test-uuid-123114".to_vec());
    assert_eq!(pow_message("ab", 4_294_967_295, 10), b"4294967295ab10".to_vec());
    assert_eq!(pow_message("", 7, 0), b"70".to_vec());
    assert_eq!(pow_message("é", 1, 2), vec![b'1', 0xc3, 0xa9, b'2']);
}

#[test]
fn verify_checks_the_hashed_message() {
    // sha256("0test-uuid-123114") = 004805235701ffe1...
    assert!(verify_solution("test-uuid-123", 0, 114, 2));
    assert!(!verify_solution("test-uuid-123", 0, 114, 3));
    // sha256("0test-uuid-1230") = a723126e...
    assert!(!verify_solution("test-uuid-123", 0, 0, 1));
    assert!(verify_solution("test-uuid-123", 0, 0, 0));
}

#[test]
fn digest_prefix_is_read_in_hex() {
    let d = vec![0x00u8, 0x0f];
    assert!(digest_meets_difficulty(&d, 3));
    assert!(!digest_meets_difficulty(&d, 4));
    let zeros = vec![0u8; 32];
    assert!(digest_meets_difficulty(&zeros, 64));
    assert!(!digest_meets_difficulty(&zeros, 65));
    let high = vec![0x10u8, 0x00];
    assert!(!digest_meets_difficulty(&high, 1));
    assert!(digest_meets_difficulty(&high, 0));
}

#[test]
fn version_is_reported() {
    assert_eq!(get_version(), "0.1.0");
}

#[test]
fn one_more_digit_costs_more_attempts() {
    let count: u32 = 32;
    let mut attempts = [0u64; 2];
    for d in 1..3usize {
        for i in 0..count {
            attempts[d - 1] += compute_pow_solution("cost-session", i, d).unwrap() as u64 + 1;
        }
    }
    assert!(attempts[1] > 4 * attempts[0]);
}
