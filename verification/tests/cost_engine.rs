use quadratic_voting::{Error, ErrorCode, Poll, Voter};

#[test]
fn cost_from_an_empty_tally_is_the_square() {
    assert_eq!(Voter::calculate_vote_cost(0, 0), Ok(0));
    assert_eq!(Voter::calculate_vote_cost(0, 1), Ok(1));
    assert_eq!(Voter::calculate_vote_cost(0, 5), Ok(25));
    assert_eq!(Voter::calculate_vote_cost(0, 12), Ok(144));
}

#[test]
fn cost_is_the_difference_of_squares() {
    assert_eq!(Voter::calculate_vote_cost(5, 3), Ok(39));
    assert_eq!(Voter::calculate_vote_cost(8, 2), Ok(36));
    assert_eq!(Voter::calculate_vote_cost(7, 0), Ok(0));
    assert_eq!(Voter::calculate_vote_cost(1, 1), Ok(3));
    for c in 0u64..40 {
        for n in 0u64..40 {
            assert_eq!(Voter::calculate_vote_cost(c, n), Ok((c + n) * (c + n) - c * c));
        }
    }
}

#[test]
fn cost_grows_strictly_with_the_votes() {
    for c in 0u64..30 {
        for n in 0u64..30 {
            let fewer = Voter::calculate_vote_cost(c, n).unwrap();
            let more = Voter::calculate_vote_cost(c, n + 1).unwrap();
            assert!(fewer < more);
        }
    }
}

#[test]
fn cost_of_two_steps_is_the_cost_of_one() {
    for a in 0u64..30 {
        for b in 0u64..30 {
            let first = Voter::calculate_vote_cost(0, a).unwrap();
            let second = Voter::calculate_vote_cost(a, b).unwrap();
            assert_eq!(first + second, Voter::calculate_vote_cost(0, a + b).unwrap());
        }
    }
    assert_eq!(
        Voter::calculate_vote_cost(3, 4).unwrap() + Voter::calculate_vote_cost(7, 5).unwrap(),
        Voter::calculate_vote_cost(3, 9).unwrap()
    );
}

#[test]
fn cost_fails_where_the_sum_overflows() {
    let overflow = Err(Error::Cost(ErrorCode::Overflow));
    assert_eq!(Voter::calculate_vote_cost(u64::MAX, 1), overflow);
    assert_eq!(Voter::calculate_vote_cost(1, u64::MAX), overflow);
}

#[test]
fn cost_fails_where_a_square_overflows() {
    let overflow = Err(Error::Cost(ErrorCode::Overflow));
    // The cost itself, 2^33 + 1, would fit; the square of the new tally does not.
    assert_eq!(Voter::calculate_vote_cost(1 << 32, 1), overflow);
    assert_eq!(Voter::calculate_vote_cost(0, 1 << 32), overflow);
    assert_eq!(Voter::calculate_vote_cost(u64::MAX, 0), overflow);
    assert_eq!(Voter::calculate_vote_cost(1 << 32, 0), overflow);
}

#[test]
fn cost_at_the_edge_of_the_range() {
    let root = (1u64 << 32) - 1;
    assert_eq!(Voter::calculate_vote_cost(0, root), Ok(18446744065119617025));
    assert_eq!(Voter::calculate_vote_cost(root, 0), Ok(0));
    assert_eq!(Voter::calculate_vote_cost(root - 1, 1), Ok(2 * root - 1));
}

#[test]
fn space_of_a_poll() {
    assert_eq!(Poll::space(0), 655);
    assert_eq!(Poll::space(1), 663);
    assert_eq!(Poll::space(2), 671);
    assert_eq!(Poll::space(10), 735);
    assert_eq!(Poll::space(255), 2695);
    assert_eq!(Poll::MAX_TITLE_LEN, 100);
    assert_eq!(Poll::MAX_DESC_LEN, 500);
    assert_eq!(Poll::MAX_OPTIONS, 10);
}

#[test]
fn space_of_a_voter_entry() {
    assert_eq!(Voter::SPACE, 173);
}

#[test]
fn texts_are_measured_in_bytes() {
    assert_eq!(quadratic_voting::poll::byte_len(&String::new()), 0);
    assert_eq!(quadratic_voting::poll::byte_len(&"poll".to_string()), 4);
    assert_eq!(quadratic_voting::poll::byte_len(&"é".to_string()), 2);
    assert_eq!(quadratic_voting::poll::byte_len(&"票".to_string()), 3);
    assert_eq!(quadratic_voting::poll::byte_len(&"t".repeat(100)), 100);
}
