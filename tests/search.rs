use std::sync::atomic::{AtomicUsize, Ordering};
use std::sync::Mutex;

use eth_vanity::{try_generate_wallet, Account, Pattern, SearchState, Step};

fn secret_one() -> [u8; 32] {
    let mut secret = [0u8; 32];
    secret[31] = 1;
    secret
}

#[test]
fn bad_pattern_is_rejected() {
    assert!(Pattern::compile("(unclosed").is_err());
    match Pattern::compile("(unclosed") {
        Err(e) => assert!(!e.message.is_empty()),
        Ok(_) => panic!("an unclosed group must not compile"),
    }
}

#[test]
fn pattern_matches_anywhere() {
    let pattern = Pattern::compile("5d5d").unwrap();
    assert_eq!(pattern.as_str(), "5d5d");
    assert!(pattern.is_match("0x7e5f4552091a69125d5dfcb7b8c2659029395bdf"));
    assert!(!pattern.is_match("0x7e5f4552091a69125d5"));
    let prefix = Pattern::compile("0x").unwrap();
    assert!(prefix.is_match("0x00"));
}

#[test]
fn first_match_wins_and_later_ones_are_discarded() {
    let pattern = Pattern::compile("7e5f").unwrap();
    let mut state = SearchState::new(&pattern);
    assert!(state.is_active());
    assert_eq!(state.attempts(), 0);
    assert!(state.winner().is_none());

    let miss = Account::new(&[0x22u8; 32]);
    let expected_miss = !miss.address_as_hex().contains("7e5f");
    assert!(expected_miss);
    assert_eq!(state.attempt(&pattern, miss), Step::Missed);
    assert!(state.is_active());
    assert_eq!(state.attempts(), 1);

    assert_eq!(state.attempt(&pattern, Account::new(&secret_one())), Step::Won);
    assert!(!state.is_active());
    assert_eq!(state.attempts(), 2);

    assert_eq!(state.attempt(&pattern, Account::new(&secret_one())), Step::Stopped);
    assert_eq!(state.attempts(), 2);
    let winner = state.into_result().unwrap();
    assert_eq!(winner.address_as_hex(), "0x7e5f4552091a69125d5dfcb7b8c2659029395bdf");
}

#[test]
fn unfinished_search_has_no_result() {
    let state = SearchState::new(&Pattern::compile("abc").unwrap());
    assert_eq!(state.pattern_source(), "abc");
    assert!(state.into_result().is_none());
}

#[test]
fn several_workers_offering_in_turn_give_one_winner() {
    let pattern = Pattern::compile("0").unwrap();
    let mut state = SearchState::new(&pattern);
    let mut won = 0;
    for round in 0..32u8 {
        let secret = [round.wrapping_add(1); 32];
        if state.attempt(&pattern, Account::new(&secret)) == Step::Won {
            won += 1;
        }
    }
    assert_eq!(won, 1);
    assert!(!state.is_active());
    assert!(state.winner().unwrap().address_as_hex().contains('0'));
}

#[test]
fn lone_worker_finds_easy_pattern() {
    let pattern = Pattern::compile("0").unwrap();
    let mut state = SearchState::new(&pattern);
    assert!(try_generate_wallet(&mut state, &pattern, 1_000));
    assert!(state.attempts() >= 1);
    assert!(state.attempts() <= 1_000);
    let account = state.into_result().unwrap();
    assert!(account.address_as_hex().contains('0'));
}

#[test]
fn found_address_contains_three_digit_pattern() {
    let pattern = Pattern::compile("abc").unwrap();
    let mut state = SearchState::new(&pattern);
    assert!(try_generate_wallet(&mut state, &pattern, 1_000_000));
    let attempts = state.attempts();
    // about 38 places in 40 digits, each matching with odds 1 in 4096:
    // around a hundred draws are expected, twenty thousand are all but impossible
    assert!(attempts >= 1);
    assert!(attempts <= 20_000);
    let account = state.into_result().unwrap();
    assert!(account.address_as_hex().contains("abc"));
}

#[test]
fn finished_search_is_left_alone() {
    let pattern = Pattern::compile("0").unwrap();
    let mut state = SearchState::new(&pattern);
    assert!(try_generate_wallet(&mut state, &pattern, 1_000));
    let attempts = state.attempts();
    let address = state.winner().unwrap().address_as_hex();
    assert!(!try_generate_wallet(&mut state, &pattern, 1_000));
    assert_eq!(state.attempts(), attempts);
    assert_eq!(state.winner().unwrap().address_as_hex(), address);
}

#[test]
fn zero_budget_draws_nothing() {
    let pattern = Pattern::compile("0").unwrap();
    let mut state = SearchState::new(&pattern);
    assert!(!try_generate_wallet(&mut state, &pattern, 0));
    assert!(state.is_active());
    assert_eq!(state.attempts(), 0);
}

fn race(pattern: &str, workers: usize) -> (usize, SearchState) {
    let pattern = Pattern::compile(pattern).unwrap();
    let state = Mutex::new(SearchState::new(&pattern));
    let wins = AtomicUsize::new(0);
    let pool = rayon::ThreadPoolBuilder::new().num_threads(workers).build().unwrap();
    pool.scope(|scope| {
        for _ in 0..workers {
            scope.spawn(|_| loop {
                if !state.lock().unwrap().is_active() {
                    return;
                }
                let account = match Account::rand_new() {
                    Ok(account) => account,
                    Err(_) => continue,
                };
                if !pattern.matches_account(&account) {
                    continue;
                }
                match state.lock().unwrap().claim(account) {
                    Step::Missed => {}
                    Step::Won => {
                        wins.fetch_add(1, Ordering::SeqCst);
                        return;
                    }
                    Step::Stopped => return,
                }
            });
        }
    });
    (wins.load(Ordering::SeqCst), state.into_inner().unwrap())
}

#[test]
fn racing_workers_give_exactly_one_winner() {
    for workers in [1usize, 2, 8, 32] {
        let (wins, state) = race("0", workers);
        assert_eq!(wins, 1);
        assert!(!state.is_active());
        assert!(state.attempts() >= 1);
        let account = state.into_result().unwrap();
        assert!(account.address_as_hex().contains('0'));
    }
}

#[test]
fn claim_only_checks_whether_the_search_is_on() {
    let pattern = Pattern::compile("7e5f").unwrap();
    let account = Account::new(&secret_one());
    assert!(pattern.matches_account(&account));
    assert!(!pattern.matches_account(&Account::new(&[0x22u8; 32])));
    let mut state = SearchState::new(&pattern);
    assert_eq!(state.claim(account), Step::Won);
    assert_eq!(state.attempts(), 1);
    assert_eq!(state.claim(Account::new(&secret_one())), Step::Stopped);
    assert_eq!(state.attempts(), 1);
    assert!(state.into_result().is_some());
}
