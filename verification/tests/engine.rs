use lucky_number::contract::{
    handle, init, try_bet, try_change_admin, try_change_tier, try_change_triggerer, try_receive,
    try_trigger_lucky_number, try_withdrawl,
};
use lucky_number::error::ContractError;
use lucky_number::msg::{
    DrawOutcome, Env, HandleAnswer, HandleMsg, InitMsg, ResponseStatus, Snip20Msg,
};
use lucky_number::state::{LotteryState, UserBetStruct, UserBetsStruct, UserRecord};

fn env(sender: &str, time: u64) -> Env {
    Env {
        sender: sender.to_string(),
        time,
        height: 7,
        contract_code_hash: "lottery-hash".to_string(),
    }
}

fn init_msg(entry_fee: u128, triggerer_fee: u128, min_entries: u32, max: u32) -> InitMsg {
    InitMsg {
        entropy: 42,
        triggerer_address: "trigger".to_string(),
        token_address: "token".to_string(),
        token_hash: "token-hash".to_string(),
        token_vk: "vk".to_string(),
        tier1_entry_fee: entry_fee,
        tier1_triggerer_fee: triggerer_fee,
        tier1_min_entries: min_entries,
        tier1_max_rand_number: max,
        tier2_entry_fee: 50,
        tier2_triggerer_fee: 5,
        tier2_min_entries: 3,
        tier2_max_rand_number: 15,
        tier3_entry_fee: 100,
        tier3_triggerer_fee: 10,
        tier3_min_entries: 4,
        tier3_max_rand_number: 30,
    }
}

fn fresh() -> LotteryState {
    let (state, _) = init(&env("owner", 0), init_msg(10, 2, 2, 5));
    state
}

/// Two users bet 10 each on 3 and 4 in tier 1.
fn two_bets() -> (LotteryState, UserBetsStruct, UserBetsStruct) {
    let mut state = fresh();
    let mut alice = UserBetsStruct::new();
    let mut bob = UserBetsStruct::new();
    try_bet(&mut state, &mut alice, &env("alice", 100), 10, 3, 1).unwrap();
    try_bet(&mut state, &mut bob, &env("bob", 101), 10, 4, 1).unwrap();
    (state, alice, bob)
}

#[test]
fn init_opens_round_zero_of_every_tier() {
    let (state, response) = init(&env("owner", 0), init_msg(10, 2, 2, 5));
    assert!(state.is_wf());
    assert_eq!(state.tiers.len(), 3);
    assert_eq!(state.config.owner, "owner");
    assert_eq!(state.config.triggerer, "trigger");
    assert_eq!(state.config.token_address, "token");
    assert_eq!(state.config.token_hash, "token-hash");
    assert_eq!(state.config.base_entropy, [0, 0, 0, 0, 0, 0, 0, 42]);
    assert!(state.config.addition_entropy.is_empty());
    let sizes = [5usize, 15, 30];
    for (i, tier) in state.tiers.iter().enumerate() {
        assert_eq!(tier.rounds.len(), 1);
        let round = &tier.rounds[0];
        assert_eq!(round.round_number, 0);
        assert_eq!(round.pool_size, 0);
        assert_eq!(round.users_count, 0);
        assert_eq!(round.lucky_number, None);
        assert_eq!(round.round_end_timestamp, None);
        assert_eq!(round.round_end_pool_size, None);
        assert_eq!(round.winner_count, None);
        assert_eq!(round.users_picked_numbers_count, vec![0u32; sizes[i]]);
    }
    assert_eq!(state.tiers[1].config.entry_fee, 50);
    assert_eq!(state.tiers[2].config.min_entries, 4);
    assert_eq!(
        response.register,
        Snip20Msg::RegisterReceive { code_hash: "lottery-hash".to_string(), padding: None }
    );
    assert_eq!(response.token_address, "token");
    assert_eq!(response.token_hash, "token-hash");
}

#[test]
fn init_accepts_a_tier_without_numbers() {
    let (mut state, _) = init(&env("owner", 0), init_msg(10, 2, 0, 0));
    assert!(state.is_wf());
    assert_eq!(state.tiers[0].config.max_rand_number, 0);
    assert_eq!(state.tiers[0].rounds.len(), 1);
    assert_eq!(state.tiers[0].rounds[0].users_picked_numbers_count, Vec::<u32>::new());
    assert_eq!(state.tiers[0].rounds[0].lucky_number, None);
    // such a tier takes no bet
    let mut alice = UserBetsStruct::new();
    let before = state.clone();
    for number in [0u32, 1, 5] {
        assert_eq!(
            try_bet(&mut state, &mut alice, &env("alice", 1), 10, number, 1),
            Err(ContractError::NumberOutOfRange)
        );
    }
    assert_eq!(state, before);
    // and cannot be drawn: the call fails and nothing changes
    assert_eq!(state.tiers[0].close_round(1, 5), Err(ContractError::NumberOutOfRange));
    assert_eq!(
        try_trigger_lucky_number(&mut state, &env("trigger", 2), true, false, false, 3),
        Err(ContractError::NumberOutOfRange)
    );
    assert_eq!(state, before);
    // tiers that are not selected with it are drawn as usual
    state.tiers[1].config.min_entries = 0;
    state.tiers[1].config.triggerer_fee = 0;
    let outcomes =
        try_trigger_lucky_number(&mut state, &env("trigger", 2), false, true, false, 3).unwrap();
    assert!(matches!(outcomes[1], DrawOutcome::Drawn { .. }));
    assert_eq!(state.tiers[0], before.tiers[0]);
    assert!(state.is_wf());
}

#[test]
fn a_due_tier_without_numbers_fails_the_whole_call() {
    let (mut state, _) = init(&env("owner", 0), init_msg(10, 2, 2, 5));
    state.tiers[0].config.min_entries = 0;
    state.tiers[0].config.triggerer_fee = 0;
    let owner = env("owner", 1);
    // tier 2 loses its numbers for the rounds to come; its open round keeps fifteen
    assert_eq!(try_change_tier(&mut state, &owner, 2, 50, 0, 0, 0), Ok(()));
    assert_eq!(state.tiers[1].rounds[0].users_picked_numbers_count.len(), 15);
    let trigger = env("trigger", 2);
    let outcomes = try_trigger_lucky_number(&mut state, &trigger, true, true, false, 9).unwrap();
    assert!(matches!(outcomes[0], DrawOutcome::Drawn { .. }));
    assert!(matches!(outcomes[1], DrawOutcome::Drawn { .. }));
    // the round that this draw opened in tier 2 has no number
    assert_eq!(state.tiers[1].rounds[1].users_picked_numbers_count.len(), 0);
    let before = state.clone();
    assert_eq!(
        try_trigger_lucky_number(&mut state, &trigger, true, true, false, 9),
        Err(ContractError::NumberOutOfRange)
    );
    assert_eq!(state, before);
    assert!(state.is_wf());
}

#[test]
fn bet_updates_round_record_and_entropy() {
    let mut state = fresh();
    let mut alice = UserBetsStruct::new();
    assert_eq!(try_bet(&mut state, &mut alice, &env("alice", 100), 10, 3, 1), Ok(()));
    let round = &state.tiers[0].rounds[0];
    assert_eq!(round.pool_size, 10);
    assert_eq!(round.users_count, 1);
    assert_eq!(round.users_picked_numbers_count, vec![0, 0, 1, 0, 0]);
    assert_eq!(state.config.addition_entropy, vec![3]);
    assert_eq!(
        alice.history(),
        vec![UserBetStruct {
            round_number: 0,
            tier: 1,
            number: 3,
            claimed_reward: false,
            timestamp: 100
        }]
    );
    assert!(state.is_wf());
    assert!(alice.is_wf());
}

#[test]
fn bet_validation_errors_in_order() {
    let mut state = fresh();
    let mut alice = UserBetsStruct::new();
    let e = env("alice", 100);
    let before = state.clone();
    assert_eq!(try_bet(&mut state, &mut alice, &e, 10, 3, 0), Err(ContractError::InvalidTier));
    assert_eq!(try_bet(&mut state, &mut alice, &e, 10, 3, 4), Err(ContractError::InvalidTier));
    assert_eq!(try_bet(&mut state, &mut alice, &e, 10, 3, -1), Err(ContractError::InvalidTier));
    // a wrong amount is reported before a wrong number
    assert_eq!(try_bet(&mut state, &mut alice, &e, 11, 9, 1), Err(ContractError::InvalidAmount));
    assert_eq!(try_bet(&mut state, &mut alice, &e, 10, 0, 1), Err(ContractError::NumberOutOfRange));
    assert_eq!(try_bet(&mut state, &mut alice, &e, 10, 6, 1), Err(ContractError::NumberOutOfRange));
    assert_eq!(state, before);
    assert_eq!(alice, UserBetsStruct::new());
    assert_eq!(try_bet(&mut state, &mut alice, &e, 10, 5, 1), Ok(()));
    assert_eq!(try_bet(&mut state, &mut alice, &e, 10, 1, 1), Err(ContractError::AlreadyBet));
}

#[test]
fn second_bet_on_same_round_fails_without_change() {
    let (mut state, mut alice, _) = two_bets();
    let state_before = state.clone();
    let alice_before = alice.clone();
    let again = try_bet(&mut state, &mut alice, &env("alice", 200), 10, 5, 1);
    assert_eq!(again, Err(ContractError::AlreadyBet));
    assert_eq!(state, state_before);
    assert_eq!(alice, alice_before);
    // the same user may still bet on another tier
    assert_eq!(try_bet(&mut state, &mut alice, &env("alice", 201), 50, 5, 2), Ok(()));
    assert_eq!(alice.history().len(), 2);
}

#[test]
fn bet_overflow_is_refused() {
    let mut state = fresh();
    state.tiers[0].rounds[0].pool_size = u128::MAX - 5;
    let mut alice = UserBetsStruct::new();
    let before = state.clone();
    assert_eq!(
        try_bet(&mut state, &mut alice, &env("alice", 1), 10, 3, 1),
        Err(ContractError::Overflow)
    );
    assert_eq!(state, before);
}

#[test]
fn entropy_buffer_keeps_the_six_newest_picks() {
    let mut state = fresh();
    for (i, number) in [1u32, 2, 3, 4, 5, 1, 2, 3].iter().enumerate() {
        let mut user = UserBetsStruct::new();
        try_bet(&mut state, &mut user, &env("user", i as u64), 10, *number, 1).unwrap();
    }
    assert_eq!(state.config.addition_entropy, vec![3, 4, 5, 1, 2, 3]);
    assert_eq!(state.tiers[0].rounds[0].users_count, 8);
    assert_eq!(state.tiers[0].rounds[0].pool_size, 80);
    assert!(state.is_wf());
}

#[test]
fn scenario_draw_with_one_winner() {
    let (mut state, mut alice, mut bob) = two_bets();
    assert_eq!(state.tiers[0].rounds[0].pool_size, 20);
    // the draw yields 3
    assert_eq!(state.tiers[0].close_round(3, 500), Ok(2));
    let closed = state.tiers[0].rounds[0].clone();
    assert_eq!(closed.lucky_number, Some(3));
    assert_eq!(closed.winner_count, Some(1));
    assert_eq!(closed.round_end_pool_size, Some(18));
    assert_eq!(closed.round_end_timestamp, Some(500));
    assert_eq!(closed.pool_size, 18);
    assert_eq!(state.tiers[0].rounds.len(), 2);
    assert_eq!(state.tiers[0].rounds[1].round_number, 1);
    assert_eq!(state.tiers[0].rounds[1].pool_size, 0);
    assert_eq!(state.tiers[0].rounds[1].lucky_number, None);
    assert_eq!(state.tiers[0].rounds[1].users_picked_numbers_count, vec![0; 5]);
    assert!(state.is_wf());

    let paid = try_withdrawl(&mut state, &mut alice, &env("alice", 600), 1, 0).unwrap();
    assert_eq!(paid.recipient, "alice");
    assert_eq!(paid.amount, 18);
    assert_eq!(alice.history()[0].claimed_reward, true);
    assert_eq!(state.tiers[0].rounds[0], closed);

    let state_before = state.clone();
    let bob_before = bob.clone();
    assert_eq!(
        try_withdrawl(&mut state, &mut bob, &env("bob", 601), 1, 0),
        Err(ContractError::NotWinner)
    );
    assert_eq!(state, state_before);
    assert_eq!(bob, bob_before);

    // a reward is paid once
    assert_eq!(
        try_withdrawl(&mut state, &mut alice, &env("alice", 602), 1, 0),
        Err(ContractError::AlreadyClaimed)
    );
}

#[test]
fn scenario_draw_without_winner_rolls_over() {
    let (mut state, _, _) = two_bets();
    assert_eq!(state.tiers[0].close_round(5, 500), Ok(2));
    let closed = &state.tiers[0].rounds[0];
    assert_eq!(closed.lucky_number, Some(5));
    assert_eq!(closed.winner_count, Some(0));
    assert_eq!(closed.round_end_pool_size, Some(18));
    assert_eq!(closed.pool_size, 0);
    let next = &state.tiers[0].rounds[1];
    assert_eq!(next.pool_size, 18);
    assert_eq!(next.users_count, 0);
    assert_eq!(next.lucky_number, None);
    assert!(state.is_wf());
}

#[test]
fn conservation_of_a_round_started_empty() {
    let mut state = fresh();
    let mut users: Vec<UserBetsStruct> = Vec::new();
    for (i, number) in [1u32, 2, 2, 5].iter().enumerate() {
        let mut user = UserBetsStruct::new();
        try_bet(&mut state, &mut user, &env("user", i as u64), 10, *number, 1).unwrap();
        users.push(user);
    }
    // one of them withdraws before the draw
    let refund = try_withdrawl(&mut state, &mut users[1], &env("user", 9), 1, 0).unwrap();
    assert_eq!(refund.amount, 10);
    let fee = state.tiers[0].close_round(2, 50).unwrap();
    let closed = &state.tiers[0].rounds[0];
    assert_eq!(closed.users_count, 3);
    assert_eq!(closed.round_end_pool_size.unwrap() + fee, 3 * 10);
    assert_eq!(closed.winner_count, Some(1));
}

#[test]
fn reward_is_split_with_truncation() {
    let mut state = fresh();
    let mut users: Vec<UserBetsStruct> = Vec::new();
    for (i, number) in [4u32, 4, 4, 1].iter().enumerate() {
        let mut user = UserBetsStruct::new();
        try_bet(&mut state, &mut user, &env("user", i as u64), 10, *number, 1).unwrap();
        users.push(user);
    }
    assert_eq!(state.tiers[0].close_round(4, 50), Ok(2));
    // 38 among three winners: 12 each, 2 stay in the round
    for user in users.iter_mut().take(3) {
        let paid = try_withdrawl(&mut state, user, &env("user", 60), 1, 0).unwrap();
        assert_eq!(paid.amount, 12);
    }
    assert_eq!(state.tiers[0].rounds[0].pool_size, 38);
}

#[test]
fn withdraw_before_draw_refunds_and_deletes_the_bet() {
    let (mut state, mut alice, _) = two_bets();
    let paid = try_withdrawl(&mut state, &mut alice, &env("alice", 300), 1, 0).unwrap();
    assert_eq!(paid.recipient, "alice");
    assert_eq!(paid.amount, 10);
    let round = &state.tiers[0].rounds[0];
    assert_eq!(round.pool_size, 10);
    assert_eq!(round.users_count, 1);
    assert_eq!(round.users_picked_numbers_count, vec![0, 0, 0, 1, 0]);
    assert_eq!(alice, UserBetsStruct::new());
    assert!(state.is_wf());
    // the bet is gone, and a new one may be placed
    assert_eq!(
        try_withdrawl(&mut state, &mut alice, &env("alice", 301), 1, 0),
        Err(ContractError::BetNotFound)
    );
    assert_eq!(try_bet(&mut state, &mut alice, &env("alice", 302), 10, 1, 1), Ok(()));
}

#[test]
fn withdraw_errors() {
    let (mut state, mut alice, _) = two_bets();
    let e = env("alice", 300);
    assert_eq!(
        try_withdrawl(&mut state, &mut alice, &e, 0, 0),
        Err(ContractError::InvalidTier)
    );
    assert_eq!(
        try_withdrawl(&mut state, &mut alice, &e, 2, 0),
        Err(ContractError::BetNotFound)
    );
    assert_eq!(
        try_withdrawl(&mut state, &mut alice, &e, 1, 1),
        Err(ContractError::BetNotFound)
    );
    // a record that names a round the ledger does not hold
    let stray = UserBetStruct {
        round_number: 9,
        tier: 1,
        number: 3,
        claimed_reward: false,
        timestamp: 1,
    };
    let mut odd = UserBetsStruct::from_bets(&vec![stray]).unwrap();
    assert_eq!(try_withdrawl(&mut state, &mut odd, &e, 1, 9), Err(ContractError::RoundNotFound));
    // a record that the open round does not count
    let uncounted = UserBetStruct {
        round_number: 0,
        tier: 1,
        number: 1,
        claimed_reward: false,
        timestamp: 1,
    };
    let mut odd = UserBetsStruct::from_bets(&vec![uncounted]).unwrap();
    let before = state.clone();
    assert_eq!(try_withdrawl(&mut state, &mut odd, &e, 1, 0), Err(ContractError::Underflow));
    assert_eq!(state, before);
    // a winning record on a round that counted no winner
    assert_eq!(state.tiers[0].close_round(1, 9), Ok(2));
    assert_eq!(try_withdrawl(&mut state, &mut odd, &e, 1, 0), Err(ContractError::DivideByZero));
}

#[test]
fn close_round_errors_leave_the_tier_unchanged() {
    let (mut state, _, _) = two_bets();
    let before = state.clone();
    assert_eq!(state.tiers[0].close_round(0, 1), Err(ContractError::NumberOutOfRange));
    assert_eq!(state.tiers[0].close_round(6, 1), Err(ContractError::NumberOutOfRange));
    state.tiers[0].config.triggerer_fee = 21;
    let with_fee = state.clone();
    assert_eq!(state.tiers[0].close_round(3, 1), Err(ContractError::Underflow));
    assert_eq!(state, with_fee);
    state.tiers[0].config.triggerer_fee = 2;
    assert_eq!(state, before);
}

#[test]
fn trigger_needs_the_triggerer() {
    let (mut state, _, _) = two_bets();
    let before = state.clone();
    let result = try_trigger_lucky_number(&mut state, &env("alice", 1), true, true, true, 5);
    assert_eq!(result, Err(ContractError::NotTriggerer));
    assert_eq!(state, before);
}

#[test]
fn trigger_skips_tiers_below_threshold() {
    let (mut state, _, _) = two_bets();
    let mut carol = UserBetsStruct::new();
    try_bet(&mut state, &mut carol, &env("carol", 5), 50, 7, 2).unwrap();
    let before = state.clone();
    let outcomes =
        try_trigger_lucky_number(&mut state, &env("trigger", 900), true, true, true, 77).unwrap();
    assert_eq!(outcomes.len(), 3);
    // tier 1 holds 20 >= 2 * 10 and is drawn
    match &outcomes[0] {
        DrawOutcome::Drawn { lucky_number, transfer } => {
            assert!(1 <= *lucky_number && *lucky_number <= 5);
            assert_eq!(transfer.recipient, "trigger");
            assert_eq!(transfer.amount, 2);
            assert_eq!(state.tiers[0].rounds[0].lucky_number, Some(*lucky_number));
        }
        DrawOutcome::Skipped => panic!("tier 1 was due"),
    }
    assert_eq!(state.tiers[0].rounds.len(), 2);
    assert_eq!(state.tiers[0].rounds[0].round_end_pool_size, Some(18));
    assert_eq!(state.tiers[0].rounds[0].round_end_timestamp, Some(900));
    // tier 2 holds 50 < 3 * 50, tier 3 holds nothing: both untouched
    assert_eq!(outcomes[1], DrawOutcome::Skipped);
    assert_eq!(outcomes[2], DrawOutcome::Skipped);
    assert_eq!(state.tiers[1], before.tiers[1]);
    assert_eq!(state.tiers[2], before.tiers[2]);
    assert_eq!(state.config, before.config);
    assert!(state.is_wf());
}

#[test]
fn trigger_ignores_unselected_tiers() {
    let (mut state, _, _) = two_bets();
    let before = state.clone();
    let outcomes =
        try_trigger_lucky_number(&mut state, &env("trigger", 900), false, true, true, 77).unwrap();
    assert_eq!(outcomes, vec![DrawOutcome::Skipped, DrawOutcome::Skipped, DrawOutcome::Skipped]);
    assert_eq!(state, before);
}

#[test]
fn trigger_fails_as_a_whole_when_a_fee_exceeds_its_pool() {
    let (mut state, _, _) = two_bets();
    // tier 2 is always due and can never pay its fee
    state.tiers[1].config.min_entries = 0;
    let before = state.clone();
    let result = try_trigger_lucky_number(&mut state, &env("trigger", 900), true, true, false, 77);
    assert_eq!(result, Err(ContractError::Underflow));
    assert_eq!(state, before);
}

#[test]
fn trigger_is_reproducible_and_depends_on_entropy() {
    let (state, _, _) = two_bets();
    let mut seen: Vec<u32> = Vec::new();
    for entropy in 0..64u64 {
        let mut first = state.clone();
        let mut second = state.clone();
        let a = try_trigger_lucky_number(&mut first, &env("trigger", 1), true, false, false, entropy)
            .unwrap();
        let b = try_trigger_lucky_number(&mut second, &env("trigger", 1), true, false, false, entropy)
            .unwrap();
        assert_eq!(a, b);
        assert_eq!(first, second);
        if let DrawOutcome::Drawn { lucky_number, .. } = &a[0] {
            assert!(1 <= *lucky_number && *lucky_number <= 5);
            if !seen.contains(lucky_number) {
                seen.push(*lucky_number);
            }
        } else {
            panic!("tier 1 was due");
        }
    }
    seen.sort();
    assert_eq!(seen, vec![1, 2, 3, 4, 5]);
}

#[test]
fn scenario_through_trigger_with_a_seed_that_draws_three() {
    let (start, alice_start, bob_start) = two_bets();
    let mut found = false;
    for entropy in 0..1000u64 {
        let mut state = start.clone();
        let outcomes =
            try_trigger_lucky_number(&mut state, &env("trigger", 9), true, false, false, entropy)
                .unwrap();
        let lucky = match &outcomes[0] {
            DrawOutcome::Drawn { lucky_number, .. } => *lucky_number,
            DrawOutcome::Skipped => panic!("tier 1 was due"),
        };
        if lucky != 3 {
            continue;
        }
        found = true;
        let mut alice = alice_start.clone();
        let mut bob = bob_start.clone();
        assert_eq!(state.tiers[0].rounds[0].winner_count, Some(1));
        assert_eq!(state.tiers[0].rounds[0].round_end_pool_size, Some(20 - 2));
        let paid = try_withdrawl(&mut state, &mut alice, &env("alice", 10), 1, 0).unwrap();
        assert_eq!(paid.amount, 18);
        assert_eq!(
            try_withdrawl(&mut state, &mut bob, &env("bob", 10), 1, 0),
            Err(ContractError::NotWinner)
        );
        break;
    }
    assert!(found);
}

#[test]
fn scenario_through_trigger_with_a_seed_that_draws_five() {
    let (start, _, _) = two_bets();
    let mut found = false;
    for entropy in 0..1000u64 {
        let mut state = start.clone();
        let outcomes =
            try_trigger_lucky_number(&mut state, &env("trigger", 9), true, false, false, entropy)
                .unwrap();
        if let DrawOutcome::Drawn { lucky_number: 5, .. } = &outcomes[0] {
            found = true;
            assert_eq!(state.tiers[0].rounds[0].winner_count, Some(0));
            assert_eq!(state.tiers[0].rounds[0].pool_size, 0);
            assert_eq!(state.tiers[0].rounds[1].pool_size, 20 - 2);
            break;
        }
    }
    assert!(found);
}

#[test]
fn tiers_drawn_together_consume_the_generator_in_order() {
    let mut state = fresh();
    for tier in 1..=3i8 {
        let fee = state.tiers[(tier - 1) as usize].config.entry_fee;
        for i in 0..4u64 {
            let mut user = UserBetsStruct::new();
            try_bet(&mut state, &mut user, &env("user", i), fee, 1, tier).unwrap();
        }
    }
    let mut all = state.clone();
    let drawn = try_trigger_lucky_number(&mut all, &env("trigger", 3), true, true, true, 11).unwrap();
    let mut only_first = state.clone();
    let first =
        try_trigger_lucky_number(&mut only_first, &env("trigger", 3), true, false, false, 11)
            .unwrap();
    // the first tier drawn gets the first output of the same seed
    assert_eq!(drawn[0], first[0]);
    for (i, outcome) in drawn.iter().enumerate() {
        match outcome {
            DrawOutcome::Drawn { lucky_number, transfer } => {
                assert!(*lucky_number >= 1);
                assert!(*lucky_number <= all.tiers[i].config.max_rand_number);
                assert_eq!(transfer.amount, all.tiers[i].config.triggerer_fee);
            }
            DrawOutcome::Skipped => panic!("every tier was due"),
        }
        assert_eq!(all.tiers[i].rounds.len(), 2);
    }
    assert!(all.is_wf());
}

#[test]
fn round_numbers_grow_by_one_per_draw() {
    let mut state = fresh();
    state.tiers[0].config.min_entries = 0;
    state.tiers[0].config.triggerer_fee = 0;
    for draw in 0..5u64 {
        try_trigger_lucky_number(&mut state, &env("trigger", draw), true, false, false, draw)
            .unwrap();
    }
    let rounds = &state.tiers[0].rounds;
    assert_eq!(rounds.len(), 6);
    for (i, round) in rounds.iter().enumerate() {
        assert_eq!(round.round_number as usize, i);
        assert_eq!(round.lucky_number.is_none(), i == rounds.len() - 1);
    }
    assert!(state.is_wf());
}

#[test]
fn changed_tier_applies_to_rounds_opened_later() {
    let (mut state, _, _) = two_bets();
    let owner = env("owner", 1);
    assert_eq!(
        try_change_tier(&mut state, &env("alice", 1), 1, 20, 3, 1, 8),
        Err(ContractError::NotOwner)
    );
    assert_eq!(try_change_tier(&mut state, &owner, 4, 20, 3, 1, 8), Err(ContractError::InvalidTier));
    let before = state.clone();
    assert_eq!(try_change_tier(&mut state, &owner, 1, 20, 3, 1, 0), Ok(()));
    assert_eq!(state.tiers[0].config.max_rand_number, 0);
    assert_eq!(state.tiers[0].rounds, before.tiers[0].rounds);
    assert_eq!(state.tiers[1], before.tiers[1]);
    assert_eq!(state.tiers[2], before.tiers[2]);
    assert_eq!(try_change_tier(&mut state, &owner, 1, 20, 3, 1, 8), Ok(()));
    assert_eq!(state.tiers[0].config.entry_fee, 20);
    assert_eq!(state.tiers[0].config.max_rand_number, 8);
    // the open round keeps its five numbers
    assert_eq!(state.tiers[0].rounds[0].users_picked_numbers_count.len(), 5);
    let mut carol = UserBetsStruct::new();
    assert_eq!(
        try_bet(&mut state, &mut carol, &env("carol", 2), 20, 7, 1),
        Err(ContractError::NumberOutOfRange)
    );
    assert_eq!(state.tiers[0].close_round(1, 3), Ok(3));
    assert_eq!(state.tiers[0].rounds[1].users_picked_numbers_count.len(), 8);
    assert_eq!(try_bet(&mut state, &mut carol, &env("carol", 4), 20, 7, 1), Ok(()));
    assert!(state.is_wf());
}

#[test]
fn owner_and_triggerer_change_by_owner_only() {
    let mut state = fresh();
    assert_eq!(
        try_change_triggerer(&mut state, &env("trigger", 1), "mallory".to_string()),
        Err(ContractError::NotOwner)
    );
    assert_eq!(try_change_triggerer(&mut state, &env("owner", 1), "t2".to_string()), Ok(()));
    assert_eq!(state.config.triggerer, "t2");
    assert_eq!(
        try_change_admin(&mut state, &env("t2", 1), "mallory".to_string()),
        Err(ContractError::NotOwner)
    );
    assert_eq!(try_change_admin(&mut state, &env("owner", 1), "owner2".to_string()), Ok(()));
    assert_eq!(state.config.owner, "owner2");
    assert_eq!(
        try_change_admin(&mut state, &env("owner", 1), "owner".to_string()),
        Err(ContractError::NotOwner)
    );
}

#[test]
fn receive_accepts_only_a_bet() {
    let mut state = fresh();
    let mut alice = UserBetsStruct::new();
    let e = env("token", 1);
    let inner_receive = HandleMsg::Receive {
        sender: "a".to_string(),
        from: "a".to_string(),
        amount: 10,
        msg: None,
    };
    assert_eq!(
        try_receive(&mut state, &mut alice, &e, "t".to_string(), "alice".to_string(), 10, None),
        Err(ContractError::ReceiveHandlerNotFound)
    );
    assert_eq!(
        try_receive(
            &mut state,
            &mut alice,
            &e,
            "t".to_string(),
            "alice".to_string(),
            10,
            Some(inner_receive)
        ),
        Err(ContractError::RecursiveReceive)
    );
    assert_eq!(
        try_receive(
            &mut state,
            &mut alice,
            &e,
            "t".to_string(),
            "alice".to_string(),
            10,
            Some(HandleMsg::Withdrawl { tier: 1, round: 0 })
        ),
        Err(ContractError::ReceiveHandlerNotFound)
    );
    assert_eq!(
        try_receive(
            &mut state,
            &mut alice,
            &e,
            "t".to_string(),
            "alice".to_string(),
            10,
            Some(HandleMsg::Bet { tier: 1, number: 2 })
        ),
        Ok(())
    );
    assert_eq!(state.tiers[0].rounds[0].users_picked_numbers_count, vec![0, 1, 0, 0, 0]);
    assert_eq!(alice.history().len(), 1);
}

#[test]
fn handle_dispatches_every_call() {
    let mut state = fresh();
    let mut user = UserRecord::new();
    let receive = HandleMsg::Receive {
        sender: "token".to_string(),
        from: "alice".to_string(),
        amount: 10,
        msg: Some(vec![1, 2, 3]),
    };
    let response = handle(
        &mut state,
        &mut user,
        &env("token", 5),
        receive,
        Some(HandleMsg::Bet { tier: 1, number: 4 }),
    )
    .unwrap();
    assert!(response.messages.is_empty());
    assert_eq!(response.data, None);
    assert_eq!(state.tiers[0].rounds[0].pool_size, 10);

    assert_eq!(
        handle(&mut state, &mut user, &env("alice", 5), HandleMsg::Bet { tier: 1, number: 4 }, None)
            .err(),
        Some(ContractError::HandlerNotFound)
    );

    let response = handle(
        &mut state,
        &mut user,
        &env("alice", 6),
        HandleMsg::Withdrawl { tier: 1, round: 0 },
        None,
    )
    .unwrap();
    assert_eq!(response.messages.len(), 1);
    assert_eq!(response.messages[0].recipient, "alice");
    assert_eq!(response.messages[0].amount, 10);
    assert_eq!(
        response.data,
        Some(HandleAnswer::Status { status: ResponseStatus::Success, message: None })
    );
    assert_eq!(state.tiers[0].rounds[0].pool_size, 0);

    let response = handle(
        &mut state,
        &mut user,
        &env("owner", 7),
        HandleMsg::ChangeTier {
            tier: 1,
            entry_fee: 10,
            triggerer_fee: 0,
            min_entries: 0,
            max_rand_number: 5,
        },
        None,
    )
    .unwrap();
    assert_eq!(response.data, None);
    assert_eq!(state.tiers[0].config.min_entries, 0);

    let response = handle(
        &mut state,
        &mut user,
        &env("trigger", 8),
        HandleMsg::TriggerLuckyNumber { tier1: true, tier2: false, tier3: false, entropy: 1 },
        None,
    )
    .unwrap();
    assert_eq!(response.draws.len(), 3);
    assert_eq!(response.messages.len(), 1);
    assert_eq!(response.messages[0].recipient, "trigger");
    assert_eq!(response.messages[0].amount, 0);
    assert_eq!(state.tiers[0].rounds.len(), 2);

    handle(
        &mut state,
        &mut user,
        &env("owner", 9),
        HandleMsg::ChangeTriggerer { triggerer: "t2".to_string() },
        None,
    )
    .unwrap();
    assert_eq!(state.config.triggerer, "t2");
    handle(
        &mut state,
        &mut user,
        &env("owner", 9),
        HandleMsg::ChangeAdmin { admin: "o2".to_string() },
        None,
    )
    .unwrap();
    assert_eq!(state.config.owner, "o2");
    assert_eq!(
        handle(
            &mut state,
            &mut user,
            &env("owner", 9),
            HandleMsg::ChangeAdmin { admin: "o3".to_string() },
            None,
        )
        .err(),
        Some(ContractError::NotOwner)
    );
}

#[test]
fn error_messages() {
    assert_eq!(ContractError::InvalidTier.message(), "Tier invalid");
    assert_eq!(ContractError::InvalidAmount.message(), "Amount invalid of tier choosen");
    assert_eq!(ContractError::AlreadyBet.message(), "User already bet on this round / tier.");
    assert_eq!(ContractError::NotTriggerer.message(), "Not the valid triggerer!");
    assert_eq!(
        ContractError::BetNotFound.message(),
        "User does not have any redeemable bet on this tier/round!"
    );
    assert_eq!(
        ContractError::AlreadyClaimed.message(),
        "This user already claimed the reward for this tier/round!"
    );
    assert_eq!(ContractError::InvalidViewingKey.message(), "User+VK not valid!");
    assert_eq!(
        ContractError::RecursiveReceive.message(),
        "Recursive call to receive() is not allowed"
    );
    assert_eq!(ContractError::HandlerNotFound.message(), "Handler not found!");
    assert_eq!(ContractError::ReceiveHandlerNotFound.message(), "Receive handler not found!");
}

#[test]
fn arithmetic_errors_are_told_apart() {
    assert!(ContractError::Underflow.is_arithmetic());
    assert!(ContractError::Overflow.is_arithmetic());
    assert!(ContractError::DivideByZero.is_arithmetic());
    assert!(!ContractError::InvalidTier.is_arithmetic());
    assert!(!ContractError::AlreadyBet.is_arithmetic());
    assert!(!ContractError::NotWinner.is_arithmetic());
    assert_eq!(ContractError::Underflow.message(), "Cannot subtract below zero");
    assert_eq!(ContractError::Overflow.message(), "Cannot add beyond the largest amount");
    assert_eq!(ContractError::DivideByZero.message(), "Cannot split a reward among zero winners");
    assert_eq!(ContractError::NotOwner.message(), "Not the valid owner!");
    assert_eq!(ContractError::RoundNotFound.message(), "Round not found on this tier!");
    assert_eq!(ContractError::NumberOutOfRange.message(), "Number invalid of tier choosen");
    assert_eq!(
        ContractError::NotWinner.message(),
        "User is not a winner! The bet number is not equal to the lucky number for this tier/round!"
    );
}
