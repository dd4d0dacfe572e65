//! The reading calls.

use vstd::prelude::*;
use vstd::utf8::encode_utf8;

use crate::encoding::bytes_equal;
use crate::error::ContractError;
use crate::msg::{QueryAnswer, QueryMsg, TierConfig};
use crate::state::{
    mapping_key_text, valid_tier, LotteryState, LotteryView, RoundStruct, RoundView, TierState,
    UserBetStruct, UserRecord,
};
use crate::viewing_key::{is_key_valid, key_opens};

verus! {

/// The models of a sequence of rounds.
pub open spec fn round_views(rounds: Seq<RoundStruct>) -> Seq<RoundView> {
    rounds.map_values(|r: RoundStruct| r@)
}

/// Index, counted from the newest item, at which page `page` starts, cut off at `len`.
pub open spec fn page_start(len: nat, page: u32, page_size: u32) -> int {
    if page as int * page_size as int <= len {
        page as int * page_size as int
    } else {
        len as int
    }
}

/// Index, counted from the newest item, before which page `page` ends, cut off at `len`.
pub open spec fn page_end(len: nat, page: u32, page_size: u32) -> int {
    if page as int * page_size as int + page_size as int <= len {
        page as int * page_size as int + page_size as int
    } else {
        len as int
    }
}

/// Page `page` of `items` in pages of `page_size`, newest item first: of the
/// items in reverse order, `page * page_size` are skipped and up to
/// `page_size` taken.
pub open spec fn page_of<T>(items: Seq<T>, page: u32, page_size: u32) -> Seq<T> {
    items.reverse().subrange(
        page_start(items.len(), page, page_size),
        page_end(items.len(), page, page_size),
    )
}

/// Computes [`page_start`] and [`page_end`].
pub fn page_bounds(len: usize, page: u32, page_size: u32) -> (bounds: (usize, usize))
    ensures
        bounds.0 == page_start(len as nat, page, page_size),
        bounds.1 == page_end(len as nat, page, page_size),
        bounds.0 <= bounds.1 <= len,
{
    assert(page as int * page_size as int <= 0xffff_ffff * 0xffff_ffff) by (nonlinear_arith)
        requires
            0 <= page <= 0xffff_ffff,
            0 <= page_size <= 0xffff_ffff,
    ;
    let skip: u64 = page as u64 * page_size as u64;
    let stop: u64 = skip + page_size as u64;
    let start = if skip <= len as u64 {
        skip as usize
    } else {
        len
    };
    let end = if stop <= len as u64 {
        stop as usize
    } else {
        len
    };
    (start, end)
}

/// The rounds of page `page`, newest first.
pub fn rounds_page(rounds: &Vec<RoundStruct>, page: u32, page_size: u32) -> (out: Vec<RoundStruct>)
    ensures
        round_views(out@) == page_of(round_views(rounds@), page, page_size),
{
    let len = rounds.len();
    let (start, end) = page_bounds(len, page, page_size);
    let mut out: Vec<RoundStruct> = Vec::new();
    let mut k = start;
    while k < end
        invariant
            start <= k <= end <= len,
            len == rounds@.len(),
            round_views(out@) == round_views(rounds@).reverse().subrange(start as int, k as int),
        decreases end - k,
    {
        let ghost before = round_views(out@);
        out.push(rounds[len - 1 - k].duplicate());
        assert(round_views(out@) =~= before.push(rounds@[len - 1 - k]@));
        assert(round_views(rounds@).reverse()[k as int] == rounds@[len - 1 - k]@);
        assert(round_views(out@) =~= round_views(rounds@).reverse().subrange(
            start as int,
            k + 1,
        ));
        k = k + 1;
    }
    out
}

/// The bets of page `page`, newest first.
pub fn bets_page(bets: &Vec<UserBetStruct>, page: u32, page_size: u32) -> (out: Vec<UserBetStruct>)
    ensures
        out@ == page_of(bets@, page, page_size),
{
    let len = bets.len();
    let (start, end) = page_bounds(len, page, page_size);
    let mut out: Vec<UserBetStruct> = Vec::new();
    let mut k = start;
    while k < end
        invariant
            start <= k <= end <= len,
            len == bets@.len(),
            out@ == bets@.reverse().subrange(start as int, k as int),
        decreases end - k,
    {
        out.push(bets[len - 1 - k]);
        assert(out@ =~= bets@.reverse().subrange(start as int, k + 1));
        k = k + 1;
    }
    out
}

/// The first bet of `history` that is known by the name `name`.
pub open spec fn bet_named(history: Seq<UserBetStruct>, name: Seq<u8>) -> Option<UserBetStruct>
    decreases history.len(),
{
    if history.len() == 0 {
        None
    } else if history.first().key_text() == name {
        Some(history.first())
    } else {
        bet_named(history.drop_first(), name)
    }
}

/// The bets of `history` known by the names `keys`, in the order of `keys`;
/// a name that no bet carries adds nothing.
pub open spec fn bets_under(history: Seq<UserBetStruct>, keys: Seq<String>) -> Seq<UserBetStruct>
    decreases keys.len(),
{
    if keys.len() == 0 {
        Seq::empty()
    } else {
        match bet_named(history, encode_utf8(keys.last()@)) {
            Some(bet) => bets_under(history, keys.drop_last()).push(bet),
            None => bets_under(history, keys.drop_last()),
        }
    }
}

/// A bet whose name matches, after bets whose names do not, is the bet of that name.
proof fn lemma_bet_named_at(history: Seq<UserBetStruct>, name: Seq<u8>, at: int)
    requires
        0 <= at <= history.len(),
        forall|j: int| 0 <= j < at ==> (#[trigger] history[j]).key_text() != name,
        at < history.len() ==> history[at].key_text() == name,
    ensures
        bet_named(history, name) == if at < history.len() {
            Some(history[at])
        } else {
            None
        },
    decreases history.len(),
{
    if history.len() > 0 && at > 0 {
        let rest = history.drop_first();
        assert forall|j: int| 0 <= j < at - 1 implies (#[trigger] rest[j]).key_text() != name by {
            assert(rest[j] == history[j + 1]);
        }
        lemma_bet_named_at(rest, name, at - 1);
    }
}

/// The first bet of `history` known by the name `name`.
pub fn find_bet_named(history: &Vec<UserBetStruct>, name: &[u8]) -> (found: Option<UserBetStruct>)
    ensures
        found == bet_named(history@, name@),
{
    let mut i: usize = 0;
    while i < history.len()
        invariant
            i <= history@.len(),
            forall|j: int| 0 <= j < i ==> (#[trigger] history@[j]).key_text() != name@,
        decreases history@.len() - i,
    {
        let text = mapping_key_text(history[i].tier, history[i].round_number);
        if bytes_equal(text.as_slice(), name) {
            proof {
                lemma_bet_named_at(history@, name@, i as int);
            }
            return Some(history[i]);
        }
        i = i + 1;
    }
    proof {
        lemma_bet_named_at(history@, name@, i as int);
    }
    None
}

/// The round a bet was placed in, if the ledger holds it.
pub open spec fn round_of_bet(state: LotteryView, bet: UserBetStruct) -> Option<RoundView> {
    if valid_tier(bet.tier) && bet.round_number < state.tier(bet.tier).rounds.len() {
        Some(state.tier(bet.tier).rounds[bet.round_number as int])
    } else {
        None
    }
}

/// The rounds of `bets`, bet by bet, where all of them are in the ledger.
pub open spec fn rounds_of_bets(state: LotteryView, bets: Seq<UserBetStruct>) -> Option<
    Seq<RoundView>,
> {
    if forall|i: int| 0 <= i < bets.len() ==> round_of_bet(state, #[trigger] bets[i]) is Some {
        Some(Seq::new(bets.len(), |i: int| round_of_bet(state, bets[i])->0))
    } else {
        None
    }
}

/// The rounds with the given numbers, in the order given, where the ledger holds all of them.
pub open spec fn rounds_numbered(rounds: Seq<RoundView>, numbers: Seq<u32>) -> Option<
    Seq<RoundView>,
> {
    if forall|i: int| 0 <= i < numbers.len() ==> (#[trigger] numbers[i]) < rounds.len() {
        Some(Seq::new(numbers.len(), |i: int| rounds[numbers[i] as int]))
    } else {
        None
    }
}

/// The identity that may trigger draws.
pub fn query_triggerer(state: &LotteryState) -> (triggerer: String)
    ensures
        triggerer@ == state@.config.triggerer,
{
    state.config.triggerer.clone()
}

/// The bets of `user` known by the names `keys`, for the holder of the user's viewing key.
pub fn query_user_bets(user: &UserRecord, viewing_key: String, keys: &Vec<String>) -> (result:
    Result<Vec<UserBetStruct>, ContractError>)
    requires
        user.bets@.wf(),
    ensures
        match result {
            Ok(bets) => key_opens(user.viewing_key, viewing_key@) && bets@ == bets_under(
                user.bets@.history(),
                keys@,
            ),
            Err(e) => !key_opens(user.viewing_key, viewing_key@) && e
                == ContractError::InvalidViewingKey,
        },
{
    if !is_key_valid(&user.viewing_key, viewing_key) {
        return Err(ContractError::InvalidViewingKey);
    }
    let history = user.bets.history();
    let mut out: Vec<UserBetStruct> = Vec::new();
    let mut i: usize = 0;
    while i < keys.len()
        invariant
            i <= keys@.len(),
            history@ == user.bets@.history(),
            out@ == bets_under(history@, keys@.take(i as int)),
        decreases keys@.len() - i,
    {
        assert(keys@.take(i + 1).drop_last() =~= keys@.take(i as int));
        match find_bet_named(&history, keys[i].as_str().as_bytes()) {
            Some(bet) => {
                out.push(bet);
            },
            None => {},
        }
        i = i + 1;
    }
    assert(keys@.take(i as int) =~= keys@);
    Ok(out)
}

/// Why page `page` of the bets of a user cannot be shown, if it cannot.
pub open spec fn user_bets_error(
    state: LotteryView,
    user: UserRecord,
    viewing_key: Seq<char>,
    page: u32,
    page_size: u32,
) -> Option<ContractError> {
    if !key_opens(user.viewing_key, viewing_key) {
        Some(ContractError::InvalidViewingKey)
    } else if rounds_of_bets(state, page_of(user.bets@.history(), page, page_size)) is None {
        Some(ContractError::RoundNotFound)
    } else {
        None
    }
}

/// One page of the bets of `user`, newest first, each with the round it was
/// placed in, and the number of all bets of the user.
pub fn query_paginated_user_bets(
    state: &LotteryState,
    user: &UserRecord,
    viewing_key: String,
    page: u32,
    page_size: u32,
) -> (result: Result<(Vec<UserBetStruct>, Vec<RoundStruct>, usize), ContractError>)
    requires
        state@.wf(),
        user.bets@.wf(),
    ensures
        match result {
            Ok((bets, rounds, total)) => {
                &&& user_bets_error(state@, *user, viewing_key@, page, page_size) is None
                &&& bets@ == page_of(user.bets@.history(), page, page_size)
                &&& Some(round_views(rounds@)) == rounds_of_bets(state@, bets@)
                &&& total == user.bets@.history().len()
            },
            Err(e) => user_bets_error(state@, *user, viewing_key@, page, page_size) == Some(e),
        },
{
    let ghost presented = viewing_key@;
    if !is_key_valid(&user.viewing_key, viewing_key) {
        return Err(ContractError::InvalidViewingKey);
    }
    let all = user.bets.history();
    let bets = bets_page(&all, page, page_size);
    let mut rounds: Vec<RoundStruct> = Vec::new();
    let mut i: usize = 0;
    while i < bets.len()
        invariant
            i <= bets@.len(),
            state@.wf(),
            presented == viewing_key@,
            key_opens(user.viewing_key, presented),
            bets@ == page_of(user.bets@.history(), page, page_size),
            round_views(rounds@).len() == i,
            forall|k: int|
                0 <= k < i ==> round_of_bet(state@, #[trigger] bets@[k]) == Some(
                    round_views(rounds@)[k],
                ),
        decreases bets@.len() - i,
    {
        let bet = bets[i];
        if bet.tier < 1 || bet.tier > 3 {
            assert(round_of_bet(state@, bets@[i as int]) is None);
            return Err(ContractError::RoundNotFound);
        }
        let tier = &state.tiers[(bet.tier - 1) as usize];
        assert(state@.tier(bet.tier) == tier@);
        if bet.round_number as usize >= tier.rounds.len() {
            assert(round_of_bet(state@, bets@[i as int]) is None);
            return Err(ContractError::RoundNotFound);
        }
        let ghost before = round_views(rounds@);
        rounds.push(tier.rounds[bet.round_number as usize].duplicate());
        assert(round_views(rounds@) =~= before.push(tier@.rounds[bet.round_number as int]));
        i = i + 1;
    }
    assert(round_views(rounds@) =~= rounds_of_bets(state@, bets@)->0);
    Ok((bets, rounds, all.len()))
}

/// For each selected tier, page `page` of its rounds, newest first.
pub fn query_rounds(
    state: &LotteryState,
    tier1: bool,
    tier2: bool,
    tier3: bool,
    page: u32,
    page_size: u32,
) -> (pages: (Option<Vec<RoundStruct>>, Option<Vec<RoundStruct>>, Option<Vec<RoundStruct>>))
    requires
        state@.wf(),
    ensures
        rounds_answer(state@.tiers[0].rounds, tier1, page, page_size, pages.0),
        rounds_answer(state@.tiers[1].rounds, tier2, page, page_size, pages.1),
        rounds_answer(state@.tiers[2].rounds, tier3, page, page_size, pages.2),
{
    (
        tier_rounds_page(&state.tiers[0], tier1, page, page_size),
        tier_rounds_page(&state.tiers[1], tier2, page, page_size),
        tier_rounds_page(&state.tiers[2], tier3, page, page_size),
    )
}

/// What a page query answers for one tier: nothing when the tier is not
/// selected, else the page of its rounds.
pub open spec fn rounds_answer(
    rounds: Seq<RoundView>,
    selected: bool,
    page: u32,
    page_size: u32,
    answer: Option<Vec<RoundStruct>>,
) -> bool {
    if selected {
        answer matches Some(shown) && round_views(shown@) == page_of(rounds, page, page_size)
    } else {
        answer is None
    }
}

fn tier_rounds_page(tier: &TierState, selected: bool, page: u32, page_size: u32) -> (answer: Option<
    Vec<RoundStruct>,
>)
    ensures
        rounds_answer(tier@.rounds, selected, page, page_size, answer),
{
    if selected {
        Some(rounds_page(&tier.rounds, page, page_size))
    } else {
        None
    }
}

/// Appends to `out` the rounds of `tier` with the given numbers.
fn push_rounds_numbered(out: &mut Vec<RoundStruct>, tier: &TierState, numbers: &Vec<u32>) -> (result:
    Result<(), ContractError>)
    ensures
        match result {
            Ok(()) => rounds_numbered(tier@.rounds, numbers@) matches Some(found) && round_views(
                final(out)@,
            ) == round_views(old(out)@) + found,
            Err(e) => rounds_numbered(tier@.rounds, numbers@) is None && e
                == ContractError::RoundNotFound,
        },
{
    let mut i: usize = 0;
    while i < numbers.len()
        invariant
            i <= numbers@.len(),
            forall|k: int| 0 <= k < i ==> (#[trigger] numbers@[k]) < tier@.rounds.len(),
            round_views(out@) == round_views(old(out)@) + Seq::new(
                i as nat,
                |k: int| tier@.rounds[numbers@[k] as int],
            ),
        decreases numbers@.len() - i,
    {
        let number = numbers[i] as usize;
        if number >= tier.rounds.len() {
            return Err(ContractError::RoundNotFound);
        }
        let ghost before = round_views(out@);
        out.push(tier.rounds[number].duplicate());
        assert(round_views(out@) =~= before.push(tier@.rounds[number as int]));
        assert(round_views(out@) =~= round_views(old(out)@) + Seq::new(
            (i + 1) as nat,
            |k: int| tier@.rounds[numbers@[k] as int],
        ));
        i = i + 1;
    }
    Ok(())
}

/// The rounds asked for by number: those of tier 1, then of tier 2, then of
/// tier 3, where the ledgers hold all of them.
pub open spec fn rounds_asked(
    state: LotteryView,
    tier1_rounds: Seq<u32>,
    tier2_rounds: Seq<u32>,
    tier3_rounds: Seq<u32>,
) -> Option<Seq<RoundView>> {
    match (
        rounds_numbered(state.tiers[0].rounds, tier1_rounds),
        rounds_numbered(state.tiers[1].rounds, tier2_rounds),
        rounds_numbered(state.tiers[2].rounds, tier3_rounds),
    ) {
        (Some(first), Some(second), Some(third)) => Some(first + second + third),
        _ => None,
    }
}

/// The rounds with the given numbers, tier by tier.
pub fn query_rounds_by_number(
    state: &LotteryState,
    tier1_rounds: &Vec<u32>,
    tier2_rounds: &Vec<u32>,
    tier3_rounds: &Vec<u32>,
) -> (result: Result<Vec<RoundStruct>, ContractError>)
    requires
        state@.wf(),
    ensures
        match result {
            Ok(rounds) => Some(round_views(rounds@)) == rounds_asked(
                state@,
                tier1_rounds@,
                tier2_rounds@,
                tier3_rounds@,
            ),
            Err(e) => rounds_asked(state@, tier1_rounds@, tier2_rounds@, tier3_rounds@) is None && e
                == ContractError::RoundNotFound,
        },
{
    let mut out: Vec<RoundStruct> = Vec::new();
    assert(round_views(out@) =~= Seq::empty());
    match push_rounds_numbered(&mut out, &state.tiers[0], tier1_rounds) {
        Ok(()) => {},
        Err(e) => {
            return Err(e);
        },
    }
    match push_rounds_numbered(&mut out, &state.tiers[1], tier2_rounds) {
        Ok(()) => {},
        Err(e) => {
            return Err(e);
        },
    }
    match push_rounds_numbered(&mut out, &state.tiers[2], tier3_rounds) {
        Ok(()) => {},
        Err(e) => {
            return Err(e);
        },
    }
    assert(round_views(out@) =~= rounds_asked(
        state@,
        tier1_rounds@,
        tier2_rounds@,
        tier3_rounds@,
    )->0);
    Ok(out)
}

/// The configuration of each selected tier.
pub fn query_tier_configs(state: &LotteryState, tier1: bool, tier2: bool, tier3: bool) -> (configs: (
    Option<TierConfig>,
    Option<TierConfig>,
    Option<TierConfig>,
))
    requires
        state@.wf(),
    ensures
        configs.0 == if tier1 {
            Some(state@.tiers[0].config)
        } else {
            None
        },
        configs.1 == if tier2 {
            Some(state@.tiers[1].config)
        } else {
            None
        },
        configs.2 == if tier3 {
            Some(state@.tiers[2].config)
        } else {
            None
        },
{
    (
        if tier1 {
            Some(state.tiers[0].config)
        } else {
            None
        },
        if tier2 {
            Some(state.tiers[1].config)
        } else {
            None
        },
        if tier3 {
            Some(state.tiers[2].config)
        } else {
            None
        },
    )
}

/// For each tier, whether its pool has reached the draw threshold.
pub fn query_check_triggers(state: &LotteryState) -> (ready: (bool, bool, bool))
    requires
        state@.wf(),
    ensures
        ready.0 == state@.tiers[0].ready(),
        ready.1 == state@.tiers[1].ready(),
        ready.2 == state@.tiers[2].ready(),
{
    assert(state@.tiers[0] == state.tiers@[0]@ && state@.tiers[0].wf());
    assert(state@.tiers[1] == state.tiers@[1]@ && state@.tiers[1].wf());
    assert(state@.tiers[2] == state.tiers@[2]@ && state@.tiers[2].wf());
    (tier_ready(&state.tiers[0]), tier_ready(&state.tiers[1]), tier_ready(&state.tiers[2]))
}

fn tier_ready(tier: &TierState) -> (ready: bool)
    requires
        tier@.wf(),
    ensures
        ready == tier@.ready(),
{
    let last = tier.rounds.len() - 1;
    assert(tier@.rounds[last as int] == tier.rounds[last as int]@);
    tier.config.threshold_met(tier.rounds[last].pool_size)
}

/// The user whose record the reading call `msg` is about, if it names one.
pub fn user_of(msg: &QueryMsg) -> (user: Option<String>)
    ensures
        match *msg {
            QueryMsg::GetUserBets { user_address, .. } => user matches Some(name) && name@
                == user_address@,
            QueryMsg::GetPaginatedUserBets { user_address, .. } => user matches Some(name) && name@
                == user_address@,
            _ => user is None,
        },
{
    match msg {
        QueryMsg::GetUserBets { user_address, .. } => Some(user_address.clone()),
        QueryMsg::GetPaginatedUserBets { user_address, .. } => Some(user_address.clone()),
        _ => None,
    }
}

/// Whether `result` is the answer that the reading call `msg` is owed.
///
/// `user` is the record of the user that `msg` names, where it names one.
pub open spec fn query_answers(
    state: LotteryView,
    user: UserRecord,
    msg: QueryMsg,
    result: Result<QueryAnswer, ContractError>,
) -> bool {
    match msg {
        QueryMsg::GetTriggerer {  } => {
            &&& result matches Ok(QueryAnswer::GetTriggerer { triggerer })
            &&& triggerer@ == state.config.triggerer
        },
        QueryMsg::GetUserBets { viewing_key, keys, .. } => match result {
            Ok(QueryAnswer::GetUserBets { user_bets }) => {
                &&& key_opens(user.viewing_key, viewing_key@)
                &&& user_bets@ == bets_under(user.bets@.history(), keys@)
            },
            Ok(_) => false,
            Err(e) => !key_opens(user.viewing_key, viewing_key@) && e
                == ContractError::InvalidViewingKey,
        },
        QueryMsg::GetPaginatedUserBets { viewing_key, page, page_size, .. } => match result {
            Ok(QueryAnswer::GetPaginatedUserBets { user_bets, bet_rounds, user_bets_total_count }) => {
                &&& user_bets_error(state, user, viewing_key@, page, page_size) is None
                &&& user_bets@ == page_of(user.bets@.history(), page, page_size)
                &&& Some(round_views(bet_rounds@)) == rounds_of_bets(state, user_bets@)
                &&& user_bets_total_count == user.bets@.history().len()
            },
            Ok(_) => false,
            Err(e) => user_bets_error(state, user, viewing_key@, page, page_size) == Some(e),
        },
        QueryMsg::GetPaginatedRounds { tier1, tier2, tier3, page, page_size } => {
            &&& result matches Ok(
                QueryAnswer::GetPaginatedRounds { tier1_rounds, tier2_rounds, tier3_rounds },
            )
            &&& rounds_answer(state.tiers[0].rounds, tier1, page, page_size, tier1_rounds)
            &&& rounds_answer(state.tiers[1].rounds, tier2, page, page_size, tier2_rounds)
            &&& rounds_answer(state.tiers[2].rounds, tier3, page, page_size, tier3_rounds)
        },
        QueryMsg::GetRounds { tier1_rounds, tier2_rounds, tier3_rounds } => match result {
            Ok(QueryAnswer::GetRounds { rounds }) => Some(round_views(rounds@)) == rounds_asked(
                state,
                tier1_rounds@,
                tier2_rounds@,
                tier3_rounds@,
            ),
            Ok(_) => false,
            Err(e) => rounds_asked(state, tier1_rounds@, tier2_rounds@, tier3_rounds@) is None && e
                == ContractError::RoundNotFound,
        },
        QueryMsg::GetTierConfigs { tier1, tier2, tier3 } => {
            &&& result matches Ok(
                QueryAnswer::GetTierConfigs { tier1_configs, tier2_configs, tier3_configs },
            )
            &&& tier1_configs == if tier1 {
                Some(state.tiers[0].config)
            } else {
                None
            }
            &&& tier2_configs == if tier2 {
                Some(state.tiers[1].config)
            } else {
                None
            }
            &&& tier3_configs == if tier3 {
                Some(state.tiers[2].config)
            } else {
                None
            }
        },
        QueryMsg::CheckTriggers {  } => {
            &&& result matches Ok(
                QueryAnswer::CheckTriggers { tier1_trigger, tier2_trigger, tier3_trigger },
            )
            &&& tier1_trigger == state.tiers[0].ready()
            &&& tier2_trigger == state.tiers[1].ready()
            &&& tier3_trigger == state.tiers[2].ready()
        },
    }
}

/// Serves one reading call.
///
/// `user` is the record of the user that `msg` names; for a call that names
/// no user it is not read.
pub fn query(state: &LotteryState, user: &UserRecord, msg: QueryMsg) -> (result: Result<
    QueryAnswer,
    ContractError,
>)
    requires
        state@.wf(),
        user.bets@.wf(),
    ensures
        query_answers(state@, *user, msg, result),
{
    match msg {
        QueryMsg::GetTriggerer {  } => Ok(
            QueryAnswer::GetTriggerer { triggerer: query_triggerer(state) },
        ),
        QueryMsg::GetUserBets { user_address: _, viewing_key, keys } => {
            match query_user_bets(user, viewing_key, &keys) {
                Ok(user_bets) => Ok(QueryAnswer::GetUserBets { user_bets }),
                Err(e) => Err(e),
            }
        },
        QueryMsg::GetPaginatedUserBets { user_address: _, viewing_key, page, page_size } => {
            match query_paginated_user_bets(state, user, viewing_key, page, page_size) {
                Ok((user_bets, bet_rounds, user_bets_total_count)) => Ok(
                    QueryAnswer::GetPaginatedUserBets {
                        user_bets,
                        bet_rounds,
                        user_bets_total_count,
                    },
                ),
                Err(e) => Err(e),
            }
        },
        QueryMsg::GetPaginatedRounds { tier1, tier2, tier3, page, page_size } => {
            let (tier1_rounds, tier2_rounds, tier3_rounds) = query_rounds(
                state,
                tier1,
                tier2,
                tier3,
                page,
                page_size,
            );
            Ok(QueryAnswer::GetPaginatedRounds { tier1_rounds, tier2_rounds, tier3_rounds })
        },
        QueryMsg::GetRounds { tier1_rounds, tier2_rounds, tier3_rounds } => {
            match query_rounds_by_number(state, &tier1_rounds, &tier2_rounds, &tier3_rounds) {
                Ok(rounds) => Ok(QueryAnswer::GetRounds { rounds }),
                Err(e) => Err(e),
            }
        },
        QueryMsg::GetTierConfigs { tier1, tier2, tier3 } => {
            let (tier1_configs, tier2_configs, tier3_configs) = query_tier_configs(
                state,
                tier1,
                tier2,
                tier3,
            );
            Ok(QueryAnswer::GetTierConfigs { tier1_configs, tier2_configs, tier3_configs })
        },
        QueryMsg::CheckTriggers {  } => {
            let (tier1_trigger, tier2_trigger, tier3_trigger) = query_check_triggers(state);
            Ok(QueryAnswer::CheckTriggers { tier1_trigger, tier2_trigger, tier3_trigger })
        },
    }
}

} // verus!
