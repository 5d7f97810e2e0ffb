use stuck_in_a_loop::scheduler::ActiveTurn;

#[test]
fn initial_state_allows_only_subturn_zero() {
    let turn = ActiveTurn::default();
    assert!(turn.allow_turn(5, 0));
    assert!(!turn.allow_turn(5, 1));
    assert!(!turn.allow_turn(5, 2));
}

#[test]
fn initial_state_at_limit_zero_allows_nobody() {
    let turn = ActiveTurn::default();
    assert!(!turn.allow_turn(0, 0));
}

#[test]
fn single_actor_reaches_limit_after_limit_marches() {
    let mut turn = ActiveTurn::default();
    let limit = 4;
    for _ in 0..limit {
        assert!(!turn.should_reset(limit));
        assert!(turn.allow_turn(limit, 0));
        turn.march_turn();
    }
    assert_eq!(turn.turn, limit);
    assert!(turn.should_reset(limit));
    assert!(!turn.allow_turn(limit, 0));
}

#[test]
fn block_turn_pauses_without_losing_position() {
    let mut turn = ActiveTurn::default();
    turn.block_turn = true;
    assert!(!turn.allow_turn(5, 0));
    turn.block_turn = false;
    assert!(turn.allow_turn(5, 0));
    assert_eq!(turn.turn, 0);
}

#[test]
fn march_clears_block_turn() {
    let mut turn = ActiveTurn::default();
    turn.block_turn = true;
    turn.march_turn();
    assert!(!turn.block_turn);
}

#[test]
fn rollover_adds_actor_and_restarts_round() {
    let mut turn = ActiveTurn::default();
    turn.march_turn();
    turn.reset_and_add_ent();
    assert_eq!(turn.active_ent_refresh, 1);
    assert_eq!(turn.active_ent, 1);
    assert_eq!(turn.turn, 0);
}

#[test]
fn round_robin_counts_down_then_wraps() {
    let mut turn = ActiveTurn::default();
    turn.reset_and_add_ent();
    // Two actors now: subturn 1 acts first, subturn 0 last.
    assert!(turn.allow_turn(5, 1));
    assert!(!turn.allow_turn(5, 0));
    turn.march_turn();
    assert!(turn.allow_turn(5, 0));
    assert!(!turn.allow_turn(5, 1));
    turn.march_turn();
    assert_eq!(turn.turn, 1);
    assert!(turn.allow_turn(5, 1));
}

#[test]
fn reinit_restores_initial_state() {
    let mut turn = ActiveTurn::default();
    turn.march_turn();
    turn.reset_and_add_ent();
    turn.reinit();
    assert_eq!(turn, ActiveTurn::default());
}
