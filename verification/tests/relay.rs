use instalock::relay::{addresses_a_real_spell, is_live, Action, Frame, Relay, Room};
use instalock::spells::{ActiveTimer, SyncMessage};

const NOW: u64 = 1_000_000;

fn join(game: &str) -> Frame {
    Frame::Text(Some(SyncMessage::Join {
        game_id: game.to_string(),
        player_name: "player".to_string(),
    }))
}

fn start_message(enemy_idx: u8, spell_idx: u8, cooldown_secs: u32, started_at: u64) -> SyncMessage {
    SyncMessage::TimerStart { enemy_idx, spell_idx, cooldown_secs, started_at }
}

fn start(enemy_idx: u8, spell_idx: u8, cooldown_secs: u32, started_at: u64) -> Frame {
    Frame::Text(Some(start_message(enemy_idx, spell_idx, cooldown_secs, started_at)))
}

fn cancel(enemy_idx: u8, spell_idx: u8) -> Frame {
    Frame::Text(Some(SyncMessage::TimerCancel { enemy_idx, spell_idx }))
}

fn welcomed(action: Action) -> Vec<ActiveTimer> {
    match action {
        Action::Welcome(timers) => timers,
        other => panic!("{:?}", other),
    }
}

#[test]
fn a_newcomer_is_told_of_the_timers_that_still_run() {
    let mut relay = Relay::new();
    let mut first = None;
    assert!(welcomed(relay.receive(&mut first, join("g"), NOW)).is_empty());
    assert_eq!(first.as_deref(), Some("g"));
    assert!(matches!(relay.receive(&mut first, start(0, 1, 300, NOW - 10), NOW), Action::Broadcast));
    assert!(matches!(relay.receive(&mut first, start(1, 0, 100, NOW - 100), NOW), Action::Broadcast));
    let mut second = None;
    let timers = welcomed(relay.receive(&mut second, join("g"), NOW));
    assert_eq!(
        timers,
        [ActiveTimer { enemy_idx: 0, spell_idx: 1, cooldown_secs: 300, started_at: NOW - 10 }]
    );
}

#[test]
fn rooms_of_two_games_do_not_mix() {
    let mut relay = Relay::new();
    let mut a = None;
    let mut b = None;
    relay.receive(&mut a, join("a"), NOW);
    relay.receive(&mut b, join("b"), NOW);
    relay.receive(&mut a, start(0, 0, 300, NOW), NOW);
    let mut c = None;
    assert!(welcomed(relay.receive(&mut c, join("b"), NOW)).is_empty());
}

#[test]
fn a_spell_has_one_timer() {
    let mut relay = Relay::new();
    let mut seat = None;
    relay.receive(&mut seat, join("g"), NOW);
    relay.receive(&mut seat, start(2, 0, 300, NOW), NOW);
    relay.receive(&mut seat, start(2, 0, 282, NOW + 1), NOW);
    let mut other = None;
    let timers = welcomed(relay.receive(&mut other, join("g"), NOW));
    assert_eq!((timers.len(), timers[0].cooldown_secs), (1, 282));
    assert!(matches!(relay.receive(&mut seat, cancel(2, 0), NOW), Action::Broadcast));
    let mut third = None;
    assert!(welcomed(relay.receive(&mut third, join("g"), NOW)).is_empty());
}

#[test]
fn what_is_out_of_bounds_is_neither_kept_nor_passed_on() {
    let mut relay = Relay::new();
    let mut seat = None;
    relay.receive(&mut seat, join("g"), NOW);
    for frame in [
        start(5, 0, 300, NOW),
        start(0, 2, 300, NOW),
        start(0, 0, 0, NOW),
        start(0, 0, 901, NOW),
        cancel(5, 0),
        Frame::Text(None),
        Frame::Other,
    ] {
        assert!(matches!(relay.receive(&mut seat, frame, NOW), Action::Wait));
    }
    let mut other = None;
    assert!(welcomed(relay.receive(&mut other, join("g"), NOW)).is_empty());
    assert!(matches!(relay.receive(&mut seat, start(4, 1, 900, NOW), NOW), Action::Broadcast));
}

#[test]
fn a_room_never_outgrows_the_spells() {
    let mut room = Room::new();
    for round in 0..3 {
        for enemy in 0..8 {
            for spell in 0..4 {
                room.receive(&start_message(enemy, spell, 300, NOW + round));
            }
        }
    }
    assert_eq!(room.timers().len(), 10);
}

#[test]
fn a_newcomer_is_told_of_no_more_timers_than_there_are_spells() {
    let mut relay = Relay::new();
    let mut seat = None;
    relay.receive(&mut seat, join("g"), NOW);
    for enemy in 0..8 {
        for spell in 0..4 {
            for cooldown in [0, 300, 901] {
                relay.receive(&mut seat, start(enemy, spell, cooldown, NOW), NOW);
            }
        }
    }
    let mut other = None;
    let timers = welcomed(relay.receive(&mut other, join("g"), NOW));
    assert_eq!(timers.len(), 10);
    assert!(timers.iter().all(|t| {
        addresses_a_real_spell(t.enemy_idx, t.spell_idx) && t.cooldown_secs == 300
    }));
}

#[test]
fn only_a_join_takes_a_seat() {
    let mut relay = Relay::new();
    let mut seat = None;
    assert!(matches!(relay.receive(&mut seat, Frame::Other, NOW), Action::Wait));
    assert!(matches!(relay.receive(&mut seat, start(0, 0, 300, NOW), NOW), Action::Wait));
    assert!(matches!(relay.receive(&mut seat, Frame::Silent, NOW), Action::Wait));
    assert!(seat.is_none());
    assert!(matches!(relay.receive(&mut seat, Frame::Closed, NOW), Action::HangUp));
    relay.receive(&mut seat, join("g"), NOW);
    assert!(matches!(relay.receive(&mut seat, Frame::Silent, NOW), Action::HangUp));
}

#[test]
fn a_sweep_keeps_the_rooms_that_are_listened_in() {
    let mut relay = Relay::new();
    let mut seat = None;
    relay.receive(&mut seat, join("g"), NOW);
    relay.receive(&mut seat, start(0, 0, 300, NOW), NOW);
    relay.sweep();
    let mut other = None;
    assert_eq!(welcomed(relay.receive(&mut other, join("g"), NOW)).len(), 1);
    relay.leave("g");
    relay.leave("g");
    relay.sweep();
    let mut third = None;
    assert!(welcomed(relay.receive(&mut third, join("g"), NOW)).is_empty());
}

#[test]
fn an_overflowing_timer_is_over() {
    let timer = |cooldown_secs: u32, started_at: u64| ActiveTimer {
        enemy_idx: 0,
        spell_idx: 0,
        cooldown_secs,
        started_at,
    };
    assert!(!is_live(&timer(1, u64::MAX), NOW));
    assert!(!is_live(&timer(300, NOW - 300), NOW));
    assert!(is_live(&timer(300, NOW - 299), NOW));
    assert!(addresses_a_real_spell(4, 1) && !addresses_a_real_spell(4, 2));
}
