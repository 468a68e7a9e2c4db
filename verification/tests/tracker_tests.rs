use mayhem_advisor::tracker::{
    get_my_champion, is_mayhem_mode, ActivePlayer, AllGameData, GameData, Player, PollEffects,
    TrackerState, TrayTooltip,
};

fn player(name: &str, raw: &str) -> Player {
    Player {
        summoner_name: name.to_string(),
        champion_name: String::new(),
        raw_champion_name: raw.to_string(),
        team: "ORDER".to_string(),
    }
}

fn snapshot(mode: &str, active: &str, players: Vec<Player>) -> AllGameData {
    AllGameData {
        active_player: ActivePlayer { summoner_name: active.to_string(), riot_id: None },
        all_players: players,
        game_data: GameData { game_mode: mode.to_string() },
    }
}

#[test]
fn mayhem_mode_is_the_fixed_code() {
    let kiwi = snapshot("KIWI", "me", Vec::new());
    let aram = snapshot("ARAM", "me", Vec::new());
    assert!(is_mayhem_mode(&kiwi));
    assert!(!is_mayhem_mode(&aram));
}

#[test]
fn my_champion_strips_prefix_and_lowercases() {
    let gd = snapshot(
        "KIWI",
        "me",
        vec![
            player("other", "game_character_displayname_Garen"),
            player("me", "game_character_displayname_Aatrox"),
        ],
    );
    assert_eq!(get_my_champion(&gd), Some("aatrox".to_string()));
}

#[test]
fn my_champion_without_prefix_is_only_lowercased() {
    let gd = snapshot("KIWI", "me", vec![player("me", "MissFortune")]);
    assert_eq!(get_my_champion(&gd), Some("missfortune".to_string()));
}

#[test]
fn my_champion_absent_when_no_player_matches() {
    let gd = snapshot("KIWI", "me", vec![player("other", "game_character_displayname_Lux")]);
    assert_eq!(get_my_champion(&gd), None);
}

#[test]
fn failed_poll_after_successful_polls_resets_to_waiting() {
    let mut state = TrackerState::new();
    let gd = snapshot("KIWI", "me", vec![player("me", "game_character_displayname_Aatrox")]);
    // N successful polls.
    for _ in 0..5 {
        state.handle_poll(Some(&gd));
    }
    assert!(state.game_active);
    assert!(state.is_target_mode);
    assert_eq!(state.current_champion, Some("aatrox".to_string()));
    // One failed poll.
    let eff: PollEffects = state.handle_poll(None);
    assert!(!state.game_active);
    assert!(!state.is_target_mode);
    assert_eq!(state.current_champion, None);
    assert_eq!(state.tooltip_memo, None);
    assert!(eff.hide_overlay);
    assert!(matches!(eff.tooltip, Some(TrayTooltip::Waiting)));
}

#[test]
fn failed_poll_while_waiting_changes_nothing() {
    let mut state = TrackerState::new();
    let eff = state.handle_poll(None);
    assert!(!state.game_active);
    assert!(!eff.hide_overlay);
    assert!(eff.tooltip.is_none());
}

#[test]
fn tooltip_fires_once_per_mode_change() {
    let mut state = TrackerState::new();
    let kiwi = snapshot("KIWI", "me", vec![player("me", "game_character_displayname_Lux")]);
    let aram = snapshot("ARAM", "me", vec![player("me", "game_character_displayname_Lux")]);
    let eff1 = state.handle_poll(Some(&kiwi));
    assert!(matches!(eff1.tooltip, Some(TrayTooltip::MayhemActive(None))));
    assert!(!eff1.hide_overlay);
    let eff2 = state.handle_poll(Some(&kiwi));
    assert!(eff2.tooltip.is_none());
    let eff3 = state.handle_poll(Some(&aram));
    assert!(matches!(eff3.tooltip, Some(TrayTooltip::MayhemInactive)));
    assert!(eff3.hide_overlay);
    let eff4 = state.handle_poll(Some(&aram));
    assert!(eff4.tooltip.is_none());
    assert!(eff4.hide_overlay);
}

#[test]
fn tooltip_on_activation_carries_previous_champion() {
    let mut state = TrackerState::new();
    let kiwi = snapshot("KIWI", "me", vec![player("me", "game_character_displayname_Lux")]);
    let aram = snapshot("ARAM", "me", vec![player("me", "game_character_displayname_Lux")]);
    state.handle_poll(Some(&kiwi));
    assert_eq!(state.current_champion, Some("lux".to_string()));
    state.handle_poll(Some(&aram));
    let eff = state.handle_poll(Some(&kiwi));
    // The tooltip carries the champion tracked before this poll's update.
    match eff.tooltip {
        Some(TrayTooltip::MayhemActive(champ)) => assert_eq!(champ, Some("lux".to_string())),
        other => panic!("unexpected tooltip {:?}", other),
    }
}

#[test]
fn champion_tracked_outside_target_mode() {
    let mut state = TrackerState::new();
    let kiwi = snapshot("KIWI", "me", vec![player("me", "game_character_displayname_Lux")]);
    let aram = snapshot("ARAM", "me", vec![player("me", "game_character_displayname_Garen")]);
    state.handle_poll(Some(&kiwi));
    assert_eq!(state.current_champion, Some("lux".to_string()));
    state.handle_poll(Some(&aram));
    // The champion keeps transitioning outside the target mode; only
    // the capture gate closes.
    assert_eq!(state.current_champion, Some("garen".to_string()));
    assert!(!state.is_target_mode);
    assert!(!state.capture_allowed());
}

#[test]
fn capture_gate_needs_active_target_mode_and_champion() {
    let mut state = TrackerState::new();
    assert!(!state.capture_allowed());
    let kiwi = snapshot("KIWI", "me", vec![player("me", "game_character_displayname_Lux")]);
    state.handle_poll(Some(&kiwi));
    assert!(state.capture_allowed());
    let aram = snapshot("ARAM", "me", vec![player("me", "game_character_displayname_Lux")]);
    state.handle_poll(Some(&aram));
    assert!(!state.capture_allowed());
    state.handle_poll(None);
    assert!(!state.capture_allowed());
}
