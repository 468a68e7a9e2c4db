//! Game state tracker: a state machine driven by periodic snapshots from
//! the local game-state endpoint.
//!
//! It tracks whether snapshots are arriving at all (`Waiting` versus
//! active), whether the reported game mode is the target mode, and which
//! champion the local player controls.  Each poll result yields the next
//! state together with the side effects the caller must perform: a
//! tooltip change (at most once per mode change) and hiding the overlay.

use vstd::prelude::*;

verus! {

use crate::text::lowercase_of;
use crate::dataset::opt_string_view_eq;

/// The local player's identity, as the endpoint reports it.
#[derive(Debug)]
pub struct ActivePlayer {
    pub summoner_name: String,
    pub riot_id: Option<String>,
}

/// One player of the running game.
#[derive(Debug)]
pub struct Player {
    pub summoner_name: String,
    pub champion_name: String,
    pub raw_champion_name: String,
    pub team: String,
}

/// Mode data of the running game.
#[derive(Debug)]
pub struct GameData {
    pub game_mode: String,
}

/// One snapshot of the running game's state.
#[derive(Debug)]
pub struct AllGameData {
    pub active_player: ActivePlayer,
    pub all_players: Vec<Player>,
    pub game_data: GameData,
}

/// The mode code of the target game mode.
pub open spec fn target_mode_code() -> Seq<char> {
    "KIWI"@
}

/// Whether a snapshot reports the target game mode.
pub open spec fn spec_is_mayhem_mode(gd: AllGameData) -> bool {
    gd.game_data.game_mode@ == target_mode_code()
}

/// Whether the snapshot reports the target game mode.
pub fn is_mayhem_mode(game_data: &AllGameData) -> (r: bool)
    ensures
        r == spec_is_mayhem_mode(*game_data),
{
    let target = String::from_str("KIWI");
    game_data.game_data.game_mode == target
}

/// The internal prefix in front of raw champion identifiers.
pub open spec fn champion_prefix() -> Seq<char> {
    "game_character_displayname_"@
}

/// A raw champion identifier with the internal prefix removed, when it
/// is present.
pub open spec fn stripped_champion(s: Seq<char>) -> Seq<char> {
    if s.len() >= champion_prefix().len() && s.subrange(0, champion_prefix().len() as int)
        == champion_prefix() {
        s.skip(champion_prefix().len() as int)
    } else {
        s
    }
}

/// Index of the first player with the given summoner name, `-1` if none.
pub open spec fn first_player_match(players: Seq<Player>, name: Seq<char>) -> int
    decreases players.len(),
{
    if players.len() == 0 {
        -1
    } else if players[0].summoner_name@ == name {
        0
    } else {
        let r = first_player_match(players.skip(1), name);
        if r == -1 {
            -1
        } else {
            r + 1
        }
    }
}

/// The local player's champion: the raw champion identifier of the first
/// player entry whose name equals the active player's name, with the
/// internal prefix removed and lowercased.
pub open spec fn spec_my_champion(gd: AllGameData) -> Option<Seq<char>> {
    let idx = first_player_match(gd.all_players@, gd.active_player.summoner_name@);
    if idx == -1 {
        Option::None
    } else {
        Option::Some(lowercase_of(stripped_champion(gd.all_players@[idx].raw_champion_name@)))
    }
}

/// A scan that saw no match up to `i` and a match at `i` (or none at
/// all) pins down the first matching index.
proof fn lemma_first_player_match_at(players: Seq<Player>, name: Seq<char>, i: int)
    requires
        0 <= i <= players.len(),
        forall|j: int| 0 <= j < i ==> (#[trigger] players[j]).summoner_name@ != name,
        i < players.len() ==> players[i].summoner_name@ == name,
    ensures
        first_player_match(players, name) == if i == players.len() {
            -1int
        } else {
            i
        },
    decreases i,
{
    if i == 0 {
    } else {
        lemma_first_player_match_at(players.skip(1), name, i - 1);
    }
}

/// Removes the internal champion-name prefix when present.
fn strip_champion_prefix<'a>(raw: &'a str) -> (r: &'a str)
    ensures
        r@ == stripped_champion(raw@),
{
    let pref = "game_character_displayname_";
    proof {
        reveal_strlit("game_character_displayname_");
        assert(pref@.len() == 27);
    }
    let n: usize = raw.unicode_len();
    if n < 27 {
        return raw;
    }
    let mut k: usize = 0;
    while k < 27 && raw.get_char(k) == pref.get_char(k)
        invariant
            n == raw@.len() >= 27,
            pref@ == champion_prefix(),
            pref@.len() == 27,
            k <= 27,
            forall|j: int| 0 <= j < k ==> raw@[j] == pref@[j],
        decreases 27 - k,
    {
        k += 1;
    }
    if k == 27 {
        proof {
            assert(raw@.subrange(0, 27) =~= champion_prefix());
        }
        raw.substring_char(27, n)
    } else {
        proof {
            assert(raw@.subrange(0, 27)[k as int] != champion_prefix()[k as int]);
            assert(raw@.subrange(0, 27) != champion_prefix());
        }
        raw
    }
}

/// The champion the local player controls, per the snapshot: the first
/// player entry carrying the active player's name, its raw champion
/// identifier stripped of the internal prefix and lowercased.  Absent
/// when no player entry matches.
pub fn get_my_champion(game_data: &AllGameData) -> (r: Option<String>)
    ensures
        r is Some <==> spec_my_champion(*game_data) is Some,
        r matches Some(s) ==> Option::Some(s@) == spec_my_champion(*game_data),
{
    let n: usize = game_data.all_players.len();
    let mut i: usize = 0;
    while i < n
        invariant
            n == game_data.all_players@.len(),
            i <= n,
            forall|j: int| 0 <= j < i ==> (#[trigger] game_data.all_players@[j]).summoner_name@
                != game_data.active_player.summoner_name@,
        decreases n - i,
    {
        if game_data.all_players[i].summoner_name == game_data.active_player.summoner_name {
            proof {
                lemma_first_player_match_at(
                    game_data.all_players@,
                    game_data.active_player.summoner_name@,
                    i as int,
                );
            }
            let stripped = strip_champion_prefix(
                game_data.all_players[i].raw_champion_name.as_str());
            let champ = crate::text::lowercase_str(stripped);
            return Option::Some(champ);
        }
        i += 1;
    }
    proof {
        lemma_first_player_match_at(
            game_data.all_players@,
            game_data.active_player.summoner_name@,
            n as int,
        );
    }
    Option::None
}

/// A command polled from the notification icon's menu.
#[derive(Debug)]
pub enum TrayCommand {
    Exit,
}

/// What the tray tooltip should say after a poll, when it changes.
#[derive(Debug)]
pub enum TrayTooltip {
    /// The target mode is running; carries the champion tracked at the
    /// moment of the change, if any.
    MayhemActive(Option<String>),
    /// Snapshots arrive but the game is not in the target mode.
    MayhemInactive,
    /// No snapshots arrive: back to waiting for a game.
    Waiting,
}

/// Side effects the caller must perform after a poll.
#[derive(Debug)]
pub struct PollEffects {
    /// A tooltip change to publish, at most one per mode change.
    pub tooltip: Option<TrayTooltip>,
    /// Whether every overlay panel must be hidden.
    pub hide_overlay: bool,
}

/// The tracker's state between polls.
#[derive(Debug)]
pub struct TrackerState {
    /// Whether snapshots are currently arriving.
    pub game_active: bool,
    /// Whether the last snapshot reported the target game mode.
    pub is_target_mode: bool,
    /// The champion the local player controls, lowercased, when known.
    pub current_champion: Option<String>,
    /// The mode the last published tooltip reflected; used to publish a
    /// tooltip exactly once per mode change.
    pub tooltip_memo: Option<bool>,
}

/// Clones the tracked champion.
fn clone_champion(o: &Option<String>) -> (r: Option<String>)
    ensures
        opt_string_view_eq(r, *o),
{
    match o {
        Option::None => Option::None,
        Option::Some(s) => Option::Some(s.clone()),
    }
}

impl TrackerState {
    /// The initial state: waiting for snapshots, nothing tracked.
    pub fn new() -> (r: Self)
        ensures
            !r.game_active,
            !r.is_target_mode,
            r.current_champion is None,
            r.tooltip_memo is None,
    {
        TrackerState {
            game_active: false,
            is_target_mode: false,
            current_champion: Option::None,
            tooltip_memo: Option::None,
        }
    }

    /// Whether a capture tick may run at all: snapshots are arriving,
    /// the target mode is on, and a champion is known.
    pub fn capture_allowed(&self) -> (r: bool)
        ensures
            r == (self.game_active && self.is_target_mode && self.current_champion is Some),
    {
        self.game_active && self.is_target_mode && self.current_champion.is_some()
    }

    /// Advances the tracker by one poll result.
    ///
    /// A successful snapshot marks the game active and refreshes the
    /// target mode flag and the tracked champion; a tooltip
    /// is emitted exactly when the mode differs from the last published
    /// one, carrying the champion tracked before the update; outside the
    /// target mode the overlay is hidden every poll.  A failed poll
    /// while active resets the tracker to waiting, clears the champion
    /// and the tooltip memo, hides the overlay and publishes the waiting
    /// tooltip; a failed poll while already waiting changes nothing.
    pub fn handle_poll(&mut self, snapshot: Option<&AllGameData>) -> (eff: PollEffects)
        ensures
            match snapshot {
                Option::None => {
                    if old(self).game_active {
                        &&& !final(self).game_active
                        &&& !final(self).is_target_mode
                        &&& final(self).current_champion is None
                        &&& final(self).tooltip_memo is None
                        &&& eff.hide_overlay
                        &&& eff.tooltip matches Some(t) && t is Waiting
                    } else {
                        &&& *final(self) == *old(self)
                        &&& !eff.hide_overlay
                        &&& eff.tooltip is None
                    }
                },
                Option::Some(gd) => {
                    let m = spec_is_mayhem_mode(*gd);
                    &&& final(self).game_active
                    &&& final(self).is_target_mode == m
                    &&& final(self).tooltip_memo == Option::Some(m)
                    &&& eff.hide_overlay == !m
                    &&& (if old(self).tooltip_memo == Option::Some(m) {
                        &&& eff.tooltip is None
                    } else if m {
                        &&& eff.tooltip matches Some(t)
                        &&& t matches TrayTooltip::MayhemActive(c)
                            && opt_string_view_eq(c, old(self).current_champion)
                    } else {
                        &&& eff.tooltip matches Some(t) && t is MayhemInactive
                    })
                    &&& (match spec_my_champion(*gd) {
                        Option::Some(c) => final(self).current_champion matches Some(s)
                            && s@ == c,
                        Option::None => final(self).current_champion
                            == old(self).current_champion,
                    })
                },
            },
    {
        match snapshot {
            Option::None => {
                if self.game_active {
                    self.game_active = false;
                    self.is_target_mode = false;
                    self.current_champion = Option::None;
                    self.tooltip_memo = Option::None;
                    PollEffects {
                        tooltip: Option::Some(TrayTooltip::Waiting),
                        hide_overlay: true,
                    }
                } else {
                    PollEffects { tooltip: Option::None, hide_overlay: false }
                }
            },
            Option::Some(gd) => {
                self.game_active = true;
                let m = is_mayhem_mode(gd);
                let changed: bool = match self.tooltip_memo {
                    Option::Some(prev) => prev != m,
                    Option::None => true,
                };
                let tooltip: Option<TrayTooltip> = if changed {
                    self.tooltip_memo = Option::Some(m);
                    if m {
                        Option::Some(TrayTooltip::MayhemActive(clone_champion(
                            &self.current_champion)))
                    } else {
                        Option::Some(TrayTooltip::MayhemInactive)
                    }
                } else {
                    Option::None
                };
                self.is_target_mode = m;
                match get_my_champion(gd) {
                    Option::Some(champ) => {
                        self.current_champion = Option::Some(champ);
                    },
                    Option::None => {},
                }
                PollEffects { tooltip, hide_overlay: !m }
            },
        }
    }
}

} // verus!
