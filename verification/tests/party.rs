use firecore_battle::party::{ActiveBattlePokemon, PlayerParty};
use firecore_battle::player::{PlayerData, PlayerSettings, Properties};
use firecore_battle::pokedex::item::bag::Bag;
use firecore_battle::pokedex::moves::MoveId;
use firecore_battle::pokemon::{BattlePokemon, OwnedMove, StatStages};
use firecore_battle::select::BattleSelection;

use firecore_battle::types::{PokemonType, PokemonTypes};

fn mid(s: &str) -> MoveId {
    MoveId(s.parse().unwrap())
}

fn mon(hp: u16, pp: u8) -> BattlePokemon {
    BattlePokemon {
        hp,
        max_hp: 100,
        level: 5,
        base_exp: 64,
        types: PokemonTypes { primary: PokemonType::Normal, secondary: None },
        attack: 50,
        defense: 50,
        sp_attack: 50,
        sp_defense: 50,
        speed: 50,
        stages: StatStages::new(),
        moves: vec![OwnedMove { id: mid("tackle"), pp }],
        ailment: None,
        learnable: vec![],
        revealed: false,
    }
}

fn slots(party: &PlayerParty) -> Vec<Option<usize>> {
    ActiveBattlePokemon::as_usize(&party.active)
}

#[test]
fn a_party_opens_with_its_first_pokemon_that_can_fight() {
    let party = PlayerParty::new(1, None, 2, vec![mon(10, 5), mon(0, 5), mon(20, 5)]);
    assert_eq!(slots(&party), vec![Some(0), Some(2)]);
    let party = PlayerParty::new(1, Some("red".to_string()), 4, vec![mon(10, 5), mon(0, 5), mon(20, 5)]);
    assert_eq!(slots(&party), vec![Some(0), Some(2), None, None]);
    assert_eq!(party.name.as_deref(), Some("red"));
    let party = PlayerParty::new(1, None, 1, vec![]);
    assert_eq!(slots(&party), vec![None]);
}

#[test]
fn party_lookups() {
    let party = PlayerParty::new(1, None, 2, vec![mon(10, 5), mon(0, 5), mon(20, 5)]);
    assert_eq!(party.index(0), Some(0));
    assert_eq!(party.index(1), Some(2));
    assert_eq!(party.index(2), None);
    assert!(party.active_contains(2));
    assert!(!party.active_contains(1));
    assert!(!party.all_fainted());
    assert!(!party.any_inactive());
    assert!(!party.needs_replace());
    assert!(!party.all_moves_empty());
}

#[test]
fn a_party_with_an_empty_slot_and_a_reserve_needs_a_replacement() {
    let mut party = PlayerParty::new(1, None, 2, vec![mon(10, 5), mon(0, 5), mon(20, 5), mon(30, 0)]);
    party.remove_active(1);
    assert_eq!(slots(&party), vec![Some(0), None]);
    assert!(party.any_inactive());
    assert!(party.needs_replace());
    party.replace(1, Some(3));
    assert_eq!(slots(&party), vec![Some(0), Some(3)]);
    assert!(!party.needs_replace());
    party.remove_active(7);
    assert_eq!(slots(&party), vec![Some(0), Some(3)]);
}

#[test]
fn all_fainted_and_no_moves_left() {
    let party = PlayerParty::new(1, None, 1, vec![mon(0, 5), mon(0, 5)]);
    assert!(party.all_fainted());
    assert_eq!(slots(&party), vec![None]);
    let party = PlayerParty::new(1, None, 1, vec![mon(5, 0), mon(7, 0)]);
    assert!(party.all_moves_empty());
    assert!(!party.all_fainted());
}

#[test]
fn ready_once_every_active_pokemon_has_a_selection() {
    let mut party = PlayerParty::new(1, None, 2, vec![mon(10, 5), mon(20, 5)]);
    assert!(!party.ready_to_move());
    party.active[0] = Some(ActiveBattlePokemon { index: 0, queued_move: Some(BattleSelection::Pokemon(1)) });
    assert!(!party.ready_to_move());
    party.active[1] = Some(ActiveBattlePokemon { index: 1, queued_move: Some(BattleSelection::Move(mid("tackle"), None)) });
    assert!(party.ready_to_move());
    assert!(party.active[1].unwrap().queued());
    let empty = PlayerParty::new(1, None, 2, vec![]);
    assert!(empty.ready_to_move());
    let fresh = ActiveBattlePokemon::from_index(4);
    assert_eq!(fresh.index(), 4);
    assert!(!fresh.queued());
}

#[test]
fn joining_reveals_the_opening_pokemon() {
    let data = PlayerData {
        id: 9,
        name: None,
        party: vec![mon(0, 5), mon(10, 5), mon(20, 5)],
        bag: Bag::default(),
        settings: PlayerSettings { gains_exp: true },
    };
    let player = data.init(1);
    assert_eq!(player.id(), 9);
    assert_eq!(slots(&player.party), vec![Some(1)]);
    assert!(!player.party.pokemon[0].revealed);
    assert!(player.party.pokemon[1].revealed);
    assert!(!player.party.pokemon[2].revealed);
    assert!(player.removed.is_none());
    assert!(!player.is_ready());
}

#[test]
fn properties_start_active() {
    let p = Properties::default();
    assert!(p.active);
    assert!(!p.waiting);
}

#[test]
fn others_see_only_revealed_pokemon() {
    let mut party = PlayerParty::new(4, None, 1, vec![mon(10, 5), mon(20, 5)]);
    party.pokemon[0].make_known();
    let remote = party.as_remote();
    assert_eq!(remote.id, 4);
    assert_eq!(remote.active, vec![Some(0)]);
    assert_eq!(remote.pokemon, vec![Some(firecore_battle::select::HpRatio { hp: 10, max_hp: 100 }), None]);
}
