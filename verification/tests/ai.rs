use firecore_battle::ai::{pick_move, pick_replacement, scale_hp, AiError, AiParty, BattleAi, AT_CONFIRM, AT_QUEUE};
use firecore_battle::party::RemoteParty;
use firecore_battle::host::ClientMessage;
use firecore_battle::moves::{ClientDamage, DamageResult};
use firecore_battle::pokedex::moves::MoveId;
use firecore_battle::pokemon::{BattlePokemon, OwnedMove, StatStages};
use firecore_battle::select::{BattleSelection, ClientAction, ClientActionType, HpRatio, Indexed, PublicAction, SelectConfirm, SelectMessage, TeamIndex};
use firecore_battle::types::{Effective, PokemonType, PokemonTypes};
use rand::rngs::StdRng;
use rand::SeedableRng;

fn mid(s: &str) -> MoveId {
    MoveId(s.parse().unwrap())
}

fn mon(hp: u16, moves: Vec<(&str, u8)>) -> BattlePokemon {
    BattlePokemon {
        hp,
        max_hp: 80,
        level: 5,
        base_exp: 64,
        types: PokemonTypes { primary: PokemonType::Normal, secondary: None },
        attack: 50,
        defense: 50,
        sp_attack: 50,
        sp_defense: 50,
        speed: 50,
        stages: StatStages::new(),
        moves: moves.into_iter().map(|(id, pp)| OwnedMove { id: mid(id), pp }).collect(),
        ailment: None,
        learnable: vec![],
        revealed: false,
    }
}

fn ai() -> BattleAi {
    let mut ai = BattleAi::new();
    ai.set_local(AiParty {
        id: 7,
        active: vec![Some(0)],
        pokemon: vec![mon(80, vec![("tackle", 5), ("growl", 0)]), mon(80, vec![("ember", 5)]), mon(0, vec![])],
    });
    ai.add_remote(RemoteParty { id: 8, active: vec![Some(0)], pokemon: vec![Some(HpRatio { hp: 10, max_hp: 10 }), None] });
    ai
}

fn set_hp(team: u64, index: usize, hp: u16, max_hp: u16) -> Indexed<PublicAction> {
    Indexed(TeamIndex(team, index), PublicAction::SetHP(ClientDamage::Number(HpRatio { hp, max_hp })))
}

#[test]
fn health_parts_scale_up() {
    assert_eq!(scale_hp(HpRatio { hp: 1, max_hp: 3 }, 80), 27);
    assert_eq!(scale_hp(HpRatio { hp: 10, max_hp: 10 }, 80), 80);
    assert_eq!(scale_hp(HpRatio { hp: 0, max_hp: 10 }, 80), 0);
    assert_eq!(scale_hp(HpRatio { hp: 5, max_hp: 0 }, 80), 0);
    assert_eq!(scale_hp(HpRatio { hp: 65535, max_hp: 1 }, 65535), 65535);
}

#[test]
fn the_ai_picks_moves_with_uses_left() {
    let mut random = StdRng::seed_from_u64(9);
    for _ in 0..20 {
        match pick_move(&mon(10, vec![("tackle", 5), ("growl", 0), ("ember", 1)]), &mut random) {
            Ok(BattleSelection::Move(id, None)) => assert!(id == mid("tackle") || id == mid("ember")),
            _ => panic!("expected a move"),
        }
    }
    assert!(matches!(pick_move(&mon(10, vec![("growl", 0)]), &mut random), Err(AiError::MissingMove)));
}

#[test]
fn replacements_come_from_outside_the_active_slots() {
    let mut random = StdRng::seed_from_u64(9);
    let party = AiParty { id: 1, active: vec![Some(0), Some(2)], pokemon: vec![mon(1, vec![]), mon(1, vec![]), mon(1, vec![])] };
    for _ in 0..10 {
        assert_eq!(pick_replacement(&party, &mut random), Some(1));
    }
    let full = AiParty { id: 1, active: vec![Some(0)], pokemon: vec![mon(1, vec![])] };
    assert_eq!(pick_replacement(&full, &mut random), None);
}

#[test]
fn answers_to_selections() {
    let mut ai = ai();
    let mut random = StdRng::seed_from_u64(4);
    match ai.select(0, SelectMessage::Request(None), &mut random) {
        Ok(Some(ClientMessage::Select(0, BattleSelection::Move(id, None)))) => assert_eq!(id, mid("tackle")),
        _ => panic!("expected a move selection"),
    }
    assert!(matches!(ai.select(3, SelectMessage::Request(None), &mut random), Err(AiError::MissingPokemon(AT_QUEUE))));
    assert!(matches!(ai.select(0, SelectMessage::Confirm(SelectConfirm::Move(mid("tackle"), 2)), &mut random), Ok(None)));
    assert_eq!(ai.party().unwrap()[0].moves[0].pp, 3);
    assert!(matches!(ai.select(0, SelectMessage::Confirm(SelectConfirm::Move(mid("tackle"), 9)), &mut random), Ok(None)));
    assert_eq!(ai.party().unwrap()[0].moves[0].pp, 0);
    assert!(matches!(ai.confirm_move(0, mid("surf"), 1), Err(AiError::MissingMove)));
    assert!(matches!(ai.confirm_move(5, mid("tackle"), 1), Err(AiError::MissingPokemon(AT_CONFIRM))));
    assert!(matches!(ai.select(0, SelectMessage::Deny, &mut random), Err(AiError::SelectDenied)));
    assert!(matches!(ai.select(0, SelectMessage::Confirm(SelectConfirm::Other), &mut random), Ok(None)));
}

#[test]
fn a_fainted_pokemon_of_the_ai_is_replaced() {
    let mut ai = ai();
    let mut random = StdRng::seed_from_u64(4);
    let actions = vec![
        ClientAction::Announce(0, Some(TeamIndex(8, 0)), ClientActionType::Move(mid("tackle"))),
        ClientAction::Actions(vec![set_hp(7, 0, 1, 2)]),
        ClientAction::Actions(vec![set_hp(7, 0, 0, 2)]),
    ];
    let asked = ai.results(&actions, &mut random).unwrap();
    assert_eq!(asked.len(), 1);
    // any party position outside the active slots may be picked, fainted or not
    match asked[0] {
        ClientMessage::Select(0, BattleSelection::Pokemon(n)) => assert!(n == 1 || n == 2),
        _ => panic!("expected a replacement"),
    }
    assert_eq!(ai.party().unwrap()[0].hp, 0);
}

#[test]
fn health_of_the_ai_and_of_opponents() {
    let mut ai = ai();
    let mut random = StdRng::seed_from_u64(4);
    assert!(matches!(ai.handle_action(None, set_hp(7, 0, 1, 2), &mut random), Ok(None)));
    assert_eq!(ai.party().unwrap()[0].hp, 40);
    let hit = Indexed(
        TeamIndex(8, 0),
        PublicAction::SetHP(ClientDamage::Result(DamageResult { damage: HpRatio { hp: 3, max_hp: 10 }, effective: Effective::Effective, crit: false })),
    );
    assert!(matches!(ai.handle_action(None, hit, &mut random), Ok(None)));
    assert_eq!(ai.remotes[0].pokemon[0], Some(HpRatio { hp: 3, max_hp: 10 }));
    assert!(matches!(ai.handle_action(None, Indexed(TeamIndex(8, 0), PublicAction::Miss), &mut random), Ok(None)));
}

#[test]
fn an_ai_out_of_pokemon_fails() {
    let mut ai = BattleAi::new();
    ai.set_local(AiParty { id: 7, active: vec![Some(0)], pokemon: vec![mon(10, vec![("tackle", 1)])] });
    let mut random = StdRng::seed_from_u64(4);
    assert!(matches!(ai.handle_action(None, set_hp(7, 0, 0, 1), &mut random), Err(AiError::OutOfPokemon)));
}

#[test]
fn switches_and_replacements_move_slots() {
    let mut ai = ai();
    let mut random = StdRng::seed_from_u64(4);
    let switch = Indexed(TeamIndex(8, 0), PublicAction::Switch(1));
    assert!(matches!(ai.handle_action(Some(TeamIndex(8, 0)), switch, &mut random), Ok(None)));
    assert_eq!(ai.remotes[0].active, vec![Some(1)]);
    ai.replace(TeamIndex(7, 0), 1);
    assert_eq!(ai.local.as_ref().unwrap().active, vec![Some(1)]);
    ai.replace(TeamIndex(7, 5), 2);
    assert_eq!(ai.local.as_ref().unwrap().active, vec![Some(1)]);
    ai.note_revealed(TeamIndex(8, 1), HpRatio { hp: 4, max_hp: 5 });
    assert_eq!(ai.remotes[0].pokemon[1], Some(HpRatio { hp: 4, max_hp: 5 }));
}

#[test]
fn the_ai_selects_each_update() {
    let mut ai = ai();
    let mut random = StdRng::seed_from_u64(4);
    let picks = ai.turn(&mut random);
    assert_eq!(picks.len(), 1);
    assert!(matches!(picks[0], ClientMessage::Select(0, BattleSelection::Move(_, None))));
    ai.local.as_mut().unwrap().pokemon[0].hp = 0;
    let picks = ai.turn(&mut random);
    assert_eq!(picks.len(), 1);
    match picks[0] {
        ClientMessage::Select(0, BattleSelection::Pokemon(n)) => assert!(n == 1 || n == 2),
        _ => panic!("expected a replacement"),
    }
    assert!(BattleAi::new().turn(&mut random).is_empty());
}

#[test]
fn removing_players_from_the_ai() {
    let mut ai = ai();
    assert!(ai.active());
    ai.remove(8);
    assert!(ai.remotes.is_empty());
    assert!(ai.active());
    ai.add_remote(RemoteParty { id: 9, active: vec![], pokemon: vec![] });
    ai.add_remote(RemoteParty { id: 9, active: vec![None], pokemon: vec![] });
    assert_eq!(ai.remotes.len(), 1);
    assert_eq!(ai.remotes[0].active, vec![None]);
    ai.remove(7);
    assert!(!ai.active());
    assert!(ai.remotes.is_empty());
    assert!(ai.party().is_none());
    ai.stop_running();
    assert!(!ai.active());
}

#[test]
fn every_usable_move_gets_picked() {
    let mut random = StdRng::seed_from_u64(13);
    let p = mon(10, vec![("tackle", 5), ("growl", 0), ("ember", 1)]);
    let picks: Vec<MoveId> = (0..100)
        .map(|_| match pick_move(&p, &mut random) {
            Ok(BattleSelection::Move(id, None)) => id,
            _ => panic!("expected a move"),
        })
        .collect();
    assert!(picks.contains(&mid("tackle")));
    assert!(picks.contains(&mid("ember")));
    assert!(!picks.contains(&mid("growl")));
}
