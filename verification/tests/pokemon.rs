use firecore_battle::data::VersusType;
use firecore_battle::pokedex::moves::MoveId;
use firecore_battle::pokemon::{crit, crit_odds, damage_range, exp_from, throw_move, BattlePokemon, OwnedMove, MOVE_SLOTS, StatStages};
use firecore_battle::types::{PokemonType, PokemonTypes};
use firecore_battle::moves::StatType;
use firecore_battle::select::BattleStatType;
use rand::rngs::StdRng;
use rand::SeedableRng;

fn mid(s: &str) -> MoveId {
    MoveId(s.parse().unwrap())
}

fn mon(hp: u16, moves: Vec<OwnedMove>) -> BattlePokemon {
    BattlePokemon {
        hp,
        max_hp: 100,
        level: 5,
        base_exp: 64,
        types: PokemonTypes { primary: PokemonType::Normal, secondary: None },
        attack: 50,
        defense: 50,
        sp_attack: 50,
        sp_defense: 50,
        speed: 50,
        stages: StatStages::new(),
        moves,
        ailment: None,
        learnable: vec![],
        revealed: false,
    }
}

#[test]
fn fainted_and_revealed() {
    let mut p = mon(0, vec![]);
    assert!(p.fainted());
    assert!(!mon(1, vec![]).fainted());
    p.make_known();
    assert!(p.revealed);
    assert_eq!(p.hp, 0);
}

#[test]
fn critical_hit_odds() {
    assert_eq!(crit_odds(0), (1, 16));
    assert_eq!(crit_odds(1), (1, 8));
    assert_eq!(crit_odds(2), (1, 4));
    assert_eq!(crit_odds(3), (1, 3));
    assert_eq!(crit_odds(4), (1, 2));
    assert_eq!(crit_odds(200), (1, 2));
    let mut random = StdRng::seed_from_u64(7);
    let hits = (0..2000).filter(|_| crit(&mut random, 4)).count();
    assert!(hits > 800 && hits < 1200);
}

#[test]
fn moves_without_accuracy_always_land() {
    let mut random = StdRng::seed_from_u64(1);
    for _ in 0..100 {
        assert!(throw_move(&mut random, None));
        assert!(throw_move(&mut random, Some(100)));
        assert!(!throw_move(&mut random, Some(0)));
    }
}

#[test]
fn damage_rolls_stay_in_range() {
    let mut random = StdRng::seed_from_u64(3);
    for _ in 0..500 {
        let r = damage_range(&mut random);
        assert!((85..=100).contains(&r));
    }
}

#[test]
fn experience_from_a_defeated_pokemon() {
    assert_eq!(exp_from(64, 5), 45);
    let p = mon(10, vec![]);
    assert_eq!(p.battle_exp_from(VersusType::Trainer), 45);
    assert_eq!(p.battle_exp_from(VersusType::Wild), 67);
}

#[test]
fn learning_moves() {
    let mut p = mon(10, vec![OwnedMove { id: mid("tackle"), pp: 35 }]);
    p.learnable = vec![mid("ember"), mid("growl")];
    assert!(p.can_learn(&mid("growl")));
    assert!(!p.can_learn(&mid("surf")));
    assert!(p.forget_learnable(&mid("ember")));
    assert_eq!(p.learnable, vec![mid("growl")]);
    assert!(!p.forget_learnable(&mid("ember")));
    assert!(p.add_move(None, OwnedMove { id: mid("ember"), pp: 25 }));
    assert_eq!(p.moves.len(), 2);
}

#[test]
fn a_full_move_set_needs_a_slot() {
    let moves = (0..MOVE_SLOTS).map(|i| OwnedMove { id: mid(&format!("m{}", i)), pp: 10 }).collect();
    let mut p = mon(10, moves);
    assert!(!p.add_move(None, OwnedMove { id: mid("ember"), pp: 25 }));
    assert!(!p.add_move(Some(9), OwnedMove { id: mid("ember"), pp: 25 }));
    assert_eq!(p.moves.len(), MOVE_SLOTS);
    assert!(p.add_move(Some(1), OwnedMove { id: mid("ember"), pp: 25 }));
    assert_eq!(p.moves[1].id, mid("ember"));
    assert_eq!(p.moves.len(), MOVE_SLOTS);
    assert!(OwnedMove { id: mid("x"), pp: 0 }.is_empty());
    assert!(!OwnedMove { id: mid("x"), pp: 1 }.is_empty());
}

#[test]
fn statistics_of_a_pokemon() {
    let mut p = mon(10, vec![]);
    p.attack = 11;
    p.sp_defense = 22;
    assert_eq!(p.stat(firecore_battle::moves::StatType::Health), 100);
    assert_eq!(p.stat(firecore_battle::moves::StatType::Attack), 11);
    assert_eq!(p.stat(firecore_battle::moves::StatType::SpDefense), 22);
    assert_eq!(p.stat(firecore_battle::moves::StatType::Speed), 50);
}

#[test]
fn draws_vary() {
    let mut random = StdRng::seed_from_u64(21);
    let throws: Vec<bool> = (0..200).map(|_| throw_move(&mut random, Some(50))).collect();
    assert!(throws.iter().any(|t| *t));
    assert!(throws.iter().any(|t| !*t));
    let rolls: Vec<u8> = (0..200).map(|_| damage_range(&mut random)).collect();
    assert!(rolls.iter().any(|r| *r != rolls[0]));
}

#[test]
fn stat_stages_scale_statistics() {
    assert_eq!(StatStages::mult(100, 0), 100);
    assert_eq!(StatStages::mult(100, 1), 150);
    assert_eq!(StatStages::mult(100, 2), 200);
    assert_eq!(StatStages::mult(100, 6), 400);
    assert_eq!(StatStages::mult(100, 9), 400);
    assert_eq!(StatStages::mult(100, -1), 66);
    assert_eq!(StatStages::mult(100, -2), 50);
    assert_eq!(StatStages::mult(100, -6), 25);
    assert_eq!(StatStages::mult(100, -9), 25);
    assert_eq!(StatStages::mult(60000, 6), u16::MAX);
    let mut p = mon(10, vec![]);
    p.stages.change_stage(BattleStatType::Basic(StatType::Speed), 2);
    assert_eq!(p.stat(StatType::Speed), 100);
    assert_eq!(p.stat(StatType::Attack), 50);
    p.stages.change_stage(BattleStatType::Basic(StatType::Attack), -1);
    assert_eq!(p.stat(StatType::Attack), 33);
    assert_eq!(p.stat(StatType::Health), 100);
}

#[test]
fn stat_stages_stay_in_range() {
    let mut s = StatStages::default();
    assert_eq!(s, StatStages::new());
    assert!(s.can_change(BattleStatType::Accuracy, 1));
    assert!(!s.can_change(BattleStatType::Accuracy, 0));
    assert!(!s.can_change(BattleStatType::Basic(StatType::Health), 1));
    s.change_stage(BattleStatType::Evasion, 5);
    s.change_stage(BattleStatType::Evasion, 5);
    assert_eq!(s.get(BattleStatType::Evasion), 6);
    assert!(!s.can_change(BattleStatType::Evasion, 1));
    assert!(s.can_change(BattleStatType::Evasion, -1));
    s.change_stage(BattleStatType::Basic(StatType::Defense), -12);
    assert_eq!(s.get(BattleStatType::Basic(StatType::Defense)), -6);
    assert!(!s.can_change(BattleStatType::Basic(StatType::Defense), -2));
    s.change_stage(BattleStatType::Basic(StatType::Health), 3);
    assert_eq!(s.get(BattleStatType::Basic(StatType::Health)), 0);
    assert_eq!(s.get(BattleStatType::Basic(StatType::Speed)), 0);
}
