use firecore_battle::data::{BattleData, BattleSettings, VersusType};
use firecore_battle::moves::{ClientDamage, Contact, DamageResult, MoveCategory, MoveTarget, StatType};
use firecore_battle::types::{Effective, PokemonType, PokemonTypes};

fn single(t: PokemonType) -> PokemonTypes {
    PokemonTypes { primary: t, secondary: None }
}

fn dual(a: PokemonType, b: PokemonType) -> PokemonTypes {
    PokemonTypes { primary: a, secondary: Some(b) }
}

#[test]
fn fire_is_super_effective_against_grass() {
    assert_eq!(MoveCategory::Physical.effective_table(PokemonType::Fire, PokemonType::Grass), Effective::SuperEffective);
    assert_eq!(MoveCategory::Special.effective(PokemonType::Fire, single(PokemonType::Grass)), Effective::SuperEffective);
}

#[test]
fn water_resists_fire() {
    assert_eq!(MoveCategory::Special.effective_table(PokemonType::Fire, PokemonType::Water), Effective::NotEffective);
}

#[test]
fn immunities_make_moves_ineffective() {
    assert_eq!(MoveCategory::Physical.effective_table(PokemonType::Normal, PokemonType::GhostType), Effective::Ineffective);
    assert_eq!(MoveCategory::Special.effective_table(PokemonType::Electric, PokemonType::Ground), Effective::Ineffective);
    assert_eq!(MoveCategory::Physical.effective(PokemonType::Ground, dual(PokemonType::Fire, PokemonType::Flying)), Effective::Ineffective);
}

#[test]
fn status_moves_are_never_effective() {
    assert_eq!(MoveCategory::Status.effective_table(PokemonType::Fire, PokemonType::Grass), Effective::Ineffective);
    assert_eq!(MoveCategory::Status.effective(PokemonType::Normal, single(PokemonType::Normal)), Effective::Ineffective);
}

#[test]
fn unknown_type_is_neutral() {
    assert_eq!(MoveCategory::Physical.effective_table(PokemonType::Unknown, PokemonType::Rock), Effective::Effective);
}

#[test]
fn dual_types_combine() {
    // super effective against grass, resisted by water: neutral
    assert_eq!(MoveCategory::Special.effective(PokemonType::Fire, dual(PokemonType::Grass, PokemonType::Water)), Effective::Effective);
    // super effective against both
    assert_eq!(MoveCategory::Special.effective(PokemonType::Electric, dual(PokemonType::Water, PokemonType::Flying)), Effective::SuperEffective);
    // the order of the types does not matter
    assert_eq!(
        MoveCategory::Special.effective(PokemonType::Fire, dual(PokemonType::Water, PokemonType::Grass)),
        MoveCategory::Special.effective(PokemonType::Fire, dual(PokemonType::Grass, PokemonType::Water)),
    );
}

#[test]
fn effective_multiplication() {
    assert_eq!(Effective::Ineffective.mul(Effective::SuperEffective), Effective::Ineffective);
    assert_eq!(Effective::SuperEffective.mul(Effective::Ineffective), Effective::Ineffective);
    assert_eq!(Effective::NotEffective.mul(Effective::SuperEffective), Effective::Effective);
    assert_eq!(Effective::Effective.mul(Effective::NotEffective), Effective::NotEffective);
    assert_eq!(Effective::SuperEffective.mul(Effective::SuperEffective), Effective::SuperEffective);
    assert_eq!(Effective::NotEffective.mul(Effective::NotEffective), Effective::NotEffective);
}

#[test]
fn move_category_stats() {
    assert_eq!(MoveCategory::Physical.stats(), (StatType::Attack, StatType::Defense));
    assert_eq!(MoveCategory::Special.stats(), (StatType::SpAttack, StatType::SpDefense));
    assert_eq!(MoveCategory::Physical.attack(), StatType::Attack);
    assert_eq!(MoveCategory::Special.defense(), StatType::SpDefense);
}

#[test]
fn targets_that_need_input() {
    assert!(MoveTarget::Any.needs_input());
    assert!(MoveTarget::Ally.needs_input());
    assert!(MoveTarget::Opponent.needs_input());
    assert!(MoveTarget::UserOrAlly.needs_input());
    assert!(!MoveTarget::User.needs_input());
    assert!(!MoveTarget::AllOpponents.needs_input());
    assert!(!MoveTarget::RandomOpponent.needs_input());
    assert_eq!(MoveTarget::default(), MoveTarget::NoTarget);
    assert_eq!(Contact::default(), Contact(true));
}

#[test]
fn damage_results() {
    let d: DamageResult<u16> = DamageResult::default();
    assert_eq!(d.damage, 0);
    assert_eq!(d.effective, Effective::Ineffective);
    assert!(!d.crit);
    let d = DamageResult::from_damage(42u16);
    assert_eq!(d.damage, 42);
    assert_eq!(d.effective, Effective::Effective);
    assert!(!d.crit);
    assert_eq!(ClientDamage::Number(7u16).damage(), 7);
    assert_eq!(ClientDamage::Result(DamageResult { damage: 9u16, effective: Effective::SuperEffective, crit: true }).damage(), 9);
}

#[test]
fn battle_data_defaults() {
    let data = BattleData::default();
    assert_eq!(data.versus, VersusType::Trainer);
    assert_eq!(data.active, 1);
    assert!(data.settings.allow_forfeit);
    assert!(BattleSettings::default().allow_forfeit);
    assert!(VersusType::Wild.is_wild());
    assert!(!VersusType::Wild.is_trainer());
    assert!(VersusType::GymLeader.is_trainer());
    assert!(!VersusType::Trainer.is_wild());
    assert!(firecore_battle::data::const_true());
}
