use battle::effect::slot::SkillEffect;
use battle::manager::active_effect_mgr::ActiveEffectMgr;

#[test]
fn push_returns_increasing_indices() {
    let mut m = ActiveEffectMgr::default();
    let a = m.push(vec![SkillEffect::empty(1)]);
    let b = m.push(vec![SkillEffect::empty(2)]);
    assert_ne!(a, b);
    assert!(m.map.contains_key(&a));
    assert!(m.map.contains_key(&b));
}

#[test]
fn void_removes_entry() {
    let mut m = ActiveEffectMgr::default();
    let idx = m.push(vec![SkillEffect::empty(1)]);
    m.void(idx);
    assert!(!m.map.contains_key(&idx));
}

#[test]
fn void_unknown_idx_is_noop() {
    let mut m = ActiveEffectMgr::default();
    m.void(99); // no panic
    assert!(m.map.is_empty());
}

#[test]
fn active_idx_defaults_to_none() {
    let m = ActiveEffectMgr::default();
    assert!(m.active_idx.is_none());
}

#[test]
fn a_group_that_is_pushed_and_voided_leaves_the_others() {
    let mut m = ActiveEffectMgr::default();
    let kept = m.push(vec![SkillEffect::empty(7)]);
    let gone = m.push(vec![SkillEffect::empty(8), SkillEffect::empty(9)]);
    assert_eq!(gone, kept + 1);
    m.void(gone);
    assert_eq!(m.map.len(), 1);
    assert_eq!(m.map[&kept].len(), 1);
    assert_eq!(m.map[&kept][0].owner_uid, 7);
    assert_eq!(m.push(vec![]), gone + 1);
}
