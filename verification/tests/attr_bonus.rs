use battle::manager::attr_bonus::AttrBonusMap;
use battle::manager::entity_mgr::EntityMgr;

#[test]
fn merge_attr_bonus_appends_each_value_individually() {
    let mut mgr = EntityMgr::default();
    let mut first = AttrBonusMap::new();
    first.insert((1i64, 102i32), vec![50]);
    mgr.merge_attr_bonus(first);

    let mut second = AttrBonusMap::new();
    second.insert((1i64, 102i32), vec![30]);
    mgr.merge_attr_bonus(second);

    assert_eq!(mgr.attr_bonus.get(&(1, 102)).unwrap(), &vec![50, 30]);
}

#[test]
fn merge_attr_bonus_drops_zero_amounts() {
    let mut mgr = EntityMgr::default();
    let mut m = AttrBonusMap::new();
    m.insert((1i64, 102i32), vec![0, 25, 0]);
    mgr.merge_attr_bonus(m);
    assert_eq!(mgr.attr_bonus.get(&(1, 102)).unwrap(), &vec![25]);
}

#[test]
fn sum_attr_bonus_sums_vec_with_saturation() {
    let mut mgr = EntityMgr::default();
    let mut m = AttrBonusMap::new();
    m.insert((1i64, 102i32), vec![i32::MAX, 100]);
    mgr.merge_attr_bonus(m);
    assert_eq!(mgr.sum_attr_bonus(1, 102), i32::MAX);
}

#[test]
fn sum_attr_bonus_returns_zero_for_absent_key() {
    let mgr = EntityMgr::default();
    assert_eq!(mgr.sum_attr_bonus(99, 102), 0);
}

#[test]
fn clear_attr_bonus_empties_the_map() {
    let mut mgr = EntityMgr::default();
    let mut m = AttrBonusMap::new();
    m.insert((1i64, 102i32), vec![50]);
    mgr.merge_attr_bonus(m);
    assert!(!mgr.attr_bonus.is_empty());
    mgr.clear_attr_bonus();
    assert!(mgr.attr_bonus.is_empty());
}

#[test]
fn a_bonus_that_is_merged_and_removed_is_gone() {
    let mut mgr = EntityMgr::default();
    let mut m = AttrBonusMap::new();
    m.insert((5i64, 201i32), vec![40]);
    mgr.merge_attr_bonus(m);
    assert_eq!(mgr.sum_attr_bonus(5, 201), 40);
    mgr.remove_attr_bonus(5, 201, 40);
    assert_eq!(mgr.sum_attr_bonus(5, 201), 0);
    assert!(mgr.attr_bonus.get(&(5, 201)).is_none());

    // an equal bonus from before stays
    for values in [vec![40, 9], vec![40]] {
        let mut m = AttrBonusMap::new();
        m.insert((5i64, 201i32), values);
        mgr.merge_attr_bonus(m);
    }
    mgr.remove_attr_bonus(5, 201, 40);
    assert_eq!(mgr.attr_bonus.get(&(5, 201)).unwrap(), &vec![40, 9]);
}

#[test]
fn keys_are_a_fighter_and_an_attribute() {
    let mut m = AttrBonusMap::new();
    m.insert((1i64, 102i32), vec![1]);
    m.insert((2i64, 102i32), vec![2]);
    m.insert((1i64, 103i32), vec![3]);
    m.insert((1i64, 102i32), vec![4]);
    assert_eq!(m.get(&(1, 102)).unwrap(), &vec![4]);
    assert_eq!(m.get(&(2, 102)).unwrap(), &vec![2]);
    m.remove(&(2, 102));
    assert!(m.get(&(2, 102)).is_none());
    assert_eq!(m.get(&(1, 103)).unwrap(), &vec![3]);
}

#[test]
fn zeros_alone_leave_an_empty_list() {
    let mut mgr = EntityMgr::default();
    let mut m = AttrBonusMap::new();
    m.insert((1i64, 102i32), vec![0]);
    mgr.merge_attr_bonus(m);
    assert!(mgr.attr_bonus.get(&(1, 102)).unwrap().is_empty());
    assert_eq!(mgr.sum_attr_bonus(1, 102), 0);
}

#[test]
fn the_last_value_takes_the_place_of_a_removed_one() {
    let mut mgr = EntityMgr::default();
    let mut m = AttrBonusMap::new();
    m.insert((1i64, 102i32), vec![5, 6, 7]);
    mgr.merge_attr_bonus(m);
    mgr.remove_attr_bonus(1, 102, 5);
    assert_eq!(mgr.attr_bonus.get(&(1, 102)).unwrap(), &vec![7, 6]);
    mgr.remove_attr_bonus(1, 102, 99);
    assert_eq!(mgr.attr_bonus.get(&(1, 102)).unwrap(), &vec![7, 6]);
}
