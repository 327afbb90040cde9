use gas_mixtures::{
    is_registered_mix, register_mix, unregister_mix, with_mix, with_mix_mut, with_mixes,
    with_mixes_mut, GasMixture, GasMixtures, PoolError,
};

fn volume_of(pool: &GasMixtures, id: usize) -> u32 {
    pool.with_gas_mixture(id, |mix| mix.volume).unwrap()
}

fn moles_of(pool: &GasMixtures, id: usize) -> Vec<u32> {
    pool.with_gas_mixture(id, |mix| mix.moles.clone()).unwrap()
}

#[test]
fn new_pool_is_empty() {
    let pool = GasMixtures::new();
    assert_eq!(pool.tot_gases(), 0);
    assert_eq!(pool.amt_gases(), 0);
    assert!(!pool.is_free(0));
    assert!(!is_registered_mix(&pool, 1));
}

#[test]
fn register_reuse_scenario() {
    let mut pool = GasMixtures::new();
    assert_eq!(pool.register_gasmix(100, Some(10)), Ok(0));
    assert_eq!(pool.tot_gases(), 1);
    assert_eq!(pool.register_gasmix(200, Some(5)), Ok(1));
    assert_eq!(pool.tot_gases(), 2);
    pool.unregister_gasmix(100, Some(0));
    assert!(pool.is_free(0));
    assert!(!pool.is_free(1));
    assert_eq!(pool.amt_gases(), 1);
    assert_eq!(pool.register_gasmix(300, Some(7)), Ok(0));
    assert_eq!(volume_of(&pool, 0), 7);
    assert_eq!(moles_of(&pool, 0), Vec::<u32>::new());
    assert_eq!(volume_of(&pool, 1), 5);
    assert_eq!(pool.tot_gases(), 2);
    assert_eq!(pool.amt_gases(), 2);
    assert!(!pool.is_free(0));
}

#[test]
fn reused_slot_forgets_stale_content() {
    let mut pool = GasMixtures::new();
    assert_eq!(pool.register_gasmix(1, Some(10)), Ok(0));
    let pushed = pool.with_gas_mixture_mut(0, |mix| {
        mix.moles.push(41);
        mix.moles.push(42);
        mix.volume = 77;
        mix.moles.len()
    });
    assert_eq!(pushed, Ok(2));
    assert_eq!(moles_of(&pool, 0), vec![41, 42]);
    pool.unregister_gasmix(1, Some(0));
    // the record is left as it is until the slot is bound again
    assert_eq!(moles_of(&pool, 0), vec![41, 42]);
    assert_eq!(volume_of(&pool, 0), 77);
    assert_eq!(pool.register_gasmix(2, Some(3)), Ok(0));
    let same = pool.with_gas_mixture(0, |mix| *mix == GasMixture::from_vol(3));
    assert_eq!(same, Ok(true));
}

#[test]
fn free_slots_come_back_last_in_first_out() {
    let mut pool = GasMixtures::new();
    for owner in 0..4u32 {
        assert_eq!(pool.register_gasmix(owner, Some(owner)), Ok(owner));
    }
    pool.unregister_gasmix(1, Some(1));
    pool.unregister_gasmix(3, Some(3));
    pool.unregister_gasmix(0, Some(0));
    assert_eq!(pool.amt_gases(), 1);
    assert_eq!(pool.register_gasmix(10, Some(1)), Ok(0));
    assert_eq!(pool.register_gasmix(11, Some(1)), Ok(3));
    assert_eq!(pool.register_gasmix(12, Some(1)), Ok(1));
    assert_eq!(pool.tot_gases(), 4);
    assert_eq!(pool.register_gasmix(13, Some(1)), Ok(4));
    assert_eq!(pool.tot_gases(), 5);
}

#[test]
fn store_grows_only_when_nothing_is_free() {
    let mut pool = GasMixtures::new();
    pool.register_gasmix(1, Some(1)).unwrap();
    pool.register_gasmix(2, Some(1)).unwrap();
    assert_eq!(pool.tot_gases(), 2);
    pool.unregister_gasmix(2, Some(1));
    assert_eq!(pool.tot_gases(), 2);
    pool.register_gasmix(3, Some(1)).unwrap();
    assert_eq!(pool.tot_gases(), 2);
    pool.register_gasmix(4, Some(1)).unwrap();
    assert_eq!(pool.tot_gases(), 3);
}

#[test]
fn register_without_a_volume_changes_nothing() {
    let mut pool = GasMixtures::new();
    pool.register_gasmix(1, Some(1)).unwrap();
    pool.unregister_gasmix(1, Some(0));
    assert_eq!(pool.register_gasmix(9, None), Err(PoolError::NotANumber));
    assert_eq!(pool.tot_gases(), 1);
    assert_eq!(pool.amt_gases(), 0);
    assert!(pool.is_free(0));
    assert!(!is_registered_mix(&pool, 9));
}

#[test]
fn second_release_is_a_no_op() {
    let mut pool = GasMixtures::new();
    pool.register_gasmix(1, Some(1)).unwrap();
    pool.register_gasmix(2, Some(1)).unwrap();
    assert!(is_registered_mix(&pool, 1));
    pool.unregister_gasmix(1, Some(0));
    assert!(!is_registered_mix(&pool, 1));
    assert_eq!(pool.amt_gases(), 1);
    pool.unregister_gasmix(1, Some(0));
    assert_eq!(pool.amt_gases(), 1);
    assert_eq!(pool.register_gasmix(3, Some(1)), Ok(0));
    // had slot 0 been listed twice, it would be handed out again here
    assert_eq!(pool.register_gasmix(4, Some(1)), Ok(2));
}

#[test]
fn release_of_an_unknown_owner_is_a_no_op() {
    let mut pool = GasMixtures::new();
    pool.register_gasmix(1, Some(1)).unwrap();
    pool.unregister_gasmix(55, Some(0));
    assert_eq!(pool.amt_gases(), 1);
    assert!(!pool.is_free(0));
    assert!(is_registered_mix(&pool, 1));
}

#[test]
fn release_without_an_index_is_a_no_op() {
    let mut pool = GasMixtures::new();
    pool.register_gasmix(1, Some(1)).unwrap();
    pool.unregister_gasmix(1, None);
    assert_eq!(pool.amt_gases(), 1);
    assert!(is_registered_mix(&pool, 1));
}

#[test]
fn may_release_tells_a_bad_index() {
    let mut pool = GasMixtures::new();
    pool.register_gasmix(1, Some(1)).unwrap();
    pool.register_gasmix(2, Some(1)).unwrap();
    assert!(pool.may_release(1, Some(0)));
    assert!(!pool.may_release(1, Some(2)));
    assert!(pool.may_release(1, None));
    assert!(pool.may_release(77, Some(2)));
    pool.unregister_gasmix(1, Some(0));
    // owner 2 carrying the slot that is free already
    assert!(!pool.may_release(2, Some(0)));
    assert!(pool.may_release(2, Some(1)));
}

#[test]
fn try_unregister_refuses_what_would_break_the_free_stack() {
    let mut pool = GasMixtures::new();
    pool.register_gasmix(1, Some(1)).unwrap();
    assert!(!pool.try_unregister_gasmix(1, Some(9)));
    assert_eq!(pool.amt_gases(), 1);
    assert!(is_registered_mix(&pool, 1));
    assert!(pool.try_unregister_gasmix(1, Some(0)));
    assert_eq!(pool.amt_gases(), 0);
    assert!(!is_registered_mix(&pool, 1));
    assert!(pool.try_unregister_gasmix(1, Some(0)));
    assert_eq!(pool.amt_gases(), 0);
}

#[test]
fn liveness_set_insert_and_remove() {
    let mut pool = GasMixtures::new();
    assert!(!is_registered_mix(&pool, 7));
    register_mix(&mut pool, 7);
    assert!(is_registered_mix(&pool, 7));
    assert!(!is_registered_mix(&pool, 8));
    register_mix(&mut pool, 7);
    unregister_mix(&mut pool, 7);
    assert!(!is_registered_mix(&pool, 7));
    unregister_mix(&mut pool, 7);
    assert!(!is_registered_mix(&pool, 7));
    assert_eq!(pool.tot_gases(), 0);
}

#[test]
fn single_access_out_of_bounds() {
    let mut pool = GasMixtures::new();
    pool.register_gasmix(1, Some(4)).unwrap();
    assert_eq!(pool.with_gas_mixture(1, |mix| mix.volume), Err(PoolError::NotFound(1)));
    let mut called = false;
    let res = pool.with_gas_mixture_mut(3, |mix| {
        called = true;
        mix.volume = 0;
    });
    assert_eq!(res, Err(PoolError::NotFound(3)));
    assert!(!called);
    assert_eq!(volume_of(&pool, 0), 4);
    assert_eq!(pool.tot_gases(), 1);
}

#[test]
fn single_access_reads_and_writes() {
    let mut pool = GasMixtures::new();
    pool.register_gasmix(1, Some(4)).unwrap();
    pool.register_gasmix(2, Some(6)).unwrap();
    assert_eq!(pool.with_gas_mixture(1, |mix| mix.volume + 1), Ok(7));
    assert_eq!(pool.with_gas_mixture_mut(1, |mix| { mix.volume = 9; "done" }), Ok("done"));
    assert_eq!(volume_of(&pool, 1), 9);
    assert_eq!(volume_of(&pool, 0), 4);
}

#[test]
fn pair_read() {
    let mut pool = GasMixtures::new();
    pool.register_gasmix(1, Some(4)).unwrap();
    pool.register_gasmix(2, Some(6)).unwrap();
    assert_eq!(pool.with_gas_mixtures(0, 1, |a, b| (a.volume, b.volume)), Ok((4, 6)));
    assert_eq!(pool.with_gas_mixtures(1, 0, |a, b| (a.volume, b.volume)), Ok((6, 4)));
    assert_eq!(pool.with_gas_mixtures(1, 1, |a, b| (a.volume, b.volume)), Ok((6, 6)));
    assert_eq!(pool.with_gas_mixtures(2, 3, |a, b| a.volume + b.volume), Err(PoolError::NotFound(2)));
    assert_eq!(pool.with_gas_mixtures(0, 3, |a, b| a.volume + b.volume), Err(PoolError::NotFound(3)));
    assert_eq!(pool.with_gas_mixtures(5, 0, |a, b| a.volume + b.volume), Err(PoolError::NotFound(5)));
}

#[test]
fn pair_write_on_two_slots_keeps_both_writes() {
    let mut pool = GasMixtures::new();
    pool.register_gasmix(1, Some(4)).unwrap();
    pool.register_gasmix(2, Some(6)).unwrap();
    pool.register_gasmix(3, Some(8)).unwrap();
    let res = pool.with_gas_mixtures_mut(2, 0, |a, b| {
        let seen = (a.volume, b.volume);
        a.volume = 80;
        a.moles.push(1);
        b.volume = 40;
        b.moles.push(2);
        seen
    });
    assert_eq!(res, Ok((8, 4)));
    assert_eq!(volume_of(&pool, 0), 40);
    assert_eq!(moles_of(&pool, 0), vec![2]);
    assert_eq!(volume_of(&pool, 1), 6);
    assert_eq!(moles_of(&pool, 1), Vec::<u32>::new());
    assert_eq!(volume_of(&pool, 2), 80);
    assert_eq!(moles_of(&pool, 2), vec![1]);
}

#[test]
fn pair_write_on_one_slot_keeps_the_first_write_only() {
    let mut pool = GasMixtures::new();
    pool.register_gasmix(1, Some(4)).unwrap();
    pool.register_gasmix(2, Some(6)).unwrap();
    let res = pool.with_gas_mixtures_mut(1, 1, |a, b| {
        let seen = (a.volume, b.volume);
        a.moles.push(5);
        b.volume = 99;
        b.moles.push(7);
        seen
    });
    assert_eq!(res, Ok((6, 6)));
    assert_eq!(volume_of(&pool, 1), 6);
    assert_eq!(moles_of(&pool, 1), vec![5]);
    assert_eq!(volume_of(&pool, 0), 4);
}

#[test]
fn pair_write_through_the_second_parameter_alone_is_lost() {
    let mut pool = GasMixtures::new();
    pool.register_gasmix(1, Some(4)).unwrap();
    let res = pool.with_gas_mixtures_mut(0, 0, |_, b| {
        b.volume = 99;
    });
    assert_eq!(res, Ok(()));
    assert_eq!(volume_of(&pool, 0), 4);
}

#[test]
fn pair_write_out_of_bounds_changes_nothing() {
    let mut pool = GasMixtures::new();
    pool.register_gasmix(1, Some(4)).unwrap();
    pool.register_gasmix(2, Some(6)).unwrap();
    let spoil = |a: &mut GasMixture, b: &mut GasMixture| {
        a.volume = 0;
        b.volume = 0;
    };
    assert_eq!(pool.with_gas_mixtures_mut(0, 2, spoil), Err(PoolError::NotFound(2)));
    assert_eq!(pool.with_gas_mixtures_mut(2, 0, spoil), Err(PoolError::NotFound(2)));
    assert_eq!(pool.with_gas_mixtures_mut(7, 8, spoil), Err(PoolError::NotFound(7)));
    assert_eq!(pool.with_gas_mixtures_mut(9, 9, spoil), Err(PoolError::NotFound(9)));
    assert_eq!(volume_of(&pool, 0), 4);
    assert_eq!(volume_of(&pool, 1), 6);
    assert_eq!(pool.tot_gases(), 2);
}

#[test]
fn all_mixtures_are_handed_to_the_callback() {
    let mut pool = GasMixtures::new();
    for owner in 0..3u32 {
        pool.register_gasmix(owner, Some(owner + 10)).unwrap();
    }
    pool.unregister_gasmix(1, Some(1));
    let volumes = pool.with_all_mixtures(|all| all.iter().map(|mix| mix.volume).collect::<Vec<u32>>());
    assert_eq!(volumes, vec![10, 11, 12]);
    assert_eq!(GasMixtures::new().with_all_mixtures(|all| all.len()), 0);
}

#[test]
fn access_by_carried_index() {
    let mut pool = GasMixtures::new();
    let a = pool.register_gasmix(1, Some(4)).unwrap();
    let b = pool.register_gasmix(2, Some(6)).unwrap();
    assert_eq!(with_mix(&pool, Some(a), |mix| mix.volume), Ok(4));
    assert_eq!(with_mix(&pool, Some(b), |mix| mix.volume), Ok(6));
    assert_eq!(with_mix(&pool, None, |mix| mix.volume), Err(PoolError::NotANumber));
    assert_eq!(with_mix(&pool, Some(2), |mix| mix.volume), Err(PoolError::NotFound(2)));
    assert_eq!(with_mix_mut(&mut pool, Some(b), |mix| { mix.volume = 60; 1 }), Ok(1));
    assert_eq!(with_mix_mut(&mut pool, None, |mix| { mix.volume = 0; 1 }), Err(PoolError::NotANumber));
    assert_eq!(
        with_mix_mut(&mut pool, Some(4_000_000_000), |mix| { mix.volume = 0; 1 }),
        Err(PoolError::NotFound(4_000_000_000))
    );
    assert_eq!(volume_of(&pool, 0), 4);
    assert_eq!(volume_of(&pool, 1), 60);
}

#[test]
fn pair_access_by_carried_index() {
    let mut pool = GasMixtures::new();
    let a = pool.register_gasmix(1, Some(4)).unwrap();
    let b = pool.register_gasmix(2, Some(6)).unwrap();
    assert_eq!(with_mixes(&pool, Some(a), Some(b), |x, y| (x.volume, y.volume)), Ok((4, 6)));
    assert_eq!(with_mixes(&pool, None, Some(9), |x, y| x.volume + y.volume), Err(PoolError::NotANumber));
    assert_eq!(with_mixes(&pool, Some(9), None, |x, y| x.volume + y.volume), Err(PoolError::NotANumber));
    assert_eq!(with_mixes(&pool, Some(9), Some(8), |x, y| x.volume + y.volume), Err(PoolError::NotFound(9)));
    assert_eq!(with_mixes(&pool, Some(a), Some(8), |x, y| x.volume + y.volume), Err(PoolError::NotFound(8)));
    let swap = |x: &mut GasMixture, y: &mut GasMixture| std::mem::swap(x, y);
    assert_eq!(with_mixes_mut(&mut pool, Some(a), Some(b), swap), Ok(()));
    assert_eq!(volume_of(&pool, 0), 6);
    assert_eq!(volume_of(&pool, 1), 4);
    assert_eq!(with_mixes_mut(&mut pool, Some(a), None, swap), Err(PoolError::NotANumber));
    assert_eq!(with_mixes_mut(&mut pool, Some(a), Some(2), swap), Err(PoolError::NotFound(2)));
    assert_eq!(with_mixes_mut(&mut pool, Some(b), Some(b), |x, y| { x.volume = 1; y.volume = 2; }), Ok(()));
    assert_eq!(volume_of(&pool, 0), 6);
    assert_eq!(volume_of(&pool, 1), 1);
}

#[test]
fn shut_down_drops_everything() {
    let mut pool = GasMixtures::new();
    pool.register_gasmix(1, Some(4)).unwrap();
    pool.register_gasmix(2, Some(6)).unwrap();
    pool.unregister_gasmix(1, Some(0));
    pool.shut_down();
    assert_eq!(pool.tot_gases(), 0);
    assert_eq!(pool.amt_gases(), 0);
    assert!(!pool.is_free(0));
    assert!(!is_registered_mix(&pool, 2));
    assert_eq!(pool.register_gasmix(3, Some(1)), Ok(0));
}

#[test]
fn record_operations() {
    let mut mix = GasMixture::from_vol(12);
    assert_eq!(mix.volume, 12);
    assert!(mix.moles.is_empty());
    mix.moles.push(3);
    let copy = mix.clone();
    assert_eq!(copy, mix);
    mix.clear_with_vol(2);
    assert_eq!(mix, GasMixture::from_vol(2));
    assert_eq!(copy.moles, vec![3]);
    assert_eq!(copy.volume, 12);
}

#[test]
fn release_takes_the_index_on_trust() {
    let mut pool = GasMixtures::new();
    pool.register_gasmix(1, Some(4)).unwrap();
    pool.register_gasmix(2, Some(6)).unwrap();
    assert!(pool.is_well_formed());
    pool.unregister_gasmix(1, Some(0));
    assert!(pool.is_well_formed());
    // owner 2 carries the index of a slot that is free already
    pool.unregister_gasmix(2, Some(0));
    assert!(!pool.is_well_formed());
    assert!(!is_registered_mix(&pool, 2));

    let mut other = GasMixtures::new();
    other.register_gasmix(1, Some(4)).unwrap();
    // an index that names no slot
    other.unregister_gasmix(1, Some(5));
    assert!(!other.is_well_formed());
    assert!(other.is_free(5));
}

#[test]
fn good_order_is_kept_by_every_checked_operation() {
    let mut pool = GasMixtures::new();
    assert!(pool.is_well_formed());
    for owner in 0..5u32 {
        pool.register_gasmix(owner, Some(1)).unwrap();
        assert!(pool.is_well_formed());
    }
    for owner in [3u32, 0, 4] {
        assert!(pool.try_unregister_gasmix(owner, Some(owner)));
        assert!(pool.is_well_formed());
    }
    assert!(!pool.try_unregister_gasmix(1, Some(3)));
    assert!(pool.is_well_formed());
    assert_eq!(pool.amt_gases(), 2);
    pool.with_gas_mixtures_mut(1, 2, |a, b| std::mem::swap(a, b)).unwrap();
    assert!(pool.is_well_formed());
    pool.shut_down();
    assert!(pool.is_well_formed());
}

#[test]
fn put_pair_writes_each_record_into_its_slot() {
    let mut pool = GasMixtures::new();
    pool.register_gasmix(1, Some(4)).unwrap();
    pool.register_gasmix(2, Some(6)).unwrap();
    pool.register_gasmix(3, Some(8)).unwrap();
    pool.put_pair(2, 0, GasMixture::from_vol(20), GasMixture::from_vol(10));
    assert_eq!(volume_of(&pool, 0), 10);
    assert_eq!(volume_of(&pool, 1), 6);
    assert_eq!(volume_of(&pool, 2), 20);
    assert_eq!(pool.tot_gases(), 3);
    assert_eq!(pool.amt_gases(), 3);
}

#[test]
fn put_pair_on_one_slot_keeps_the_first_record() {
    let mut pool = GasMixtures::new();
    pool.register_gasmix(1, Some(4)).unwrap();
    pool.register_gasmix(2, Some(6)).unwrap();
    let mut first = GasMixture::from_vol(3);
    first.moles.push(7);
    pool.put_pair(1, 1, first, GasMixture::from_vol(99));
    assert_eq!(volume_of(&pool, 1), 3);
    assert_eq!(moles_of(&pool, 1), vec![7]);
    assert_eq!(volume_of(&pool, 0), 4);
}

#[test]
fn sweep_that_writes() {
    let mut pool = GasMixtures::new();
    for owner in 0..3u32 {
        pool.register_gasmix(owner, Some(owner + 10)).unwrap();
    }
    pool.unregister_gasmix(1, Some(1));
    let seen = pool.with_all_mixtures_mut(|all| {
        for mix in all.iter_mut() {
            mix.volume += 100;
            mix.moles.push(1);
        }
        all.len()
    });
    assert_eq!(seen, 3);
    assert_eq!(volume_of(&pool, 0), 110);
    assert_eq!(volume_of(&pool, 1), 111);
    assert_eq!(volume_of(&pool, 2), 112);
    assert_eq!(moles_of(&pool, 2), vec![1]);
    assert_eq!(pool.tot_gases(), 3);
    assert_eq!(pool.amt_gases(), 2);
    assert!(pool.is_free(1));
    assert!(is_registered_mix(&pool, 0));
    assert!(!is_registered_mix(&pool, 1));
}

#[test]
fn free_count_and_readiness_to_register() {
    let mut pool = GasMixtures::new();
    assert_eq!(pool.free_gases(), 0);
    assert!(pool.can_register());
    pool.register_gasmix(1, Some(4)).unwrap();
    pool.register_gasmix(2, Some(6)).unwrap();
    pool.unregister_gasmix(2, Some(1));
    assert_eq!(pool.free_gases(), 1);
    assert!(pool.can_register());
    // an index that names no slot, taken on trust
    pool.unregister_gasmix(1, Some(9));
    assert_eq!(pool.free_gases(), 2);
    assert!(!pool.can_register());
    assert_eq!(pool.amt_gases(), 0);
}

#[test]
fn register_needs_only_an_existing_top_of_the_stack() {
    let mut pool = GasMixtures::new();
    pool.register_gasmix(1, Some(4)).unwrap();
    pool.register_gasmix(2, Some(6)).unwrap();
    pool.unregister_gasmix(1, Some(0));
    pool.unregister_gasmix(2, Some(0));
    assert!(!pool.is_well_formed());
    assert!(pool.can_register());
    assert_eq!(pool.register_gasmix(3, Some(1)), Ok(0));
    assert_eq!(pool.register_gasmix(4, Some(2)), Ok(0));
    assert_eq!(volume_of(&pool, 0), 2);
    assert!(pool.is_well_formed());
}
