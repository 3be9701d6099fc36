use deepfilter_ort::handle::{DeepFilterNetState, HandleTable, TOKEN_LIMIT};
use deepfilter_ort::params::plan_create;

fn state_of<E>(df: E, hop_size: usize) -> DeepFilterNetState<E> {
    DeepFilterNetState { df, hop_size, post_filter_beta: 0, atten_lim_db: 0x42C8_0000 }
}

#[test]
fn tokens_count_up_from_one() {
    let mut table: HandleTable<&str> = HandleTable::new();
    assert_eq!(table.create(state_of("a", 480)), 1);
    assert_eq!(table.create(state_of("b", 480)), 2);
    assert_eq!(table.create(state_of("c", 256)), 3);
}

#[test]
fn token_limit_fits_a_signed_32_bit_value() {
    assert_eq!(TOKEN_LIMIT, i32::MAX as u64);
}

#[test]
fn zero_names_no_handle() {
    let mut table: HandleTable<u8> = HandleTable::new();
    assert!(!table.contains(0));
    assert_eq!(table.frame_size(0), 0);
    assert!(table.state(0).is_none());
    assert!(table.engine_mut(0).is_none());
    assert!(table.destroy(0).is_none());
    let token = table.create(state_of(9, 480));
    assert!(!table.contains(0));
    assert!(table.destroy(0).is_none());
    assert!(table.contains(token));
    assert_eq!(table.frame_size(token), 480);
}

#[test]
fn frame_size_is_what_the_handle_was_built_with() {
    let mut table: HandleTable<u8> = HandleTable::new();
    let a = table.create(state_of(1, 480));
    let b = table.create(state_of(2, 128));
    assert_eq!(table.frame_size(a), 480);
    assert_eq!(table.frame_size(b), 128);
    assert_eq!(table.frame_size(b + 1), 0);
    assert_eq!(table.frame_size(u64::MAX), 0);
}

#[test]
fn destroy_gives_the_state_back_once() {
    let mut table: HandleTable<String> = HandleTable::new();
    let a = table.create(state_of(String::from("first"), 480));
    let b = table.create(state_of(String::from("second"), 240));
    let state: DeepFilterNetState<String> = table.destroy(a).unwrap();
    assert_eq!(state.df, "first");
    assert_eq!(state.hop_size, 480);
    assert!(!table.contains(a));
    assert!(table.destroy(a).is_none());
    assert_eq!(table.frame_size(a), 0);
    assert!(table.engine_mut(a).is_none());
    assert!(table.contains(b));
    assert_eq!(table.state(b).map(|s| s.df.as_str()), Some("second"));
}

#[test]
fn destroyed_tokens_are_not_handed_out_again() {
    let mut table: HandleTable<u32> = HandleTable::new();
    let a = table.create(state_of(10, 480));
    let b = table.create(state_of(20, 480));
    assert!(table.destroy(a).is_some());
    assert!(table.destroy(b).is_some());
    let c = table.create(state_of(30, 480));
    assert_eq!(c, 3);
    assert!(!table.contains(a));
    assert!(!table.contains(b));
    assert_eq!(table.state(c).map(|s| s.df), Some(30));
}

#[test]
fn changing_one_engine_leaves_the_others() {
    let mut table: HandleTable<(u32, u32)> = HandleTable::new();
    let a = table.create(state_of((0, 0), 480));
    let b = table.create(state_of((0, 0), 480));
    if let Some(engine) = table.engine_mut(a) {
        engine.0 = 0x3F80_0000;
        engine.1 = 0x42C8_0000;
    }
    assert_eq!(table.state(a).map(|s| s.df), Some((0x3F80_0000, 0x42C8_0000)));
    assert_eq!(table.state(b).map(|s| s.df), Some((0, 0)));
    assert_eq!(table.frame_size(a), 480);
    assert_eq!(table.frame_size(b), 480);
}

#[test]
fn handles_in_the_middle_can_be_destroyed() {
    let mut table: HandleTable<u64> = HandleTable::new();
    let tokens: Vec<u64> = (0..10u64).map(|i| table.create(state_of(i * 100, 480 + i as usize))).collect();
    assert_eq!(table.destroy(tokens[4]).map(|s| s.df), Some(400));
    assert_eq!(table.destroy(tokens[0]).map(|s| s.df), Some(0));
    assert_eq!(table.destroy(tokens[9]).map(|s| s.df), Some(900));
    for (i, t) in tokens.iter().enumerate() {
        let live = i != 4 && i != 0 && i != 9;
        assert_eq!(table.contains(*t), live);
        assert_eq!(table.frame_size(*t), if live { 480 + i } else { 0 });
        assert_eq!(table.state(*t).map(|s| s.df), if live { Some(i as u64 * 100) } else { None });
    }
}

#[test]
fn a_new_state_takes_its_tuning_from_the_configuration() {
    let config = plan_create(64, 0.02f32.to_bits(), 100.0f32.to_bits()).unwrap();
    let state = DeepFilterNetState::new("engine", 480, &config);
    assert_eq!(state.df, "engine");
    assert_eq!(state.hop_size, 480);
    assert_eq!(f32::from_bits(state.post_filter_beta), 0.02);
    assert_eq!(f32::from_bits(state.atten_lim_db), 100.0);
}

#[test]
fn tuning_one_handle_leaves_the_other() {
    let config = plan_create(64, 0.0f32.to_bits(), 100.0f32.to_bits()).unwrap();
    let mut table: HandleTable<Vec<u32>> = HandleTable::new();
    let a = table.create(DeepFilterNetState::new(Vec::new(), 480, &config));
    let b = table.create(DeepFilterNetState::new(Vec::new(), 480, &config));

    let beta = 0.05f32.to_bits();
    match table.set_post_filter_beta(a, beta) {
        Some(engine) => engine.push(beta),
        None => panic!("the handle is live"),
    }
    let limit = 12.0f32.to_bits();
    match table.set_atten_lim(a, limit) {
        Some(engine) => engine.push(limit),
        None => panic!("the handle is live"),
    }

    let first = table.state(a).unwrap();
    assert_eq!(first.post_filter_beta, beta);
    assert_eq!(first.atten_lim_db, limit);
    assert_eq!(first.df, vec![beta, limit]);
    assert_eq!(first.hop_size, 480);
    let second = table.state(b).unwrap();
    assert_eq!(second.post_filter_beta, 0.0f32.to_bits());
    assert_eq!(second.atten_lim_db, 100.0f32.to_bits());
    assert!(second.df.is_empty());
}

#[test]
fn tuning_a_handle_that_is_not_live_changes_nothing() {
    let mut table: HandleTable<u8> = HandleTable::new();
    let a = table.create(state_of(1, 480));
    assert!(table.set_post_filter_beta(0, 7).is_none());
    assert!(table.set_atten_lim(0, 7).is_none());
    assert!(table.set_post_filter_beta(a + 1, 7).is_none());
    assert!(table.destroy(a).is_some());
    assert!(table.set_post_filter_beta(a, 7).is_none());
    assert!(table.set_atten_lim(a, 7).is_none());
    let b = table.create(state_of(2, 480));
    let state = table.state(b).unwrap();
    assert_eq!(state.post_filter_beta, 0);
    assert_eq!(state.atten_lim_db, 0x42C8_0000);
}
