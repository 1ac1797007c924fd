use asoul_weekly::biz::group::{
    create_group, create_group_with_time, dated_name, group_name, Event, Phase, Resolver, Step,
};
use asoul_weekly::db::Store;

fn ids() -> Vec<String> {
    vec!["u1".to_string(), "u2".to_string()]
}

#[test]
fn the_group_of_a_day_is_named_by_channel_and_date() {
    // 2021-07-23 03:40:28 UTC
    assert_eq!(group_name("视频筛选", 1627011628, false), Some("视频筛选 07-23".to_string()));
    assert_eq!(group_name("视频筛选", 1627011628, true), Some("视频筛选 dev 07-23".to_string()));
    // 2021-07-23 16:00:00 UTC is the next day in Shanghai
    assert_eq!(group_name("动态筛选", 1627056000, false), Some("动态筛选 07-24".to_string()));
    assert_eq!(group_name("动态筛选", i64::MAX, false), None);
    assert_eq!(dated_name("a", "01-02", false), "a 01-02");
    assert_eq!(dated_name("a", "01-02", true), "a dev 01-02");
}

#[test]
fn a_resolution_begins_at_the_start() {
    let r = create_group_with_time("视频归档", 1627011628, false).unwrap();
    assert_eq!(r.name, "视频归档 07-23");
    assert_eq!(r.phase, Phase::Start);
    assert_eq!(r.chat_id, None);
    assert_eq!(create_group("视频归档", 1627011628, true).unwrap().name, "视频归档 dev 07-23");
    assert!(create_group_with_time("视频归档", i64::MIN, false).is_none());
}

#[test]
fn a_recorded_group_is_found_without_the_lock() {
    let mut store = Store::new();
    store.insert_group("视频筛选 07-23", "oc_1").unwrap();
    let mut r = Resolver::new("视频筛选 07-23".to_string());
    let m = r.advance(&mut store, Event::Begin, &ids());
    assert_eq!(r.phase, Phase::Done);
    assert!(!m.release_lock);
    match m.step {
        Step::Finish(g) => {
            assert_eq!(g.name, "视频筛选 07-23");
            assert_eq!(g.chat_id, "oc_1");
        }
        _ => panic!("the recorded group is the answer"),
    }
}

#[test]
fn a_missing_group_is_created_under_the_lock() {
    let mut store = Store::new();
    let mut r = Resolver::new("视频筛选 07-23".to_string());
    let m = r.advance(&mut store, Event::Begin, &ids());
    assert_eq!(r.phase, Phase::AwaitLock);
    assert!(matches!(m.step, Step::AcquireLock));
    assert!(!m.release_lock);

    let m = r.advance(&mut store, Event::LockAcquired, &ids());
    assert_eq!(r.phase, Phase::AwaitGroup);
    assert!(!m.release_lock);
    match m.step {
        Step::CreateOrGetGroup { name } => assert_eq!(name, "视频筛选 07-23"),
        _ => panic!("the platform is asked for the group"),
    }

    let m = r.advance(&mut store, Event::GroupReady { chat_id: "oc_9".to_string() }, &ids());
    assert_eq!(r.phase, Phase::AwaitMembers);
    assert!(!m.release_lock);
    match m.step {
        Step::EnsureMembers { chat_id, user_ids } => {
            assert_eq!(chat_id, "oc_9");
            assert_eq!(user_ids, ids());
        }
        _ => panic!("the members are added"),
    }
    assert!(store.from_name("视频筛选 07-23").is_none());

    let m = r.advance(&mut store, Event::MembersReady, &ids());
    assert_eq!(r.phase, Phase::Done);
    assert!(m.release_lock);
    match m.step {
        Step::Finish(g) => assert_eq!(g.chat_id, "oc_9"),
        _ => panic!("the new group is the answer"),
    }
    assert_eq!(store.from_name("视频筛选 07-23").unwrap().chat_id, "oc_9");
}

#[test]
fn the_loser_of_the_race_finds_the_winners_group() {
    let mut store = Store::new();
    let mut first = Resolver::new("动态筛选 07-23".to_string());
    let mut second = Resolver::new("动态筛选 07-23".to_string());
    // both look before either holds the lock
    first.advance(&mut store, Event::Begin, &ids());
    second.advance(&mut store, Event::Begin, &ids());
    assert_eq!(first.phase, Phase::AwaitLock);
    assert_eq!(second.phase, Phase::AwaitLock);
    // the first one gets the lock and creates the group
    first.advance(&mut store, Event::LockAcquired, &ids());
    first.advance(&mut store, Event::GroupReady { chat_id: "oc_1".to_string() }, &ids());
    let m = first.advance(&mut store, Event::MembersReady, &ids());
    assert!(m.release_lock);
    // the second one gets the lock afterwards and looks again
    let m = second.advance(&mut store, Event::LockAcquired, &ids());
    assert_eq!(second.phase, Phase::Done);
    assert!(m.release_lock);
    match m.step {
        Step::Finish(g) => assert_eq!(g.chat_id, "oc_1"),
        _ => panic!("the group of the first resolution is the answer"),
    }
    assert!(store.insert_group("动态筛选 07-23", "oc_2").is_err());
}

#[test]
fn a_failed_call_gives_the_lock_back() {
    let mut store = Store::new();
    let mut r = Resolver::new("g".to_string());
    r.advance(&mut store, Event::Begin, &ids());
    r.advance(&mut store, Event::LockAcquired, &ids());
    let m = r.advance(&mut store, Event::Failed, &ids());
    assert_eq!(r.phase, Phase::Failed);
    assert!(m.release_lock);
    assert!(matches!(m.step, Step::Abort));
    assert!(store.from_name("g").is_none());
    let m = r.advance(&mut store, Event::MembersReady, &ids());
    assert_eq!(r.phase, Phase::Failed);
    assert!(!m.release_lock);
}

#[test]
fn a_report_out_of_turn_ends_the_resolution() {
    let mut store = Store::new();
    let mut r = Resolver::new("g".to_string());
    let m = r.advance(&mut store, Event::MembersReady, &ids());
    assert_eq!(r.phase, Phase::Failed);
    assert!(!m.release_lock);
    assert!(matches!(m.step, Step::Abort));
    assert!(store.from_name("g").is_none());
}

#[test]
fn a_group_without_an_id_is_not_recorded() {
    let mut store = Store::new();
    let mut r = Resolver { name: "g".to_string(), phase: Phase::AwaitMembers, chat_id: None };
    let m = r.advance(&mut store, Event::MembersReady, &ids());
    assert_eq!(r.phase, Phase::Failed);
    assert!(m.release_lock);
    assert!(matches!(m.step, Step::Abort));
    assert!(store.from_name("g").is_none());
}

#[test]
fn a_finished_resolution_stays_finished() {
    let mut store = Store::new();
    store.insert_group("g", "oc_1").unwrap();
    let mut r = Resolver::new("g".to_string());
    r.advance(&mut store, Event::Begin, &ids());
    let m = r.advance(&mut store, Event::LockAcquired, &ids());
    assert_eq!(r.phase, Phase::Done);
    assert!(!m.release_lock);
    assert!(matches!(m.step, Step::Abort));
}
