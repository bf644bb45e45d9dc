use social_groups::{Backend, BackendError, DeveloperProfile, EntityKind, Message, SocialGroup};

fn s(x: &str) -> String {
    x.to_string()
}

fn ana(b: &mut Backend) -> u64 {
    b.create_developer_profile(s("Ana"), s("NY"), vec![s("ai")]).0
}

#[test]
fn full_flow_ana_ai_devs() {
    let mut b = Backend::new();
    let (id, p) = b.create_developer_profile(s("Ana"), s("NY"), vec![s("ai")]);
    assert_eq!(id, 0);
    assert_eq!(p.groups, Vec::<u64>::new());
    let g = b.create_social_group(s("AI Devs"), s("ai"));
    assert_eq!(g.id, 0);
    assert_eq!(b.join_social_group(0, 0), Ok(()));
    assert_eq!(b.get_developer_profile(0).unwrap().groups, vec![0]);
    assert_eq!(b.get_social_group(0).unwrap().members, vec![0]);
    let m = b.send_message(0, 0, s("hi")).unwrap();
    assert_eq!(m, Message { sender_id: 0, group_id: 0, content: s("hi") });
    assert_eq!(b.get_message(0), Ok(m));
}

#[test]
fn join_with_mismatched_idea_changes_nothing() {
    let mut b = Backend::new();
    ana(&mut b);
    b.create_social_group(s("Web Devs"), s("web"));
    assert_eq!(
        b.join_social_group(0, 0),
        Err(BackendError::IdeaMismatch { developer_id: 0, group_id: 0 })
    );
    assert_eq!(b.get_developer_profile(0).unwrap().groups, Vec::<u64>::new());
    assert_eq!(b.get_social_group(0).unwrap().members, Vec::<u64>::new());
}

#[test]
fn get_missing_profile_on_empty_store() {
    let b = Backend::new();
    assert_eq!(
        b.get_developer_profile(999),
        Err(BackendError::NotFound { kind: EntityKind::Developer, id: 999 })
    );
}

#[test]
fn developer_ids_count_up_from_zero() {
    let mut b = Backend::new();
    for expected in 0..5u64 {
        let (id, _) = b.create_developer_profile(s("d"), s("x"), vec![]);
        assert_eq!(id, expected);
    }
}

#[test]
fn group_and_message_ids_count_up_from_zero() {
    let mut b = Backend::new();
    ana(&mut b);
    assert_eq!(b.create_social_group(s("a"), s("ai")).id, 0);
    assert_eq!(b.create_social_group(s("b"), s("ai")).id, 1);
    b.join_social_group(0, 1).unwrap();
    b.send_message(0, 1, s("one")).unwrap();
    b.send_message(0, 1, s("two")).unwrap();
    assert_eq!(b.get_message(0).unwrap().content, "one");
    assert_eq!(b.get_message(1).unwrap().content, "two");
}

#[test]
fn get_after_create_returns_equal_record() {
    let mut b = Backend::new();
    let (id, p) = b.create_developer_profile(s("Bo"), s("Lima"), vec![s("ai"), s("web")]);
    assert_eq!(b.get_developer_profile(id), Ok(p.clone()));
    assert_eq!(
        p,
        DeveloperProfile { name: s("Bo"), location: s("Lima"), ideas: vec![s("ai"), s("web")], groups: vec![] }
    );
    let g = b.create_social_group(s("G"), s("web"));
    assert_eq!(b.get_social_group(g.id), Ok(g));
}

#[test]
fn join_succeeds_when_idea_is_listed_among_several() {
    let mut b = Backend::new();
    b.create_developer_profile(s("Bo"), s("Lima"), vec![s("ai"), s("web")]);
    b.create_social_group(s("W"), s("web"));
    assert_eq!(b.join_social_group(0, 0), Ok(()));
}

#[test]
fn repeated_join_appends_the_pair_again() {
    let mut b = Backend::new();
    ana(&mut b);
    b.create_social_group(s("AI"), s("ai"));
    b.join_social_group(0, 0).unwrap();
    b.join_social_group(0, 0).unwrap();
    assert_eq!(b.get_developer_profile(0).unwrap().groups, vec![0, 0]);
    assert_eq!(b.get_social_group(0).unwrap().members, vec![0, 0]);
}

#[test]
fn join_missing_developer_or_group() {
    let mut b = Backend::new();
    assert_eq!(
        b.join_social_group(3, 0),
        Err(BackendError::NotFound { kind: EntityKind::Developer, id: 3 })
    );
    ana(&mut b);
    assert_eq!(
        b.join_social_group(0, 7),
        Err(BackendError::NotFound { kind: EntityKind::SocialGroup, id: 7 })
    );
}

#[test]
fn send_without_membership_is_refused() {
    let mut b = Backend::new();
    ana(&mut b);
    b.create_social_group(s("AI"), s("ai"));
    assert_eq!(
        b.send_message(0, 0, s("hi")),
        Err(BackendError::NotMember { sender_id: 0, group_id: 0 })
    );
    assert_eq!(b.get_all_messages(), Vec::<Message>::new());
    assert_eq!(
        b.get_message(0),
        Err(BackendError::NotFound { kind: EntityKind::Message, id: 0 })
    );
}

#[test]
fn send_from_missing_sender_or_to_missing_group() {
    let mut b = Backend::new();
    assert_eq!(
        b.send_message(1, 0, s("x")),
        Err(BackendError::NotFound { kind: EntityKind::Developer, id: 1 })
    );
    ana(&mut b);
    assert_eq!(
        b.send_message(0, 4, s("x")),
        Err(BackendError::NotFound { kind: EntityKind::SocialGroup, id: 4 })
    );
}

#[test]
fn membership_is_per_group() {
    let mut b = Backend::new();
    ana(&mut b);
    b.create_social_group(s("A"), s("ai"));
    b.create_social_group(s("B"), s("ai"));
    b.join_social_group(0, 0).unwrap();
    assert!(b.send_message(0, 0, s("ok")).is_ok());
    assert_eq!(
        b.send_message(0, 1, s("no")),
        Err(BackendError::NotMember { sender_id: 0, group_id: 1 })
    );
}

#[test]
fn missing_group_lookup() {
    let b = Backend::new();
    assert_eq!(
        b.get_social_group(0),
        Err(BackendError::NotFound { kind: EntityKind::SocialGroup, id: 0 })
    );
}

#[test]
fn listings_start_empty() {
    let b = Backend::new();
    assert!(b.get_all_developer_profiles().is_empty());
    assert!(b.get_all_social_groups().is_empty());
    assert!(b.get_all_messages().is_empty());
}

#[test]
fn listings_hold_every_record_in_id_order() {
    let mut b = Backend::new();
    b.create_developer_profile(s("A"), s("x"), vec![s("ai")]);
    b.create_developer_profile(s("B"), s("y"), vec![]);
    b.create_social_group(s("G1"), s("ai"));
    b.create_social_group(s("G2"), s("web"));
    b.join_social_group(0, 0).unwrap();
    b.send_message(0, 0, s("m")).unwrap();
    let names: Vec<String> = b.get_all_developer_profiles().into_iter().map(|p| p.name).collect();
    assert_eq!(names, vec![s("A"), s("B")]);
    let groups = b.get_all_social_groups();
    assert_eq!(
        groups,
        vec![
            SocialGroup { id: 0, name: s("G1"), idea: s("ai"), members: vec![0] },
            SocialGroup { id: 1, name: s("G2"), idea: s("web"), members: vec![] },
        ]
    );
    assert_eq!(b.get_all_messages(), vec![Message { sender_id: 0, group_id: 0, content: s("m") }]);
}

#[test]
fn insert_overwrites_and_keeps_listing_position() {
    let mut b = Backend::new();
    b.create_developer_profile(s("A"), s("x"), vec![]);
    b.create_developer_profile(s("B"), s("y"), vec![]);
    let replaced = DeveloperProfile { name: s("Z"), location: s("z"), ideas: vec![], groups: vec![9] };
    b.do_insert_developer_profile(0, &replaced);
    assert_eq!(b.get_developer_profile(0), Ok(replaced.clone()));
    let all = b.get_all_developer_profiles();
    assert_eq!(all.len(), 2);
    assert_eq!(all[0], replaced);
    assert_eq!(all[1].name, "B");
}

#[test]
fn insert_under_new_ids_appends_to_listings() {
    let mut b = Backend::new();
    let g = SocialGroup { id: 40, name: s("G"), idea: s("i"), members: vec![1] };
    b.do_insert_social_group(40, &g);
    let m = Message { sender_id: 1, group_id: 40, content: s("c") };
    b.do_insert_message(12, &m);
    assert_eq!(b.get_social_group(40), Ok(g.clone()));
    assert_eq!(b.get_all_social_groups(), vec![g]);
    assert_eq!(b.get_message(12), Ok(m.clone()));
    assert_eq!(b.get_all_messages(), vec![m]);
    // the counters are not moved by a direct insert
    assert_eq!(b.create_social_group(s("H"), s("j")).id, 0);
}
