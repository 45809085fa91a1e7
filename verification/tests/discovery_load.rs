use aghub_core::discovery::{
    collect_skills, load_skills_from_dir, load_skills_from_dir_partial, load_skills_from_dirs, name_lt, opens_group, DirWalk,
    IoKind, WalkEvent,
};
use aghub_core::models::Skill;

fn skill(name: &str, path: &str) -> Skill {
    let mut s = Skill::new(name);
    s.source_path = Some(path.into());
    s
}

fn walk(skills: Vec<Skill>, failure: Option<&str>) -> DirWalk {
    DirWalk { skills, failure: failure.map(|f| f.into()), unlisted: false }
}

#[test]
fn a_dir_lists_its_skills_by_name() {
    let got = load_skills_from_dir(walk(vec![skill("b", "1"), skill("a", "2"), skill("c", "3")], None)).unwrap();
    let names: Vec<_> = got.iter().map(|s| s.name.as_str()).collect();
    assert_eq!(names, vec!["a", "b", "c"]);
    assert_eq!(load_skills_from_dir(walk(vec![skill("a", "1")], Some("denied"))).unwrap_err(), "denied");
    let (skills, unlisted) = load_skills_from_dir_partial(DirWalk { skills: vec![skill("z", "1"), skill("y", "2")], failure: Some("x".into()), unlisted: true });
    assert_eq!(skills[0].name, "y");
    assert!(unlisted);
}

#[test]
fn the_first_dir_wins_a_name_and_the_first_failure_fails_the_load() {
    let got = load_skills_from_dirs(vec![
        walk(vec![skill("b", "/one/b"), skill("a", "/one/a")], None),
        walk(vec![skill("a", "/two/a"), skill("c", "/two/c")], None),
    ])
    .unwrap();
    let pairs: Vec<_> = got.iter().map(|s| (s.name.clone(), s.source_path.clone().unwrap())).collect();
    assert_eq!(
        pairs,
        vec![("a".into(), "/one/a".into()), ("b".into(), "/one/b".into()), ("c".into(), "/two/c".into())]
    );
    let err = load_skills_from_dirs(vec![walk(vec![], None), walk(vec![], Some("first")), walk(vec![], Some("second"))]).unwrap_err();
    assert_eq!(err, "first");
}

#[test]
fn names_order_by_characters() {
    assert!(name_lt("a", "b"));
    assert!(name_lt("ab", "abc"));
    assert!(!name_lt("abc", "ab"));
    assert!(!name_lt("a", "a"));
    assert!(name_lt("Z", "a"));
}

#[test]
fn only_an_unreadable_skill_file_is_not_a_group_dir() {
    assert!(opens_group(None));
    assert!(opens_group(Some(IoKind::InvalidData)));
    assert!(opens_group(Some(IoKind::IsADirectory)));
    assert!(!opens_group(Some(IoKind::Other)));
    assert!(!opens_group(Some(IoKind::NotFound)));
}

#[test]
fn a_walk_keeps_every_skill_and_the_first_failure() {
    let events = vec![
        WalkEvent::Found(skill("b", "/s/b/SKILL.md")),
        WalkEvent::NotADir,
        WalkEvent::StatFailed { kind: IoKind::NotFound, message: "gone".into() },
        WalkEvent::ParseFailed { io: Some(IoKind::Other), message: "/s/c/SKILL.md: denied".into() },
        WalkEvent::ParseFailed { io: None, message: "/s/group: no SKILL.md".into() },
        WalkEvent::Found(skill("a", "/s/group/a/SKILL.md")),
        WalkEvent::EntryFailed { message: "/s: late".into() },
    ];
    let walk = collect_skills(events);
    let names: Vec<_> = walk.skills.iter().map(|s| s.name.as_str()).collect();
    assert_eq!(names, vec!["b", "a"]);
    assert_eq!(walk.failure.as_deref(), Some("/s/c/SKILL.md: denied"));
    assert!(walk.unlisted);
}

#[test]
fn an_absent_dir_holds_nothing_and_a_file_in_the_way_is_no_unlisting() {
    let absent = collect_skills(vec![WalkEvent::ListFailed { kind: IoKind::NotFound, message: "/x: missing".into() }]);
    assert!(absent.skills.is_empty() && absent.failure.is_none() && !absent.unlisted);
    let file = collect_skills(vec![WalkEvent::ListFailed { kind: IoKind::NotADirectory, message: "/x: not a dir".into() }]);
    assert_eq!(file.failure.as_deref(), Some("/x: not a dir"));
    assert!(!file.unlisted);
    let denied = collect_skills(vec![WalkEvent::ListFailed { kind: IoKind::Other, message: "/x: denied".into() }]);
    assert!(denied.unlisted);
    let unreadable_skill = collect_skills(vec![WalkEvent::ParseFailed { io: Some(IoKind::Other), message: "m".into() }]);
    assert!(!unreadable_skill.unlisted);
}

#[test]
fn skills_of_one_name_keep_their_walk_order() {
    let got = load_skills_from_dir(walk(vec![skill("b", "1"), skill("a", "2"), skill("b", "3"), skill("a", "4")], None)).unwrap();
    let seen: Vec<(&str, &str)> =
        got.iter().map(|s| (s.name.as_str(), s.source_path.as_deref().unwrap())).collect();
    assert_eq!(seen, vec![("a", "2"), ("a", "4"), ("b", "1"), ("b", "3")]);
}
