use glengine::status::AppStatus;

#[test]
fn transition_only_raises_severity() {
    let mut s = AppStatus::Continue;
    s.transition(AppStatus::Continue);
    assert_eq!(s, AppStatus::Continue);
    s.transition(AppStatus::Exit);
    assert_eq!(s, AppStatus::Exit);
    s.transition(AppStatus::Continue);
    assert_eq!(s, AppStatus::Exit);
    s.transition(AppStatus::Error(2));
    assert_eq!(s, AppStatus::Error(2));
    s.transition(AppStatus::Error(1));
    assert_eq!(s, AppStatus::Error(2));
    s.transition(AppStatus::Exit);
    assert_eq!(s, AppStatus::Error(2));
    s.transition(AppStatus::Error(5));
    assert_eq!(s, AppStatus::Error(5));
}
