use kyoku::index::{event_action, not_a_folder_message, removed_message, WatchAction, WatchEventKind};

#[test]
fn only_creations_and_removals_are_acted_upon() {
    assert_eq!(event_action(WatchEventKind::Create), WatchAction::ScanFile);
    assert_eq!(event_action(WatchEventKind::Remove), WatchAction::ReportRemoved);
    for k in [WatchEventKind::Any, WatchEventKind::Access, WatchEventKind::Modify, WatchEventKind::Other] {
        assert_eq!(event_action(k), WatchAction::Ignore);
    }
}

#[test]
fn messages_name_the_path() {
    assert_eq!(removed_message("/m/a.flac"), "removed /m/a.flac");
    assert_eq!(not_a_folder_message("/m"), "critical error !!!!!\nthe path /m is not a folder.");
}
