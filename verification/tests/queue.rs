use castoff::fcast::{PlayMessage, Real};
use castoff::queue::{
    default_state_dir, default_state_path, Queue, QueueEntry, QueueMove, Remembered, StateEnv,
};

fn item(url: &str) -> PlayMessage {
    PlayMessage {
        url: Some(url.to_string()),
        ..Default::default()
    }
}

fn environment(
    castoff: Option<&str>,
    systemd: Option<&str>,
    xdg: Option<&str>,
    home: Option<&str>,
) -> StateEnv {
    StateEnv {
        castoff_state_dir: castoff.map(str::to_string),
        state_directory: systemd.map(str::to_string),
        xdg_state_home: xdg.map(str::to_string),
        home: home.map(str::to_string),
    }
}

#[test]
fn jump_forward_and_backward_move_within_bounds_only() {
    let mut queue = Queue::default();
    queue.push(item("a"));
    queue.push(item("b"));
    queue.push(item("c"));
    queue.set_position(Some(0));

    assert_eq!(queue.jump_forward().and_then(|i| i.url.clone()), Some("b".to_string()));
    assert_eq!(queue.position(), Some(1));
    assert_eq!(queue.jump_forward().and_then(|i| i.url.clone()), Some("c".to_string()));
    assert_eq!(queue.position(), Some(2));
    assert!(queue.jump_forward().is_none(), "no item after the last one");
    assert_eq!(
        queue.position(),
        Some(2),
        "position must not move past the end"
    );

    assert_eq!(queue.jump_backward().and_then(|i| i.url.clone()), Some("b".to_string()));
    assert_eq!(queue.jump_backward().and_then(|i| i.url.clone()), Some("a".to_string()));
    assert!(queue.jump_backward().is_none(), "no item before the first one");
    assert_eq!(
        queue.position(),
        Some(0),
        "position must not move before the start"
    );
}

#[test]
fn jump_on_empty_or_unstarted_queue_is_a_no_op() {
    let mut queue = Queue::default();
    assert!(queue.jump_forward().is_none());
    assert!(queue.jump_backward().is_none());

    queue.push(item("a"));
    assert!(queue.jump_forward().is_none());
    assert!(queue.jump_backward().is_none());
}

#[test]
fn a_remembered_queue_comes_back() {
    let mut queue = Queue::default();
    queue.push(item("a"));
    queue.push(item("b"));
    queue.set_position(Some(1));

    let reloaded = Queue::load(Remembered::Found(queue));
    assert_eq!(reloaded.position(), Some(1));
    let state = reloaded.to_state_message(7);
    assert_eq!(state.items.len(), 2);
    assert_eq!(state.items[1].url, "b");
    assert_eq!(state.generation_time, 7);
}

#[test]
fn missing_state_file_loads_as_an_empty_queue() {
    let queue = Queue::load(Remembered::Missing);
    assert!(queue.to_state_message(0).items.is_empty());
    assert_eq!(queue.position(), None);
}

#[test]
fn only_a_lost_queue_is_worth_a_warning() {
    assert!(!Remembered::NoPlace.is_lost());
    assert!(!Remembered::Missing.is_lost());
    assert!(Remembered::Unreadable.is_lost());
    assert!(Remembered::Unparsable.is_lost());
    assert!(!Remembered::Found(Queue::default()).is_lost());
    assert!(Queue::load(Remembered::Unparsable).items.is_empty());
    assert!(Queue::load(Remembered::Unreadable).items.is_empty());
    assert!(Queue::load(Remembered::NoPlace).items.is_empty());
}

#[test]
fn an_index_out_of_range_is_a_no_op() {
    let mut queue = Queue::default();
    queue.push(item("a"));
    queue.push(item("b"));
    queue.set_position(Some(1));
    assert!(queue.jump_to_index(2).is_none());
    assert_eq!(queue.position(), Some(1));
    assert_eq!(queue.jump_to_index(0).and_then(|m| m.url), Some("a".to_string()));
    assert_eq!(queue.position(), Some(0));
    assert_eq!(queue.jump_to_index(0).and_then(|m| m.url), Some("a".to_string()));
    assert_eq!(queue.position(), Some(0));
}

#[test]
fn a_position_beyond_the_end_moves_nowhere() {
    let mut queue = Queue {
        items: vec![QueueEntry {
            message: item("a"),
            title: None,
            duration_secs: None,
        }],
        position: Some(5),
    };
    assert!(queue.jump_forward().is_none());
    assert!(queue.jump_backward().is_none());
    assert_eq!(queue.position(), Some(5));
    queue.set_position(Some(2));
    assert!(queue.jump_backward().is_none());
    assert_eq!(queue.position(), Some(2));

    queue.set_position(Some(1));
    assert_eq!(
        queue.jump_backward().and_then(|m| m.url),
        Some("a".to_string())
    );
    assert_eq!(queue.position(), Some(0));
}

#[test]
fn clearing_forgets_the_position() {
    let mut queue = Queue::default();
    queue.push(item("a"));
    queue.set_position(Some(0));
    queue.clear();
    assert!(queue.items.is_empty());
    assert_eq!(queue.position(), None);
}

#[test]
fn a_failed_item_is_no_longer_current() {
    let mut queue = Queue::default();
    queue.push(item("a"));
    queue.set_position(Some(0));
    let to = queue.push(item("b"));
    assert_eq!(to, 1);
    queue.set_position(Some(to));
    queue.revert(Some(QueueMove { from: Some(0), to }));
    assert_eq!(queue.position(), Some(0));
    assert_eq!(queue.items.len(), 2);

    queue.revert(Some(QueueMove { from: None, to }));
    assert_eq!(queue.position(), Some(0), "the queue has moved on");
    queue.revert(None);
    assert_eq!(queue.position(), Some(0));
}

#[test]
fn a_title_is_noted_at_every_item_of_its_url() {
    let mut queue = Queue::default();
    queue.push(item("https://youtu.be/x"));
    queue.push(item("https://example.invalid/y"));
    queue.push(item("https://youtu.be/x"));
    queue.push(PlayMessage::default());
    let length = Real {
        bits: 19.0f64.to_bits(),
    };
    let before = queue.to_state_message(1);
    assert_eq!(before.items[0].title, None);

    queue.describe("https://youtu.be/x", "Me at the zoo", length);
    let after = queue.to_state_message(2);
    assert_eq!(after.items[0].title, Some("Me at the zoo".to_string()));
    assert_eq!(after.items[0].duration_secs, Some(length));
    assert_eq!(after.items[1].title, None);
    assert_eq!(after.items[2].title, Some("Me at the zoo".to_string()));
    assert_eq!(after.items[3].title, None);
    assert_eq!(after.items[3].url, "");
    assert_eq!(after.current_index, None);
}

#[test]
fn the_first_setting_that_names_a_directory_wins() {
    let all = environment(Some("/a"), Some("/b:/c"), Some("/d"), Some("/e"));
    assert_eq!(default_state_dir(&all), Some("/a".to_string()));
    assert_eq!(default_state_path(&all), Some("/a/queue.json".to_string()));

    let systemd = environment(None, Some("::/b:/c"), Some("/d"), Some("/e"));
    assert_eq!(default_state_path(&systemd), Some("/b/queue.json".to_string()));

    let colons = environment(None, Some("::"), Some("/d"), Some("/e"));
    assert_eq!(
        default_state_path(&colons),
        Some("/d/castoff/queue.json".to_string())
    );

    let home = environment(None, None, None, Some("/home/kiosk"));
    assert_eq!(
        default_state_path(&home),
        Some("/home/kiosk/.local/state/castoff/queue.json".to_string())
    );

    let nothing = environment(None, None, None, None);
    assert_eq!(default_state_dir(&nothing), None);
    assert_eq!(default_state_path(&nothing), None);
}

#[test]
fn a_directory_may_end_in_a_slash_or_be_empty() {
    let slash = environment(Some("/a/"), None, None, None);
    assert_eq!(default_state_path(&slash), Some("/a/queue.json".to_string()));
    let empty = environment(Some(""), None, None, None);
    assert_eq!(default_state_path(&empty), Some("queue.json".to_string()));
}

#[test]
fn a_move_is_undone_to_nothing_where_its_start_is_gone() {
    let mut queue = Queue::default();
    queue.push(item("a"));
    queue.set_position(Some(0));
    queue.revert(Some(QueueMove {
        from: Some(7),
        to: 0,
    }));
    assert_eq!(queue.position(), None);
    assert_eq!(queue.items.len(), 1);
}

#[test]
fn every_change_of_the_queue_shows() {
    let mut queue = Queue::default();
    let empty = queue.to_state_message(1);
    assert!(queue.is_shown_by(&empty));

    queue.push(item("https://youtu.be/x"));
    assert!(!queue.is_shown_by(&empty));
    let one = queue.to_state_message(2);
    assert!(queue.is_shown_by(&one));

    queue.set_position(Some(0));
    assert!(!queue.is_shown_by(&one));
    let current = queue.to_state_message(3);

    let length = Real {
        bits: 19.0f64.to_bits(),
    };
    queue.describe("https://youtu.be/y", "Other", length);
    assert!(queue.is_shown_by(&current), "nothing has that URL");
    queue.describe("https://youtu.be/x", "Me at the zoo", length);
    assert!(!queue.is_shown_by(&current));
    let titled = queue.to_state_message(4);
    assert!(queue.is_shown_by(&titled));

    queue.clear();
    assert!(!queue.is_shown_by(&titled));
    assert!(queue.is_shown_by(&empty));
}
