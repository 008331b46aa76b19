//! Tests for the individual components: highlight table, message queue,
//! event bus, title normalization, and command construction.

use vimgrid::bus::{BusMessage, EventAggregator, VimMessager, COMMAND_CHANNEL, REDRAW_CHANNEL};
use vimgrid::command::{choose_nvim_binary, embed_args, nvim_version_supported};
use vimgrid::events::{ParallelCommand, RedrawEvent, UiCommand};
use vimgrid::highlights::{Color, Colors, HighlightDefinitions, HighlightGroups, HighlightStyle};
use vimgrid::messages::{MessageKind, MessageQueue};
use vimgrid::title::normalize_title;

fn style_with_blend(blend: u64) -> HighlightStyle {
    HighlightStyle {
        italic: false,
        bold: false,
        underline: false,
        undercurl: false,
        strikethrough: false,
        colors: Colors { foreground: None, background: None, special: None },
        blend,
    }
}

#[test]
fn highlight_table_defines_and_resolves() {
    let mut table = HighlightDefinitions::new();
    assert!(table.get(0).is_none());
    assert!(table.defaults().is_none());

    table.set(0, style_with_blend(1));
    table.set(2, style_with_blend(2));
    // Overwriting replaces the entry in place.
    table.set(2, style_with_blend(22));
    assert_eq!(table.get(2).unwrap().blend, 22);

    // Unknown ids resolve to the default style.
    assert_eq!(table.resolve(99).blend, 1);
    assert_eq!(table.resolve(2).blend, 22);

    table.set_defaults(Colors {
        foreground: None,
        background: Some(Color { red: 5, green: 6, blue: 7 }),
        special: None,
    });
    assert_eq!(table.defaults().unwrap().background.unwrap().blue, 7);
}

#[test]
fn highlight_groups_alias_names() {
    let mut groups = HighlightGroups::new();
    assert_eq!(groups.get(&"Normal".to_string()), None);
    groups.set("Normal".to_string(), 1);
    groups.set("Comment".to_string(), 7);
    groups.set("Normal".to_string(), 3);
    assert_eq!(groups.get(&"Normal".to_string()), Some(3));
    assert_eq!(groups.get(&"Comment".to_string()), Some(7));
}

#[test]
fn message_queue_replace_and_clear() {
    let mut q = MessageQueue::new();
    // Replace-last on the empty queue equals a plain push.
    q.push(MessageKind::Echo, vec![(0, "a".to_string())], true);
    assert_eq!(q.len(), 1);
    q.push(MessageKind::Echo, vec![(0, "b".to_string())], false);
    q.push(MessageKind::Echo, vec![(0, "c".to_string())], true);
    assert_eq!(q.len(), 2);
    assert_eq!(q.get(0).unwrap().content[0].1, "a");
    assert_eq!(q.get(1).unwrap().content[0].1, "c");
    assert!(q.get(2).is_none());
    q.clear();
    assert_eq!(q.len(), 0);
}

#[test]
fn bus_delivers_in_order_and_keeps_early_messages() {
    let mut bus = EventAggregator::new();
    // Traffic before a subscriber registers is kept for it.
    bus.send(BusMessage::Redraw(RedrawEvent::Flush));
    bus.send(BusMessage::Redraw(RedrawEvent::BusyStart));
    let rx = bus.register_event(REDRAW_CHANNEL);
    assert!(matches!(
        bus.recv(&rx),
        Some(BusMessage::Redraw(RedrawEvent::Flush))
    ));
    assert!(matches!(
        bus.recv(&rx),
        Some(BusMessage::Redraw(RedrawEvent::BusyStart))
    ));
    assert!(bus.recv(&rx).is_none());
}

#[test]
fn bus_channels_are_independent() {
    let mut bus = EventAggregator::new();
    let rx_redraw = bus.register_event(REDRAW_CHANNEL);
    let rx_cmd = bus.register_event(COMMAND_CHANNEL);
    bus.send(BusMessage::Command(UiCommand::Parallel(ParallelCommand::Quit)));
    bus.send(BusMessage::Redraw(RedrawEvent::Flush));
    // Each subscriber sees only its own payload type.
    assert!(matches!(
        bus.recv(&rx_redraw),
        Some(BusMessage::Redraw(RedrawEvent::Flush))
    ));
    assert!(bus.recv(&rx_redraw).is_none());
    assert!(matches!(
        bus.recv(&rx_cmd),
        Some(BusMessage::Command(UiCommand::Parallel(ParallelCommand::Quit)))
    ));
    assert!(bus.recv(&rx_cmd).is_none());
}

#[test]
fn messager_publishes_redraw_events() {
    let mut bus = EventAggregator::new();
    let messager = VimMessager::new();
    messager.send(&mut bus, RedrawEvent::MouseOn);
    let rx = bus.register_event(REDRAW_CHANNEL);
    assert!(matches!(
        bus.recv(&rx),
        Some(BusMessage::Redraw(RedrawEvent::MouseOn))
    ));
}

#[test]
fn title_normalization_splits_trims_and_joins() {
    let t = normalize_title(&"a.rs     src     ".to_string());
    assert_eq!(t, "a.rs  src");
    // Empty segments are dropped before trimming.
    let t = normalize_title(&"     x".to_string());
    assert_eq!(t, "x");
    // Pieces are trimmed of surrounding whitespace.
    let t = normalize_title(&" left \t     right\n".to_string());
    assert_eq!(t, "left  right");
    // No separator: the whole title is one piece.
    let t = normalize_title(&"  solo  ".to_string());
    assert_eq!(t, "solo");
    let t = normalize_title(&"".to_string());
    assert_eq!(t, "");
    // Six spaces: a separator plus one space belonging to the next segment.
    let t = normalize_title(&"a      b".to_string());
    assert_eq!(t, "a  b");
}

#[test]
fn embed_args_prepends_embed_flag() {
    let args = embed_args(
        &vec!["--clean".to_string()],
        &vec!["a.txt".to_string(), "b.txt".to_string()],
    );
    assert_eq!(args, vec!["--embed", "--clean", "a.txt", "b.txt"]);
    let args = embed_args(&vec![], &vec![]);
    assert_eq!(args, vec!["--embed"]);
}

#[test]
fn binary_choice_prefers_existing_configured_path() {
    assert_eq!(
        choose_nvim_binary(Some("/opt/nvim".to_string()), true, Some("/usr/bin/nvim".to_string())),
        Some("/opt/nvim".to_string())
    );
    // A configured path that does not exist falls back to the search result.
    assert_eq!(
        choose_nvim_binary(Some("/bad".to_string()), false, Some("/usr/bin/nvim".to_string())),
        Some("/usr/bin/nvim".to_string())
    );
    assert_eq!(choose_nvim_binary(None, false, None), None);
}

#[test]
fn version_probe_must_answer_one() {
    assert!(nvim_version_supported(&Some("1".to_string())));
    assert!(!nvim_version_supported(&Some("0".to_string())));
    assert!(!nvim_version_supported(&None));
}

#[test]
fn title_normalization_handles_multibyte_text() {
    let t = normalize_title(&"caf\u{e9}     men\u{fc}".to_string());
    assert_eq!(t, "caf\u{e9}  men\u{fc}");
}
