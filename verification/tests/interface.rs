use apocalyptosis::dialog::{dialog_key_action, DialogKeyAction, new_dialog_z_index, raise_dialog, top_dialog, Dialog, DialogBackground};
use apocalyptosis::meter::{meter_level, MeterLevel};
use apocalyptosis::text::{line_column, load_fluent_resource, split_message_key, FluentResourceLoadError};

#[test]
fn raising_a_dialog() {
    let mut z = vec![0, 1, 2, 3];
    raise_dialog(&mut z, 1);
    assert_eq!(z, vec![0, 3, 1, 2]);
    raise_dialog(&mut z, 1);
    assert_eq!(z, vec![0, 3, 1, 2]);
    raise_dialog(&mut z, 0);
    assert_eq!(z, vec![3, 2, 0, 1]);
    assert_eq!(top_dialog(&z), 0);
}

#[test]
fn new_dialogs_go_on_top() {
    assert_eq!(new_dialog_z_index(0), 0);
    assert_eq!(new_dialog_z_index(3), 3);
}

#[test]
fn dialog_background() {
    let mut b = DialogBackground::new();
    assert!(!b.visible);
    b.on_dialog_root_add();
    b.on_dialog_root_add();
    assert!(b.visible);
    b.on_dialog_root_remove();
    assert!(b.visible);
    b.on_dialog_root_remove();
    assert!(!b.visible);
    assert_eq!(b.open_dialogs, 0);
}

#[test]
fn meter_levels() {
    assert_eq!(meter_level(0, 334, 667), MeterLevel::Positive);
    assert_eq!(meter_level(334, 334, 667), MeterLevel::Mixed);
    assert_eq!(meter_level(666, 334, 667), MeterLevel::Mixed);
    assert_eq!(meter_level(667, 334, 667), MeterLevel::Negative);
    // Reversed scale: high values are good.
    assert_eq!(meter_level(10, 667, 334), MeterLevel::Negative);
    assert_eq!(meter_level(334, 667, 334), MeterLevel::Mixed);
    assert_eq!(meter_level(400, 667, 334), MeterLevel::Mixed);
    assert_eq!(meter_level(667, 667, 334), MeterLevel::Positive);
    assert_eq!(meter_level(700, 667, 334), MeterLevel::Positive);
}

#[test]
fn message_keys() {
    assert_eq!(split_message_key("achievement-first.title"), ("achievement-first", Some("title")));
    assert_eq!(split_message_key("a.b.c"), ("a", Some("b.c")));
    assert_eq!(split_message_key("funds-display"), ("funds-display", None));
    assert_eq!(split_message_key("trailing."), ("trailing", Some("")));
}

#[test]
fn dialog_button_labels() {
    let plain = Dialog::new();
    assert!(!plain.pause);
    assert_eq!(plain.confirm_button_label(), "dialog-confirm");
    assert_eq!(plain.cancel_button_label(), None);

    let d = Dialog::new()
        .with_pause()
        .with_title("transfer-title".to_string())
        .with_text_body("transfer-body".to_string())
        .with_cancel();
    assert!(d.pause);
    assert_eq!(d.title, Some("transfer-title".to_string()));
    assert_eq!(d.text_body, Some("transfer-body".to_string()));
    assert_eq!(d.confirm_button_label(), "dialog-confirm");
    assert_eq!(d.cancel_button_label(), Some("dialog-cancel".to_string()));

    let d = Dialog::new()
        .with_confirm_label("transfer".to_string())
        .with_cancel_label("back".to_string())
        .with_confirm_disabled("too-poor".to_string());
    assert_eq!(d.confirm_button_label(), "transfer");
    assert_eq!(d.cancel_button_label(), Some("back".to_string()));
    assert_eq!(d.confirm_disabled, Some("too-poor".to_string()));
}

#[test]
fn line_and_column_of_offsets() {
    let text = b"ab\ncd\n\nef";
    assert_eq!(line_column(text, 0), (0, 0));
    assert_eq!(line_column(text, 2), (0, 2));
    assert_eq!(line_column(text, 3), (1, 0));
    assert_eq!(line_column(text, 4), (1, 1));
    assert_eq!(line_column(text, 7), (3, 0));
    assert_eq!(line_column(text, 9), (3, 2));
}

#[test]
fn message_file_syntax_errors() {
    let source = "\nkey1 = Value 1\n\ng@Rb@ge = #2y ds\n\nkey2 = Value 2\n\n";
    let loaded = match load_fluent_resource(source.as_bytes().to_vec()) {
        Ok(l) => l,
        Err(_) => panic!("valid UTF-8 was refused"),
    };
    assert_eq!(loaded.errors.len(), 1);
    assert_eq!(loaded.errors[0].offset, 18);
    assert_eq!(loaded.errors[0].position, Some((3, 1)));
    assert_eq!(loaded.errors[0].message, "Expected a token starting with \"=\"");
    assert_eq!(loaded.resource.source(), source);

    let clean = load_fluent_resource(b"hello = Hello\n".to_vec());
    assert!(matches!(clean, Ok(ref l) if l.errors.is_empty()));

    let bad = load_fluent_resource(vec![0x66, 0xff, 0x66]);
    assert!(matches!(bad, Err(FluentResourceLoadError::InvalidUtf8(_))));
}

#[test]
fn dialog_keys() {
    assert_eq!(dialog_key_action(true, false, true, false, false), DialogKeyAction::Confirm);
    assert_eq!(dialog_key_action(true, false, true, false, true), DialogKeyAction::Ignore);
    assert_eq!(dialog_key_action(false, true, true, false, true), DialogKeyAction::Close);
    assert_eq!(dialog_key_action(true, true, true, false, false), DialogKeyAction::Confirm);
    assert_eq!(dialog_key_action(true, false, true, true, false), DialogKeyAction::Ignore);
    assert_eq!(dialog_key_action(true, false, false, false, false), DialogKeyAction::Ignore);
    assert_eq!(dialog_key_action(false, false, true, false, false), DialogKeyAction::Ignore);
}
