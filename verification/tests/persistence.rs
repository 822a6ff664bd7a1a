//! The state lifecycle: defaults on first launch, round trips through the
//! persisted blob, and silent fallback on corrupt blobs.
use egui_web_template::BooleanControl;
use egui_web_template::Choice;
use egui_web_template::Color;
use egui_web_template::GalleryEvent;
use egui_web_template::TemplateApp;
use egui_web_template::UiEvent;

fn assert_is_default(s: &TemplateApp) {
    assert_eq!(s.label, "Hello World!");
    assert!(s.enabled);
    assert!(s.visible);
    assert!(!s.boolean);
    assert_eq!(s.radio, Choice::First);
    assert_eq!(s.scalar_tenths, 420);
    assert_eq!(s.string, "");
    assert_eq!(s.color, Color { r: 126, g: 158, b: 169, a: 128 });
    assert!(!s.animate_progress_bar);
    assert_eq!(s.date, None);
    assert_eq!(s.value_tenths, 27);
}

#[test]
fn missing_blob_yields_default() {
    let s = TemplateApp::new(None);
    assert_is_default(&s);
}

fn well_used_state() -> TemplateApp {
    let mut s = TemplateApp::new(None);
    s.apply_event(&UiEvent::EditLabel(String::from("héllo → wörld")));
    s.apply_event(&UiEvent::SetEnabled(true));
    s.apply_event(&UiEvent::Gallery(GalleryEvent::EditString(String::from("noted"))));
    s.apply_event(&UiEvent::Gallery(GalleryEvent::ToggleBoolean(BooleanControl::Button)));
    s.apply_event(&UiEvent::Gallery(GalleryEvent::SelectChoice(
        egui_web_template::ChoiceControl::ComboBox,
        Choice::Third,
    )));
    s.apply_event(&UiEvent::Gallery(GalleryEvent::SetScalarTenths(-1234)));
    s.apply_event(&UiEvent::Gallery(GalleryEvent::SetColor(Color { r: 1, g: 2, b: 3, a: 4 })));
    s.apply_event(&UiEvent::Gallery(GalleryEvent::HoverProgressBar(true)));
    s.apply_event(&UiEvent::Increase);
    s.apply_event(&UiEvent::Increase);
    if let Some(d) = egui_web_template::current_date() {
        s.apply_event(&UiEvent::Gallery(GalleryEvent::PickDate(d)));
    }
    s
}

#[test]
fn round_trip_keeps_persisted_fields() {
    let s = well_used_state();
    let blob = s.save();
    let r = TemplateApp::new(Some(blob));
    assert_eq!(r.label, "héllo → wörld");
    assert!(r.enabled);
    assert!(r.visible);
    assert!(r.boolean);
    assert_eq!(r.radio, Choice::Third);
    assert_eq!(r.scalar_tenths, -1234);
    assert_eq!(r.string, "noted");
    assert_eq!(r.color, Color { r: 1, g: 2, b: 3, a: 4 });
    assert!(r.animate_progress_bar);
    // Transient fields always start over.
    assert_eq!(r.date, None);
    assert_eq!(r.value_tenths, 27);
}

#[test]
fn round_trip_of_default_state() {
    let s = TemplateApp::new(None);
    let blob = s.save();
    let r = TemplateApp::new(Some(blob));
    assert_is_default(&r);
}

#[test]
fn empty_blob_yields_default() {
    let r = TemplateApp::new(Some(Vec::new()));
    assert_is_default(&r);
}

#[test]
fn wrong_version_yields_default() {
    let mut blob = well_used_state().save();
    blob[0] = 2;
    let r = TemplateApp::new(Some(blob));
    assert_is_default(&r);
}

#[test]
fn truncated_blob_yields_default() {
    let mut blob = well_used_state().save();
    blob.pop();
    let r = TemplateApp::new(Some(blob));
    assert_is_default(&r);
}

#[test]
fn trailing_garbage_yields_default() {
    let mut blob = well_used_state().save();
    blob.push(0);
    let r = TemplateApp::new(Some(blob));
    assert_is_default(&r);
}

#[test]
fn corrupt_flag_byte_yields_default() {
    // The default label is twelve bytes, so the first flag sits at 1 + 8 + 12.
    let mut blob = TemplateApp::new(None).save();
    blob[21] = 7;
    let r = TemplateApp::new(Some(blob));
    assert_is_default(&r);
}

#[test]
fn corrupt_choice_byte_yields_default() {
    let mut blob = TemplateApp::new(None).save();
    blob[24] = 9;
    let r = TemplateApp::new(Some(blob));
    assert_is_default(&r);
}

#[test]
fn corrupt_text_bytes_yield_default() {
    let mut blob = TemplateApp::new(None).save();
    // First byte of the label text: 0xff never occurs in UTF-8.
    blob[9] = 0xff;
    let r = TemplateApp::new(Some(blob));
    assert_is_default(&r);
}

#[test]
fn random_bytes_yield_default() {
    let blob: Vec<u8> = (0u16..200u16).map(|i| (i * 37 % 251) as u8).collect();
    let r = TemplateApp::new(Some(blob));
    assert_is_default(&r);
}
