//! The frame update semantics: equivalent controls, the counter, and the
//! visibility and enablement guards in front of the gallery.
use egui_web_template::BooleanControl;
use egui_web_template::Choice;
use egui_web_template::ChoiceControl;
use egui_web_template::Color;
use egui_web_template::GalleryEvent;
use egui_web_template::TemplateApp;
use egui_web_template::UiEvent;

#[test]
fn toggle_controls_are_equivalent() {
    let controls = [
        BooleanControl::Checkbox,
        BooleanControl::Button,
        BooleanControl::Link,
        BooleanControl::ImageButton,
        BooleanControl::ToggleSwitch,
    ];
    for c in controls {
        let mut s = TemplateApp::new(None);
        s.apply_event(&UiEvent::Gallery(GalleryEvent::ToggleBoolean(c)));
        assert!(s.boolean);
        s.apply_event(&UiEvent::Gallery(GalleryEvent::ToggleBoolean(c)));
        assert!(!s.boolean);
    }
}

#[test]
fn choice_controls_are_equivalent() {
    let controls =
        [ChoiceControl::RadioButton, ChoiceControl::SelectableLabel, ChoiceControl::ComboBox];
    for c in controls {
        let mut s = TemplateApp::new(None);
        s.apply_event(&UiEvent::Gallery(GalleryEvent::SelectChoice(c, Choice::Second)));
        assert_eq!(s.radio, Choice::Second);
        s.apply_event(&UiEvent::Gallery(GalleryEvent::SelectChoice(c, Choice::Second)));
        assert_eq!(s.radio, Choice::Second);
    }
}

#[test]
fn counter_accumulates_exactly() {
    let mut s = TemplateApp::new(None);
    let start = s.value_tenths;
    let mut events: Vec<UiEvent> = Vec::new();
    for _ in 0..7 {
        events.push(UiEvent::Increase);
    }
    for _ in 0..3 {
        events.push(UiEvent::Decrease);
    }
    s.update(&events);
    // Seven units up, three units down: four units of ten tenths each.
    assert_eq!(s.value_tenths, start + 40);
}

#[test]
fn counter_can_go_negative() {
    let mut s = TemplateApp::new(None);
    let events: Vec<UiEvent> = (0..20).map(|_| UiEvent::Decrease).collect();
    s.update(&events);
    assert_eq!(s.value_tenths, 27 - 200);
}

fn all_gallery_events() -> Vec<UiEvent> {
    vec![
        UiEvent::Gallery(GalleryEvent::EditString(String::from("changed"))),
        UiEvent::Gallery(GalleryEvent::ToggleBoolean(BooleanControl::Checkbox)),
        UiEvent::Gallery(GalleryEvent::SelectChoice(ChoiceControl::RadioButton, Choice::Third)),
        UiEvent::Gallery(GalleryEvent::SetScalarTenths(900)),
        UiEvent::Gallery(GalleryEvent::HoverProgressBar(true)),
        UiEvent::Gallery(GalleryEvent::SetColor(Color { r: 9, g: 8, b: 7, a: 6 })),
    ]
}

#[test]
fn hidden_gallery_takes_no_mutation() {
    let mut s = TemplateApp::new(None);
    s.apply_event(&UiEvent::SetVisible(false));
    assert!(!s.gallery_shown());
    let before_string = s.string.clone();
    s.update(&all_gallery_events());
    assert_eq!(s.string, before_string);
    assert!(!s.boolean);
    assert_eq!(s.radio, Choice::First);
    assert_eq!(s.scalar_tenths, 420);
    assert!(!s.animate_progress_bar);
    assert_eq!(s.color, Color { r: 126, g: 158, b: 169, a: 128 });
}

#[test]
fn disabled_gallery_takes_no_mutation() {
    let mut s = TemplateApp::new(None);
    s.apply_event(&UiEvent::SetEnabled(false));
    assert!(s.gallery_shown());
    assert!(!s.gallery_interactive());
    s.update(&all_gallery_events());
    assert!(!s.boolean);
    assert_eq!(s.radio, Choice::First);
    assert_eq!(s.scalar_tenths, 420);
    assert_eq!(s.string, "");
}

#[test]
fn open_gallery_takes_mutations() {
    let mut s = TemplateApp::new(None);
    assert!(s.gallery_interactive());
    s.update(&all_gallery_events());
    assert_eq!(s.string, "changed");
    assert!(s.boolean);
    assert_eq!(s.radio, Choice::Third);
    assert_eq!(s.scalar_tenths, 900);
    assert!(s.animate_progress_bar);
    assert_eq!(s.color, Color { r: 9, g: 8, b: 7, a: 6 });
}

#[test]
fn label_and_value_ignore_the_guards() {
    let mut s = TemplateApp::new(None);
    s.apply_event(&UiEvent::SetVisible(false));
    s.apply_event(&UiEvent::SetEnabled(false));
    s.apply_event(&UiEvent::EditLabel(String::from("still editable")));
    s.apply_event(&UiEvent::SetValueTenths(55));
    assert_eq!(s.label, "still editable");
    assert_eq!(s.value_tenths, 55);
}

#[test]
fn ensure_date_fills_only_an_empty_date() {
    let mut s = TemplateApp::new(None);
    let first = egui_web_template::Date::from_ymd(2024, 2, 29).unwrap();
    let second = egui_web_template::Date::from_ymd(2025, 1, 1).unwrap();
    s.apply_event(&UiEvent::Gallery(GalleryEvent::EnsureDate(first)));
    assert_eq!(s.date, Some(first));
    s.apply_event(&UiEvent::Gallery(GalleryEvent::EnsureDate(second)));
    assert_eq!(s.date, Some(first));
    s.apply_event(&UiEvent::Gallery(GalleryEvent::PickDate(second)));
    assert_eq!(s.date, Some(second));
}

#[test]
fn interactive_checkbox_follows_visibility() {
    let mut s = TemplateApp::new(None);
    assert!(s.interactive_checkbox_shown());
    s.apply_event(&UiEvent::SetVisible(false));
    assert!(!s.interactive_checkbox_shown());
}

#[test]
fn quit_menu_hidden_on_web() {
    assert!(egui_web_template::quit_menu_shown(false));
    assert!(!egui_web_template::quit_menu_shown(true));
}
