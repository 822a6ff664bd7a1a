//! The application state record and its mathematical model.
//!
//! The state is a flat record of plain values: text fields, boolean toggles,
//! a closed three-way choice, two fixed-point numbers (tenths of a unit), an
//! RGBA color and an optional calendar date.  The host event loop owns one
//! instance for the whole process; every frame reads it and may mutate it
//! through the event functions of `crate::event`.
use vstd::prelude::*;
use vstd::string::StringExecFns;

verus! {

/// The closed three-way choice offered by the radio buttons, the selectable
/// labels and the combo box.  No other value is representable.
#[derive(Clone, Copy, PartialEq, Eq, Structural, Debug)]
pub enum Choice {
    First,
    Second,
    Third,
}

/// An RGBA color, premultiplied, one byte per channel.
#[derive(Clone, Copy, PartialEq, Eq, Structural, Debug)]
pub struct Color {
    pub r: u8,
    pub g: u8,
    pub b: u8,
    pub a: u8,
}

/// Fixed-point default of the bounded scalar: 42.0 units, held in tenths.
pub const DEFAULT_SCALAR_TENTHS: i64 = 420;

/// Fixed-point default of the transient counter: 2.7 units, held in tenths.
pub const DEFAULT_VALUE_TENTHS: i64 = 27;

/// The mathematical model of the application state: every text field is a
/// sequence of characters, everything else a plain value.
#[verifier::ext_equal]
pub ghost struct AppModel {
    pub label: Seq<char>,
    pub enabled: bool,
    pub visible: bool,
    pub boolean: bool,
    pub radio: Choice,
    pub scalar_tenths: i64,
    pub string: Seq<char>,
    pub color: Color,
    pub animate_progress_bar: bool,
    pub date: Option<crate::date::Date>,
    pub value_tenths: i64,
}

/// The default color: light blue at half strength, as premultiplied bytes.
pub open spec fn default_color() -> Color {
    Color { r: 126, g: 158, b: 169, a: 128 }
}

/// The documented default literal: the state used on first launch and after a
/// failed restore.
pub open spec fn default_model() -> AppModel {
    AppModel {
        label: "Hello World!"@,
        enabled: true,
        visible: true,
        boolean: false,
        radio: Choice::First,
        scalar_tenths: DEFAULT_SCALAR_TENTHS,
        string: Seq::empty(),
        color: default_color(),
        animate_progress_bar: false,
        date: None,
        value_tenths: DEFAULT_VALUE_TENTHS,
    }
}

/// The application state.  The two numeric fields hold tenths of a unit, so
/// the steppers' increments of one unit are exact.  `date` and `value_tenths`
/// are transient: they are never persisted and reset to their defaults on
/// every restart.
pub struct TemplateApp {
    pub label: String,
    pub enabled: bool,
    pub visible: bool,
    pub boolean: bool,
    pub radio: Choice,
    pub scalar_tenths: i64,
    pub string: String,
    pub color: Color,
    pub animate_progress_bar: bool,
    pub date: Option<crate::date::Date>,
    pub value_tenths: i64,
}

impl View for TemplateApp {
    type V = AppModel;

    open spec fn view(&self) -> AppModel {
        AppModel {
            label: self.label@,
            enabled: self.enabled,
            visible: self.visible,
            boolean: self.boolean,
            radio: self.radio,
            scalar_tenths: self.scalar_tenths,
            string: self.string@,
            color: self.color,
            animate_progress_bar: self.animate_progress_bar,
            date: self.date,
            value_tenths: self.value_tenths,
        }
    }
}

impl Default for TemplateApp {
    /// The default literal from the documentation: label "Hello World!",
    /// enabled and visible, boolean off, first choice, scalar 42.0, empty
    /// text, half-strength light blue, no animation, no date, counter 2.7.
    fn default() -> (s: Self)
        ensures
            s@ == default_model(),
    {
        let s = TemplateApp {
            label: String::from_str("Hello World!"),
            enabled: true,
            visible: true,
            boolean: false,
            radio: Choice::First,
            scalar_tenths: DEFAULT_SCALAR_TENTHS,
            string: String::new(),
            color: Color { r: 126, g: 158, b: 169, a: 128 },
            animate_progress_bar: false,
            date: None,
            value_tenths: DEFAULT_VALUE_TENTHS,
        };
        proof {
            assert(s@ =~= default_model());
        }
        s
    }
}

impl TemplateApp {
    /// True when the widget gallery is drawn at all: an invisible gallery is
    /// suppressed entirely, so none of its widgets can emit an event.
    pub fn gallery_shown(&self) -> (r: bool)
        ensures
            r == self@.visible,
    {
        self.visible
    }

    /// True when the widget gallery accepts interaction: it must be drawn and
    /// not disabled.  A drawn but disabled gallery emits no events either.
    pub fn gallery_interactive(&self) -> (r: bool)
        ensures
            r == (self@.visible && self@.enabled),
    {
        self.visible && self.enabled
    }

    /// The footer checkbox that disables the gallery is itself shown only
    /// while the gallery is visible.
    pub fn interactive_checkbox_shown(&self) -> (r: bool)
        ensures
            r == self@.visible,
    {
        self.visible
    }
}

/// The quit entry of the menu bar is offered everywhere but in a web context,
/// which has no window to close.
pub fn quit_menu_shown(is_web: bool) -> (r: bool)
    ensures
        r == !is_web,
{
    !is_web
}

} // verus!
