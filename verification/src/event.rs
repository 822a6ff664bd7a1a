//! The per-frame update logic: which user events exist and what each one does
//! to the state.
//!
//! The host's immediate-mode loop draws the widgets and reports what the user
//! did as a sequence of events; `TemplateApp::update` applies them in order.
//! The whole frame semantics is the spec function `step`, so every law about
//! the update loop is stated and proved over it.
use vstd::prelude::*;

use crate::date::Date;
use crate::state::AppModel;
use crate::state::Choice;
use crate::state::Color;
use crate::state::TemplateApp;

verus! {

/// The equivalent controls of the gallery that flip the boolean flag.
#[derive(Clone, Copy, PartialEq, Eq, Structural, Debug)]
pub enum BooleanControl {
    Checkbox,
    Button,
    Link,
    ImageButton,
    ToggleSwitch,
}

/// The equivalent controls of the gallery that pick the enumerated choice.
#[derive(Clone, Copy, PartialEq, Eq, Structural, Debug)]
pub enum ChoiceControl {
    RadioButton,
    SelectableLabel,
    ComboBox,
}

/// An interaction with a widget of the gallery grid.  Each one reads and
/// mutates exactly one field of the state.
pub enum GalleryEvent {
    /// The single-line text editor replaced the free-text string.
    EditString(String),
    /// One of the equivalent boolean controls was clicked.
    ToggleBoolean(BooleanControl),
    /// One of the equivalent choice controls picked a value.
    SelectChoice(ChoiceControl, Choice),
    /// The slider or the drag-value set the bounded scalar, in tenths.
    SetScalarTenths(i64),
    /// Whether the pointer hovers the progress bar, which animates it.
    HoverProgressBar(bool),
    /// The color picker set the color.
    SetColor(Color),
    /// The gallery was drawn with no date yet: the current day fills in.
    EnsureDate(Date),
    /// The date picker chose a day.
    PickDate(Date),
}

/// An interaction with the widgets outside the gallery, or with the gallery
/// itself.
pub enum UiEvent {
    /// The label editor of the central panel replaced the label.
    EditLabel(String),
    /// The value slider set the transient counter, in tenths.
    SetValueTenths(i64),
    /// The increase button: one unit up.
    Increase,
    /// The decrease button: one unit down.
    Decrease,
    /// The footer checkbox that shows or hides the gallery.
    SetVisible(bool),
    /// The footer checkbox that enables or disables the gallery.
    SetEnabled(bool),
    /// An interaction inside the gallery grid.
    Gallery(GalleryEvent),
}

/// The model of a gallery event: text carried as a character sequence.
pub ghost enum GalleryEventModel {
    EditString(Seq<char>),
    ToggleBoolean(BooleanControl),
    SelectChoice(ChoiceControl, Choice),
    SetScalarTenths(i64),
    HoverProgressBar(bool),
    SetColor(Color),
    EnsureDate(Date),
    PickDate(Date),
}

/// The model of a frame event.
pub ghost enum EventModel {
    EditLabel(Seq<char>),
    SetValueTenths(i64),
    Increase,
    Decrease,
    SetVisible(bool),
    SetEnabled(bool),
    Gallery(GalleryEventModel),
}

impl View for GalleryEvent {
    type V = GalleryEventModel;

    open spec fn view(&self) -> GalleryEventModel {
        match self {
            GalleryEvent::EditString(s) => GalleryEventModel::EditString(s@),
            GalleryEvent::ToggleBoolean(c) => GalleryEventModel::ToggleBoolean(*c),
            GalleryEvent::SelectChoice(c, v) => GalleryEventModel::SelectChoice(*c, *v),
            GalleryEvent::SetScalarTenths(v) => GalleryEventModel::SetScalarTenths(*v),
            GalleryEvent::HoverProgressBar(h) => GalleryEventModel::HoverProgressBar(*h),
            GalleryEvent::SetColor(c) => GalleryEventModel::SetColor(*c),
            GalleryEvent::EnsureDate(d) => GalleryEventModel::EnsureDate(*d),
            GalleryEvent::PickDate(d) => GalleryEventModel::PickDate(*d),
        }
    }
}

impl View for UiEvent {
    type V = EventModel;

    open spec fn view(&self) -> EventModel {
        match self {
            UiEvent::EditLabel(s) => EventModel::EditLabel(s@),
            UiEvent::SetValueTenths(v) => EventModel::SetValueTenths(*v),
            UiEvent::Increase => EventModel::Increase,
            UiEvent::Decrease => EventModel::Decrease,
            UiEvent::SetVisible(b) => EventModel::SetVisible(*b),
            UiEvent::SetEnabled(b) => EventModel::SetEnabled(*b),
            UiEvent::Gallery(g) => EventModel::Gallery(g@),
        }
    }
}

impl DeepView for UiEvent {
    type V = EventModel;

    open spec fn deep_view(&self) -> EventModel {
        self@
    }
}

/// What a gallery event does to the state, once it has passed the guard: it
/// rewrites exactly the one field its widget edits.
pub open spec fn gallery_step(m: AppModel, g: GalleryEventModel) -> AppModel {
    match g {
        GalleryEventModel::EditString(s) => AppModel { string: s, ..m },
        GalleryEventModel::ToggleBoolean(_) => AppModel { boolean: !m.boolean, ..m },
        GalleryEventModel::SelectChoice(_, v) => AppModel { radio: v, ..m },
        GalleryEventModel::SetScalarTenths(v) => AppModel { scalar_tenths: v, ..m },
        GalleryEventModel::HoverProgressBar(h) => AppModel { animate_progress_bar: h, ..m },
        GalleryEventModel::SetColor(c) => AppModel { color: c, ..m },
        GalleryEventModel::EnsureDate(d) => if m.date is Some {
            m
        } else {
            AppModel { date: Some(d), ..m }
        },
        GalleryEventModel::PickDate(d) => AppModel { date: Some(d), ..m },
    }
}

/// What one frame event does to the state.  Gallery events reach the state
/// only while the gallery is both visible and enabled; the counter steps
/// saturate at the machine limits and are exact everywhere else.
pub open spec fn step(m: AppModel, e: EventModel) -> AppModel {
    match e {
        EventModel::EditLabel(s) => AppModel { label: s, ..m },
        EventModel::SetValueTenths(v) => AppModel { value_tenths: v, ..m },
        EventModel::Increase => if m.value_tenths <= i64::MAX - 10 {
            AppModel { value_tenths: (m.value_tenths + 10) as i64, ..m }
        } else {
            m
        },
        EventModel::Decrease => if m.value_tenths >= i64::MIN + 10 {
            AppModel { value_tenths: (m.value_tenths - 10) as i64, ..m }
        } else {
            m
        },
        EventModel::SetVisible(b) => AppModel { visible: b, ..m },
        EventModel::SetEnabled(b) => AppModel { enabled: b, ..m },
        EventModel::Gallery(g) => if m.visible && m.enabled {
            gallery_step(m, g)
        } else {
            m
        },
    }
}

/// What a whole frame of events does: `step`, folded over the sequence.
pub open spec fn steps(m: AppModel, es: Seq<EventModel>) -> AppModel
    decreases es.len(),
{
    if es.len() == 0 {
        m
    } else {
        step(steps(m, es.drop_last()), es.last())
    }
}

impl TemplateApp {
    /// Applies one event to the state, exactly as `step` says.
    pub fn apply_event(&mut self, e: &UiEvent)
        ensures
            final(self)@ == step(old(self)@, e@),
    {
        match e {
            UiEvent::EditLabel(s) => {
                self.label = s.clone();
            },
            UiEvent::SetValueTenths(v) => {
                self.value_tenths = *v;
            },
            UiEvent::Increase => {
                if self.value_tenths <= i64::MAX - 10 {
                    self.value_tenths = self.value_tenths + 10;
                }
            },
            UiEvent::Decrease => {
                if self.value_tenths >= i64::MIN + 10 {
                    self.value_tenths = self.value_tenths - 10;
                }
            },
            UiEvent::SetVisible(b) => {
                self.visible = *b;
            },
            UiEvent::SetEnabled(b) => {
                self.enabled = *b;
            },
            UiEvent::Gallery(g) => {
                if self.visible && self.enabled {
                    self.apply_gallery_event(g);
                }
            },
        }
        proof {
            assert(self@ =~= step(old(self)@, e@));
        }
    }

    /// Applies one gallery event without the visibility guard; `apply_event`
    /// holds the guard.
    fn apply_gallery_event(&mut self, g: &GalleryEvent)
        ensures
            final(self)@ == gallery_step(old(self)@, g@),
    {
        match g {
            GalleryEvent::EditString(s) => {
                self.string = s.clone();
            },
            GalleryEvent::ToggleBoolean(_) => {
                self.boolean = !self.boolean;
            },
            GalleryEvent::SelectChoice(_, v) => {
                self.radio = *v;
            },
            GalleryEvent::SetScalarTenths(v) => {
                self.scalar_tenths = *v;
            },
            GalleryEvent::HoverProgressBar(h) => {
                self.animate_progress_bar = *h;
            },
            GalleryEvent::SetColor(c) => {
                self.color = *c;
            },
            GalleryEvent::EnsureDate(d) => {
                if self.date.is_none() {
                    self.date = Some(*d);
                }
            },
            GalleryEvent::PickDate(d) => {
                self.date = Some(*d);
            },
        }
        proof {
            assert(self@ =~= gallery_step(old(self)@, g@));
        }
    }

    /// One repaint tick: applies the frame's events in order.  The result is
    /// `steps` of the old state, so the state after a tick is a function of
    /// the state before it and of what the user did, and of nothing else.
    pub fn update(&mut self, events: &Vec<UiEvent>)
        ensures
            final(self)@ == steps(old(self)@, events.deep_view()),
    {
        let ghost es = events.deep_view();
        let n = events.len();
        let mut i: usize = 0;
        proof {
            assert(es.take(0) =~= Seq::<EventModel>::empty());
        }
        while i < n
            invariant
                i <= n,
                n == events@.len(),
                es == events.deep_view(),
                self@ == steps(old(self)@, es.take(i as int)),
            decreases n - i,
        {
            self.apply_event(&events[i]);
            proof {
                assert(es.take(i + 1).drop_last() =~= es.take(i as int));
                assert(es.take(i + 1).last() == es[i as int]);
            }
            i = i + 1;
        }
        proof {
            assert(es.take(n as int) =~= es);
        }
    }
}

/// The boolean flag answers every one of its equivalent controls alike: which
/// control toggled it leaves no trace in the state.
pub proof fn lemma_toggle_controls_agree(m: AppModel, c1: BooleanControl, c2: BooleanControl)
    ensures
        step(m, EventModel::Gallery(GalleryEventModel::ToggleBoolean(c1))) == step(
            m,
            EventModel::Gallery(GalleryEventModel::ToggleBoolean(c2)),
        ),
{
    assert(step(m, EventModel::Gallery(GalleryEventModel::ToggleBoolean(c1))) =~= step(
        m,
        EventModel::Gallery(GalleryEventModel::ToggleBoolean(c2)),
    ));
}

/// Selecting a given choice converges to the same stored value whichever of
/// the equivalent controls was used.
pub proof fn lemma_choice_controls_agree(
    m: AppModel,
    v: Choice,
    c1: ChoiceControl,
    c2: ChoiceControl,
)
    ensures
        step(m, EventModel::Gallery(GalleryEventModel::SelectChoice(c1, v))) == step(
            m,
            EventModel::Gallery(GalleryEventModel::SelectChoice(c2, v)),
        ),
{
    assert(step(m, EventModel::Gallery(GalleryEventModel::SelectChoice(c1, v))) =~= step(
        m,
        EventModel::Gallery(GalleryEventModel::SelectChoice(c2, v)),
    ));
}

/// A sequence of increase clicks, as the host would report it.
pub open spec fn increases(n: nat) -> Seq<EventModel> {
    Seq::new(n, |i: int| EventModel::Increase)
}

/// A sequence of decrease clicks.
pub open spec fn decreases_seq(n: nat) -> Seq<EventModel> {
    Seq::new(n, |i: int| EventModel::Decrease)
}

/// Increasing the counter `n` times moves it up by exactly `n` units, as long
/// as the machine limit is never reached.
proof fn lemma_increases(m: AppModel, n: nat)
    requires
        m.value_tenths + 10 * n <= i64::MAX,
    ensures
        steps(m, increases(n)).value_tenths == m.value_tenths + 10 * n,
        steps(m, increases(n)) == (AppModel {
            value_tenths: (m.value_tenths + 10 * n) as i64,
            ..m
        }),
    decreases n,
{
    if n == 0 {
        assert(increases(0) =~= Seq::<EventModel>::empty());
        assert(steps(m, increases(0)) =~= m);
    } else {
        assert(increases(n).drop_last() =~= increases((n - 1) as nat));
        lemma_increases(m, (n - 1) as nat);
        assert(steps(m, increases(n)) =~= (AppModel {
            value_tenths: (m.value_tenths + 10 * n) as i64,
            ..m
        }));
    }
}

/// Decreasing the counter `n` times moves it down by exactly `n` units, as
/// long as the machine limit is never reached.
proof fn lemma_decreases(m: AppModel, n: nat)
    requires
        i64::MIN <= m.value_tenths - 10 * n,
    ensures
        steps(m, decreases_seq(n)).value_tenths == m.value_tenths - 10 * n,
        steps(m, decreases_seq(n)) == (AppModel {
            value_tenths: (m.value_tenths - 10 * n) as i64,
            ..m
        }),
    decreases n,
{
    if n == 0 {
        assert(decreases_seq(0) =~= Seq::<EventModel>::empty());
        assert(steps(m, decreases_seq(0)) =~= m);
    } else {
        assert(decreases_seq(n).drop_last() =~= decreases_seq((n - 1) as nat));
        lemma_decreases(m, (n - 1) as nat);
        assert(steps(m, decreases_seq(n)) =~= (AppModel {
            value_tenths: (m.value_tenths - 10 * n) as i64,
            ..m
        }));
    }
}

/// Incrementing the counter `n` times and then decrementing it `m` times
/// leaves it at exactly its start plus `n` minus `m` units, whenever the
/// machine limits are never reached on the way.
pub proof fn lemma_counter_accumulates(a: AppModel, n: nat, m: nat)
    requires
        a.value_tenths + 10 * n <= i64::MAX,
        i64::MIN <= a.value_tenths + 10 * n - 10 * m,
    ensures
        steps(a, increases(n) + decreases_seq(m)).value_tenths == a.value_tenths + 10 * n - 10
            * m,
{
    lemma_increases(a, n);
    let mid = steps(a, increases(n));
    lemma_decreases(mid, m);
    lemma_steps_concat(a, increases(n), decreases_seq(m));
}

/// Folding a frame over the concatenation of two event sequences equals
/// folding it over the first, then over the second.
pub proof fn lemma_steps_concat(m: AppModel, es1: Seq<EventModel>, es2: Seq<EventModel>)
    ensures
        steps(m, es1 + es2) == steps(steps(m, es1), es2),
    decreases es2.len(),
{
    if es2.len() == 0 {
        assert(es1 + es2 =~= es1);
    } else {
        assert((es1 + es2).drop_last() =~= es1 + es2.drop_last());
        assert((es1 + es2).last() == es2.last());
        lemma_steps_concat(m, es1, es2.drop_last());
    }
}

/// Whether the guard in front of the gallery lets events through.
pub open spec fn gallery_unlocked(m: AppModel) -> bool {
    m.visible && m.enabled
}

/// A hidden gallery is not drawn and a disabled one takes no interaction:
/// either way no run of gallery events, however long, changes the state.
pub proof fn lemma_gallery_suppressed(m: AppModel, es: Seq<EventModel>)
    requires
        !gallery_unlocked(m),
        forall|i: int| 0 <= i < es.len() ==> es[i] is Gallery,
    ensures
        steps(m, es) == m,
    decreases es.len(),
{
    if es.len() > 0 {
        lemma_gallery_suppressed(m, es.drop_last());
    }
}

} // verus!
