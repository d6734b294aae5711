//! The flyout's controller: what a movement or a click does to the panel, and what the program
//! around it is asked to do.
//!
//! The panel is modal, like a menu: it sees every event until it closes. Each event is answered by
//! one [`Reply`]; the panel's own state has changed by then.
use crate::audio::Flow;
use crate::config::Config;
use crate::flyout::layout::{self, ActionKind, Elem, LaidElem, Measured, Ratio, Screen, TextWidth};
use crate::flyout::model::{self, Group, Model};
use crate::flyout::theme;
use crate::icons::IconId;
use vstd::prelude::*;

verus! {

/// What the pointer is over, and a press or drag under way. Cleared whenever the layout changes.
#[derive(Debug, Clone, Copy, PartialEq, Eq)]
pub struct Interaction {
    /// The element the pointer is over.
    pub hover: Option<usize>,
    /// The pointer is over the hovered device's edit pencil.
    pub hover_pencil: bool,
    /// The pointer is over the picker's back button.
    pub hover_back: bool,
    /// The cell of the icon grid the pointer is over.
    pub hover_chip: Option<usize>,
    /// The footer entry the pointer is over.
    pub hover_action: Option<ActionKind>,
    /// The slider being dragged.
    pub drag: Option<usize>,
    /// The element that was pressed, acted on when the button is let go.
    pub pending: Option<usize>,
}

/// Nothing is under the pointer and nothing is under way.
pub open spec fn no_interaction() -> Interaction {
    Interaction {
        hover: None,
        hover_pencil: false,
        hover_back: false,
        hover_chip: None,
        hover_action: None,
        drag: None,
        pending: None,
    }
}

impl Default for Interaction {
    fn default() -> (r: Self)
        ensures
            r == no_interaction(),
    {
        Interaction {
            hover: None,
            hover_pencil: false,
            hover_back: false,
            hover_chip: None,
            hover_action: None,
            drag: None,
            pending: None,
        }
    }
}

/// What the program around the panel is asked to do.
#[derive(Debug, Clone, Copy, PartialEq, Eq, Structural)]
pub enum Reply {
    Nothing,
    /// Paint what moves again: hover, fills, thumbs, numbers.
    Compose,
    /// Paint everything again.
    Render,
    /// Set the volume of a group's default, and paint what moves.
    SetLevel { group: usize, level: Ratio },
    /// Mute or unmute a group's default, and paint everything.
    SetMuted { group: usize, muted: bool },
    /// Sound the new volume.
    Beep,
    /// Make a device the default, and then report back with [`Panel::switched`].
    Switch { group: usize, dev: usize },
    /// Slide to another screen, from the right if `forward`, and then commit to it with
    /// [`Panel::navigated`]. The configuration is to be saved first where an icon was picked.
    Navigate { to: Screen, forward: bool, save: bool },
    /// Open the system's sound settings, and close.
    SoundSettings,
    Close,
}

/// What was read anew of a group's default: whether its volume is another than the one shown, and
/// whether it is muted.
#[derive(Debug, Clone, Copy, PartialEq, Eq, Structural)]
pub struct VolumeReading {
    pub moved: bool,
    pub muted: bool,
}

/// What the panel's modal loop is told of.
#[derive(Debug, Clone, Copy, PartialEq, Eq, Structural)]
pub enum Event {
    MouseMove { x: i32, y: i32 },
    ButtonDown { x: i32, y: i32 },
    ButtonUp { x: i32, y: i32 },
    RightButtonDown { x: i32, y: i32 },
    KeyDown { escape: bool },
    /// Another window took the pointer: the panel is no longer what the user looks at.
    LostCapture,
}

/// A half word as a signed number.
pub open spec fn signed_half(v: int) -> int {
    if v >= 32768 {
        v - 65536
    } else {
        v
    }
}

/// The point that a mouse message carries: two signed half words, the horizontal one low.
pub fn mouse_xy(lparam: u64) -> (r: (i32, i32))
    ensures
        r.0 == signed_half(lparam as int % 65536),
        r.1 == signed_half(lparam as int / 65536 % 65536),
{
    let low: i32 = (lparam % 65536) as i32;
    let high: i32 = (lparam / 65536 % 65536) as i32;
    (
        if low >= 32768 {
            low - 65536
        } else {
            low
        },
        if high >= 32768 {
            high - 65536
        } else {
            high
        },
    )
}

/// The open panel.
pub struct Panel {
    pub model: Model,
    pub hit: Interaction,
    pub elems: Vec<LaidElem>,
    pub width: i32,
    pub height: i32,
    pub dpi: u32,
    /// The width of the footer item's label.
    pub item: TextWidth,
}

/// What has to hold of the groups for them to be counted by a machine; it always does.
proof fn lemma_groups_are_countable(groups: &Vec<Group>)
    ensures
        groups@.len() <= usize::MAX,
        forall|g: int| 0 <= g < groups@.len() ==> (#[trigger] groups@[g]).devices@.len()
            <= usize::MAX,
{
    assert(groups.len() == groups@.len());
    assert forall|g: int| 0 <= g < groups@.len() implies (#[trigger] groups@[g]).devices@.len()
        <= usize::MAX by {
        assert(groups@[g].devices.len() == groups@[g].devices@.len());
    }
}

/// Whether every element speaks of a group and a device that there are.
pub open spec fn elems_are_of(elems: Seq<LaidElem>, groups: Seq<Group>) -> bool {
    forall|i: int|
        0 <= i < elems.len() ==> layout::elem_is_of((#[trigger] elems[i]).elem, groups)
}

/// An optional number as an optional index.
pub open spec fn as_index(i: Option<int>) -> Option<usize> {
    match i {
        Some(k) => Some(k as usize),
        None => None,
    }
}

impl Panel {
    /// The panel is laid out for a resolution, its screen and its elements speak of what is in the
    /// model, and what is under the pointer is on the screen.
    pub open spec fn wf(&self) -> bool {
        &&& layout::valid_dpi(self.dpi)
        &&& layout::track_len(self.width as int, self.dpi as int) > 0
        &&& layout::screen_is_of(self.model.screen, self.model.groups@)
        &&& elems_are_of(self.elems@, self.model.groups@)
        &&& self.hit.hover matches Some(i) ==> i < self.elems@.len()
        &&& self.hit.drag matches Some(i) ==> i < self.elems@.len() && self.elems@[i as int].elem
            is Slider
    }

    /// Everything but what is under the pointer.
    pub open spec fn same_but_hit(&self, other: &Panel) -> bool {
        &&& self.model == other.model
        &&& self.same_frame(other)
    }

    /// The same elements in the same window.
    pub open spec fn same_frame(&self, other: &Panel) -> bool {
        &&& self.elems == other.elems
        &&& self.width == other.width
        &&& self.height == other.height
        &&& self.dpi == other.dpi
        &&& self.item == other.item
    }

    /// Whether a point is inside the panel.
    pub open spec fn has_point(&self, mx: int, my: int) -> bool {
        0 <= mx < self.width && 0 <= my < self.height
    }

    /// The element at a point, where one answers there.
    pub open spec fn elem_under(&self, mx: int, my: int) -> Option<int> {
        if self.has_point(mx, my) {
            layout::found_at(self.elems@, my)
        } else {
            None
        }
    }

    /// The footer entry at a pixel column.
    pub open spec fn action_under(&self, mx: int) -> Option<ActionKind> {
        layout::footer_at(
            self.model.update is Some,
            self.width as int,
            self.dpi as int,
            self.item.down as int,
            mx,
        )
    }

    /// The cell of the icon grid at a point, the grid being element `i`.
    pub open spec fn chip_under(&self, i: int, mx: int, my: int) -> Option<int> {
        layout::chip_at(self.width as int, self.dpi as int, mx, my, self.elems@[i].top as int)
    }

    /// What the pointer is over at a point, with the press and drag as they are.
    pub open spec fn hovering(&self, mx: int, my: int) -> Interaction {
        let at = self.elem_under(mx, my);
        let base = Interaction {
            hover: as_index(at),
            hover_pencil: false,
            hover_back: false,
            hover_chip: None,
            hover_action: None,
            drag: self.hit.drag,
            pending: self.hit.pending,
        };
        match at {
            None => base,
            Some(i) => match self.elems@[i].elem {
                Elem::Device { .. } => Interaction {
                    hover_pencil: layout::is_over_pencil(self.width as int, self.dpi as int, mx),
                    ..base
                },
                Elem::PickerHeader { .. } => Interaction {
                    hover_back: layout::is_over_back(self.dpi as int, mx),
                    ..base
                },
                Elem::IconGrid { .. } => Interaction {
                    hover_chip: as_index(self.chip_under(i, mx, my)),
                    ..base
                },
                Elem::Footer => Interaction { hover_action: self.action_under(mx), ..base },
                _ => base,
            },
        }
    }

    /// Opens the panel on its main screen, or for a preview on the first device's icon picker.
    pub fn open(
        groups: Vec<Group>,
        update: Option<String>,
        strip_up: bool,
        dpi: u32,
        measured: &Measured,
        start_icons: bool,
    ) -> (r: Panel)
        requires
            layout::valid_dpi(dpi),
            measured.measures(groups@),
            layout::natural_height(
                layout::screen_elems(groups@, Screen::Main),
                layout::panel_width(
                    layout::panel_needs(groups@, update is Some, *measured, dpi as int),
                    dpi as int,
                ),
                dpi as int,
            ) <= i32::MAX,
        ensures
            r.wf(),
            r.model.groups == groups,
            r.model.update == update,
            r.model.strip_up == strip_up,
            r.model.screen == (if start_icons && groups@.len() > 0 && groups@[0].devices@.len()
                > 0 {
                Screen::IconPicker { group: 0, dev: 0 }
            } else {
                Screen::Main
            }),
            !r.model.config_changed && !r.model.output_changed && !r.model.quit && !r.model.restart
                && !r.model.restart_explorer,
            r.hit == no_interaction(),
            r.dpi == dpi,
            r.item == measured.item,
            r.width == layout::panel_width(
                layout::panel_needs(groups@, update is Some, *measured, dpi as int),
                dpi as int,
            ),
            r.height == layout::shared_height(groups@, r.width as int, dpi as int),
            layout::is_laid_out(
                r.elems@,
                r.height as int,
                layout::screen_elems(groups@, r.model.screen),
                r.width as int,
                dpi as int,
                r.height as int,
            ),
    {
        let mut model = Model::new(groups, update, strip_up);
        if start_icons && model.groups.len() > 0 && model.groups[0].devices.len() > 0 {
            model.screen = Screen::IconPicker { group: 0, dev: 0 };
        }
        let width: i32 = layout::content_width(&model, dpi, measured);
        let height: i32 = layout::panel_height(&model, dpi, width);
        proof {
            if let Screen::IconPicker { group, dev } = model.screen {
                layout::law_every_screen_is_as_tall_as_the_panel(
                    groups@,
                    group,
                    dev,
                    width as int,
                    dpi,
                );
            }
        }
        let (elems, _total): (Vec<LaidElem>, i32) = layout::build_view(
            &model,
            dpi,
            width,
            model.screen,
            height,
        );
        proof {
            layout::law_a_slider_covers_its_range(
                layout::panel_needs(groups@, update is Some, *measured, dpi as int),
                dpi,
                0,
                0,
            );
            lemma_laid_elems_are_of(
                elems@,
                _total as int,
                &model.groups,
                model.screen,
                width as int,
                dpi as int,
                height as int,
            );
        }
        Panel {
            model,
            hit: Interaction::default(),
            elems,
            width,
            height,
            dpi,
            item: measured.item,
        }
    }

    /// What the pointer is over at a point.
    fn hover_at(&self, mx: i32, my: i32) -> (r: Interaction)
        requires
            self.wf(),
        ensures
            r == self.hovering(mx as int, my as int),
            r.hover matches Some(i) ==> i < self.elems@.len(),
    {
        let hover = if layout::inside(self.width, self.height, mx, my) {
            layout::elem_at(self.elems.as_slice(), my)
        } else {
            None
        };
        let mut r = Interaction {
            hover,
            hover_pencil: false,
            hover_back: false,
            hover_chip: None,
            hover_action: None,
            drag: self.hit.drag,
            pending: self.hit.pending,
        };
        if let Some(i) = hover {
            match self.elems[i].elem {
                Elem::Device { .. } => {
                    r.hover_pencil = layout::over_pencil(self.width, self.dpi, mx);
                },
                Elem::PickerHeader { .. } => {
                    r.hover_back = layout::over_back(self.dpi, mx);
                },
                Elem::IconGrid { .. } => {
                    r.hover_chip = layout::grid_chip_at(
                        self.width,
                        self.dpi,
                        mx,
                        my,
                        self.elems[i].top,
                    );
                },
                Elem::Footer => {
                    r.hover_action = layout::footer_hit(
                        &self.model,
                        self.width,
                        self.dpi,
                        self.item,
                        mx,
                    );
                },
                _ => {},
            }
        }
        r
    }

    /// The pointer moved. A drag sets its slider's level; otherwise what is under the pointer is
    /// shown, and only a change of that is painted.
    pub fn mouse_move(&mut self, mx: i32, my: i32) -> (r: Reply)
        requires
            old(self).wf(),
        ensures
            final(self).wf(),
            pointer_moved(*old(self), mx, my, *final(self), r),
    {
        if let Some(si) = self.hit.drag {
            if let Elem::Slider { group } = self.elems[si].elem {
                let level = layout::level_from_x(self.width, self.dpi, mx);
                return Reply::SetLevel { group, level };
            }
        }
        let next = self.hover_at(mx, my);
        let changed = next.hover != self.hit.hover || next.hover_pencil != self.hit.hover_pencil
            || next.hover_back != self.hit.hover_back || next.hover_chip != self.hit.hover_chip
            || !same_action(next.hover_action, self.hit.hover_action);
        self.hit = next;
        if changed {
            Reply::Compose
        } else {
            Reply::Nothing
        }
    }

    /// The button went down. Outside the panel that closes it. On a slider's glyph it mutes or
    /// unmutes, on its track it starts a drag; anything else waits for the button to come up.
    pub fn button_down(&mut self, mx: i32, my: i32) -> (r: Reply)
        requires
            old(self).wf(),
        ensures
            final(self).wf(),
            button_pressed(*old(self), mx, my, *final(self), r),
    {
        if !layout::inside(self.width, self.height, mx, my) {
            return Reply::Close;
        }
        self.hit.pending = None;
        match layout::elem_at(self.elems.as_slice(), my) {
            None => Reply::Nothing,
            Some(i) => {
                let elem = self.elems[i].elem;
                proof {
                    assert(layout::elem_is_of(self.elems@[i as int].elem, self.model.groups@));
                }
                match elem {
                    Elem::Slider { group } => self.press_slider(i, group, mx),
                    _ => {
                        self.hit.pending = Some(i);
                        Reply::Nothing
                    },
                }
            },
        }
    }

    /// A press on a slider's row: its glyph toggles mute, the rest starts a drag.
    fn press_slider(&mut self, elem: usize, group: usize, mx: i32) -> (r: Reply)
        requires
            old(self).wf(),
            elem < old(self).elems@.len(),
            old(self).elems@[elem as int].elem == (Elem::Slider { group }),
        ensures
            final(self).wf(),
            final(self).same_frame(old(self)),
            ({
                let was = old(self);
                let g = was.model.groups@[group as int];
                if layout::is_on_mute(was.dpi as int, mx as int) {
                    &&& final(self).hit == was.hit
                    &&& if g.default_id is Some {
                        r == (Reply::SetMuted { group, muted: !g.muted }) && only_mute_changed(
                            was.model,
                            final(self).model,
                            group as int,
                            !g.muted,
                        )
                    } else {
                        r == Reply::Nothing && final(self).model == was.model
                    }
                } else {
                    &&& final(self).model == was.model
                    &&& final(self).hit == (Interaction { drag: Some(elem), ..was.hit })
                    &&& r == (Reply::SetLevel {
                        group,
                        level: level_at(was.width, was.dpi, mx),
                    })
                }
            }),
    {
        proof {
            assert(layout::elem_is_of(self.elems@[elem as int].elem, self.model.groups@));
        }
        if layout::on_mute(self.dpi, mx) {
            if self.model.groups[group].default_id.is_some() {
                let muted = !self.model.groups[group].muted;
                set_muted(&mut self.model, group, muted);
                proof {
                    lemma_same_devices_keep_elems(
                        self.elems@,
                        old(self).model.groups@,
                        self.model.groups@,
                    );
                }
                Reply::SetMuted { group, muted }
            } else {
                Reply::Nothing
            }
        } else {
            self.hit.drag = Some(elem);
            let level = layout::level_from_x(self.width, self.dpi, mx);
            Reply::SetLevel { group, level }
        }
    }
}

/// What a movement of the pointer does: a drag sets its slider's level, and otherwise what is under
/// the pointer is taken over, and only a change of that is painted.
pub open spec fn pointer_moved(was: Panel, mx: i32, my: i32, is: Panel, r: Reply) -> bool {
    &&& is.same_but_hit(&was)
    &&& match was.hit.drag {
        Some(si) => is.hit == was.hit && r == (Reply::SetLevel {
            group: was.elems@[si as int].elem->Slider_group,
            level: level_at(was.width, was.dpi, mx),
        }),
        None => is.hit == was.hovering(mx as int, my as int) && r == (if is.hit == was.hit {
            Reply::Nothing
        } else {
            Reply::Compose
        }),
    }
}

/// What a press does: outside the panel it closes it, on a slider's glyph it mutes or unmutes, on its
/// track it starts a drag, and on anything else it is remembered.
pub open spec fn button_pressed(was: Panel, mx: i32, my: i32, is: Panel, r: Reply) -> bool {
    let at = was.elem_under(mx as int, my as int);
    let cleared = Interaction { pending: None, ..was.hit };
    &&& is.same_frame(&was)
    &&& if !was.has_point(mx as int, my as int) {
        is.model == was.model && is.hit == was.hit && r == Reply::Close
    } else {
        match at {
            None => is.model == was.model && is.hit == cleared && r == Reply::Nothing,
            Some(i) => match was.elems@[i].elem {
                Elem::Slider { group } => if layout::is_on_mute(was.dpi as int, mx as int) {
                    let g = was.model.groups@[group as int];
                    &&& is.hit == cleared
                    &&& if g.default_id is Some {
                        r == (Reply::SetMuted { group, muted: !g.muted }) && only_mute_changed(
                            was.model,
                            is.model,
                            group as int,
                            !g.muted,
                        )
                    } else {
                        r == Reply::Nothing && is.model == was.model
                    }
                } else {
                    &&& is.model == was.model
                    &&& is.hit == (Interaction { drag: Some(i as usize), ..cleared })
                    &&& r == (Reply::SetLevel {
                        group,
                        level: level_at(was.width, was.dpi, mx),
                    })
                },
                _ => is.model == was.model && is.hit == (Interaction {
                    pending: Some(i as usize),
                    ..cleared
                }) && r == Reply::Nothing,
            },
        }
    }
}

/// What letting go does: it ends a drag, with a sound if that set an output's volume, and otherwise is
/// a click if it is on the element that was pressed.
pub open spec fn button_released(
    was: Panel,
    config: Config,
    mx: i32,
    my: i32,
    is: Panel,
    config_after: Config,
    r: Reply,
) -> bool {
    let at = was.elem_under(mx as int, my as int);
    &&& is.same_frame(&was)
    &&& match was.hit.drag {
        Some(si) => {
            let group = was.elems@[si as int].elem->Slider_group as int;
            &&& is.model == was.model
            &&& is.hit == (Interaction { drag: None, ..was.hit })
            &&& config_after == config
            &&& r == (if was.model.groups@[group].flow == Flow::Output {
                Reply::Beep
            } else {
                Reply::Nothing
            })
        },
        None => {
            &&& is.hit == (Interaction { pending: None, ..was.hit })
            &&& if at is Some && was.hit.pending == as_index(at) {
                &&& r == click_reply(was, at->Some_0, mx as int, my as int)
                &&& click_effect(
                    was,
                    at->Some_0,
                    mx as int,
                    my as int,
                    is.model,
                    config,
                    config_after,
                )
            } else {
                r == Reply::Nothing && is.model == was.model && config_after == config
            }
        },
    }
}

/// What an event of the modal loop does.
pub open spec fn event_answered(
    was: Panel,
    config: Config,
    event: Event,
    is: Panel,
    config_after: Config,
    r: Reply,
) -> bool {
    match event {
        Event::MouseMove { x, y } => pointer_moved(was, x, y, is, r) && config_after == config,
        Event::ButtonDown { x, y } => button_pressed(was, x, y, is, r) && config_after == config,
        Event::ButtonUp { x, y } => button_released(was, config, x, y, is, config_after, r),
        Event::RightButtonDown { x, y } => is == was && config_after == config && r == (
        if was.has_point(x as int, y as int) {
            Reply::Nothing
        } else {
            Reply::Close
        }),
        Event::KeyDown { escape } => is == was && config_after == config && r == (if escape {
            Reply::Close
        } else {
            Reply::Nothing
        }),
        Event::LostCapture => is == was && config_after == config && r == Reply::Close,
    }
}

/// A drag follows the pointer wherever it goes, even outside the panel: while one is under way, a
/// movement sets the level of the slider that is dragged, and the drag goes on.
pub proof fn law_a_drag_follows_the_pointer(was: Panel, mx: i32, my: i32, is: Panel, r: Reply)
    requires
        was.wf(),
        was.hit.drag is Some,
        pointer_moved(was, mx, my, is, r),
    ensures
        is.hit.drag == was.hit.drag,
        r is SetLevel,
        was.elems@[was.hit.drag->Some_0 as int].elem == (Elem::Slider { group: r->SetLevel_group }),
        r->SetLevel_level == level_at(was.width, was.dpi, mx),
        r->SetLevel_group < is.model.groups@.len(),
{
    assert(layout::elem_is_of(was.elems@[was.hit.drag->Some_0 as int].elem, was.model.groups@));
}

/// A click is only what is pressed and let go on the same element: a press elsewhere, or none, makes
/// letting go do nothing.
pub proof fn law_a_click_starts_and_ends_on_one_element(
    was: Panel,
    config: Config,
    mx: i32,
    my: i32,
    is: Panel,
    config_after: Config,
    r: Reply,
)
    requires
        was.hit.drag is None,
        button_released(was, config, mx, my, is, config_after, r),
        was.elem_under(mx as int, my as int) is None || was.hit.pending != as_index(
            was.elem_under(mx as int, my as int),
        ),
    ensures
        r is Nothing,
        is.model == was.model,
        config_after == config,
{
}

/// The level that a pixel column of a slider stands for.
pub open spec fn level_at(width: i32, dpi: u32, mx: i32) -> Ratio {
    Ratio {
        part: layout::track_part(width as int, dpi as int, mx as int) as i64,
        whole: layout::track_len(width as int, dpi as int) as i64,
    }
}

/// Whether two models differ in nothing but whether one group is muted.
pub open spec fn only_mute_changed(was: Model, is: Model, group: int, muted: bool) -> bool {
    &&& is.groups@.len() == was.groups@.len()
    &&& is.groups@[group].muted == muted
    &&& forall|g: int|
        0 <= g < was.groups@.len() ==> {
            &&& (#[trigger] is.groups@[g]).flow == was.groups@[g].flow
            &&& is.groups@[g].title == was.groups@[g].title
            &&& is.groups@[g].default_id == was.groups@[g].default_id
            &&& is.groups@[g].devices == was.groups@[g].devices
            &&& g != group ==> is.groups@[g].muted == was.groups@[g].muted
        }
    &&& same_but_groups(was, is)
}

/// Whether two models differ in nothing but their groups.
pub open spec fn same_but_groups(was: Model, is: Model) -> bool {
    &&& is.screen == was.screen
    &&& is.update == was.update
    &&& is.strip_up == was.strip_up
    &&& is.config_changed == was.config_changed
    &&& is.output_changed == was.output_changed
    &&& is.quit == was.quit
    &&& is.restart == was.restart
    &&& is.restart_explorer == was.restart_explorer
}

/// Whether two lists of groups have the same number of devices each.
pub open spec fn same_shape(a: Seq<Group>, b: Seq<Group>) -> bool {
    a.len() == b.len() && forall|g: int|
        0 <= g < a.len() ==> (#[trigger] a[g]).devices@.len() == b[g].devices@.len()
}

proof fn lemma_same_devices_keep_elems(elems: Seq<LaidElem>, a: Seq<Group>, b: Seq<Group>)
    requires
        same_shape(a, b),
        elems_are_of(elems, a),
    ensures
        elems_are_of(elems, b),
        forall|s: Screen| layout::screen_is_of(s, a) ==> layout::screen_is_of(s, b),
{
    assert forall|i: int| 0 <= i < elems.len() implies layout::elem_is_of(
        (#[trigger] elems[i]).elem,
        b,
    ) by {
        assert(layout::elem_is_of(elems[i].elem, a));
        match elems[i].elem {
            Elem::Device { group, dev } => {
                assert(a[group as int].devices@.len() == b[group as int].devices@.len());
            },
            Elem::PickerHeader { group, dev } => {
                assert(a[group as int].devices@.len() == b[group as int].devices@.len());
            },
            Elem::IconGrid { group, dev } => {
                assert(a[group as int].devices@.len() == b[group as int].devices@.len());
            },
            _ => {},
        }
    }
    assert forall|s: Screen| layout::screen_is_of(s, a) implies layout::screen_is_of(s, b) by {
        if let Screen::IconPicker { group, dev } = s {
            assert(a[group as int].devices@.len() == b[group as int].devices@.len());
        }
    }
}

proof fn lemma_laid_elems_are_of(
    laid: Seq<LaidElem>,
    total: int,
    groups: &Vec<Group>,
    screen: Screen,
    width: int,
    dpi: int,
    fill_h: int,
)
    requires
        layout::is_laid_out(
            laid,
            total,
            layout::screen_elems(groups@, screen),
            width,
            dpi,
            fill_h,
        ),
        layout::screen_is_of(screen, groups@),
    ensures
        elems_are_of(laid, groups@),
{
    lemma_groups_are_countable(groups);
    assert forall|i: int| 0 <= i < laid.len() implies layout::elem_is_of(
        (#[trigger] laid[i]).elem,
        groups@,
    ) by {
        layout::law_elements_name_what_is_there(groups@, screen, i);
    }
}

fn same_action(a: Option<ActionKind>, b: Option<ActionKind>) -> (r: bool)
    ensures
        r == (a == b),
{
    match (a, b) {
        (None, None) => true,
        (Some(x), Some(y)) => x == y,
        _ => false,
    }
}

fn set_muted(model: &mut Model, group: usize, muted: bool)
    requires
        group < old(model).groups@.len(),
    ensures
        only_mute_changed(*old(model), *final(model), group as int, muted),
{
    model.groups[group].muted = muted;
}

/// Whether only one device's icon, and the report that the configuration changed, differ.
pub open spec fn only_icon_changed(was: Model, is: Model, group: int, dev: int, icon: IconId) -> bool {
    &&& is.groups@.len() == was.groups@.len()
    &&& is.config_changed
    &&& same_but_groups(Model { config_changed: true, ..was }, is)
    &&& forall|g: int|
        0 <= g < was.groups@.len() ==> {
            &&& (#[trigger] is.groups@[g]).flow == was.groups@[g].flow
            &&& is.groups@[g].title == was.groups@[g].title
            &&& is.groups@[g].default_id == was.groups@[g].default_id
            &&& is.groups@[g].muted == was.groups@[g].muted
            &&& is.groups@[g].devices@.len() == was.groups@[g].devices@.len()
            &&& forall|d: int|
                0 <= d < was.groups@[g].devices@.len() ==> {
                    let row = was.groups@[g].devices@[d];
                    #[trigger] is.groups@[g].devices@[d] == (if g == group && d == dev {
                        model::DeviceRow { icon, ..row }
                    } else {
                        row
                    })
                }
        }
}

/// Whether a device has become its group's default: it alone is selected, and a switch of the output
/// is reported.
pub open spec fn default_switched(was: Model, is: Model, group: int, dev: int, muted: bool) -> bool {
    let id = was.groups@[group].devices@[dev].id.0@;
    &&& is.groups@.len() == was.groups@.len()
    &&& is.output_changed == (was.output_changed || was.groups@[group].flow == Flow::Output)
    &&& same_but_groups(Model { output_changed: is.output_changed, ..was }, is)
    &&& crate::audio::id_view(is.groups@[group].default_id) == Some(id)
    &&& is.groups@[group].muted == muted
    &&& is.groups@[group].flow == was.groups@[group].flow
    &&& is.groups@[group].title == was.groups@[group].title
    &&& is.groups@[group].devices@.len() == was.groups@[group].devices@.len()
    &&& forall|d: int|
        0 <= d < was.groups@[group].devices@.len() ==> {
            let row = was.groups@[group].devices@[d];
            #[trigger] is.groups@[group].devices@[d] == (model::DeviceRow {
                selected: row.id.0@ == id,
                ..row
            })
        }
    &&& forall|g: int|
        0 <= g < was.groups@.len() && g != group ==> #[trigger] is.groups@[g] == was.groups@[g]
}

/// What a click on an element does: the reply to it.
pub open spec fn click_reply(p: Panel, i: int, mx: int, my: int) -> Reply {
    match p.elems@[i].elem {
        Elem::Device { group, dev } => if layout::is_over_pencil(
            p.width as int,
            p.dpi as int,
            mx,
        ) {
            Reply::Navigate { to: Screen::IconPicker { group, dev }, forward: true, save: false }
        } else if crate::audio::id_view(p.model.groups@[group as int].default_id) == Some(
            p.model.groups@[group as int].devices@[dev as int].id.0@,
        ) {
            Reply::Nothing
        } else {
            Reply::Switch { group, dev }
        },
        Elem::PickerHeader { .. } => if layout::is_over_back(p.dpi as int, mx) {
            Reply::Navigate { to: Screen::Main, forward: false, save: false }
        } else {
            Reply::Nothing
        },
        Elem::IconGrid { .. } => if p.chip_under(i, mx, my) is Some {
            Reply::Navigate { to: Screen::Main, forward: false, save: true }
        } else {
            Reply::Nothing
        },
        Elem::Footer => match p.action_under(mx) {
            Some(ActionKind::SoundSettings) => Reply::SoundSettings,
            Some(_) => Reply::Close,
            None => Reply::Nothing,
        },
        _ => Reply::Nothing,
    }
}

/// What a click on an element does to the model and the configuration: an icon that was picked is
/// taken over, and a footer entry leaves its mark on the outcome.
pub open spec fn click_effect(
    p: Panel,
    i: int,
    mx: int,
    my: int,
    model: Model,
    was: Config,
    config: Config,
) -> bool {
    let picked = if p.elems@[i].elem is IconGrid {
        p.chip_under(i, mx, my)
    } else {
        None
    };
    match picked {
        Some(k) => {
            let (group, dev) = (
                p.elems@[i].elem->IconGrid_group as int,
                p.elems@[i].elem->IconGrid_dev as int,
            );
            let id = p.model.groups@[group].devices@[dev].id.0@;
            &&& only_icon_changed(p.model, model, group, dev, IconId::ALL@[k])
            &&& config.choice(id) == Some(IconId::ALL@[k])
            &&& forall|other: Seq<char>|
                other != id ==> #[trigger] config.choice(other) == was.choice(other)
            &&& config.music == was.music
            &&& was.wf() ==> config.wf()
        },
        None => {
            let action = if p.elems@[i].elem is Footer {
                p.action_under(mx)
            } else {
                None
            };
            &&& config == was
            &&& model == (Model {
                quit: p.model.quit || action == Some(ActionKind::Quit),
                restart: p.model.restart || action == Some(ActionKind::Restart),
                restart_explorer: p.model.restart_explorer || action == Some(
                    ActionKind::RestartExplorer,
                ),
                ..p.model
            })
        },
    }
}

fn set_icon(model: &mut Model, group: usize, dev: usize, icon: IconId)
    requires
        group < old(model).groups@.len(),
        dev < old(model).groups@[group as int].devices@.len(),
    ensures
        only_icon_changed(*old(model), *final(model), group as int, dev as int, icon),
{
    model.groups[group].devices[dev].icon = icon;
    model.config_changed = true;
}

impl Panel {
    /// Acts on a click on element `i`, when the button is let go.
    fn activate(&mut self, config: &mut Config, i: usize, mx: i32, my: i32) -> (r: Reply)
        requires
            old(self).wf(),
            i < old(self).elems@.len(),
        ensures
            final(self).wf(),
            final(self).same_frame(old(self)),
            final(self).hit == old(self).hit,
            r == click_reply(*old(self), i as int, mx as int, my as int),
            click_effect(
                *old(self),
                i as int,
                mx as int,
                my as int,
                final(self).model,
                *old(config),
                *final(config),
            ),
    {
        proof {
            assert(layout::elem_is_of(self.elems@[i as int].elem, self.model.groups@));
        }
        match self.elems[i].elem {
            Elem::Device { group, dev } => {
                if layout::over_pencil(self.width, self.dpi, mx) {
                    Reply::Navigate {
                        to: Screen::IconPicker { group, dev },
                        forward: true,
                        save: false,
                    }
                } else if model::is_id(
                    &self.model.groups[group].default_id,
                    &self.model.groups[group].devices[dev].id,
                ) {
                    Reply::Nothing
                } else {
                    Reply::Switch { group, dev }
                }
            },
            Elem::PickerHeader { .. } => {
                if layout::over_back(self.dpi, mx) {
                    Reply::Navigate { to: Screen::Main, forward: false, save: false }
                } else {
                    Reply::Nothing
                }
            },
            Elem::IconGrid { group, dev } => {
                match layout::grid_chip_at(self.width, self.dpi, mx, my, self.elems[i].top) {
                    Some(k) => {
                        let all = IconId::ALL;
                        let icon = all[k];
                        let id = self.model.groups[group].devices[dev].id.0.clone();
                        set_icon(&mut self.model, group, dev, icon);
                        config.set_icon(id, icon);
                        proof {
                            lemma_same_devices_keep_elems(
                                self.elems@,
                                old(self).model.groups@,
                                self.model.groups@,
                            );
                        }
                        Reply::Navigate { to: Screen::Main, forward: false, save: true }
                    },
                    None => Reply::Nothing,
                }
            },
            Elem::Footer => {
                match layout::footer_hit(&self.model, self.width, self.dpi, self.item, mx) {
                    Some(ActionKind::SoundSettings) => Reply::SoundSettings,
                    Some(ActionKind::Quit) => {
                        self.model.quit = true;
                        Reply::Close
                    },
                    Some(ActionKind::Restart) => {
                        self.model.restart = true;
                        Reply::Close
                    },
                    Some(ActionKind::RestartExplorer) => {
                        self.model.restart_explorer = true;
                        Reply::Close
                    },
                    None => Reply::Nothing,
                }
            },
            _ => Reply::Nothing,
        }
    }

    /// The button came up. It ends a drag, with a sound if that set an output's volume; otherwise
    /// it is a click if it comes up on the element that was pressed.
    pub fn button_up(&mut self, config: &mut Config, mx: i32, my: i32) -> (r: Reply)
        requires
            old(self).wf(),
        ensures
            final(self).wf(),
            button_released(*old(self), *old(config), mx, my, *final(self), *final(config), r),
    {
        if let Some(si) = self.hit.drag {
            self.hit.drag = None;
            proof {
                assert(layout::elem_is_of(self.elems@[si as int].elem, self.model.groups@));
            }
            if let Elem::Slider { group } = self.elems[si].elem {
                if self.model.groups[group].flow == Flow::Output {
                    return Reply::Beep;
                }
            }
            return Reply::Nothing;
        }
        let at = if layout::inside(self.width, self.height, mx, my) {
            layout::elem_at(self.elems.as_slice(), my)
        } else {
            None
        };
        let r = match at {
            Some(i) => {
                if self.hit.pending == Some(i) {
                    self.activate(config, i, mx, my)
                } else {
                    Reply::Nothing
                }
            },
            None => Reply::Nothing,
        };
        self.hit.pending = None;
        r
    }

    /// The right button went down: outside the panel that closes it.
    pub fn right_button_down(&self, mx: i32, my: i32) -> (r: Reply)
        ensures
            r == (if self.has_point(mx as int, my as int) {
                Reply::Nothing
            } else {
                Reply::Close
            }),
    {
        if layout::inside(self.width, self.height, mx, my) {
            Reply::Nothing
        } else {
            Reply::Close
        }
    }

    /// A key went down: escape closes the panel.
    pub fn key_down(&self, escape: bool) -> (r: Reply)
        ensures
            r == (if escape {
                Reply::Close
            } else {
                Reply::Nothing
            }),
    {
        if escape {
            Reply::Close
        } else {
            Reply::Nothing
        }
    }

    /// Answers one event of the modal loop.
    pub fn handle(&mut self, config: &mut Config, event: Event) -> (r: Reply)
        requires
            old(self).wf(),
        ensures
            final(self).wf(),
            final(self).same_frame(old(self)),
            event_answered(*old(self), *old(config), event, *final(self), *final(config), r),
    {
        match event {
            Event::MouseMove { x, y } => self.mouse_move(x, y),
            Event::ButtonDown { x, y } => self.button_down(x, y),
            Event::ButtonUp { x, y } => self.button_up(config, x, y),
            Event::RightButtonDown { x, y } => self.right_button_down(x, y),
            Event::KeyDown { escape } => self.key_down(escape),
            Event::LostCapture => Reply::Close,
        }
    }

    /// Takes over that a device was made its group's default, with its mute as far as it could be
    /// read. Everything is to be painted, and the new default watched.
    pub fn switched(&mut self, group: usize, dev: usize, muted: Option<bool>) -> (r: Reply)
        requires
            old(self).wf(),
            group < old(self).model.groups@.len(),
            dev < old(self).model.groups@[group as int].devices@.len(),
        ensures
            final(self).wf(),
            final(self).same_frame(old(self)),
            final(self).hit == old(self).hit,
            r == Reply::Render,
            default_switched(
                old(self).model,
                final(self).model,
                group as int,
                dev as int,
                muted == Some(true),
            ),
    {
        let id = self.model.groups[group].devices[dev].id.copied();
        if self.model.groups[group].flow == Flow::Output {
            self.model.output_changed = true;
        }
        let ghost mid = self.model;
        let n: usize = self.model.groups[group].devices.len();
        let mut d: usize = 0;
        while d < n
            invariant
                d <= n,
                group < mid.groups@.len(),
                n == mid.groups@[group as int].devices@.len(),
                self.same_frame(old(self)),
                self.hit == old(self).hit,
                self.model.groups@.len() == mid.groups@.len(),
                same_but_groups(mid, self.model),
                self.model.groups@[group as int].flow == mid.groups@[group as int].flow,
                self.model.groups@[group as int].title == mid.groups@[group as int].title,
                self.model.groups@[group as int].devices@.len() == n,
                forall|k: int|
                    0 <= k < n ==> {
                        let row = mid.groups@[group as int].devices@[k];
                        #[trigger] self.model.groups@[group as int].devices@[k] == (if k < d {
                            model::DeviceRow { selected: row.id.0@ == id.0@, ..row }
                        } else {
                            row
                        })
                    },
                forall|g: int|
                    0 <= g < mid.groups@.len() && g != group
                        ==> #[trigger] self.model.groups@[g] == mid.groups@[g],
            decreases n - d,
        {
            let selected = self.model.groups[group].devices[d].id.same(&id);
            self.model.groups[group].devices[d].selected = selected;
            d = d + 1;
        }
        self.model.groups[group].muted = match muted {
            Some(m) => m,
            None => false,
        };
        self.model.groups[group].default_id = Some(id);
        proof {
            assert(same_shape(old(self).model.groups@, self.model.groups@));
            lemma_same_devices_keep_elems(
                self.elems@,
                old(self).model.groups@,
                self.model.groups@,
            );
        }
        Reply::Render
    }

    /// Commits to a screen that was slid to: it is laid out in the same window, and nothing is under
    /// the pointer.
    pub fn navigated(&mut self, to: Screen)
        requires
            old(self).wf(),
            layout::screen_is_of(to, old(self).model.groups@),
            layout::natural_height(
                layout::screen_elems(old(self).model.groups@, to),
                old(self).width as int,
                old(self).dpi as int,
            ) <= i32::MAX,
        ensures
            final(self).wf(),
            final(self).model == (Model { screen: to, ..old(self).model }),
            final(self).hit == no_interaction(),
            final(self).width == old(self).width,
            final(self).height == old(self).height,
            final(self).dpi == old(self).dpi,
            final(self).item == old(self).item,
            layout::is_laid_out(
                final(self).elems@,
                layout::laid_height(
                    layout::screen_elems(old(self).model.groups@, to),
                    old(self).width as int,
                    old(self).dpi as int,
                    old(self).height as int,
                ),
                layout::screen_elems(old(self).model.groups@, to),
                old(self).width as int,
                old(self).dpi as int,
                old(self).height as int,
            ),
    {
        let (elems, _total): (Vec<LaidElem>, i32) = layout::build_view(
            &self.model,
            self.dpi,
            self.width,
            to,
            self.height,
        );
        proof {
            lemma_laid_elems_are_of(
                elems@,
                _total as int,
                &self.model.groups,
                to,
                self.width as int,
                self.dpi as int,
                self.height as int,
            );
        }
        self.model.screen = to;
        self.elems = elems;
        self.hit = Interaction::default();
    }

    /// Takes over what was read anew of each group's default. Nothing is done during a drag, so that
    /// it never fights the user's own slider. A change of mute has everything painted, since it
    /// swaps a glyph; a change of volume only what moves.
    pub fn volumes_read(&mut self, readings: &[Option<VolumeReading>]) -> (r: Reply)
        requires
            old(self).wf(),
            readings@.len() == old(self).model.groups@.len(),
        ensures
            final(self).wf(),
            final(self).same_frame(old(self)),
            final(self).hit == old(self).hit,
            same_but_groups(old(self).model, final(self).model),
            final(self).model.groups@.len() == old(self).model.groups@.len(),
            forall|g: int|
                0 <= g < old(self).model.groups@.len() ==> {
                    let was = old(self).model.groups@[g];
                    &&& (#[trigger] final(self).model.groups@[g]).flow == was.flow
                    &&& final(self).model.groups@[g].title == was.title
                    &&& final(self).model.groups@[g].default_id == was.default_id
                    &&& final(self).model.groups@[g].devices == was.devices
                    &&& final(self).model.groups@[g].muted == (if old(self).hit.drag is Some {
                        was.muted
                    } else {
                        mute_after(was.muted, readings@[g])
                    })
                },
            ({
                let n = readings@.len() as int;
                r == (if old(self).hit.drag is Some {
                    Reply::Nothing
                } else if any_mute_flip(old(self).model.groups@, readings@, n) {
                    Reply::Render
                } else if any_moved(readings@, n) {
                    Reply::Compose
                } else {
                    Reply::Nothing
                })
            }),
    {
        if self.hit.drag.is_some() {
            return Reply::Nothing;
        }
        let mut moved = false;
        let mut flipped = false;
        let n: usize = readings.len();
        let mut g: usize = 0;
        let ghost was = old(self).model;
        while g < n
            invariant
                g <= n,
                n == readings@.len(),
                n == was.groups@.len(),
                was == old(self).model,
                old(self).hit.drag is None,
                self.same_frame(old(self)),
                self.hit == old(self).hit,
                same_but_groups(was, self.model),
                self.model.groups@.len() == n,
                forall|k: int|
                    0 <= k < n ==> {
                        &&& (#[trigger] self.model.groups@[k]).flow == was.groups@[k].flow
                        &&& self.model.groups@[k].title == was.groups@[k].title
                        &&& self.model.groups@[k].default_id == was.groups@[k].default_id
                        &&& self.model.groups@[k].devices == was.groups@[k].devices
                        &&& self.model.groups@[k].muted == (if k < g {
                            mute_after(was.groups@[k].muted, readings@[k])
                        } else {
                            was.groups@[k].muted
                        })
                    },
                moved == any_moved(readings@, g as int),
                flipped == any_mute_flip(was.groups@, readings@, g as int),
            decreases n - g,
        {
            if let Some(reading) = readings[g] {
                if reading.moved {
                    moved = true;
                }
                if reading.muted != self.model.groups[g].muted {
                    flipped = true;
                    let muted = reading.muted;
                    set_muted(&mut self.model, g, muted);
                }
            }
            g = g + 1;
        }
        proof {
            assert(same_shape(old(self).model.groups@, self.model.groups@));
            lemma_same_devices_keep_elems(
                self.elems@,
                old(self).model.groups@,
                self.model.groups@,
            );
        }
        if flipped {
            Reply::Render
        } else if moved {
            Reply::Compose
        } else {
            Reply::Nothing
        }
    }
}

/// Whether a group is muted after a reading of its default.
pub open spec fn mute_after(was: bool, reading: Option<VolumeReading>) -> bool {
    match reading {
        Some(r) => r.muted,
        None => was,
    }
}

/// Whether one of the first `n` readings has another mute than is shown.
pub open spec fn any_mute_flip(groups: Seq<Group>, readings: Seq<Option<VolumeReading>>, n: int) -> bool
    decreases n,
{
    n > 0 && (any_mute_flip(groups, readings, n - 1) || mute_after(
        groups[n - 1].muted,
        readings[n - 1],
    ) != groups[n - 1].muted)
}

/// Whether one of the first `n` readings has another volume than is shown.
pub open spec fn any_moved(readings: Seq<Option<VolumeReading>>, n: int) -> bool
    decreases n,
{
    n > 0 && (any_moved(readings, n - 1) || (readings[n - 1] matches Some(r) && r.moved))
}

/// A click on an icon's cell in a device's picker chooses that icon for that device, and goes back
/// to the main panel.
pub proof fn law_a_picked_icon_is_the_devices(
    p: Panel,
    i: int,
    mx: int,
    my: int,
    model: Model,
    was: Config,
    config: Config,
    k: int,
)
    requires
        p.wf(),
        0 <= i < p.elems@.len(),
        p.elems@[i].elem is IconGrid,
        p.chip_under(i, mx, my) == Some(k),
        click_effect(p, i, mx, my, model, was, config),
    ensures
        ({
            let (group, dev) = (
                p.elems@[i].elem->IconGrid_group as int,
                p.elems@[i].elem->IconGrid_dev as int,
            );
            &&& 0 <= group < model.groups@.len()
            &&& 0 <= dev < model.groups@[group].devices@.len()
            &&& model.groups@[group].devices@[dev].icon == IconId::ALL@[k]
            &&& config.choice(model.groups@[group].devices@[dev].id.0@) == Some(IconId::ALL@[k])
            &&& model.config_changed
            &&& click_reply(p, i, mx, my) == (Reply::Navigate {
                to: Screen::Main,
                forward: false,
                save: true,
            })
        }),
{
    assert(layout::elem_is_of(p.elems@[i].elem, p.model.groups@));
}

/// A click that is neither on an entry of the footer nor outside the panel leaves it open, and the
/// empty middle of the footer does nothing at all.
pub proof fn law_only_the_footer_closes(p: Panel, i: int, mx: int, my: int)
    requires
        0 <= i < p.elems@.len(),
        !(p.elems@[i].elem is Footer) || p.action_under(mx) is None,
    ensures
        !(click_reply(p, i, mx, my) is Close),
        !(click_reply(p, i, mx, my) is SoundSettings),
        p.elems@[i].elem is Footer ==> click_reply(p, i, mx, my) is Nothing,
{
}

/// Choosing the device that already is the default does nothing: it is neither switched to nor
/// reported. Its pencil still opens its icons, and that changes nothing either.
pub proof fn law_the_default_is_not_switched_again(
    p: Panel,
    i: int,
    mx: int,
    my: int,
    model: Model,
    was: Config,
    config: Config,
)
    requires
        click_effect(p, i, mx, my, model, was, config),
        0 <= i < p.elems@.len(),
        p.elems@[i].elem matches Elem::Device { group, dev } && crate::audio::id_view(
            p.model.groups@[group as int].default_id,
        ) == Some(p.model.groups@[group as int].devices@[dev as int].id.0@),
    ensures
        click_reply(p, i, mx, my) is Navigate || click_reply(p, i, mx, my) is Nothing,
        click_reply(p, i, mx, my) is Navigate <==> layout::is_over_pencil(
            p.width as int,
            p.dpi as int,
            mx,
        ),
        model == p.model,
        config == was,
{
}

/// A press or a drag on a slider's track sets the level in proportion to where the pointer is: as far along
/// the track as its column, and not before the track's beginning or past its end.
pub proof fn law_the_slider_sets_where_the_pointer_is(width: i32, dpi: u32, mx: i32)
    requires
        layout::valid_dpi(dpi),
        96 * width > (theme::TRACK_X0 + theme::VALUE_W) * dpi,
    ensures
        ({
            let (x0, x1) = (theme::TRACK_X0 * dpi, 96 * width - theme::VALUE_W * dpi);
            let level = level_at(width, dpi, mx);
            &&& level.whole == x1 - x0
            &&& x0 <= 96 * mx <= x1 ==> level.part == 96 * mx - x0
            &&& 96 * mx < x0 ==> level.part == 0
            &&& 96 * mx > x1 ==> level.part == level.whole
        }),
{
    layout::law_a_level_is_proportional(width as int, dpi, mx as int);
    layout::lemma_span_bounds(theme::TRACK_X0 as int, dpi as int);
    layout::lemma_span_bounds(theme::VALUE_W as int, dpi as int);
}

/// Each entry of the footer does what it says and nothing else: to quit ends the program, the two restarts
/// are asked for, and the sound settings are opened. Every one of them closes the panel, and none changes
/// the configuration.
pub proof fn law_each_footer_entry_does_its_own(
    p: Panel,
    i: int,
    mx: int,
    my: int,
    model: Model,
    was: Config,
    config: Config,
)
    requires
        0 <= i < p.elems@.len(),
        p.elems@[i].elem is Footer,
        p.action_under(mx) is Some,
        click_effect(p, i, mx, my, model, was, config),
    ensures
        ({
            let action = p.action_under(mx)->Some_0;
            &&& click_reply(p, i, mx, my) == (if action == ActionKind::SoundSettings {
                Reply::SoundSettings
            } else {
                Reply::Close
            })
            &&& model.quit == (p.model.quit || action == ActionKind::Quit)
            &&& model.restart == (p.model.restart || action == ActionKind::Restart)
            &&& model.restart_explorer == (p.model.restart_explorer || action
                == ActionKind::RestartExplorer)
            &&& model.groups == p.model.groups
            &&& model.config_changed == p.model.config_changed
            &&& model.output_changed == p.model.output_changed
            &&& config == was
        }),
{
}

/// A click on a device's row makes that device the default, or opens its own icons where it is on the
/// pencil; a click on the way back of the picker's header leads to the main panel, and beside it to
/// nothing.
pub proof fn law_a_click_is_about_what_is_under_it(p: Panel, i: int, mx: int, my: int)
    requires
        0 <= i < p.elems@.len(),
    ensures
        p.elems@[i].elem matches Elem::Device { group, dev } ==> {
            let pencil = layout::is_over_pencil(p.width as int, p.dpi as int, mx);
            let g = p.model.groups@[group as int];
            let is_default = g.default_id matches Some(id) && id.0@ == g.devices@[dev as int].id.0@;
            click_reply(p, i, mx, my) == (if pencil {
                Reply::Navigate {
                    to: Screen::IconPicker { group, dev },
                    forward: true,
                    save: false,
                }
            } else if is_default {
                Reply::Nothing
            } else {
                Reply::Switch { group, dev }
            })
        },
        p.elems@[i].elem is PickerHeader ==> click_reply(p, i, mx, my) == (if layout::is_over_back(
            p.dpi as int,
            mx,
        ) {
            Reply::Navigate { to: Screen::Main, forward: false, save: false }
        } else {
            Reply::Nothing
        }),
        p.elems@[i].elem is Header || p.elems@[i].elem is Slider ==> click_reply(p, i, mx, my)
            is Nothing,
{
}

/// A press on a slider's glyph turns the mute of that group round, and of no other; and turning it round
/// twice changes nothing.
pub proof fn law_the_glyph_turns_the_mute_round(was: Panel, mx: i32, my: i32, is: Panel, r: Reply, g: int)
    requires
        was.wf(),
        button_pressed(was, mx, my, is, r),
        was.elem_under(mx as int, my as int) matches Some(i) && was.elems@[i].elem matches Elem::Slider {
            group,
        } && was.model.groups@[group as int].default_id is Some,
        96 * mx < 46 * was.dpi,
        0 <= g < was.model.groups@.len(),
    ensures
        ({
            let i = was.elem_under(mx as int, my as int)->Some_0;
            let group = was.elems@[i].elem->Slider_group as int;
            &&& r == (Reply::SetMuted {
                group: group as usize,
                muted: !was.model.groups@[group].muted,
            })
            &&& is.model.groups@[g].muted == (if g == group {
                !was.model.groups@[g].muted
            } else {
                was.model.groups@[g].muted
            })
            &&& is.model.groups@[g].devices == was.model.groups@[g].devices
            &&& is.hit.drag == was.hit.drag
        }),
{
    let i = was.elem_under(mx as int, my as int)->Some_0;
    layout::law_the_element_in_whose_band_it_is_answers(was.elems@, my as int);
    assert(layout::elem_is_of(was.elems@[i].elem, was.model.groups@));
    layout::law_small_targets_answer_where_they_are(was.width as int, was.dpi as int, mx as int);
}

/// A press on a slider's track starts a drag of that slider and sets its level at once; a press outside the
/// panel closes it and does nothing else.
pub proof fn law_a_press_on_the_track_drags(was: Panel, mx: i32, my: i32, is: Panel, r: Reply)
    requires
        was.wf(),
        button_pressed(was, mx, my, is, r),
    ensures
        was.elem_under(mx as int, my as int) matches Some(i) ==> (was.elems@[i].elem matches Elem::Slider {
            group,
        } ==> 96 * mx >= 46 * was.dpi ==> r == (Reply::SetLevel {
            group,
            level: level_at(was.width, was.dpi, mx),
        }) && is.hit.drag == Some(i as usize) && is.model == was.model),
        !(0 <= mx < was.width && 0 <= my < was.height) ==> r == Reply::Close && is.model == was.model
            && is.hit == was.hit,
{
    layout::law_small_targets_answer_where_they_are(was.width as int, was.dpi as int, mx as int);
}

/// Letting go ends a drag, and sounds the new volume where it was an output's; nothing else is done by it,
/// wherever the pointer is.
pub proof fn law_letting_go_ends_a_drag(
    was: Panel,
    config: Config,
    mx: i32,
    my: i32,
    is: Panel,
    config_after: Config,
    r: Reply,
)
    requires
        was.wf(),
        was.hit.drag is Some,
        button_released(was, config, mx, my, is, config_after, r),
    ensures
        is.hit.drag is None,
        is.model == was.model,
        config_after == config,
        ({
            let group = was.elems@[was.hit.drag->Some_0 as int].elem->Slider_group as int;
            r == (match was.model.groups@[group].flow {
                Flow::Output => Reply::Beep,
                Flow::Input => Reply::Nothing,
            })
        }),
{
}

/// Once a device has become its group's default, exactly the rows with its id are marked in that group; the
/// other group is untouched; and that the output was switched is reported exactly where it was the output's.
pub proof fn law_only_the_new_default_is_marked(
    was: Model,
    is: Model,
    group: int,
    dev: int,
    muted: bool,
    g: int,
    d: int,
)
    requires
        default_switched(was, is, group, dev, muted),
        0 <= group < was.groups@.len(),
        0 <= dev < was.groups@[group].devices@.len(),
        0 <= g < was.groups@.len(),
        0 <= d < was.groups@[g].devices@.len(),
    ensures
        g == group ==> is.groups@[g].devices@[d].selected == (was.groups@[g].devices@[d].id.0@
            == was.groups@[group].devices@[dev].id.0@),
        is.groups@[group].devices@[dev].selected,
        is.groups@[group].default_id matches Some(id) && id.0@ == was.groups@[group].devices@[dev].id.0@,
        g != group ==> is.groups@[g] == was.groups@[g],
        is.groups@[g].devices@[d].icon == was.groups@[g].devices@[d].icon,
        is.groups@[g].devices@[d].label == was.groups@[g].devices@[d].label,
        is.output_changed == (was.output_changed || was.groups@[group].flow == Flow::Output),
        is.config_changed == was.config_changed && is.quit == was.quit,
{
    assert(is.groups@[group].devices@[dev].selected);
    if g == group {
        assert(is.groups@[g].devices@[d].selected == (was.groups@[g].devices@[d].id.0@
            == was.groups@[group].devices@[dev].id.0@));
    }
}

/// The point of a mouse message is its two half words, the lower one first, each as a signed number.
pub proof fn law_a_half_word_is_signed(v: int)
    requires
        0 <= v < 65536,
    ensures
        -32768 <= signed_half(v) < 32768,
        signed_half(v) == v || signed_half(v) == v - 65536,
{
}

/// A mute that was read anew is taken over, and one that could not be read stays. Everything is painted
/// exactly where one of them differs from what is shown; what moves, where a volume does.
pub proof fn law_a_new_mute_is_painted(groups: Seq<Group>, readings: Seq<Option<VolumeReading>>, n: int)
    requires
        0 <= n <= readings.len(),
        n <= groups.len(),
    ensures
        any_mute_flip(groups, readings, n) <==> exists|g: int|
            0 <= g < n && (#[trigger] readings[g] matches Some(r) && r.muted != groups[g].muted),
        any_moved(readings, n) <==> exists|g: int|
            0 <= g < n && (#[trigger] readings[g] matches Some(r) && r.moved),
        forall|g: int|
            0 <= g < n ==> mute_after(groups[g].muted, #[trigger] readings[g]) == (match readings[g] {
                Some(r) => r.muted,
                None => groups[g].muted,
            }),
    decreases n,
{
    if n > 0 {
        law_a_new_mute_is_painted(groups, readings, n - 1);
        if any_mute_flip(groups, readings, n) && !any_mute_flip(groups, readings, n - 1) {
            assert(readings[n - 1] matches Some(r) && r.muted != groups[n - 1].muted);
        }
        if any_moved(readings, n) && !any_moved(readings, n - 1) {
            assert(readings[n - 1] matches Some(r) && r.moved);
        }
    }
}

/// The pointer hovers over what is under it: the element in whose band it is, and on it the pencil, the way
/// back, the icon's cell or the footer's entry; outside the panel it hovers over nothing.
pub proof fn law_the_pointer_hovers_over_what_is_under_it(p: Panel, mx: int, my: int)
    requires
        p.wf(),
    ensures
        ({
            let h = p.hovering(mx, my);
            &&& !(0 <= mx < p.width && 0 <= my < p.height) ==> h.hover is None
            &&& h.hover is None ==> !h.hover_pencil && !h.hover_back && h.hover_chip is None
                && h.hover_action is None
            &&& h.hover matches Some(i) ==> {
                let le = p.elems@[i as int];
                &&& i < p.elems@.len()
                &&& le.top <= my < le.top + le.height
                &&& h.hover_pencil <==> le.elem is Device && layout::is_over_pencil(
                    p.width as int,
                    p.dpi as int,
                    mx,
                )
                &&& h.hover_back <==> le.elem is PickerHeader && layout::is_over_back(p.dpi as int, mx)
                &&& h.hover_action is Some ==> le.elem is Footer
                &&& h.hover_chip is Some ==> le.elem is IconGrid
            }
        }),
{
    layout::law_the_element_in_whose_band_it_is_answers(p.elems@, my);
    assert(p.elems.len() == p.elems@.len());
}

/// The escape key, a right press outside the panel, and losing the pointer to another window close the panel;
/// another key and a right press inside do nothing. None of them changes anything.
pub proof fn law_what_dismisses_the_panel(
    was: Panel,
    config: Config,
    event: Event,
    is: Panel,
    config_after: Config,
    r: Reply,
)
    requires
        event_answered(was, config, event, is, config_after, r),
        event is RightButtonDown || event is KeyDown || event is LostCapture,
    ensures
        is == was,
        config_after == config,
        r is Close || r is Nothing,
        event is LostCapture ==> r is Close,
        event matches Event::KeyDown { escape } ==> (r is Close <==> escape),
        event matches Event::RightButtonDown { x, y } ==> (r is Close <==> !(0 <= x < was.width && 0 <= y
            < was.height)),
{
}

/// A click that picks an icon changes nothing but that device's icon: every other device keeps its own, on the
/// panel and in the configuration.
pub proof fn law_a_pick_changes_one_device(
    p: Panel,
    i: int,
    mx: int,
    my: int,
    model: Model,
    was: Config,
    config: Config,
    g: int,
    d: int,
    other: Seq<char>,
)
    requires
        p.wf(),
        0 <= i < p.elems@.len(),
        p.elems@[i].elem is IconGrid,
        p.chip_under(i, mx, my) is Some,
        click_effect(p, i, mx, my, model, was, config),
        0 <= g < p.model.groups@.len(),
        0 <= d < p.model.groups@[g].devices@.len(),
    ensures
        ({
            let (group, dev) = (
                p.elems@[i].elem->IconGrid_group as int,
                p.elems@[i].elem->IconGrid_dev as int,
            );
            &&& !(g == group && d == dev) ==> model.groups@[g].devices@[d] == p.model.groups@[g].devices@[d]
            &&& model.groups@[g].muted == p.model.groups@[g].muted
            &&& model.groups@[g].default_id == p.model.groups@[g].default_id
            &&& other != p.model.groups@[group].devices@[dev].id.0@ ==> config.choice(other) == was.choice(
                other,
            )
            &&& model.quit == p.model.quit && model.restart == p.model.restart && model.output_changed
                == p.model.output_changed
        }),
{
    let row = model.groups@[g].devices@[d];
}

/// What the pointer is over in a footer or in a picker's grid is what answers there, and a press or a drag
/// under way goes on as it was.
pub proof fn law_hovering_finds_what_a_click_would(p: Panel, mx: int, my: int)
    requires
        p.wf(),
        p.elem_under(mx, my) is Some,
    ensures
        ({
            let h = p.hovering(mx, my);
            let i = p.elem_under(mx, my)->Some_0;
            &&& h.hover == Some(i as usize)
            &&& p.elems@[i].elem is Footer ==> h.hover_action == layout::footer_at(
                p.model.update is Some,
                p.width as int,
                p.dpi as int,
                p.item.down as int,
                mx,
            )
            &&& p.elems@[i].elem is IconGrid ==> h.hover_chip == as_index(
                layout::chip_at(p.width as int, p.dpi as int, mx, my, p.elems@[i].top as int),
            )
            &&& h.drag == p.hit.drag
            &&& h.pending == p.hit.pending
        }),
{
}

} // verus!
