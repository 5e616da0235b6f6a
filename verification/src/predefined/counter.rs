//! A counting widget: two buttons adjust a value, a text displays it.

use vstd::prelude::*;
use vstd::string::StrSliceExecFns;
use vstd::string::StringExecFns;

use crate::component::{RawComponent, DIM_CAP};
use crate::easy_component::{
    layout_model, lemma_heights_max_congruent, lemma_heights_sum_congruent,
    lemma_widths_max_congruent, lemma_widths_sum_congruent, Component, HoveredStatus, Layout,
    LayoutModel,
};
use crate::predefined::basic::{BasicComponent, BasicModel};
use crate::predefined::button::PressedEvent;
use crate::predefined::text::TextModel;
use crate::shape::Vec2;

verus! {

broadcast use vstd::string::group_string_axioms;

/// The digit character for a value between `0` and `9`.
pub open spec fn digit_char(d: int) -> char {
    if d == 0 {
        '0'
    } else if d == 1 {
        '1'
    } else if d == 2 {
        '2'
    } else if d == 3 {
        '3'
    } else if d == 4 {
        '4'
    } else if d == 5 {
        '5'
    } else if d == 6 {
        '6'
    } else if d == 7 {
        '7'
    } else if d == 8 {
        '8'
    } else {
        '9'
    }
}

/// The decimal representation of a non-negative value, most significant
/// digit first.
pub open spec fn decimal_spec(v: int) -> Seq<char>
    decreases v,
{
    if v < 10 {
        seq![digit_char(v)]
    } else {
        decimal_spec(v / 10).push(digit_char(v % 10))
    }
}

/// The one-character string for a digit.
fn digit_str(d: u64) -> (r: &'static str)
    requires
        d < 10,
    ensures
        r@ == seq![digit_char(d as int)],
{
    proof {
        reveal_strlit("0");
        reveal_strlit("1");
        reveal_strlit("2");
        reveal_strlit("3");
        reveal_strlit("4");
        reveal_strlit("5");
        reveal_strlit("6");
        reveal_strlit("7");
        reveal_strlit("8");
        reveal_strlit("9");
    }
    let r: &'static str = match d {
        0 => "0",
        1 => "1",
        2 => "2",
        3 => "3",
        4 => "4",
        5 => "5",
        6 => "6",
        7 => "7",
        8 => "8",
        _ => "9",
    };
    proof {
        assert(r@ =~= seq![digit_char(d as int)]);
    }
    r
}

/// Appends the decimal representation of `v` to `out`.
fn push_decimal(out: &mut String, v: u64)
    ensures
        final(out)@ == old(out)@ + decimal_spec(v as int),
    decreases v,
{
    if v >= 10 {
        push_decimal(out, v / 10);
    }
    let d: u64 = v % 10;
    out.append(digit_str(d));
    proof {
        if v >= 10 {
            assert(old(out)@ + decimal_spec(v as int) =~= old(out)@ + decimal_spec(
                v as int / 10,
            ) + seq![digit_char(v as int % 10)]);
        } else {
            assert(old(out)@ + decimal_spec(v as int) =~= old(out)@ + seq![
                digit_char(v as int),
            ]);
        }
    }
}

/// The decimal representation of a value, most significant digit first.
pub fn format_decimal(v: u64) -> (r: String)
    ensures
        r@ == decimal_spec(v as int),
{
    let mut out: String = String::new();
    push_decimal(&mut out, v);
    proof {
        assert(Seq::<char>::empty() + decimal_spec(v as int) =~= decimal_spec(v as int));
    }
    out
}

/// A component that counts clicks: its first child decrements the value,
/// its second child increments it, saturating at the ends of the machine
/// range, and its third child displays it.
///
/// The displayed text is refreshed when the new value has as many digits
/// as the displayed one: event handling must keep the widget's extent
/// settled, as the component contract demands, and the label's width
/// follows its character count.  A label wide enough for the values in
/// play is thus always current.
pub struct CounterComponent {
    /// The counted value.
    pub value: u64,
}

/// The layout after the counter's label caught up with the value `v`:
/// in a row of at least three children whose third is a text of the same
/// character count as `v`'s decimal representation, that text now shows
/// `v`; any other arrangement is left alone.
pub open spec fn counter_label_update(
    layout: LayoutModel<BasicModel>,
    v: int,
) -> LayoutModel<BasicModel> {
    match layout {
        LayoutModel::HorizontalBox(cs) => {
            if 3 <= cs.len() {
                match cs[2] {
                    BasicModel::Text(t) => {
                        if decimal_spec(v).len() == t.text.len() {
                            LayoutModel::HorizontalBox(
                                cs.update(
                                    2,
                                    BasicModel::Text(
                                        TextModel { text: decimal_spec(v), font: t.font, em: t.em },
                                    ),
                                ),
                            )
                        } else {
                            LayoutModel::HorizontalBox(cs)
                        }
                    },
                    _ => LayoutModel::HorizontalBox(cs),
                }
            } else {
                LayoutModel::HorizontalBox(cs)
            }
        },
        _ => layout,
    }
}

/// The counter's value after a click on child `child_id`, saturating at
/// the ends of the machine range.
pub open spec fn counter_step(value: u64, child_id: usize) -> u64 {
    if child_id == 0 {
        if value == 0 {
            0u64
        } else {
            (value - 1) as u64
        }
    } else if child_id == 1 {
        if value == u64::MAX {
            u64::MAX
        } else {
            (value + 1) as u64
        }
    } else {
        value
    }
}

impl Component<BasicComponent> for CounterComponent {
    type EmittedEvent = PressedEvent;

    type ReceivedEvent = PressedEvent;

    /// A counter is modelled by its value.
    type Model = u64;

    open spec fn model(&self) -> u64 {
        self.value
    }

    open spec fn wf(m: u64) -> bool {
        true
    }

    /// A counter declares no dimensions.
    open spec fn dims_spec(m: u64) -> Option<Vec2> {
        None
    }

    /// A counter declares no bounding box.
    open spec fn bbox_spec(m: u64) -> Option<(Vec2, Vec2)> {
        None
    }

    /// Hover notifications change nothing.
    open spec fn hovered_spec(m: u64, status: HoveredStatus) -> u64 {
        m
    }

    /// A click on child `0` decrements the value, one on child `1`
    /// increments it, the label catches up, and nothing is reported
    /// further.
    open spec fn handle_spec(
        m: u64,
        layout: LayoutModel<BasicModel>,
        child_id: usize,
        event: PressedEvent,
    ) -> (u64, LayoutModel<BasicModel>, Option<PressedEvent>) {
        let v2 = counter_step(m, child_id);
        (v2, counter_label_update(layout, v2 as int), None)
    }

    proof fn lemma_hovered_preserves_wf(m: u64, status: HoveredStatus) {
    }

    proof fn lemma_handle_preserves_wf(
        m: u64,
        layout: LayoutModel<BasicModel>,
        child_id: usize,
        event: PressedEvent,
    ) {
        let v2 = counter_step(m, child_id) as int;
        let lm2 = counter_label_update(layout, v2);
        match layout {
            LayoutModel::HorizontalBox(cs) => {
                if 3 <= cs.len() {
                    match cs[2] {
                        BasicModel::Text(t) => {
                            if decimal_spec(v2).len() == t.text.len() {
                                let t2 = TextModel {
                                    text: decimal_spec(v2),
                                    font: t.font,
                                    em: t.em,
                                };
                                let cs2 = cs.update(2, BasicModel::Text(t2));
                                assert(<BasicComponent as RawComponent<
                                    PressedEvent,
                                >>::width_spec(cs2[2]) == <BasicComponent as RawComponent<
                                    PressedEvent,
                                >>::width_spec(cs[2]));
                                assert(forall|i: int|
                                    0 <= i < cs2.len() ==> <BasicComponent as RawComponent<
                                        PressedEvent,
                                    >>::width_spec(#[trigger] cs2[i]) == <BasicComponent as RawComponent<
                                        PressedEvent,
                                    >>::width_spec(cs[i]) && <BasicComponent as RawComponent<
                                        PressedEvent,
                                    >>::height_spec(cs2[i]) == <BasicComponent as RawComponent<
                                        PressedEvent,
                                    >>::height_spec(cs[i]) && <BasicComponent as RawComponent<
                                        PressedEvent,
                                    >>::wf(cs2[i]) == <BasicComponent as RawComponent<
                                        PressedEvent,
                                    >>::wf(cs[i]));
                                lemma_widths_sum_congruent::<PressedEvent, BasicComponent>(
                                    cs,
                                    cs2,
                                    cs.len() as int,
                                );
                                lemma_heights_sum_congruent::<PressedEvent, BasicComponent>(
                                    cs,
                                    cs2,
                                    cs.len() as int,
                                );
                                lemma_widths_max_congruent::<PressedEvent, BasicComponent>(
                                    cs,
                                    cs2,
                                    cs.len() as int,
                                );
                                lemma_heights_max_congruent::<PressedEvent, BasicComponent>(
                                    cs,
                                    cs2,
                                    cs.len() as int,
                                );
                            }
                        },
                        _ => {},
                    }
                }
            },
            _ => {},
        }
    }

    fn handle_child_event(
        &mut self,
        layout: &mut Layout<BasicComponent>,
        child_id: usize,
        event: PressedEvent,
    ) -> (r: Option<PressedEvent>) {
        let ghost m0 = self.value;
        let ghost lm0 = layout_model::<PressedEvent, BasicComponent>(*layout);
        let v2: u64 = if child_id == 0 {
            if self.value == 0 {
                0
            } else {
                self.value - 1
            }
        } else if child_id == 1 {
            if self.value == u64::MAX {
                u64::MAX
            } else {
                self.value + 1
            }
        } else {
            self.value
        };
        self.value = v2;
        let label = format_decimal(v2);
        match layout {
            Layout::HorizontalBox(children) => {
                let ghost cs = children@.map_values(|w: BasicComponent| w.model());
                if children.len() >= 3 {
                    proof {
                        assert(cs[2] == children@[2int].model());
                        assert(<BasicComponent as RawComponent<PressedEvent>>::wf(cs[2]));
                    }
                    match &mut children[2] {
                        BasicComponent::Text(t) => {
                            let same: bool = label.as_str().unicode_len()
                                == t.text.as_str().unicode_len();
                            if same {
                                proof {
                                    assert(t.em * label@.len() <= DIM_CAP);
                                }
                                t.set_text(label);
                            }
                        },
                        _ => {},
                    }
                }
                proof {
                    assert(children@.map_values(|w: BasicComponent| w.model())
                        =~= counter_label_update(lm0, v2 as int)->HorizontalBox_0);
                }
            },
            _ => {},
        }
        None
    }

    fn set_hovered_status(&mut self, status: HoveredStatus) {
    }

    fn get_dimensions(&self) -> (r: Option<Vec2>) {
        None
    }

    fn get_bounding_box(&self) -> (r: Option<(Vec2, Vec2)>) {
        None
    }
}

} // verus!
