//! The settings of the generator and of each tag, and the events that
//! change them.

use std::collections::HashMap;
use vstd::prelude::*;
use crate::geometry::{Ratio, Rect, RATIO_HALF, RATIO_MAX, RATIO_MIN};
use crate::layouts::{Layouts, TagData};
use crate::text::{
    after_first, before_first, parse_millionths, parse_u32, same_text, spec_parse_millionths,
    spec_parse_u32, split_at_first,
};

verus! {

/// Settings shared by all outputs and tags.
///
/// `gap` and `padding` are read at every layout; `ratio`, `nmaster` and
/// `default_layout` are only copied into the tags of an output when the
/// output appears.
#[derive(Debug, Clone, Copy, PartialEq, Eq, Structural)]
pub struct GlobalData {
    pub gap: u32,
    pub padding: u32,
    pub ratio: Ratio,
    pub nmaster: u32,
    pub default_layout: Layouts,
}

/// Whether a tag mask has the tag of number `index`, for the numbers from
/// 0 to 31.
pub open spec fn spec_has_tag(tag: u32, index: int) -> bool {
    0 <= index < 32 && (tag >> (index as u32)) & 1 == 1
}

/// Whether a tag mask has the tag of number `index`.
pub fn has_tag(tag: u32, index: usize) -> (has: bool)
    requires
        index < 32,
    ensures
        has == spec_has_tag(tag, index as int),
{
    (tag >> (index as u32)) & 1 == 1
}

/// The lowest tag of a mask that is not below `from`, if there is one.
pub open spec fn lowest_tag_from(tag: u32, from: int) -> Option<usize>
    decreases 32 - from,
{
    if from < 0 || from >= 32 {
        None
    } else if spec_has_tag(tag, from) {
        Some(from as usize)
    } else {
        lowest_tag_from(tag, from + 1)
    }
}

/// The lowest tag of a mask, if it has any.
pub open spec fn spec_tag_num(tag: u32) -> Option<usize> {
    lowest_tag_from(tag, 0)
}

/// The lowest tag of a mask: `None` for the empty mask.
pub fn tag_num(tag: u32) -> (lowest: Option<usize>)
    ensures
        lowest == spec_tag_num(tag),
        lowest is None <==> tag == 0,
        match lowest {
            Some(index) => spec_has_tag(tag, index as int) && forall|below: int|
                0 <= below < index ==> !spec_has_tag(tag, below),
            None => forall|index: int| !spec_has_tag(tag, index),
        },
{
    assert(tag == (tag >> 0u32) << 0u32) by (bit_vector);
    let mut i: usize = 0;
    while i < 32
        invariant
            i <= 32,
            lowest_tag_from(tag, i as int) == spec_tag_num(tag),
            forall|below: int| 0 <= below < i ==> !spec_has_tag(tag, below),
            i < 32 ==> tag == (tag >> (i as u32)) << (i as u32),
            i == 32 ==> tag == 0,
        decreases 32 - i,
    {
        if has_tag(tag, i) {
            let shift: u32 = i as u32;
            assert(tag != 0) by (bit_vector)
                requires
                    shift < 32,
                    (tag >> shift) & 1 == 1,
            ;
            return Some(i);
        }
        proof {
            let shift: u32 = i as u32;
            if shift < 31 {
                let next: u32 = (shift + 1) as u32;
                assert(tag == (tag >> next) << next) by (bit_vector)
                    requires
                        shift < 31,
                        next == shift + 1,
                        tag == (tag >> shift) << shift,
                        (tag >> shift) & 1 != 1,
                ;
            } else {
                assert(tag == 0) by (bit_vector)
                    requires
                        shift == 31,
                        tag == (tag >> shift) << shift,
                        (tag >> shift) & 1 != 1,
                ;
            }
        }
        i = i + 1;
    }
    None
}

/// The number that an argument of a command makes of the number `old`.
/// After a plus sign the rest is a number to add, after a minus sign one to
/// take away, and a rest that is no number counts as zero; neither leaves
/// the range of `u32`. Any other argument is the new number itself, or 1
/// where it is no number.
pub open spec fn spec_relative_u32(s: Seq<char>, old: u32) -> u32 {
    if s.len() > 0 && s[0] == '+' {
        let delta = match spec_parse_u32(s.skip(1)) {
            Some(delta) => delta,
            None => 0,
        };
        if old + delta > u32::MAX {
            u32::MAX
        } else {
            (old + delta) as u32
        }
    } else if s.len() > 0 && s[0] == '-' {
        let delta = match spec_parse_u32(s.skip(1)) {
            Some(delta) => delta,
            None => 0,
        };
        if old < delta {
            0
        } else {
            (old - delta) as u32
        }
    } else {
        match spec_parse_u32(s) {
            Some(number) => number,
            None => 1,
        }
    }
}

/// The number that an argument of a command makes of the number `old`:
/// `old` plus or minus the argument where it begins with a sign, else the
/// argument.
pub fn relative_u32(s: &str, old: u32) -> (number: u32)
    ensures
        number == spec_relative_u32(s@, old),
{
    let n: usize = s.unicode_len();
    if n > 0 && s.get_char(0) == '+' {
        let delta: u32 = match parse_u32(s.substring_char(1, n)) {
            Some(delta) => delta,
            None => 0,
        };
        if delta > u32::MAX - old {
            u32::MAX
        } else {
            old + delta
        }
    } else if n > 0 && s.get_char(0) == '-' {
        let delta: u32 = match parse_u32(s.substring_char(1, n)) {
            Some(delta) => delta,
            None => 0,
        };
        if old < delta {
            0
        } else {
            old - delta
        }
    } else {
        match parse_u32(s) {
            Some(number) => number,
            None => 1,
        }
    }
}

/// The ratio that an argument of a command makes of the ratio `old`, in
/// millionths and before it is brought into the range of a tag's ratio.
/// After a plus sign the rest is a numeral to add, after a minus sign one
/// to take away, and a rest that is no numeral counts as zero; neither
/// leaves the range of `u32`. Any other argument is the new ratio itself,
/// or one half where it is no numeral.
pub open spec fn spec_relative_ratio(s: Seq<char>, old: Ratio) -> Ratio {
    if s.len() > 0 && s[0] == '+' {
        let delta = match spec_parse_millionths(s.skip(1)) {
            Some(delta) => delta,
            None => 0,
        };
        if old.millionths + delta > u32::MAX {
            Ratio { millionths: u32::MAX }
        } else {
            Ratio { millionths: (old.millionths + delta) as u32 }
        }
    } else if s.len() > 0 && s[0] == '-' {
        let delta = match spec_parse_millionths(s.skip(1)) {
            Some(delta) => delta,
            None => 0,
        };
        if old.millionths < delta {
            Ratio { millionths: 0 }
        } else {
            Ratio { millionths: (old.millionths - delta) as u32 }
        }
    } else {
        match spec_parse_millionths(s) {
            Some(millionths) => Ratio { millionths },
            None => Ratio { millionths: RATIO_HALF },
        }
    }
}

/// The ratio that an argument of a command makes of the ratio `old`:
/// `old` plus or minus the argument where it begins with a sign, else the
/// argument.
pub fn relative_ratio(s: &str, old: Ratio) -> (ratio: Ratio)
    ensures
        ratio == spec_relative_ratio(s@, old),
{
    let n: usize = s.unicode_len();
    if n > 0 && s.get_char(0) == '+' {
        let delta: u32 = match parse_millionths(s.substring_char(1, n)) {
            Some(delta) => delta,
            None => 0,
        };
        if delta > u32::MAX - old.millionths {
            Ratio::new(u32::MAX)
        } else {
            Ratio::new(old.millionths + delta)
        }
    } else if n > 0 && s.get_char(0) == '-' {
        let delta: u32 = match parse_millionths(s.substring_char(1, n)) {
            Some(delta) => delta,
            None => 0,
        };
        if old.millionths < delta {
            Ratio::new(0)
        } else {
            Ratio::new(old.millionths - delta)
        }
    } else {
        match parse_millionths(s) {
            Some(millionths) => Ratio::new(millionths),
            None => Ratio::new(RATIO_HALF),
        }
    }
}

/// The settings of a tag that a command can change on several tags at once.
#[derive(Debug, Clone, Copy, PartialEq, Eq, Structural)]
pub enum TagSetting {
    /// The layout, chosen by its word.
    Layout,
    /// The share of the main area, kept between one tenth and nine tenths.
    MainRatio,
    /// The number of views in the main area, kept at one or more.
    MainCount,
}

impl TagSetting {
    /// The settings of a tag after a command has set `self` to `value`.
    pub open spec fn spec_apply(self, value: Seq<char>, tag: TagData) -> TagData {
        match self {
            TagSetting::Layout => TagData { layout: Layouts::spec_form_string(value), ..tag },
            TagSetting::MainRatio => TagData {
                ratio: spec_relative_ratio(value, tag.ratio).spec_clamped(),
                ..tag
            },
            TagSetting::MainCount => TagData {
                nmaster: if spec_relative_u32(value, tag.nmaster) < 1 {
                    1
                } else {
                    spec_relative_u32(value, tag.nmaster)
                },
                ..tag
            },
        }
    }

    /// The settings of a tag after a command has set `self` to `value`.
    pub fn apply(&self, value: &str, tag: TagData) -> (changed: TagData)
        ensures
            changed == self.spec_apply(value@, tag),
    {
        match self {
            TagSetting::Layout => TagData {
                layout: Layouts::form_string(value),
                nmaster: tag.nmaster,
                ratio: tag.ratio,
            },
            TagSetting::MainRatio => TagData {
                layout: tag.layout,
                nmaster: tag.nmaster,
                ratio: relative_ratio(value, tag.ratio).clamped(),
            },
            TagSetting::MainCount => {
                let count = relative_u32(value, tag.nmaster);
                TagData {
                    layout: tag.layout,
                    nmaster: if count < 1 {
                        1
                    } else {
                        count
                    },
                    ratio: tag.ratio,
                }
            },
        }
    }
}

/// The settings of the 32 tags of one output.
#[derive(Debug, Clone, Copy, PartialEq, Eq)]
pub struct Tags {
    pub tags: [TagData; 32],
}

impl View for Tags {
    type V = Seq<TagData>;

    open spec fn view(&self) -> Seq<TagData> {
        self.tags@
    }
}

impl Tags {
    /// The tags of a new output: each has the layout, the main count and
    /// the ratio that `global` holds for new tags.
    pub open spec fn spec_from_global(global: GlobalData) -> Seq<TagData> {
        Seq::new(
            32,
            |i: int|
                TagData {
                    layout: global.default_layout,
                    nmaster: global.nmaster,
                    ratio: global.ratio,
                },
        )
    }

    /// The tags of a new output.
    pub fn from_global(global: &GlobalData) -> (tags: Tags)
        ensures
            tags@ == Tags::spec_from_global(*global),
    {
        let tags = Tags {
            tags: [TagData::new(global.default_layout, global.nmaster, global.ratio);32],
        };
        assert(tags@ =~= Tags::spec_from_global(*global));
        tags
    }
}

/// The tags of an output after a command has set `setting` to `value` on
/// each tag of the mask `mask`: the other tags are as they were.
pub open spec fn spec_pertag(mask: u32, slots: Seq<TagData>, setting: TagSetting, value: Seq<char>)
    -> Seq<TagData> {
    Seq::new(
        slots.len(),
        |i: int|
            if spec_has_tag(mask, i) {
                setting.spec_apply(value, slots[i])
            } else {
                slots[i]
            },
    )
}

/// Sets `setting` to `value` on each tag of `slots` that the mask `tags`
/// has.
pub fn pertag(tags: u32, slots: &mut Tags, setting: TagSetting, value: &str)
    ensures
        final(slots)@ == spec_pertag(tags, old(slots)@, setting, value@),
{
    let mut tag: usize = 0;
    while tag < 32
        invariant
            tag <= 32,
            slots@.len() == 32,
            forall|i: int|
                0 <= i < tag ==> slots@[i] == spec_pertag(tags, old(slots)@, setting, value@)[i],
            forall|i: int| tag <= i < 32 ==> slots@[i] == old(slots)@[i],
        decreases 32 - tag,
    {
        if has_tag(tags, tag) {
            let changed = setting.apply(value, slots.tags[tag]);
            slots.tags[tag] = changed;
        }
        tag = tag + 1;
    }
    assert(slots@ =~= spec_pertag(tags, old(slots)@, setting, value@));
}

/// What the compositor sends to the layout object of an output.
#[derive(Debug, Clone, PartialEq, Eq)]
pub enum Event {
    /// Another client already generates layouts under this namespace.
    NamespaceInUse,
    /// The compositor asks where `view_count` views go, on an output
    /// whose usable area is `usable_width` by `usable_height` pixels and
    /// shows the tags of the mask `tags`. `serial` identifies the demand.
    LayoutDemand { view_count: u32, usable_width: u32, usable_height: u32, tags: u32, serial: u32 },
    /// The user sent a command to the generator.
    UserCommand { command: String },
    /// The tags that the commands which follow apply to.
    UserCommandTags { tags: u32 },
}

/// What the generator asks of the compositor.
#[derive(Debug, Clone, PartialEq, Eq)]
pub enum Request {
    /// Create the layout object of an output under a namespace.
    GetLayout { output: u32, namespace: String },
    /// The place of the next view of the demand `serial`.
    PushViewDimensions { x: i32, y: i32, width: u32, height: u32, serial: u32 },
    /// All views of the demand `serial` have their place, by the layout
    /// of this name.
    Commit { layout_name: String, serial: u32 },
}

/// A [`Request`] with the characters of its strings.
pub enum RequestView {
    GetLayout { output: u32, namespace: Seq<char> },
    PushViewDimensions { x: i32, y: i32, width: u32, height: u32, serial: u32 },
    Commit { layout_name: Seq<char>, serial: u32 },
}

impl View for Request {
    type V = RequestView;

    open spec fn view(&self) -> RequestView {
        match *self {
            Request::GetLayout { output, namespace } => RequestView::GetLayout {
                output,
                namespace: namespace@,
            },
            Request::PushViewDimensions {
                x,
                y,
                width,
                height,
                serial,
            } => RequestView::PushViewDimensions { x, y, width, height, serial },
            Request::Commit { layout_name, serial } => RequestView::Commit {
                layout_name: layout_name@,
                serial,
            },
        }
    }
}

/// What the operator should be told.
#[derive(Debug, Clone, PartialEq, Eq)]
pub enum Notice {
    /// The namespace is taken: this output gets no layouts from here.
    NamespaceInUse,
    /// A command asked for a layout by a word that names none; the tile
    /// layout was taken.
    UnknownLayout { name: String },
}

/// A [`Notice`] with the characters of its strings.
pub enum NoticeView {
    NamespaceInUse,
    UnknownLayout { name: Seq<char> },
}

impl View for Notice {
    type V = NoticeView;

    open spec fn view(&self) -> NoticeView {
        match *self {
            Notice::NamespaceInUse => NoticeView::NamespaceInUse,
            Notice::UnknownLayout { name } => NoticeView::UnknownLayout { name: name@ },
        }
    }
}

/// What an event calls for: the requests to send, in this order, and
/// what to tell the operator.
#[derive(Debug, Clone, PartialEq, Eq)]
pub struct Reaction {
    pub requests: Vec<Request>,
    pub notice: Option<Notice>,
}

/// A [`Reaction`] with the characters of its strings.
pub struct ReactionView {
    pub requests: Seq<RequestView>,
    pub notice: Option<NoticeView>,
}

impl View for Reaction {
    type V = ReactionView;

    open spec fn view(&self) -> ReactionView {
        ReactionView {
            requests: self.requests@.map_values(|request: Request| request@),
            notice: match self.notice {
                Some(notice) => Some(notice@),
                None => None,
            },
        }
    }
}

/// The kinds of global objects that a registry announces.
#[derive(Debug, Clone, Copy, PartialEq, Eq, Structural)]
pub enum Global {
    /// An output: to be bound, so that its name arrives.
    Output,
    /// The layout manager: to be bound and kept.
    LayoutManager,
    /// Anything else: of no interest.
    Other,
}

impl Global {
    /// The kind of the global object with this interface.
    pub open spec fn spec_of(interface: Seq<char>) -> Global {
        if interface == "wl_output"@ {
            Global::Output
        } else if interface == "river_layout_manager_v3"@ {
            Global::LayoutManager
        } else {
            Global::Other
        }
    }

    /// The kind of the global object with this interface.
    pub fn of(interface: &str) -> (kind: Global)
        ensures
            kind == Global::spec_of(interface@),
    {
        if same_text(interface, "wl_output") {
            Global::Output
        } else if same_text(interface, "river_layout_manager_v3") {
            Global::LayoutManager
        } else {
            Global::Other
        }
    }
}

/// The state of the generator: the shared settings, the tags that
/// commands apply to, the tags of each output that has been named, and
/// whether the layout manager has been bound.
#[derive(Debug)]
pub struct Layout {
    global: GlobalData,
    tags: u32,
    outputs: HashMap<u32, Tags>,
    manager: bool,
}

/// The state of the generator as a value.
pub struct LayoutView {
    /// The shared settings.
    pub global: GlobalData,
    /// The mask of the tags that commands apply to.
    pub tags: u32,
    /// The 32 tags of each output that has been named.
    pub outputs: Map<u32, Seq<TagData>>,
    /// Whether the layout manager has been bound.
    pub manager: bool,
}

/// The requests that place the views of a demand at `views`.
pub open spec fn spec_pushes(views: Seq<Rect>, serial: u32) -> Seq<RequestView> {
    views.map_values(
        |view: Rect|
            RequestView::PushViewDimensions {
                x: view.x,
                y: view.y,
                width: view.width,
                height: view.height,
                serial,
            },
    )
}

impl LayoutView {
    /// Whether each output that has been named has 32 tags, as every
    /// state of a generator does.
    pub open spec fn wf(self) -> bool {
        forall|output: u32|
            self.outputs.contains_key(output) ==> (#[trigger] self.outputs[output]).len() == 32
    }

    /// The tag that answers a demand for the tags of `tags` on `output`:
    /// the lowest tag of the mask, if the mask has one and the output has
    /// been named.
    pub open spec fn demanded_tag(self, output: u32, tags: u32) -> Option<TagData> {
        match spec_tag_num(tags) {
            Some(index) => if self.outputs.contains_key(output) {
                Some(self.outputs[output][index as int])
            } else {
                None
            },
            None => None,
        }
    }

    /// The requests that answer a layout demand. Where a tag answers it
    /// and its layout can be computed, they place each view in turn and
    /// then commit under the layout's name, all with the demand's serial.
    /// Else there are none.
    pub open spec fn demand(
        self,
        output: u32,
        view_count: u32,
        width: u32,
        height: u32,
        tags: u32,
        serial: u32,
    ) -> Seq<RequestView> {
        match self.demanded_tag(output, tags) {
            Some(tag) => if tag.layout_ok(view_count, width, height, self.global) {
                spec_pushes(tag.spec_layout(view_count, width, height, self.global), serial).push(
                    RequestView::Commit { layout_name: tag.layout.spec_name(), serial },
                )
            } else {
                Seq::empty()
            },
            None => Seq::empty(),
        }
    }

    /// The state after a command for `output`. A command for an output
    /// that has not been named changes nothing. Else the command is a
    /// verb, and behind its first space a value: `gap` and `padding` set
    /// the shared setting to the value, or to 8 where it is no number;
    /// `layout`, `main-ratio` and `main-count` change each tag of the
    /// output that commands apply to; any other verb changes nothing.
    pub open spec fn command(self, output: u32, command: Seq<char>) -> LayoutView {
        let verb = before_first(command, ' ');
        let value = after_first(command, ' ');
        if !self.outputs.contains_key(output) {
            self
        } else if verb == "gap"@ {
            LayoutView {
                global: GlobalData {
                    gap: match spec_parse_u32(value) {
                        Some(gap) => gap,
                        None => 8,
                    },
                    ..self.global
                },
                ..self
            }
        } else if verb == "padding"@ {
            LayoutView {
                global: GlobalData {
                    padding: match spec_parse_u32(value) {
                        Some(padding) => padding,
                        None => 8,
                    },
                    ..self.global
                },
                ..self
            }
        } else if verb == "layout"@ {
            self.with_setting(output, TagSetting::Layout, value)
        } else if verb == "main-ratio"@ {
            self.with_setting(output, TagSetting::MainRatio, value)
        } else if verb == "main-count"@ {
            self.with_setting(output, TagSetting::MainCount, value)
        } else {
            self
        }
    }

    /// The state after `setting` has been set to `value` on each tag of
    /// `output` that commands apply to.
    pub open spec fn with_setting(self, output: u32, setting: TagSetting, value: Seq<char>)
        -> LayoutView {
        LayoutView {
            outputs: self.outputs.insert(
                output,
                spec_pertag(self.tags, self.outputs[output], setting, value),
            ),
            ..self
        }
    }

    /// What to tell the operator of a command for `output`: that the
    /// word of a `layout` command names no layout, where the output has
    /// been named and the command applies to a tag.
    pub open spec fn command_notice(self, output: u32, command: Seq<char>) -> Option<NoticeView> {
        let verb = before_first(command, ' ');
        let value = after_first(command, ' ');
        if self.outputs.contains_key(output) && verb == "layout"@ && self.tags != 0
            && Layouts::spec_known(value) is None {
            Some(NoticeView::UnknownLayout { name: value })
        } else {
            None
        }
    }

    /// The state after an event for `output`.
    pub open spec fn after(self, output: u32, event: Event) -> LayoutView {
        match event {
            Event::NamespaceInUse => self,
            Event::LayoutDemand { .. } => self,
            Event::UserCommand { command } => self.command(output, command@),
            Event::UserCommandTags { tags } => LayoutView { tags, ..self },
        }
    }

    /// What an event for `output` calls for.
    pub open spec fn reaction(self, output: u32, event: Event) -> ReactionView {
        match event {
            Event::NamespaceInUse => ReactionView {
                requests: Seq::empty(),
                notice: Some(NoticeView::NamespaceInUse),
            },
            Event::LayoutDemand {
                view_count,
                usable_width,
                usable_height,
                tags,
                serial,
            } => ReactionView {
                requests: self.demand(
                    output,
                    view_count,
                    usable_width,
                    usable_height,
                    tags,
                    serial,
                ),
                notice: None,
            },
            Event::UserCommand { command } => ReactionView {
                requests: Seq::empty(),
                notice: self.command_notice(output, command@),
            },
            Event::UserCommandTags { .. } => ReactionView { requests: Seq::empty(), notice: None },
        }
    }
}

impl View for Layout {
    type V = LayoutView;

    closed spec fn view(&self) -> LayoutView {
        LayoutView {
            global: self.global,
            tags: self.tags,
            outputs: self.outputs@.map_values(|slots: Tags| slots@),
            manager: self.manager,
        }
    }
}

impl Layout {
    /// A generator with the given shared settings, whose commands apply
    /// to all tags, and which knows no output and no layout manager.
    pub fn new(global: GlobalData) -> (layout: Layout)
        ensures
            layout@ == (LayoutView {
                global,
                tags: u32::MAX,
                outputs: Map::empty(),
                manager: false,
            }),
    {
        let layout = Layout { global, tags: u32::MAX, outputs: HashMap::new(), manager: false };
        assert(layout@.outputs =~= Map::empty());
        layout
    }

    /// Each output of a generator has 32 tags.
    pub proof fn lemma_wf(&self)
        ensures
            self@.wf(),
    {
    }

    /// The shared settings.
    pub fn global(&self) -> (global: GlobalData)
        ensures
            global == self@.global,
    {
        self.global
    }

    /// The mask of the tags that commands apply to.
    pub fn selected_tags(&self) -> (tags: u32)
        ensures
            tags == self@.tags,
    {
        self.tags
    }

    /// Whether the layout manager has been bound.
    pub fn has_manager(&self) -> (bound: bool)
        ensures
            bound == self@.manager,
    {
        self.manager
    }

    /// The tags of an output, or `None` where the output has not been
    /// named.
    pub fn lookup(&self, output: u32) -> (found: Option<Tags>)
        ensures
            match found {
                Some(slots) => self@.outputs.contains_key(output) && slots@
                    == self@.outputs[output],
                None => !self@.outputs.contains_key(output),
            },
    {
        broadcast use vstd::std_specs::hash::group_hash_axioms;

        match self.outputs.get(&output) {
            Some(slots) => Some(*slots),
            None => None,
        }
    }

    /// Takes note of a global object that the registry announces, and
    /// says of which kind it is. Of the layout manager it keeps in mind
    /// that it is bound now.
    pub fn registry_global(&mut self, interface: &str) -> (kind: Global)
        ensures
            kind == Global::spec_of(interface@),
            final(self)@ == (LayoutView {
                manager: old(self)@.manager || kind == Global::LayoutManager,
                ..old(self)@
            }),
    {
        let kind = Global::of(interface);
        if kind == Global::LayoutManager {
            self.manager = true;
        }
        kind
    }

    /// Gives an output its 32 tags, each with the settings that the
    /// shared settings hold for new tags. An output that had tags gets new
    /// ones.
    pub fn register_output(&mut self, output: u32)
        ensures
            final(self)@ == (LayoutView {
                outputs: old(self)@.outputs.insert(
                    output,
                    Tags::spec_from_global(old(self)@.global),
                ),
                ..old(self)@
            }),
    {
        broadcast use vstd::std_specs::hash::group_hash_axioms;

        let slots = Tags::from_global(&self.global);
        self.outputs.insert(output, slots);
        assert(self@.outputs =~= old(self)@.outputs.insert(
            output,
            Tags::spec_from_global(old(self)@.global),
        ));
    }

    /// Takes note that an output has been named: the output gets its
    /// tags, and the request that comes back asks for its layout object.
    /// The layout manager must have been bound before.
    pub fn output_named(&mut self, output: u32) -> (request: Request)
        requires
            old(self)@.manager,
        ensures
            final(self)@ == (LayoutView {
                outputs: old(self)@.outputs.insert(
                    output,
                    Tags::spec_from_global(old(self)@.global),
                ),
                ..old(self)@
            }),
            request@ == (RequestView::GetLayout { output, namespace: "basic-layout"@ }),
    {
        self.register_output(output);
        Request::GetLayout { output, namespace: "basic-layout".to_owned() }
    }

    /// The requests that answer a layout demand.
    fn layout_demand(
        &self,
        output: u32,
        view_count: u32,
        width: u32,
        height: u32,
        tags: u32,
        serial: u32,
    ) -> (requests: Vec<Request>)
        ensures
            requests@.map_values(|request: Request| request@) == self@.demand(
                output,
                view_count,
                width,
                height,
                tags,
                serial,
            ),
    {
        broadcast use vstd::std_specs::hash::group_hash_axioms;

        let mut requests: Vec<Request> = Vec::new();
        let ghost wanted = self@.demand(output, view_count, width, height, tags, serial);
        let index: usize = match tag_num(tags) {
            Some(index) => index,
            None => {
                assert(requests@.map_values(|request: Request| request@) =~= wanted);
                return requests;
            },
        };
        let tag: TagData = match self.outputs.get(&output) {
            Some(slots) => slots.tags[index],
            None => {
                assert(requests@.map_values(|request: Request| request@) =~= wanted);
                return requests;
            },
        };
        assert(self@.demanded_tag(output, tags) == Some(tag));
        if !tag.can_layout(view_count, width, height, &self.global) {
            assert(requests@.map_values(|request: Request| request@) =~= wanted);
            return requests;
        }
        let views: Vec<Rect> = tag.layout(view_count, width, height, &self.global);
        let mut i: usize = 0;
        while i < views.len()
            invariant
                i <= views.len(),
                requests@.len() == i,
                requests@.map_values(|request: Request| request@) == spec_pushes(
                    views@.take(i as int),
                    serial,
                ),
            decreases views.len() - i,
        {
            let view: Rect = views[i];
            assert(views@.take(i + 1) =~= views@.take(i as int).push(view));
            let ghost before = requests@;
            assert(before.len() == i);
            requests.push(
                Request::PushViewDimensions {
                    x: view.x,
                    y: view.y,
                    width: view.width,
                    height: view.height,
                    serial,
                },
            );
            assert(requests@ =~= before.push(requests@[i as int]));
            assert(requests@.map_values(|request: Request| request@) =~= spec_pushes(
                views@.take(i as int),
                serial,
            ).push(requests@[i as int]@));
            assert(spec_pushes(views@.take(i + 1), serial) =~= spec_pushes(
                views@.take(i as int),
                serial,
            ).push(requests@[i as int]@));
            i = i + 1;
        }
        assert(views@.take(views.len() as int) =~= views@);
        requests.push(Request::Commit { layout_name: tag.layout.name(), serial });
        assert(requests@.map_values(|request: Request| request@) =~= wanted);
        requests
    }

    /// Carries out a command for an output, and says what to tell the
    /// operator of it.
    fn user_command(&mut self, output: u32, command: &str) -> (notice: Option<Notice>)
        ensures
            final(self)@ == old(self)@.command(output, command@),
            match notice {
                Some(notice) => Some(notice@),
                None => None,
            } == old(self)@.command_notice(output, command@),
    {
        broadcast use vstd::std_specs::hash::group_hash_axioms;

        let mut slots: Tags = match self.outputs.get(&output) {
            Some(slots) => *slots,
            None => { return None; },
        };
        let (verb, value) = split_at_first(command, ' ');
        proof {
            reveal_strlit("gap");
            reveal_strlit("padding");
            reveal_strlit("layout");
            assert("gap"@.len() != "layout"@.len());
            assert("padding"@.len() != "layout"@.len());
        }
        if same_text(verb, "gap") {
            self.global.gap = match parse_u32(value) {
                Some(gap) => gap,
                None => 8,
            };
            None
        } else if same_text(verb, "padding") {
            self.global.padding = match parse_u32(value) {
                Some(padding) => padding,
                None => 8,
            };
            None
        } else if same_text(verb, "layout") {
            self.set_on_tags(output, slots, TagSetting::Layout, value);
            if self.tags != 0 && Layouts::known(value).is_none() {
                Some(Notice::UnknownLayout { name: value.to_owned() })
            } else {
                None
            }
        } else if same_text(verb, "main-ratio") {
            self.set_on_tags(output, slots, TagSetting::MainRatio, value);
            None
        } else if same_text(verb, "main-count") {
            self.set_on_tags(output, slots, TagSetting::MainCount, value);
            None
        } else {
            None
        }
    }

    /// Sets `setting` to `value` on each tag of `output` that commands
    /// apply to; `slots` are the tags that the output has.
    fn set_on_tags(&mut self, output: u32, slots: Tags, setting: TagSetting, value: &str)
        requires
            old(self)@.outputs.contains_key(output),
            old(self)@.outputs[output] == slots@,
        ensures
            final(self)@ == old(self)@.with_setting(output, setting, value@),
    {
        broadcast use vstd::std_specs::hash::group_hash_axioms;

        let mut slots = slots;
        pertag(self.tags, &mut slots, setting, value);
        self.outputs.insert(output, slots);
        assert(self@.outputs =~= old(self)@.with_setting(output, setting, value@).outputs);
    }

    /// Handles an event that the layout object of `output` received:
    /// changes the state as the event says, and returns the requests to
    /// send and what to tell the operator.
    pub fn event(&mut self, output: u32, event: Event) -> (reaction: Reaction)
        ensures
            final(self)@ == old(self)@.after(output, event),
            reaction@ == old(self)@.reaction(output, event),
    {
        let reaction = match event {
            Event::NamespaceInUse => Reaction {
                requests: Vec::new(),
                notice: Some(Notice::NamespaceInUse),
            },
            Event::LayoutDemand { view_count, usable_width, usable_height, tags, serial } => {
                let requests = self.layout_demand(
                    output,
                    view_count,
                    usable_width,
                    usable_height,
                    tags,
                    serial,
                );
                Reaction { requests, notice: None }
            },
            Event::UserCommand { command } => {
                let notice = self.user_command(output, command.as_str());
                Reaction { requests: Vec::new(), notice }
            },
            Event::UserCommandTags { tags } => {
                self.tags = tags;
                Reaction { requests: Vec::new(), notice: None }
            },
        };
        assert(reaction@.requests =~= old(self)@.reaction(output, event).requests);
        reaction
    }
}

impl RequestView {
    /// The serial of the demand that a request answers, if it answers
    /// one.
    pub open spec fn serial(self) -> Option<u32> {
        match self {
            RequestView::GetLayout { .. } => None,
            RequestView::PushViewDimensions { serial, .. } => Some(serial),
            RequestView::Commit { serial, .. } => Some(serial),
        }
    }
}

/// A demand that no tag answers is met with silence: where the mask of
/// the demand is empty, or the output has not been named, no request is
/// sent.
pub proof fn lemma_demand_without_tag_is_silent(
    state: LayoutView,
    output: u32,
    view_count: u32,
    width: u32,
    height: u32,
    tags: u32,
    serial: u32,
)
    requires
        tags == 0 || !state.outputs.contains_key(output),
    ensures
        state.demand(output, view_count, width, height, tags, serial) == Seq::<
            RequestView,
        >::empty(),
{
    if tags == 0 {
        lemma_no_tag_in_empty_mask(0);
    }
}

/// The empty mask has no lowest tag.
proof fn lemma_no_tag_in_empty_mask(from: int)
    requires
        0 <= from <= 32,
    ensures
        lowest_tag_from(0, from) is None,
    decreases 32 - from,
{
    if from < 32 {
        let shift: u32 = from as u32;
        assert((0u32 >> shift) & 1 != 1) by (bit_vector);
        lemma_no_tag_in_empty_mask(from + 1);
    }
}

/// The answer to a demand is whole or absent. Either no request is sent;
/// or the requests are one push for each view, in the order of the views,
/// and after them exactly one commit, and each of them carries the serial
/// of the demand.
pub proof fn lemma_demand_commits_once(
    state: LayoutView,
    output: u32,
    view_count: u32,
    width: u32,
    height: u32,
    tags: u32,
    serial: u32,
)
    ensures
        ({
            let requests = state.demand(output, view_count, width, height, tags, serial);
            &&& requests.len() == 0 || requests.len() == view_count + 1
            &&& forall|i: int|
                0 <= i < requests.len() ==> (#[trigger] requests[i]).serial() == Some(serial)
            &&& forall|i: int|
                0 <= i < requests.len() ==> ((#[trigger] requests[i]) is Commit <==> i
                    == requests.len() - 1)
            &&& forall|i: int|
                0 <= i < requests.len() - 1 ==> (#[trigger] requests[i]) is PushViewDimensions
        }),
{
    match state.demanded_tag(output, tags) {
        Some(tag) => {
            if tag.layout_ok(view_count, width, height, state.global) {
                assert(view_count >= 1);
                crate::layouts::lemma_one_rectangle_per_view(
                    tag,
                    view_count,
                    crate::layouts::layout_area(width, height, state.global.padding),
                    state.global.gap,
                );
            }
        },
        None => {},
    }
}

/// A command leaves alone what it does not name: the tags of other
/// outputs, and on its own output each tag that commands do not apply to.
/// It never changes the mask of the tags that commands apply to, nor
/// whether the layout manager is bound, nor which outputs have been named,
/// nor how many tags an output has.
pub proof fn lemma_command_spares_other_tags(state: LayoutView, output: u32, command: Seq<char>)
    ensures
        ({
            let next = state.command(output, command);
            &&& next.tags == state.tags
            &&& next.manager == state.manager
            &&& next.outputs.dom() == state.outputs.dom()
            &&& forall|other: u32|
                other != output && state.outputs.contains_key(other) ==> next.outputs[other]
                    == state.outputs[other]
            &&& state.outputs.contains_key(output) ==> {
                &&& next.outputs[output].len() == state.outputs[output].len()
                &&& forall|i: int|
                    0 <= i < state.outputs[output].len() && !spec_has_tag(state.tags, i)
                        ==> next.outputs[output][i] == state.outputs[output][i]
            }
        }),
{
    let next = state.command(output, command);
    if state.outputs.contains_key(output) {
        assert(next.outputs.dom() =~= state.outputs.dom());
    }
}

/// A command keeps each tag within its limits: a tag whose ratio or main
/// count it sets has a ratio between one tenth and nine tenths, or a main
/// count of one or more.
pub proof fn lemma_setting_keeps_limits(setting: TagSetting, value: Seq<char>, tag: TagData)
    ensures
        setting == TagSetting::MainRatio ==> RATIO_MIN <= setting.spec_apply(
            value,
            tag,
        ).ratio.millionths <= RATIO_MAX,
        setting == TagSetting::MainCount ==> setting.spec_apply(value, tag).nmaster >= 1,
        setting != TagSetting::MainRatio ==> setting.spec_apply(value, tag).ratio == tag.ratio,
        setting != TagSetting::MainCount ==> setting.spec_apply(value, tag).nmaster
            == tag.nmaster,
        setting != TagSetting::Layout ==> setting.spec_apply(value, tag).layout == tag.layout,
{
}

} // verus!
