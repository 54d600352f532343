use basic_layout::geometry::{rect, Ratio};
use basic_layout::layout::{
    has_tag, pertag, relative_ratio, relative_u32, tag_num, Event, Global, GlobalData, Layout,
    Notice, Reaction, Request, TagSetting, Tags,
};
use basic_layout::layouts::{Layouts, TagData};

fn defaults() -> GlobalData {
    GlobalData {
        gap: 8,
        padding: 8,
        ratio: Ratio::new(500_000),
        nmaster: 1,
        default_layout: Layouts::Tile,
    }
}

fn with_output(global: GlobalData, output: u32) -> Layout {
    let mut layout = Layout::new(global);
    assert_eq!(layout.registry_global("river_layout_manager_v3"), Global::LayoutManager);
    layout.output_named(output);
    layout
}

fn command(layout: &mut Layout, output: u32, text: &str) -> Reaction {
    layout.event(output, Event::UserCommand { command: text.to_string() })
}

fn tag(layout: &Layout, output: u32, index: usize) -> TagData {
    layout.lookup(output).unwrap().tags[index]
}

fn demand(view_count: u32, tags: u32, serial: u32) -> Event {
    Event::LayoutDemand { view_count, usable_width: 1920, usable_height: 1080, tags, serial }
}

fn silence() -> Reaction {
    Reaction { requests: Vec::new(), notice: None }
}

#[test]
fn tag_num_is_the_lowest_tag() {
    assert_eq!(tag_num(0), None);
    assert_eq!(tag_num(1), Some(0));
    assert_eq!(tag_num(0b100), Some(2));
    assert_eq!(tag_num(0b1010_0000), Some(5));
    assert_eq!(tag_num(0x8000_0000), Some(31));
    assert_eq!(tag_num(u32::MAX), Some(0));
}

#[test]
fn has_tag_reads_one_bit() {
    assert!(has_tag(0b101, 0));
    assert!(!has_tag(0b101, 1));
    assert!(has_tag(0b101, 2));
    assert!(has_tag(0x8000_0000, 31));
    assert!(!has_tag(0x7fff_ffff, 31));
    assert!(!has_tag(0, 0));
}

#[test]
fn relative_u32_adds_takes_away_or_sets() {
    assert_eq!(relative_u32("+2", 3), 5);
    assert_eq!(relative_u32("-2", 3), 1);
    assert_eq!(relative_u32("7", 3), 7);
    assert_eq!(relative_u32("0", 3), 0);
    assert_eq!(relative_u32("++2", 3), 5);
}

#[test]
fn relative_u32_stays_in_range() {
    assert_eq!(relative_u32("-5", 2), 0);
    assert_eq!(relative_u32("-4294967295", 0), 0);
    assert_eq!(relative_u32("+1", u32::MAX), u32::MAX);
    assert_eq!(relative_u32("+4294967295", 7), u32::MAX);
    assert_eq!(relative_u32("+4294967295", 0), u32::MAX);
}

#[test]
fn relative_u32_falls_back_where_nothing_parses() {
    assert_eq!(relative_u32("+x", 3), 3);
    assert_eq!(relative_u32("-x", 3), 3);
    assert_eq!(relative_u32("+", 3), 3);
    assert_eq!(relative_u32("-", 3), 3);
    assert_eq!(relative_u32("--1", 3), 3);
    assert_eq!(relative_u32("+4294967296", 3), 3);
    assert_eq!(relative_u32("x", 3), 1);
    assert_eq!(relative_u32("", 3), 1);
    assert_eq!(relative_u32("1.5", 3), 1);
}

#[test]
fn relative_ratio_adds_takes_away_or_sets() {
    let half = Ratio::new(500_000);
    assert_eq!(relative_ratio("+0.2", half), Ratio::new(700_000));
    assert_eq!(relative_ratio("-0.2", half), Ratio::new(300_000));
    assert_eq!(relative_ratio("0.65", half), Ratio::new(650_000));
    assert_eq!(relative_ratio("-10", half), Ratio::new(0));
    assert_eq!(relative_ratio("+10", half), Ratio::new(10_500_000));
    assert_eq!(relative_ratio("+4294", Ratio::new(u32::MAX)), Ratio::new(u32::MAX));
    assert_eq!(relative_ratio("+x", half), half);
    assert_eq!(relative_ratio("-", half), half);
    assert_eq!(relative_ratio("x", Ratio::new(200_000)), Ratio::new(500_000));
    assert_eq!(relative_ratio("", Ratio::new(200_000)), Ratio::new(500_000));
}

#[test]
fn settings_apply_to_one_tag() {
    let old = TagData::new(Layouts::Rows, 2, Ratio::new(500_000));
    assert_eq!(
        TagSetting::Layout.apply("dwindle", old),
        TagData::new(Layouts::Dwindle, 2, Ratio::new(500_000))
    );
    assert_eq!(
        TagSetting::MainRatio.apply("+0.2", old),
        TagData::new(Layouts::Rows, 2, Ratio::new(700_000))
    );
    assert_eq!(
        TagSetting::MainCount.apply("+3", old),
        TagData::new(Layouts::Rows, 5, Ratio::new(500_000))
    );
}

#[test]
fn ratio_stays_between_one_tenth_and_nine_tenths() {
    let old = TagData::new(Layouts::Tile, 1, Ratio::new(500_000));
    assert_eq!(TagSetting::MainRatio.apply("-10", old).ratio, Ratio::new(100_000));
    assert_eq!(TagSetting::MainRatio.apply("+10", old).ratio, Ratio::new(900_000));
    assert_eq!(TagSetting::MainRatio.apply("0", old).ratio, Ratio::new(100_000));
    assert_eq!(TagSetting::MainRatio.apply("1", old).ratio, Ratio::new(900_000));
    assert_eq!(TagSetting::MainRatio.apply("0.1", old).ratio, Ratio::new(100_000));
    assert_eq!(TagSetting::MainRatio.apply("0.9", old).ratio, Ratio::new(900_000));
    assert_eq!(TagSetting::MainRatio.apply("0.099999", old).ratio, Ratio::new(100_000));
    assert_eq!(TagSetting::MainRatio.apply("0.900001", old).ratio, Ratio::new(900_000));
    assert_eq!(TagSetting::MainRatio.apply("what", old).ratio, Ratio::new(500_000));
    let wild = TagData::new(Layouts::Tile, 1, Ratio::new(3_000_000));
    assert_eq!(TagSetting::MainRatio.apply("+0", wild).ratio, Ratio::new(900_000));
}

#[test]
fn main_count_stays_at_one_or_more() {
    let old = TagData::new(Layouts::Tile, 2, Ratio::new(500_000));
    assert_eq!(TagSetting::MainCount.apply("-5", old).nmaster, 1);
    assert_eq!(TagSetting::MainCount.apply("-2", old).nmaster, 1);
    assert_eq!(TagSetting::MainCount.apply("-1", old).nmaster, 1);
    assert_eq!(TagSetting::MainCount.apply("0", old).nmaster, 1);
    assert_eq!(TagSetting::MainCount.apply("junk", old).nmaster, 1);
    assert_eq!(TagSetting::MainCount.apply("4", old).nmaster, 4);
}

#[test]
fn tags_of_a_new_output_copy_the_defaults() {
    let global = GlobalData {
        gap: 3,
        padding: 4,
        ratio: Ratio::new(1_500_000),
        nmaster: 0,
        default_layout: Layouts::Dwindle,
    };
    let slots = Tags::from_global(&global);
    assert_eq!(slots.tags.len(), 32);
    for slot in slots.tags {
        assert_eq!(slot, TagData::new(Layouts::Dwindle, 0, Ratio::new(1_500_000)));
    }
}

#[test]
fn pertag_changes_the_tags_of_the_mask() {
    let mut slots = Tags::from_global(&defaults());
    pertag(0b101, &mut slots, TagSetting::Layout, "column");
    for (index, slot) in slots.tags.iter().enumerate() {
        let expected = if index == 0 || index == 2 { Layouts::Column } else { Layouts::Tile };
        assert_eq!(slot.layout, expected);
        assert_eq!((slot.nmaster, slot.ratio), (1, Ratio::new(500_000)));
    }
    pertag(0, &mut slots, TagSetting::MainCount, "9");
    assert!(slots.tags.iter().all(|slot| slot.nmaster == 1));
    pertag(u32::MAX, &mut slots, TagSetting::MainCount, "9");
    assert!(slots.tags.iter().all(|slot| slot.nmaster == 9));
    pertag(0x8000_0000, &mut slots, TagSetting::MainCount, "-3");
    assert_eq!(slots.tags[31].nmaster, 6);
    assert_eq!(slots.tags[30].nmaster, 9);
}

#[test]
fn new_layout_applies_commands_to_all_tags() {
    let layout = Layout::new(defaults());
    assert_eq!(layout.selected_tags(), u32::MAX);
    assert_eq!(layout.global(), defaults());
    assert!(!layout.has_manager());
    assert_eq!(layout.lookup(0), None);
}

#[test]
fn registry_globals_are_told_apart() {
    assert_eq!(Global::of("wl_output"), Global::Output);
    assert_eq!(Global::of("river_layout_manager_v3"), Global::LayoutManager);
    assert_eq!(Global::of("wl_seat"), Global::Other);
    assert_eq!(Global::of(""), Global::Other);
    let mut layout = Layout::new(defaults());
    assert_eq!(layout.registry_global("wl_output"), Global::Output);
    assert_eq!(layout.registry_global("wl_compositor"), Global::Other);
    assert!(!layout.has_manager());
    assert_eq!(layout.registry_global("river_layout_manager_v3"), Global::LayoutManager);
    assert!(layout.has_manager());
    assert_eq!(layout.registry_global("wl_output"), Global::Output);
    assert!(layout.has_manager());
}

#[test]
fn a_named_output_gets_its_tags_and_asks_for_its_layout_object() {
    let mut layout = Layout::new(defaults());
    layout.registry_global("river_layout_manager_v3");
    let request = layout.output_named(7);
    assert_eq!(request, Request::GetLayout { output: 7, namespace: "basic-layout".to_string() });
    assert_eq!(layout.lookup(7), Some(Tags::from_global(&defaults())));
    assert_eq!(layout.lookup(8), None);
}

#[test]
fn naming_an_output_again_resets_its_tags() {
    let mut layout = with_output(defaults(), 7);
    command(&mut layout, 7, "layout rows");
    assert_eq!(tag(&layout, 7, 0).layout, Layouts::Rows);
    layout.register_output(7);
    assert_eq!(layout.lookup(7), Some(Tags::from_global(&defaults())));
}

#[test]
fn outputs_have_tags_of_their_own() {
    let mut layout = with_output(defaults(), 1);
    layout.output_named(2);
    command(&mut layout, 1, "main-count 3");
    assert_eq!(tag(&layout, 1, 5).nmaster, 3);
    assert_eq!(tag(&layout, 2, 5).nmaster, 1);
}

#[test]
fn main_ratio_command_adds_and_clamps() {
    let mut layout = with_output(defaults(), 1);
    assert_eq!(command(&mut layout, 1, "main-ratio +0.2"), silence());
    assert_eq!(tag(&layout, 1, 0).ratio, Ratio::new(700_000));
    let mut layout = with_output(defaults(), 1);
    assert_eq!(command(&mut layout, 1, "main-ratio -10"), silence());
    assert_eq!(tag(&layout, 1, 0).ratio, Ratio::new(100_000));
}

#[test]
fn main_count_command_takes_away_without_wrapping() {
    let mut layout = with_output(GlobalData { nmaster: 2, ..defaults() }, 1);
    assert_eq!(command(&mut layout, 1, "main-count -5"), silence());
    for index in 0..32 {
        assert_eq!(tag(&layout, 1, index).nmaster, 1);
    }
}

#[test]
fn commands_apply_to_the_selected_tags_only() {
    let mut layout = with_output(defaults(), 1);
    assert_eq!(layout.event(1, Event::UserCommandTags { tags: 0b101 }), silence());
    assert_eq!(layout.selected_tags(), 0b101);
    assert_eq!(command(&mut layout, 1, "layout column"), silence());
    assert_eq!(tag(&layout, 1, 0).layout, Layouts::Column);
    assert_eq!(tag(&layout, 1, 1).layout, Layouts::Tile);
    assert_eq!(tag(&layout, 1, 2).layout, Layouts::Column);
    for index in 3..32 {
        assert_eq!(tag(&layout, 1, index), TagData::new(Layouts::Tile, 1, Ratio::new(500_000)));
    }
}

#[test]
fn selected_tags_hold_for_every_output() {
    let mut layout = with_output(defaults(), 1);
    layout.output_named(2);
    layout.event(1, Event::UserCommandTags { tags: 0b10 });
    command(&mut layout, 2, "main-count 4");
    assert_eq!(tag(&layout, 2, 1).nmaster, 4);
    assert_eq!(tag(&layout, 2, 0).nmaster, 1);
    assert_eq!(tag(&layout, 1, 1).nmaster, 1);
}

#[test]
fn gap_and_padding_commands_set_the_shared_settings() {
    let mut layout = with_output(defaults(), 1);
    layout.event(1, Event::UserCommandTags { tags: 0 });
    assert_eq!(command(&mut layout, 1, "gap 12"), silence());
    assert_eq!(layout.global(), GlobalData { gap: 12, ..defaults() });
    assert_eq!(command(&mut layout, 1, "padding 0"), silence());
    assert_eq!(layout.global(), GlobalData { gap: 12, padding: 0, ..defaults() });
    assert_eq!(command(&mut layout, 1, "gap +3"), silence());
    assert_eq!(layout.global().gap, 3);
    assert_eq!(layout.lookup(1), Some(Tags::from_global(&defaults())));
}

#[test]
fn gap_and_padding_fall_back_to_eight() {
    let mut layout = with_output(GlobalData { gap: 1, padding: 2, ..defaults() }, 1);
    command(&mut layout, 1, "gap wide");
    assert_eq!(layout.global().gap, 8);
    command(&mut layout, 1, "padding -1");
    assert_eq!(layout.global().padding, 8);
    command(&mut layout, 1, "gap 3");
    command(&mut layout, 1, "gap");
    assert_eq!(layout.global().gap, 8);
    command(&mut layout, 1, "padding 3");
    command(&mut layout, 1, "padding 4294967296");
    assert_eq!(layout.global().padding, 8);
}

#[test]
fn unknown_verbs_change_nothing() {
    let mut layout = with_output(defaults(), 1);
    for text in ["", " ", "Gap 3", "gaps 3", "main_count 3", "layout", " gap 3", "quit now"] {
        let before = (layout.global(), layout.lookup(1), layout.selected_tags());
        let reaction = command(&mut layout, 1, text);
        if text == "layout" {
            assert_eq!(reaction.requests, Vec::new());
        } else {
            assert_eq!(reaction, silence());
        }
        assert_eq!((layout.global(), layout.lookup(1), layout.selected_tags()), before);
    }
}

#[test]
fn unknown_layout_word_selects_tile_and_is_reported() {
    let mut layout = with_output(GlobalData { default_layout: Layouts::Rows, ..defaults() }, 1);
    layout.event(1, Event::UserCommandTags { tags: 0b10 });
    let reaction = command(&mut layout, 1, "layout spiral staircase");
    assert_eq!(reaction.requests, Vec::new());
    assert_eq!(
        reaction.notice,
        Some(Notice::UnknownLayout { name: "spiral staircase".to_string() })
    );
    assert_eq!(tag(&layout, 1, 1).layout, Layouts::Tile);
    assert_eq!(tag(&layout, 1, 0).layout, Layouts::Rows);
}

#[test]
fn unknown_layout_word_is_not_reported_where_no_tag_takes_it() {
    let mut layout = with_output(defaults(), 1);
    layout.event(1, Event::UserCommandTags { tags: 0 });
    assert_eq!(command(&mut layout, 1, "layout spiral"), silence());
    assert_eq!(command(&mut layout, 9, "layout spiral"), silence());
}

#[test]
fn commands_for_an_unnamed_output_are_ignored() {
    let mut layout = with_output(defaults(), 1);
    for text in ["gap 3", "padding 3", "layout rows", "main-ratio 0.7", "main-count 4"] {
        assert_eq!(command(&mut layout, 2, text), silence());
    }
    assert_eq!(layout.global(), defaults());
    assert_eq!(layout.lookup(1), Some(Tags::from_global(&defaults())));
    assert_eq!(layout.lookup(2), None);
}

#[test]
fn namespace_in_use_is_reported_and_changes_nothing() {
    let mut layout = with_output(defaults(), 1);
    let reaction = layout.event(1, Event::NamespaceInUse);
    assert_eq!(reaction, Reaction { requests: Vec::new(), notice: Some(Notice::NamespaceInUse) });
    assert_eq!(layout.global(), defaults());
    assert_eq!(layout.lookup(1), Some(Tags::from_global(&defaults())));
    assert_eq!(layout.selected_tags(), u32::MAX);
}

#[test]
fn demand_is_answered_by_pushes_and_one_commit() {
    let mut layout = with_output(defaults(), 1);
    let reaction = layout.event(1, demand(3, 1, 42));
    assert_eq!(reaction.notice, None);
    assert_eq!(
        reaction.requests,
        vec![
            Request::PushViewDimensions { x: 8, y: 8, width: 948, height: 1064, serial: 42 },
            Request::PushViewDimensions { x: 964, y: 8, width: 948, height: 528, serial: 42 },
            Request::PushViewDimensions { x: 964, y: 544, width: 948, height: 528, serial: 42 },
            Request::Commit { layout_name: "Tile".to_string(), serial: 42 },
        ]
    );
}

#[test]
fn demand_is_answered_by_the_lowest_tag_of_its_mask() {
    let mut layout = with_output(defaults(), 1);
    layout.event(1, Event::UserCommandTags { tags: 0b100 });
    command(&mut layout, 1, "layout rows");
    layout.event(1, Event::UserCommandTags { tags: 0b1000 });
    command(&mut layout, 1, "layout centered-master");
    let by_rows = layout.event(1, demand(1, 0b1100, 5));
    assert_eq!(
        by_rows.requests,
        vec![
            Request::PushViewDimensions { x: 8, y: 8, width: 1904, height: 1064, serial: 5 },
            Request::Commit { layout_name: "Rows".to_string(), serial: 5 },
        ]
    );
    let by_centered = layout.event(1, demand(1, 0b1000, 6));
    assert_eq!(
        by_centered.requests.last(),
        Some(&Request::Commit { layout_name: "Centered Master".to_string(), serial: 6 })
    );
}

#[test]
fn demand_follows_the_commands_before_it() {
    let mut layout = with_output(defaults(), 1);
    command(&mut layout, 1, "layout dwindle");
    command(&mut layout, 1, "main-ratio 0.25");
    command(&mut layout, 1, "gap 0");
    command(&mut layout, 1, "padding 0");
    let reaction = layout.event(
        1,
        Event::LayoutDemand {
            view_count: 3,
            usable_width: 400,
            usable_height: 200,
            tags: 1 << 31,
            serial: 9,
        },
    );
    assert_eq!(
        reaction.requests,
        vec![
            Request::PushViewDimensions { x: 0, y: 0, width: 100, height: 200, serial: 9 },
            Request::PushViewDimensions { x: 100, y: 0, width: 300, height: 100, serial: 9 },
            Request::PushViewDimensions { x: 100, y: 100, width: 300, height: 100, serial: 9 },
            Request::Commit { layout_name: "Dwindle".to_string(), serial: 9 },
        ]
    );
}

#[test]
fn demand_without_a_tag_is_met_with_silence() {
    let mut layout = with_output(defaults(), 1);
    assert_eq!(layout.event(1, demand(3, 0, 42)), silence());
    assert_eq!(layout.event(2, demand(3, 1, 42)), silence());
    let mut empty = Layout::new(defaults());
    assert_eq!(empty.event(1, demand(3, u32::MAX, 42)), silence());
}

#[test]
fn demand_that_cannot_be_laid_out_is_met_with_silence() {
    let mut layout = with_output(defaults(), 1);
    assert_eq!(layout.event(1, demand(0, 1, 42)), silence());
    assert_eq!(layout.event(1, demand(500, 1, 42)), silence());
    let tiny = Event::LayoutDemand {
        view_count: 1,
        usable_width: 15,
        usable_height: 1080,
        tags: 1,
        serial: 42,
    };
    assert_eq!(layout.event(1, tiny), silence());
    let mut unset = with_output(GlobalData { nmaster: 0, ..defaults() }, 1);
    assert_eq!(unset.event(1, demand(2, 1, 42)), silence());
    let mut wide = with_output(GlobalData { ratio: Ratio::new(1_500_000), ..defaults() }, 1);
    assert_eq!(wide.event(1, demand(2, 1, 42)), silence());
    assert_eq!(wide.event(1, demand(1, 1, 42)).requests.len(), 2);
}

#[test]
fn every_request_of_a_demand_carries_its_serial() {
    let mut layout = with_output(defaults(), 1);
    for (index, word) in ["tile", "column", "rows", "centered-master", "dwindle"].iter().enumerate() {
        layout.event(1, Event::UserCommandTags { tags: 1 << index });
        command(&mut layout, 1, &format!("layout {}", word));
    }
    for index in 0..5u32 {
        for view_count in 1..7u32 {
            let serial = 1000 * index + view_count;
            let requests = layout.event(1, demand(view_count, 1 << index, serial)).requests;
            assert_eq!(requests.len(), view_count as usize + 1);
            for (place, request) in requests.iter().enumerate() {
                match request {
                    Request::PushViewDimensions { serial: echoed, .. } => {
                        assert!(place < view_count as usize);
                        assert_eq!(*echoed, serial);
                    }
                    Request::Commit { serial: echoed, .. } => {
                        assert_eq!(place, view_count as usize);
                        assert_eq!(*echoed, serial);
                    }
                    Request::GetLayout { .. } => panic!("a demand asks for no layout object"),
                }
            }
        }
    }
}

#[test]
fn demand_changes_nothing() {
    let mut layout = with_output(defaults(), 1);
    layout.event(1, demand(3, 1, 42));
    assert_eq!(layout.global(), defaults());
    assert_eq!(layout.lookup(1), Some(Tags::from_global(&defaults())));
    assert_eq!(layout.selected_tags(), u32::MAX);
}

#[test]
fn demand_places_views_as_the_tag_lays_them_out() {
    let mut layout = with_output(defaults(), 1);
    let views = tag(&layout, 1, 0).layout(4, 1920, 1080, &defaults());
    assert_eq!(views[0], rect(8, 8, 948, 1064));
    let requests = layout.event(1, demand(4, 1, 3)).requests;
    for (view, request) in views.iter().zip(requests.iter()) {
        assert_eq!(
            *request,
            Request::PushViewDimensions {
                x: view.x,
                y: view.y,
                width: view.width,
                height: view.height,
                serial: 3,
            }
        );
    }
}
