use iobitunlocker_shell_bridge::action::BridgeAction;
use iobitunlocker_shell_bridge::bitmap::{
    icon_edge, next_draw_step, resources_to_release, DrawResource, DrawStep,
};
use iobitunlocker_shell_bridge::config::parse_menu_text_config;
use iobitunlocker_shell_bridge::menu::{
    asks_beyond_defaults, chosen_action, command_id_from_invoke_info, decide_invoke, next_menu_step,
    plan_menu, wants_menu, InvokeError, MenuItem, MenuPlan, MenuStep, MENU_COMMAND_COUNT,
};
use iobitunlocker_shell_bridge::module::{
    class_object_request, instance_request, keeps_module_handle, ModuleRefs, ObjectRequest,
    CLSID_UNLOCKER_SHELL_EXT,
};
use iobitunlocker_shell_bridge::selection::{selected_paths, MenuObject};

#[test]
fn a_menu_needs_a_selection_and_more_than_defaults() {
    assert!(wants_menu(0, 1));
    assert!(wants_menu(0x10, 3));
    assert!(!wants_menu(1, 1));
    assert!(!wants_menu(0x11, 1));
    assert!(!wants_menu(0, 0));
    assert!(asks_beyond_defaults(0x10));
    assert!(!asks_beyond_defaults(0x11));
}

#[test]
fn the_menu_holds_the_configured_texts() {
    let config = parse_menu_text_config("root_menu_text=R\nunlock_menu_text=U\ndelete_menu_text=D");
    match plan_menu("C:\\d", &config, true, true, 7, 100) {
        MenuPlan::Insert(items) => {
            assert_eq!((items.unlock.position, items.unlock.command), (0, 100));
            assert_eq!(items.unlock.text, "U");
            assert_eq!(items.unlock.hotkey, Some('F'));
            assert_eq!(items.unlock.label(), "U(&F)");
            assert_eq!((items.delete.position, items.delete.command), (1, 101));
            assert_eq!(items.delete.text, "D");
            assert_eq!(items.delete.hotkey, Some('D'));
            assert_eq!(items.delete.label(), "D(&D)");
            assert_eq!(items.root_position, 7);
            assert_eq!(items.root_text, "R");
        }
        MenuPlan::Skip(log) => panic!("{}", log),
    }
    assert_eq!(MENU_COMMAND_COUNT, 2);
}

#[test]
fn hotkeys_are_set_and_switched_off() {
    let config = parse_menu_text_config("unlock_menu_hotkey=u\ndelete_menu_hotkey=off\n");
    match plan_menu("C:\\d", &config, true, true, 0, 1) {
        MenuPlan::Insert(items) => {
            assert_eq!(items.unlock.label(), "解锁(&u)");
            assert_eq!(items.delete.hotkey, None);
            assert_eq!(items.delete.label(), "解锁并删除");
        }
        MenuPlan::Skip(log) => panic!("{}", log),
    }
    let item = MenuItem { position: 0, command: 1, text: "a b".to_string(), hotkey: Some('键') };
    assert_eq!(item.label(), "a b(&键)");
}

#[test]
fn a_menu_is_skipped_where_files_are_missing() {
    let config = parse_menu_text_config("");
    match plan_menu("C:\\d", &config, false, false, 0, 1) {
        MenuPlan::Skip(log) => assert_eq!(
            log,
            "QueryContextMenu: skipped because helper was not found: C:\\d\\iobitunlocker_shell_bridge_helper.exe"
        ),
        MenuPlan::Insert(_) => panic!(),
    }
    match plan_menu("C:\\d", &config, true, false, 0, 1) {
        MenuPlan::Skip(log) => assert_eq!(
            log,
            "QueryContextMenu: skipped because IObitUnlocker.exe was not found: C:\\d\\IObitUnlocker.exe"
        ),
        MenuPlan::Insert(_) => panic!(),
    }
}

fn steps(failing: &[MenuStep]) -> Vec<MenuStep> {
    let mut step = MenuStep::CreateSubmenu;
    let mut taken = vec![step];
    while step != MenuStep::Inserted && step != MenuStep::Failed {
        step = next_menu_step(step, !failing.contains(&step));
        taken.push(step);
    }
    taken
}

#[test]
fn a_menu_is_inserted_or_taken_back() {
    let all = steps(&[]);
    assert_eq!(all.len(), 7);
    assert_eq!(all[6], MenuStep::Inserted);
    assert_eq!(steps(&[MenuStep::CreateSubmenu]), [MenuStep::CreateSubmenu, MenuStep::Failed]);
    for failing in [MenuStep::InsertUnlock, MenuStep::InsertDelete, MenuStep::InsertRoot] {
        let taken = steps(&[failing]);
        assert_eq!(taken[taken.len() - 3..], [failing, MenuStep::DestroySubmenu, MenuStep::Failed]);
    }
    for failing in [MenuStep::MakeIcon, MenuStep::SetIcon] {
        let taken = steps(&[failing]);
        assert_eq!(taken[taken.len() - 2..], [failing, MenuStep::Inserted]);
        assert!(!taken.contains(&MenuStep::DestroySubmenu));
    }
    assert_eq!(next_menu_step(MenuStep::Inserted, true), MenuStep::Inserted);
    assert_eq!(next_menu_step(MenuStep::Failed, true), MenuStep::Failed);
}

#[test]
fn a_choice_means_the_item_that_was_chosen() {
    assert_eq!(decide_invoke(Some(0), 2), Ok(BridgeAction::Unlock));
    assert_eq!(decide_invoke(Some(1), 2), Ok(BridgeAction::Delete));
    assert_eq!(decide_invoke(Some(2), 2), Err(InvokeError::InvalidArgument));
    assert_eq!(decide_invoke(Some(0x10000), 2), Err(InvokeError::InvalidArgument));
    assert_eq!(decide_invoke(Some(0x10001), 0), Err(InvokeError::InvalidArgument));
    assert_eq!(decide_invoke(None, 2), Err(InvokeError::InvalidArgument));
    assert_eq!(decide_invoke(Some(1), 0), Err(InvokeError::NothingSelected));
    assert_eq!(decide_invoke(Some(2), 0), Err(InvokeError::InvalidArgument));
    assert_eq!(chosen_action(Some(0)), Ok(BridgeAction::Unlock));
    assert_eq!(chosen_action(Some(1)), Ok(BridgeAction::Delete));
    assert_eq!(chosen_action(Some(2)), Err(InvokeError::InvalidArgument));
    assert_eq!(chosen_action(None), Err(InvokeError::InvalidArgument));
    assert_eq!(command_id_from_invoke_info(0xffff), Ok(0xffff));
    assert_eq!(command_id_from_invoke_info(0x10000), Err(InvokeError::InvalidArgument));
}

#[test]
fn the_icon_has_at_least_its_smallest_edge() {
    assert_eq!(icon_edge(15), 16);
    assert_eq!(icon_edge(-3), 16);
    assert_eq!(icon_edge(16), 16);
    assert_eq!(icon_edge(19), 19);
}

#[test]
fn drawing_gives_back_what_it_held() {
    let (icon, screen, memory, bitmap) = (
        DrawResource::Icon,
        DrawResource::ScreenContext,
        DrawResource::MemoryContext,
        DrawResource::Bitmap,
    );
    assert_eq!(resources_to_release(DrawStep::ExtractIcon, false), []);
    assert_eq!(resources_to_release(DrawStep::GetScreenContext, false), [icon]);
    assert_eq!(resources_to_release(DrawStep::CreateMemoryContext, false), [screen, icon]);
    assert_eq!(resources_to_release(DrawStep::CreateBitmap, false), [memory, screen, icon]);
    assert_eq!(resources_to_release(DrawStep::DrawIcon, true), [memory, screen, icon]);
    assert_eq!(resources_to_release(DrawStep::DrawIcon, false), [memory, screen, icon, bitmap]);
}

fn drawing(failing: Option<DrawStep>) -> (Vec<DrawStep>, Vec<DrawResource>) {
    let mut step = DrawStep::ExtractIcon;
    let mut taken = vec![step];
    loop {
        let last = step;
        let ok = failing != Some(last);
        step = next_draw_step(last, ok);
        taken.push(step);
        if step == DrawStep::Drawn || step == DrawStep::Failed {
            return (taken, resources_to_release(last, ok));
        }
    }
}

#[test]
fn drawing_ends_with_a_bitmap_or_with_nothing() {
    let work = [
        DrawStep::ExtractIcon,
        DrawStep::GetScreenContext,
        DrawStep::CreateMemoryContext,
        DrawStep::CreateBitmap,
        DrawStep::DrawIcon,
    ];
    let (taken, released) = drawing(None);
    assert_eq!(taken[..5], work);
    assert_eq!(taken[5..], [DrawStep::Drawn]);
    assert!(!released.contains(&DrawResource::Bitmap));
    for i in 0..5 {
        let (taken, released) = drawing(Some(work[i]));
        assert_eq!(taken[..=i], work[..=i]);
        assert_eq!(taken[i + 1..], [DrawStep::Failed]);
        assert_eq!(released.len(), i);
    }
    assert_eq!(next_draw_step(DrawStep::Drawn, false), DrawStep::Drawn);
    assert_eq!(next_draw_step(DrawStep::Failed, true), DrawStep::Failed);
    assert!(resources_to_release(DrawStep::Drawn, true).is_empty());
}

#[test]
fn a_module_is_unloaded_when_nothing_is_out() {
    let mut refs = ModuleRefs::new();
    assert!(refs.can_unload_now());
    refs.add_object();
    refs.add_object();
    refs.lock_server(true);
    refs.drop_object();
    assert!(!refs.can_unload_now());
    refs.drop_object();
    assert!(!refs.can_unload_now());
    refs.lock_server(false);
    assert!(refs.can_unload_now());
    refs.drop_object();
    assert_eq!(refs.live_objects, u32::MAX);
    refs.add_object();
    assert_eq!(refs.live_objects, 0);
}

#[test]
fn objects_are_given_out_to_proper_questions() {
    assert_eq!(CLSID_UNLOCKER_SHELL_EXT, 0x8e61a8fd_0b37_4aeb_9ce0_9d833295673f);
    assert_eq!(class_object_request(false, CLSID_UNLOCKER_SHELL_EXT), ObjectRequest::InvalidArgument);
    assert_eq!(class_object_request(true, 1), ObjectRequest::ClassNotAvailable);
    assert_eq!(class_object_request(true, CLSID_UNLOCKER_SHELL_EXT), ObjectRequest::Create);
    assert_eq!(instance_request(true, false), ObjectRequest::NoAggregation);
    assert_eq!(instance_request(false, false), ObjectRequest::InvalidArgument);
    assert_eq!(instance_request(false, true), ObjectRequest::Create);
    assert!(keeps_module_handle(1));
    assert!(!keeps_module_handle(0));
    assert!(!keeps_module_handle(2));
}

fn wide(text: &str) -> Vec<u16> {
    text.encode_utf16().collect()
}

#[test]
fn a_selection_is_what_explorer_names() {
    let entries = vec![wide("C:\\a b"), wide(""), wide("D:\\解,锁")];
    assert_eq!(selected_paths(&entries), ["C:\\a b", "D:\\解,锁"]);
    let mut object = MenuObject::new();
    assert!(object.selected_paths.is_empty());
    object.initialize(Some(entries));
    assert_eq!(object.selected_paths.len(), 2);
    object.initialize(Some(vec![wide("E:\\x")]));
    assert_eq!(object.selected_paths, ["E:\\x"]);
    object.initialize(None);
    assert!(object.selected_paths.is_empty());
}

#[test]
fn the_icon_is_kept_and_given_up_once() {
    let mut object = MenuObject::new();
    assert_eq!(object.take_icon(), None);
    assert!(object.needs_icon());
    assert_eq!(object.use_icon(Some(42)), Some(42));
    assert!(!object.needs_icon());
    assert_eq!(object.use_icon(None), Some(42));
    assert_eq!(object.use_icon(Some(43)), Some(42));
    object.initialize(None);
    assert_eq!(object.icon, Some(42));
    assert_eq!(object.take_icon(), Some(42));
    assert_eq!(object.take_icon(), None);
    assert!(object.needs_icon());
    assert_eq!(object.use_icon(None), None);
    assert_eq!(object.use_icon(Some(0)), Some(0));
    assert_eq!(object.take_icon(), None);
}
