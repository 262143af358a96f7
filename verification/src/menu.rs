//! The context menu: when it is shown, what stands in it and what a choice from it means.

use crate::action::{action_of_command, BridgeAction};
use crate::config::{hotkey_of, parse_hotkey_value, MenuTextConfig, MenuTextSettings};
use crate::paths::{helper_path_for_dir, join_of, unlocker_exe_path_for_dir};
use crate::steps::{lemma_no_step_twice, lemma_run, lemma_steps_from, steps_from, Steps};
use vstd::prelude::*;

verus! {

/// How many commands the menu has.
pub const MENU_COMMAND_COUNT: i32 = 2;

/// The flag with which Explorer asks for default commands alone.
pub const CMF_DEFAULTONLY: u32 = 1;

/// Whether more than default commands are asked for.
pub fn asks_beyond_defaults(flags: u32) -> (r: bool)
    ensures
        r == (flags % 2 == 0),
{
    assert((flags & 1 == 0) == (flags % 2 == 0)) by (bit_vector);
    (flags & CMF_DEFAULTONLY) == 0
}

/// Whether a menu is wanted at all: there is a selection, and more than default commands are asked
/// for.
pub fn wants_menu(flags: u32, selected: usize) -> (r: bool)
    ensures
        r == (flags % 2 == 0 && selected > 0),
{
    asks_beyond_defaults(flags) && selected > 0
}

/// A menu item: where it is inserted, the number of its command, its text and its hotkey.
pub struct MenuItem {
    pub position: u32,
    pub command: u32,
    pub text: String,
    pub hotkey: Option<char>,
}

/// How Windows is told of a hotkey: behind the text, in brackets, with an ampersand before it.
pub open spec fn label_of(text: Seq<char>, hotkey: Option<char>) -> Seq<char> {
    match hotkey {
        None => text,
        Some(hotkey) => text + seq!['(', '&', hotkey, ')'],
    }
}

impl MenuItem {
    /// What is handed to Windows for the item: its text, and its hotkey if it has one.
    pub fn label(&self) -> (label: String)
        ensures
            label@ == label_of(self.text@, self.hotkey),
            self.text@.is_prefix_of(label@),
            label@.len() == self.text@.len() + if self.hotkey is Some {
                4int
            } else {
                0
            },
    {
        let mut label: String = self.text.clone();
        if let Some(hotkey) = self.hotkey {
            label.push('(');
            label.push('&');
            label.push(hotkey);
            label.push(')');
            assert(label@ == self.text@ + seq!['(', '&', hotkey, ')']);
        }
        label
    }
}

/// The menu: two items of a submenu, and the place and the text of the item that opens it.
pub struct MenuItems {
    pub unlock: MenuItem,
    pub delete: MenuItem,
    pub root_position: u32,
    pub root_text: String,
}

/// What comes of the question for a menu.
pub enum MenuPlan {
    /// No menu; the reason is logged.
    Skip(String),
    Insert(MenuItems),
}

/// What is logged when the helper is missing.
pub open spec fn no_helper_log_of(path: Seq<char>) -> Seq<char> {
    "QueryContextMenu: skipped because helper was not found: "@ + path
}

/// What is logged when IObit Unlocker's program is missing.
pub open spec fn no_unlocker_log_of(path: Seq<char>) -> Seq<char> {
    "QueryContextMenu: skipped because IObitUnlocker.exe was not found: "@ + path
}

/// Whether `items` are the menu that `settings` ask for, at the place `menu_index` and with the
/// command numbers from `first_command` on.
pub open spec fn is_menu_for(
    items: MenuItems,
    settings: MenuTextSettings,
    menu_index: u32,
    first_command: u32,
) -> bool {
    &&& items.unlock.position == 0
    &&& items.unlock.command == first_command
    &&& items.unlock.text@ == settings.unlock_menu_text
    &&& items.unlock.hotkey == hotkey_of(settings.unlock_menu_hotkey)
    &&& items.delete.position == 1
    &&& items.delete.command == first_command + 1
    &&& items.delete.text@ == settings.delete_menu_text
    &&& items.delete.hotkey == hotkey_of(settings.delete_menu_hotkey)
    &&& items.root_position == menu_index
    &&& items.root_text@ == settings.root_menu_text
}

/// The menu for a deployment in `dir`, whose helper and whose program of IObit Unlocker are there
/// or not. Explorer gives its place and its first command number.
pub fn plan_menu(
    dir: &str,
    config: &MenuTextConfig,
    helper_is_file: bool,
    unlocker_is_file: bool,
    menu_index: u32,
    first_command: u32,
) -> (plan: MenuPlan)
    requires
        helper_is_file && unlocker_is_file ==> first_command < u32::MAX,
    ensures
        if !helper_is_file {
            plan matches MenuPlan::Skip(log) && log@ == no_helper_log_of(
                join_of(dir@, "iobitunlocker_shell_bridge_helper.exe"@),
            )
        } else if !unlocker_is_file {
            plan matches MenuPlan::Skip(log) && log@ == no_unlocker_log_of(
                join_of(dir@, "IObitUnlocker.exe"@),
            )
        } else {
            &&& plan matches MenuPlan::Insert(items)
            &&& items.unlock.position == 0
            &&& items.unlock.command == first_command
            &&& items.unlock.text@ == config@.unlock_menu_text
            &&& items.unlock.hotkey == hotkey_of(config@.unlock_menu_hotkey)
            &&& items.delete.position == 1
            &&& items.delete.command == first_command + 1
            &&& items.delete.text@ == config@.delete_menu_text
            &&& items.delete.hotkey == hotkey_of(config@.delete_menu_hotkey)
            &&& items.root_position == menu_index
            &&& items.root_text@ == config@.root_menu_text
        },
        plan matches MenuPlan::Insert(items) ==> is_menu_for(
            items,
            config@,
            menu_index,
            first_command,
        ),
{
    if !helper_is_file {
        let mut log = String::new();
        log.append("QueryContextMenu: skipped because helper was not found: ");
        let path: String = helper_path_for_dir(dir);
        log.append(path.as_str());
        return MenuPlan::Skip(log);
    }
    if !unlocker_is_file {
        let mut log = String::new();
        log.append("QueryContextMenu: skipped because IObitUnlocker.exe was not found: ");
        let path: String = unlocker_exe_path_for_dir(dir);
        log.append(path.as_str());
        return MenuPlan::Skip(log);
    }
    MenuPlan::Insert(
        MenuItems {
            unlock: MenuItem {
                position: 0,
                command: first_command,
                text: config.unlock_menu_text.clone(),
                hotkey: parse_hotkey_value(config.unlock_menu_hotkey.as_str()),
            },
            delete: MenuItem {
                position: 1,
                command: first_command + 1,
                text: config.delete_menu_text.clone(),
                hotkey: parse_hotkey_value(config.delete_menu_hotkey.as_str()),
            },
            root_position: menu_index,
            root_text: config.root_menu_text.clone(),
        },
    )
}

/// The steps of inserting the menu.
#[derive(Clone, Copy, Debug, Eq, PartialEq, Structural)]
pub enum MenuStep {
    CreateSubmenu,
    InsertUnlock,
    InsertDelete,
    InsertRoot,
    /// Take back the submenu after a failure.
    DestroySubmenu,
    MakeIcon,
    SetIcon,
    /// The menu stands, with or without its icon.
    Inserted,
    /// There is no menu.
    Failed,
}

impl Steps for MenuStep {
    open spec fn after(self, ok: bool) -> Self {
        match self {
            MenuStep::CreateSubmenu => if ok {
                MenuStep::InsertUnlock
            } else {
                MenuStep::Failed
            },
            MenuStep::InsertUnlock => if ok {
                MenuStep::InsertDelete
            } else {
                MenuStep::DestroySubmenu
            },
            MenuStep::InsertDelete => if ok {
                MenuStep::InsertRoot
            } else {
                MenuStep::DestroySubmenu
            },
            MenuStep::InsertRoot => if ok {
                MenuStep::MakeIcon
            } else {
                MenuStep::DestroySubmenu
            },
            MenuStep::DestroySubmenu => MenuStep::Failed,
            MenuStep::MakeIcon => if ok {
                MenuStep::SetIcon
            } else {
                MenuStep::Inserted
            },
            MenuStep::SetIcon => MenuStep::Inserted,
            MenuStep::Inserted => MenuStep::Inserted,
            MenuStep::Failed => MenuStep::Failed,
        }
    }

    open spec fn left(self) -> nat {
        match self {
            MenuStep::CreateSubmenu => 6,
            MenuStep::InsertUnlock => 5,
            MenuStep::InsertDelete => 4,
            MenuStep::InsertRoot => 3,
            MenuStep::DestroySubmenu => 1,
            MenuStep::MakeIcon => 2,
            MenuStep::SetIcon => 1,
            MenuStep::Inserted => 0,
            MenuStep::Failed => 0,
        }
    }

    proof fn steps_run_out(self, ok: bool) {
    }
}

/// The step that follows `step`, which went well or not. A failure to insert takes back the
/// submenu; a failure with the icon is passed over.
pub fn next_menu_step(step: MenuStep, ok: bool) -> (next: MenuStep)
    ensures
        next == step.after(ok),
{
    match step {
        MenuStep::CreateSubmenu => {
            if ok {
                MenuStep::InsertUnlock
            } else {
                MenuStep::Failed
            }
        },
        MenuStep::InsertUnlock => {
            if ok {
                MenuStep::InsertDelete
            } else {
                MenuStep::DestroySubmenu
            }
        },
        MenuStep::InsertDelete => {
            if ok {
                MenuStep::InsertRoot
            } else {
                MenuStep::DestroySubmenu
            }
        },
        MenuStep::InsertRoot => {
            if ok {
                MenuStep::MakeIcon
            } else {
                MenuStep::DestroySubmenu
            }
        },
        MenuStep::DestroySubmenu => MenuStep::Failed,
        MenuStep::MakeIcon => {
            if ok {
                MenuStep::SetIcon
            } else {
                MenuStep::Inserted
            }
        },
        MenuStep::SetIcon => MenuStep::Inserted,
        MenuStep::Inserted => MenuStep::Inserted,
        MenuStep::Failed => MenuStep::Failed,
    }
}

/// When a step is taken: a submenu that was created for nothing, and no other, is taken back, and
/// the icon waits for the items.
pub open spec fn is_menu_step_taken(step: MenuStep, ok: spec_fn(MenuStep) -> bool) -> bool {
    let items_in = ok(MenuStep::InsertUnlock) && ok(MenuStep::InsertDelete)
        && ok(MenuStep::InsertRoot);
    match step {
        MenuStep::CreateSubmenu => true,
        MenuStep::InsertUnlock => ok(MenuStep::CreateSubmenu),
        MenuStep::InsertDelete => ok(MenuStep::CreateSubmenu) && ok(MenuStep::InsertUnlock),
        MenuStep::InsertRoot => ok(MenuStep::CreateSubmenu) && ok(MenuStep::InsertUnlock)
            && ok(MenuStep::InsertDelete),
        MenuStep::DestroySubmenu => ok(MenuStep::CreateSubmenu) && !items_in,
        MenuStep::MakeIcon => ok(MenuStep::CreateSubmenu) && items_in,
        MenuStep::SetIcon => ok(MenuStep::CreateSubmenu) && items_in && ok(MenuStep::MakeIcon),
        MenuStep::Inserted => ok(MenuStep::CreateSubmenu) && items_in,
        MenuStep::Failed => !(ok(MenuStep::CreateSubmenu) && items_in),
    }
}

/// Inserting the menu always ends, with no step taken twice and each taken exactly when
/// `is_menu_step_taken` says. It ends with a menu if the submenu was created and all three items
/// were inserted, whatever comes of the icon.
pub proof fn menu_insertion_ends_well(ok: spec_fn(MenuStep) -> bool, step: MenuStep)
    ensures
        ({
            let steps = steps_from(MenuStep::CreateSubmenu, ok);
            &&& steps.len() > 0
            &&& steps.no_duplicates()
            &&& steps.contains(step) <==> is_menu_step_taken(step, ok)
            &&& steps.last() == if is_menu_step_taken(MenuStep::Inserted, ok) {
                MenuStep::Inserted
            } else {
                MenuStep::Failed
            }
        }),
{
    lemma_steps_from(MenuStep::Failed, ok, step);
    lemma_steps_from(MenuStep::Inserted, ok, step);
    lemma_steps_from(MenuStep::SetIcon, ok, step);
    lemma_steps_from(MenuStep::MakeIcon, ok, step);
    lemma_steps_from(MenuStep::DestroySubmenu, ok, step);
    lemma_steps_from(MenuStep::InsertRoot, ok, step);
    lemma_steps_from(MenuStep::InsertDelete, ok, step);
    lemma_steps_from(MenuStep::InsertUnlock, ok, step);
    lemma_steps_from(MenuStep::CreateSubmenu, ok, step);
    lemma_no_step_twice(MenuStep::CreateSubmenu, ok);
}

/// What keeps a choice from the menu from being carried out.
#[derive(Clone, Copy, Debug, Eq, PartialEq, Structural)]
pub enum InvokeError {
    InvalidArgument,
    NothingSelected,
}

/// The command number that Explorer passes as the value of a pointer. A greater value is a pointer
/// to a verb in words, which the menu does not know.
pub fn command_id_from_invoke_info(verb: usize) -> (r: Result<usize, InvokeError>)
    ensures
        r == if verb <= 0xffff {
            Ok::<usize, InvokeError>(verb)
        } else {
            Err::<usize, InvokeError>(InvokeError::InvalidArgument)
        },
{
    if verb > 0xffff {
        Err(InvokeError::InvalidArgument)
    } else {
        Ok(verb)
    }
}

/// The action in whose name the chosen item stands: `verb` is the value that Explorer passes, if it
/// passes anything.
pub open spec fn chosen_action_of(verb: Option<usize>) -> Option<BridgeAction> {
    match verb {
        None => None,
        Some(verb) => action_of_command(verb as int),
    }
}

/// What a choice from the menu asks for, where `selected` is the number of paths in the selection.
pub open spec fn invoked_action(verb: Option<usize>, selected: int) -> Result<
    BridgeAction,
    InvokeError,
> {
    match chosen_action_of(verb) {
        None => Err(InvokeError::InvalidArgument),
        Some(action) => if selected == 0 {
            Err(InvokeError::NothingSelected)
        } else {
            Ok(action)
        },
    }
}

/// The action in whose name the chosen item stands.
pub fn chosen_action(verb: Option<usize>) -> (r: Result<BridgeAction, InvokeError>)
    ensures
        r == match chosen_action_of(verb) {
            Some(action) => Ok::<BridgeAction, InvokeError>(action),
            None => Err::<BridgeAction, InvokeError>(InvokeError::InvalidArgument),
        },
{
    let verb: usize = match verb {
        None => {
            return Err(InvokeError::InvalidArgument);
        },
        Some(verb) => verb,
    };
    let command: usize = match command_id_from_invoke_info(verb) {
        Err(error) => {
            return Err(error);
        },
        Ok(command) => command,
    };
    match BridgeAction::from_command_id(command) {
        None => Err(InvokeError::InvalidArgument),
        Some(action) => Ok(action),
    }
}

/// What a choice from the menu asks for.
pub fn decide_invoke(verb: Option<usize>, selected: usize) -> (r: Result<BridgeAction, InvokeError>)
    ensures
        r == invoked_action(verb, selected as int),
{
    match chosen_action(verb) {
        Err(error) => Err(error),
        Ok(action) => {
            if selected == 0 {
                Err(InvokeError::NothingSelected)
            } else {
                Ok(action)
            }
        },
    }
}

/// Each item of the menu stands for its own action: what Explorer passes for a chosen item, its
/// command number counted from the menu's first, is taken for the action in whose name it stands.
pub proof fn items_invoke_their_actions(first_command: int, items: MenuItems, selected: int)
    requires
        items.unlock.command == first_command,
        items.delete.command == first_command + 1,
        selected > 0,
    ensures
        invoked_action(Some((items.unlock.command - first_command) as usize), selected) == Ok::<
            BridgeAction,
            InvokeError,
        >(BridgeAction::Unlock),
        invoked_action(Some((items.delete.command - first_command) as usize), selected) == Ok::<
            BridgeAction,
            InvokeError,
        >(BridgeAction::Delete),
{
}

/// The label shows the whole text of the item, whatever its length, and nothing else but the
/// hotkey: without one it is the text; with one, four characters stand behind it, which are the
/// hotkey in brackets with an ampersand before it.
pub proof fn labels_show_the_text_and_the_hotkey(text: Seq<char>, hotkey: Option<char>)
    ensures
        ({
            let label = label_of(text, hotkey);
            let n = text.len() as int;
            &&& text.is_prefix_of(label)
            &&& forall|i: int| 0 <= i < n ==> label[i] == text[i]
            &&& hotkey is None ==> label.len() == n
            &&& hotkey matches Some(key) ==> {
                &&& label.len() == n + 4
                &&& label[n] == '('
                &&& label[n + 1] == '&'
                &&& label[n + 2] == key
                &&& label[n + 3] == ')'
            }
        }),
{
}

/// Labels tell items apart: two labels with the same hotkey, or both without one, are the same only
/// where the texts are, and two labels of one text are the same only where the hotkeys are.
pub proof fn labels_tell_items_apart(
    text: Seq<char>,
    hotkey: Option<char>,
    other_text: Seq<char>,
    other_hotkey: Option<char>,
)
    requires
        label_of(text, hotkey) == label_of(other_text, other_hotkey),
    ensures
        hotkey is Some == other_hotkey is Some ==> text == other_text && hotkey == other_hotkey,
        text == other_text ==> hotkey == other_hotkey,
{
    let n = text.len() as int;
    let m = other_text.len() as int;
    let label = label_of(text, hotkey);
    labels_show_the_text_and_the_hotkey(text, hotkey);
    labels_show_the_text_and_the_hotkey(other_text, other_hotkey);
    if hotkey is Some == other_hotkey is Some {
        assert(text == label.take(n));
        assert(other_text == label.take(m));
    }
}

/// What Explorer passes is taken for one of the two items, the first for unlocking and the second
/// for deleting, and for nothing else: any other value, and none at all, is refused whatever is
/// selected, and an item is refused where nothing is selected.
pub proof fn choices_mean_one_of_the_items(verb: Option<usize>, selected: int)
    ensures
        ({
            let r = invoked_action(verb, selected);
            &&& chosen_action_of(verb) == Some(BridgeAction::Unlock) <==> verb == Some(0usize)
            &&& chosen_action_of(verb) == Some(BridgeAction::Delete) <==> verb == Some(1usize)
            &&& r == Ok::<BridgeAction, InvokeError>(BridgeAction::Unlock) <==> verb == Some(
                0usize,
            ) && selected != 0
            &&& r == Ok::<BridgeAction, InvokeError>(BridgeAction::Delete) <==> verb == Some(
                1usize,
            ) && selected != 0
            &&& r == Err::<BridgeAction, InvokeError>(InvokeError::NothingSelected) <==> (verb
                == Some(0usize) || verb == Some(1usize)) && selected == 0
            &&& r == Err::<BridgeAction, InvokeError>(InvokeError::InvalidArgument) <==> !(verb
                == Some(0usize) || verb == Some(1usize))
        }),
{
}

/// What is logged of a missing file ends with its path.
pub proof fn skipped_menus_name_the_missing_file(path: Seq<char>)
    ensures
        no_helper_log_of(path) == "QueryContextMenu: skipped because helper was not found: "@
            + path,
        no_unlocker_log_of(path)
            == "QueryContextMenu: skipped because IObitUnlocker.exe was not found: "@ + path,
        path.is_suffix_of(no_helper_log_of(path)),
        path.is_suffix_of(no_unlocker_log_of(path)),
{
}

/// Every insertion of the menu, step by step, with what follows each failure.
#[verifier::rlimit(80)]
pub proof fn menus_are_inserted_step_by_step(ok: spec_fn(MenuStep) -> bool)
    ensures
        steps_from(MenuStep::CreateSubmenu, ok) == if !ok(MenuStep::CreateSubmenu) {
            seq![MenuStep::CreateSubmenu, MenuStep::Failed]
        } else if !ok(MenuStep::InsertUnlock) {
            seq![
                MenuStep::CreateSubmenu,
                MenuStep::InsertUnlock,
                MenuStep::DestroySubmenu,
                MenuStep::Failed,
            ]
        } else if !ok(MenuStep::InsertDelete) {
            seq![
                MenuStep::CreateSubmenu,
                MenuStep::InsertUnlock,
                MenuStep::InsertDelete,
                MenuStep::DestroySubmenu,
                MenuStep::Failed,
            ]
        } else if !ok(MenuStep::InsertRoot) {
            seq![
                MenuStep::CreateSubmenu,
                MenuStep::InsertUnlock,
                MenuStep::InsertDelete,
                MenuStep::InsertRoot,
                MenuStep::DestroySubmenu,
                MenuStep::Failed,
            ]
        } else if !ok(MenuStep::MakeIcon) {
            seq![
                MenuStep::CreateSubmenu,
                MenuStep::InsertUnlock,
                MenuStep::InsertDelete,
                MenuStep::InsertRoot,
                MenuStep::MakeIcon,
                MenuStep::Inserted,
            ]
        } else {
            seq![
                MenuStep::CreateSubmenu,
                MenuStep::InsertUnlock,
                MenuStep::InsertDelete,
                MenuStep::InsertRoot,
                MenuStep::MakeIcon,
                MenuStep::SetIcon,
                MenuStep::Inserted,
            ]
        },
{
    lemma_run(MenuStep::CreateSubmenu, ok);
    lemma_run(MenuStep::InsertUnlock, ok);
    lemma_run(MenuStep::InsertDelete, ok);
    lemma_run(MenuStep::InsertRoot, ok);
    lemma_run(MenuStep::DestroySubmenu, ok);
    lemma_run(MenuStep::MakeIcon, ok);
    lemma_run(MenuStep::SetIcon, ok);
    lemma_run(MenuStep::Inserted, ok);
    lemma_run(MenuStep::Failed, ok);
}

/// The menu shows what is set and does what it shows: the item that comes first is labelled with the
/// whole text for unlocking and unlocks, the one behind it is labelled with the whole text for
/// deleting and deletes, and the item that opens them has its own text and the place it was given.
pub proof fn menus_show_the_settings_and_do_what_they_show(
    items: MenuItems,
    settings: MenuTextSettings,
    menu_index: u32,
    first_command: u32,
    selected: int,
)
    requires
        is_menu_for(items, settings, menu_index, first_command),
        selected > 0,
    ensures
        items.unlock.position < items.delete.position,
        items.unlock.command >= first_command,
        items.delete.command >= first_command,
        settings.unlock_menu_text.is_prefix_of(label_of(items.unlock.text@, items.unlock.hotkey)),
        settings.delete_menu_text.is_prefix_of(label_of(items.delete.text@, items.delete.hotkey)),
        items.unlock.text@.len() == settings.unlock_menu_text.len(),
        items.delete.text@.len() == settings.delete_menu_text.len(),
        items.unlock.hotkey == hotkey_of(settings.unlock_menu_hotkey),
        items.delete.hotkey == hotkey_of(settings.delete_menu_hotkey),
        invoked_action(Some((items.unlock.command - first_command) as usize), selected) == Ok::<
            BridgeAction,
            InvokeError,
        >(BridgeAction::Unlock),
        invoked_action(Some((items.delete.command - first_command) as usize), selected) == Ok::<
            BridgeAction,
            InvokeError,
        >(BridgeAction::Delete),
        items.root_text@ == settings.root_menu_text,
        items.root_position == menu_index,
{
}

} // verus!
