//! What the user reads.

use vstd::prelude::*;
use vstd::string::*;
use vstd::utf8::*;

use crate::config::settings::LocalePreference;
use crate::terminal::types::{SearchResult, TerminalSize};
use crate::text::{
    ascii_lower, contains_char, decimal, law_decimal_reads_back, push_decimal, same_text,
};
use crate::ui::session::SessionStatus;

verus! {

/// The English text for `key`.
pub open spec fn english(key: Seq<char>) -> Option<Seq<char>> {
    if key == "restart"@ {
        Some("Restart"@)
    } else if key == "starting"@ {
        Some("Starting"@)
    } else if key == "running"@ {
        Some("Running"@)
    } else if key == "exited"@ {
        Some("Exited with code"@)
    } else if key == "failed"@ {
        Some("Session failed"@)
    } else if key == "settings"@ {
        Some("Settings"@)
    } else if key == "terminal"@ {
        Some("Terminal"@)
    } else if key == "font_size"@ {
        Some("Font size"@)
    } else if key == "font_family"@ {
        Some("Font family"@)
    } else if key == "scrollback"@ {
        Some("Scrollback lines"@)
    } else if key == "system"@ {
        Some("System"@)
    } else if key == "copy_on_select"@ {
        Some("Copy on select"@)
    } else if key == "confirm_paste"@ {
        Some("Confirm multiline paste"@)
    } else if key == "appearance"@ {
        Some("Appearance and language"@)
    } else if key == "shell"@ {
        Some("Default shell profile"@)
    } else if key == "no_shell"@ {
        Some("No shell is available"@)
    } else if key == "profile_name"@ {
        Some("Name"@)
    } else if key == "profile_program"@ {
        Some("Program"@)
    } else if key == "profile_args"@ {
        Some("Arguments (JSON string array)"@)
    } else if key == "profile_cwd"@ {
        Some("Startup directory (blank uses home)"@)
    } else if key == "save_profile"@ {
        Some("Save profile"@)
    } else if key == "new_profile"@ {
        Some("New profile"@)
    } else if key == "duplicate_profile"@ {
        Some("Duplicate"@)
    } else if key == "delete_profile"@ {
        Some("Delete"@)
    } else if key == "set_default"@ {
        Some("Set default"@)
    } else if key == "paste_title"@ {
        Some("Confirm multiline paste"@)
    } else if key == "paste_warning"@ {
        Some("This content contains multiple lines and may run multiple commands:"@)
    } else if key == "paste"@ {
        Some("Paste"@)
    } else if key == "cancel"@ {
        Some("Cancel"@)
    } else if key == "clipboard_request"@ {
        Some("Terminal clipboard write request"@)
    } else if key == "allow_once"@ {
        Some("Allow once"@)
    } else if key == "always_allow"@ {
        Some("Always allow this profile"@)
    } else if key == "deny"@ {
        Some("Deny"@)
    } else if key == "dismiss"@ {
        Some("Dismiss"@)
    } else {
        None
    }
}

/// The Chinese text for `key`.
pub open spec fn chinese(key: Seq<char>) -> Option<Seq<char>> {
    if key == "restart"@ {
        Some("重新启动"@)
    } else if key == "starting"@ {
        Some("正在启动"@)
    } else if key == "running"@ {
        Some("运行中"@)
    } else if key == "exited"@ {
        Some("已退出，代码"@)
    } else if key == "failed"@ {
        Some("会话失败"@)
    } else if key == "settings"@ {
        Some("设置"@)
    } else if key == "terminal"@ {
        Some("终端"@)
    } else if key == "font_size"@ {
        Some("字号"@)
    } else if key == "font_family"@ {
        Some("字体"@)
    } else if key == "scrollback"@ {
        Some("回滚行数"@)
    } else if key == "system"@ {
        Some("跟随系统"@)
    } else if key == "copy_on_select"@ {
        Some("选中即复制"@)
    } else if key == "confirm_paste"@ {
        Some("多行粘贴前确认"@)
    } else if key == "appearance"@ {
        Some("外观与语言"@)
    } else if key == "shell"@ {
        Some("默认 Shell Profile"@)
    } else if key == "no_shell"@ {
        Some("没有可用的 Shell"@)
    } else if key == "profile_name"@ {
        Some("名称"@)
    } else if key == "profile_program"@ {
        Some("程序"@)
    } else if key == "profile_args"@ {
        Some("参数（JSON 字符串数组）"@)
    } else if key == "profile_cwd"@ {
        Some("启动目录（留空使用主目录）"@)
    } else if key == "save_profile"@ {
        Some("保存 Profile"@)
    } else if key == "new_profile"@ {
        Some("新建 Profile"@)
    } else if key == "duplicate_profile"@ {
        Some("复制"@)
    } else if key == "delete_profile"@ {
        Some("删除"@)
    } else if key == "set_default"@ {
        Some("设为默认"@)
    } else if key == "paste_title"@ {
        Some("确认多行粘贴"@)
    } else if key == "paste_warning"@ {
        Some("以下内容包含多行，可能执行多条命令："@)
    } else if key == "paste"@ {
        Some("粘贴"@)
    } else if key == "cancel"@ {
        Some("取消"@)
    } else if key == "clipboard_request"@ {
        Some("终端请求写入剪贴板"@)
    } else if key == "allow_once"@ {
        Some("允许一次"@)
    } else if key == "always_allow"@ {
        Some("始终允许此配置"@)
    } else if key == "deny"@ {
        Some("拒绝"@)
    } else if key == "dismiss"@ {
        Some("关闭"@)
    } else {
        None
    }
}

/// What `key` stands for in the language of `locale`; a key that stands for nothing is its own text.
pub open spec fn translation(locale: LocalePreference, key: Seq<char>) -> Seq<char> {
    let text = if locale == LocalePreference::SimplifiedChinese {
        chinese(key)
    } else {
        english(key)
    };
    match text {
        Some(text) => text,
        None => key,
    }
}

/// The English text for `key`.
fn english_text(key: &str) -> (res: Option<&'static str>)
    ensures
        match res {
            Some(text) => english(key@) == Some(text@),
            None => english(key@) is None,
        },
{
    if same_text(key, "restart") {
        Some("Restart")
    } else if same_text(key, "starting") {
        Some("Starting")
    } else if same_text(key, "running") {
        Some("Running")
    } else if same_text(key, "exited") {
        Some("Exited with code")
    } else if same_text(key, "failed") {
        Some("Session failed")
    } else if same_text(key, "settings") {
        Some("Settings")
    } else if same_text(key, "terminal") {
        Some("Terminal")
    } else if same_text(key, "font_size") {
        Some("Font size")
    } else if same_text(key, "font_family") {
        Some("Font family")
    } else if same_text(key, "scrollback") {
        Some("Scrollback lines")
    } else if same_text(key, "system") {
        Some("System")
    } else if same_text(key, "copy_on_select") {
        Some("Copy on select")
    } else if same_text(key, "confirm_paste") {
        Some("Confirm multiline paste")
    } else if same_text(key, "appearance") {
        Some("Appearance and language")
    } else if same_text(key, "shell") {
        Some("Default shell profile")
    } else if same_text(key, "no_shell") {
        Some("No shell is available")
    } else if same_text(key, "profile_name") {
        Some("Name")
    } else if same_text(key, "profile_program") {
        Some("Program")
    } else if same_text(key, "profile_args") {
        Some("Arguments (JSON string array)")
    } else if same_text(key, "profile_cwd") {
        Some("Startup directory (blank uses home)")
    } else if same_text(key, "save_profile") {
        Some("Save profile")
    } else if same_text(key, "new_profile") {
        Some("New profile")
    } else if same_text(key, "duplicate_profile") {
        Some("Duplicate")
    } else if same_text(key, "delete_profile") {
        Some("Delete")
    } else if same_text(key, "set_default") {
        Some("Set default")
    } else if same_text(key, "paste_title") {
        Some("Confirm multiline paste")
    } else if same_text(key, "paste_warning") {
        Some("This content contains multiple lines and may run multiple commands:")
    } else if same_text(key, "paste") {
        Some("Paste")
    } else if same_text(key, "cancel") {
        Some("Cancel")
    } else if same_text(key, "clipboard_request") {
        Some("Terminal clipboard write request")
    } else if same_text(key, "allow_once") {
        Some("Allow once")
    } else if same_text(key, "always_allow") {
        Some("Always allow this profile")
    } else if same_text(key, "deny") {
        Some("Deny")
    } else if same_text(key, "dismiss") {
        Some("Dismiss")
    } else {
        None
    }
}

/// The Chinese text for `key`.
fn chinese_text(key: &str) -> (res: Option<&'static str>)
    ensures
        match res {
            Some(text) => chinese(key@) == Some(text@),
            None => chinese(key@) is None,
        },
{
    if same_text(key, "restart") {
        Some("重新启动")
    } else if same_text(key, "starting") {
        Some("正在启动")
    } else if same_text(key, "running") {
        Some("运行中")
    } else if same_text(key, "exited") {
        Some("已退出，代码")
    } else if same_text(key, "failed") {
        Some("会话失败")
    } else if same_text(key, "settings") {
        Some("设置")
    } else if same_text(key, "terminal") {
        Some("终端")
    } else if same_text(key, "font_size") {
        Some("字号")
    } else if same_text(key, "font_family") {
        Some("字体")
    } else if same_text(key, "scrollback") {
        Some("回滚行数")
    } else if same_text(key, "system") {
        Some("跟随系统")
    } else if same_text(key, "copy_on_select") {
        Some("选中即复制")
    } else if same_text(key, "confirm_paste") {
        Some("多行粘贴前确认")
    } else if same_text(key, "appearance") {
        Some("外观与语言")
    } else if same_text(key, "shell") {
        Some("默认 Shell Profile")
    } else if same_text(key, "no_shell") {
        Some("没有可用的 Shell")
    } else if same_text(key, "profile_name") {
        Some("名称")
    } else if same_text(key, "profile_program") {
        Some("程序")
    } else if same_text(key, "profile_args") {
        Some("参数（JSON 字符串数组）")
    } else if same_text(key, "profile_cwd") {
        Some("启动目录（留空使用主目录）")
    } else if same_text(key, "save_profile") {
        Some("保存 Profile")
    } else if same_text(key, "new_profile") {
        Some("新建 Profile")
    } else if same_text(key, "duplicate_profile") {
        Some("复制")
    } else if same_text(key, "delete_profile") {
        Some("删除")
    } else if same_text(key, "set_default") {
        Some("设为默认")
    } else if same_text(key, "paste_title") {
        Some("确认多行粘贴")
    } else if same_text(key, "paste_warning") {
        Some("以下内容包含多行，可能执行多条命令：")
    } else if same_text(key, "paste") {
        Some("粘贴")
    } else if same_text(key, "cancel") {
        Some("取消")
    } else if same_text(key, "clipboard_request") {
        Some("终端请求写入剪贴板")
    } else if same_text(key, "allow_once") {
        Some("允许一次")
    } else if same_text(key, "always_allow") {
        Some("始终允许此配置")
    } else if same_text(key, "deny") {
        Some("拒绝")
    } else if same_text(key, "dismiss") {
        Some("关闭")
    } else {
        None
    }
}

/// What `key` stands for in the language of `locale`.
pub fn tr(locale: LocalePreference, key: &str) -> (res: String)
    ensures
        res@ == translation(locale, key@),
{
    let text = if locale == LocalePreference::SimplifiedChinese {
        chinese_text(key)
    } else {
        english_text(key)
    };
    match text {
        Some(text) => text.to_owned(),
        None => key.to_owned(),
    }
}

/// Both languages know the same keys.
pub proof fn law_languages_are_complete(key: Seq<char>)
    ensures
        english(key) is Some <==> chinese(key) is Some,
{
}

/// The name of a setting and whether it is on.
pub open spec fn toggle_text(locale: LocalePreference, key: Seq<char>, enabled: bool) -> Seq<char> {
    translation(locale, key) + ": "@ + if enabled {
        "✓"@
    } else {
        "○"@
    }
}

/// The name of a setting and whether it is on.
pub fn toggle_label(locale: LocalePreference, key: &str, enabled: bool) -> (res: String)
    ensures
        res@ == toggle_text(locale, key@, enabled),
{
    let mut label = tr(locale, key);
    label.append(": ");
    label.append(
        if enabled {
            "✓"
        } else {
            "○"
        },
    );
    label
}

/// Whether pasting `text` could run more than one command.
pub open spec fn multiple_lines(text: Seq<char>) -> bool {
    text.contains('\n') || text.contains('\r')
}

/// Reports whether pasting `text` could run more than one command.
pub fn contains_multiple_lines(text: &str) -> (res: bool)
    ensures
        res == multiple_lines(text@),
{
    contains_char(text, '\n') || contains_char(text, '\r')
}

/// How many characters of a text are shown before it is pasted.
pub const PREVIEW_LIMIT: usize = 600;

/// The beginning of a text; an ellipsis on a line of its own says that there is more.
pub open spec fn preview_text(text: Seq<char>) -> Seq<char> {
    if text.len() > PREVIEW_LIMIT {
        text.take(PREVIEW_LIMIT as int) + "\n…"@
    } else {
        text
    }
}

/// The beginning of a text; an ellipsis on a line of its own says that there is more.
pub fn preview(text: &str) -> (res: String)
    ensures
        res@ == preview_text(text@),
{
    if text.unicode_len() > PREVIEW_LIMIT {
        let mut preview = text.substring_char(0, PREVIEW_LIMIT).to_owned();
        assert(text@.subrange(0, PREVIEW_LIMIT as int) =~= text@.take(PREVIEW_LIMIT as int));
        preview.append("\n…");
        preview
    } else {
        text.to_owned()
    }
}

/// What the user is asked before several lines are pasted.
pub open spec fn paste_question(locale: LocalePreference, text: Seq<char>) -> Seq<char> {
    translation(locale, "paste_warning"@) + "\n\n"@ + preview_text(text)
}

/// What the user is asked before several lines are pasted.
pub fn paste_message(locale: LocalePreference, text: &str) -> (res: String)
    ensures
        res@ == paste_question(locale, text@),
{
    let mut message = tr(locale, "paste_warning");
    message.append("\n\n");
    message.append(preview(text).as_str());
    message
}

/// How the session is doing.
pub open spec fn status_text(locale: LocalePreference, status: SessionStatus) -> Seq<char> {
    match status {
        SessionStatus::Starting => translation(locale, "starting"@),
        SessionStatus::Running => translation(locale, "running"@),
        SessionStatus::Exited(code) => translation(locale, "exited"@) + " "@ + decimal(code as nat),
        SessionStatus::Failed => translation(locale, "failed"@),
    }
}

/// How the session is doing.
pub fn status_label(locale: LocalePreference, status: SessionStatus) -> (res: String)
    ensures
        res@ == status_text(locale, status),
{
    match status {
        SessionStatus::Starting => tr(locale, "starting"),
        SessionStatus::Running => tr(locale, "running"),
        SessionStatus::Exited(code) => {
            let mut label = tr(locale, "exited");
            label.append(" ");
            push_decimal(&mut label, code as u64);
            label
        },
        SessionStatus::Failed => tr(locale, "failed"),
    }
}

/// The size of the screen in columns and lines.
pub fn size_label(size: TerminalSize) -> (res: String)
    ensures
        res@ == decimal(size.columns as nat) + " × "@ + decimal(size.lines as nat),
{
    let mut label = String::new();
    push_decimal(&mut label, size.columns as u64);
    assert(label@ =~= decimal(size.columns as nat));
    label.append(" × ");
    push_decimal(&mut label, size.lines as u64);
    label
}

/// Which of the matches is the current one, and how many there are.
pub open spec fn search_position(current: Option<usize>, total: nat) -> Seq<char> {
    if total == 0 {
        "0 / 0"@
    } else {
        let place: int = match current {
            Some(index) => index + 1,
            None => 1,
        };
        decimal(place as nat) + " / "@ + decimal(total)
    }
}

/// Which of the matches is the current one, and how many there are.
pub fn search_label(result: &SearchResult) -> (res: String)
    requires
        result.total > 0 ==> (result.current matches Some(index) ==> index < usize::MAX),
    ensures
        res@ == search_position(result.current, result.total as nat),
{
    if result.total == 0 {
        return "0 / 0".to_owned();
    }
    let index: usize = match result.current {
        Some(index) => index,
        None => 0,
    };
    let mut label = String::new();
    push_decimal(&mut label, index as u64 + 1);
    assert(label@ =~= decimal((index + 1) as nat));
    label.append(" / ");
    push_decimal(&mut label, result.total as u64);
    label
}

/// The profile of a session and the title that its application chose.
pub fn session_label(profile_name: &str, title: &str) -> (res: String)
    ensures
        res@ == profile_name@ + " · "@ + title@,
{
    profile_name.to_owned().concat(" · ").concat(title)
}

/// What an application wants to put in the clipboard: the profile and how many bytes.
pub fn clipboard_message(profile_name: &str, text: &str) -> (res: String)
    ensures
        res@ == profile_name@ + ": "@ + decimal(encode_utf8(text@).len()) + " bytes"@,
{
    let mut message = profile_name.to_owned().concat(": ");
    push_decimal(&mut message, text.as_bytes().len() as u64);
    message.append(" bytes");
    message
}

/// The name of a setting and its value.
pub fn number_label(locale: LocalePreference, key: &str, value: usize) -> (res: String)
    ensures
        res@ == translation(locale, key@) + ": "@ + decimal(value as nat),
{
    let mut label = tr(locale, key);
    label.append(": ");
    push_decimal(&mut label, value as u64);
    label
}

/// What is shown of a text before it is pasted is its beginning, at most as long as the limit and
/// the ellipsis.
pub proof fn law_preview_is_a_bounded_beginning(text: Seq<char>)
    ensures
        preview_text(text).len() <= PREVIEW_LIMIT + "\n…"@.len(),
        text.len() <= PREVIEW_LIMIT ==> preview_text(text) == text,
        text.len() > PREVIEW_LIMIT ==> preview_text(text).take(PREVIEW_LIMIT as int) == text.take(
            PREVIEW_LIMIT as int,
        ),
{
    if text.len() > PREVIEW_LIMIT {
        assert(preview_text(text).take(PREVIEW_LIMIT as int) =~= text.take(PREVIEW_LIMIT as int));
    }
}

/// Each text is in its own script: an English one begins with a capital, and a Chinese one with
/// something beyond ASCII. So the two languages are never mixed up.
pub proof fn law_texts_are_in_their_language(key: Seq<char>)
    ensures
        english(key) matches Some(text) ==> text.len() > 0 && 'A' <= text[0] <= 'Z',
        chinese(key) matches Some(text) ==> text.len() > 0 && text[0] > '\u{7f}',
{
    reveal_strlit("Restart");
    reveal_strlit("Starting");
    reveal_strlit("Running");
    reveal_strlit("Exited with code");
    reveal_strlit("Session failed");
    reveal_strlit("Settings");
    reveal_strlit("Terminal");
    reveal_strlit("Font size");
    reveal_strlit("Font family");
    reveal_strlit("Scrollback lines");
    reveal_strlit("System");
    reveal_strlit("Copy on select");
    reveal_strlit("Confirm multiline paste");
    reveal_strlit("Appearance and language");
    reveal_strlit("Default shell profile");
    reveal_strlit("No shell is available");
    reveal_strlit("Name");
    reveal_strlit("Program");
    reveal_strlit("Arguments (JSON string array)");
    reveal_strlit("Startup directory (blank uses home)");
    reveal_strlit("Save profile");
    reveal_strlit("New profile");
    reveal_strlit("Duplicate");
    reveal_strlit("Delete");
    reveal_strlit("Set default");
    reveal_strlit("This content contains multiple lines and may run multiple commands:");
    reveal_strlit("Paste");
    reveal_strlit("Cancel");
    reveal_strlit("Terminal clipboard write request");
    reveal_strlit("Allow once");
    reveal_strlit("Always allow this profile");
    reveal_strlit("Deny");
    reveal_strlit("Dismiss");
    reveal_strlit("重新启动");
    reveal_strlit("正在启动");
    reveal_strlit("运行中");
    reveal_strlit("已退出，代码");
    reveal_strlit("会话失败");
    reveal_strlit("设置");
    reveal_strlit("终端");
    reveal_strlit("字号");
    reveal_strlit("字体");
    reveal_strlit("回滚行数");
    reveal_strlit("跟随系统");
    reveal_strlit("选中即复制");
    reveal_strlit("多行粘贴前确认");
    reveal_strlit("外观与语言");
    reveal_strlit("默认 Shell Profile");
    reveal_strlit("没有可用的 Shell");
    reveal_strlit("名称");
    reveal_strlit("程序");
    reveal_strlit("参数（JSON 字符串数组）");
    reveal_strlit("启动目录（留空使用主目录）");
    reveal_strlit("保存 Profile");
    reveal_strlit("新建 Profile");
    reveal_strlit("复制");
    reveal_strlit("删除");
    reveal_strlit("设为默认");
    reveal_strlit("确认多行粘贴");
    reveal_strlit("以下内容包含多行，可能执行多条命令：");
    reveal_strlit("粘贴");
    reveal_strlit("取消");
    reveal_strlit("终端请求写入剪贴板");
    reveal_strlit("允许一次");
    reveal_strlit("始终允许此配置");
    reveal_strlit("拒绝");
    reveal_strlit("关闭");
}

/// Who chose Chinese reads Chinese, and everyone else reads English. A key that has no text stands
/// for itself.
pub proof fn law_readers_get_their_language(key: Seq<char>)
    ensures
        chinese(key) matches Some(text) ==> translation(LocalePreference::SimplifiedChinese, key)
            == text,
        english(key) matches Some(text) ==> translation(LocalePreference::English, key) == text
            && translation(LocalePreference::System, key) == text,
        english(key) is None && chinese(key) is None ==> forall|locale: LocalePreference|
            #[trigger] translation(locale, key) == key,
{
}

/// Whether a text reads as the key at one place: the same letter but for case, and a blank for an
/// underscore.
pub open spec fn reads_at(text: Seq<char>, key: Seq<char>, i: int) -> bool {
    i < key.len() ==> i < text.len() && ascii_lower(text[i]) == if key[i] == '_' {
        ' '
    } else {
        key[i]
    }
}

/// Whether a text begins as the key reads.
pub open spec fn reads_as(text: Seq<char>, key: Seq<char>) -> bool {
    forall|i: int| 0 <= i ==> #[trigger] reads_at(text, key, i)
}

proof fn lemma_reads_as(text: Seq<char>, key: Seq<char>)
    requires
        key.len() <= 14,
        reads_at(text, key, 0),
        reads_at(text, key, 1),
        reads_at(text, key, 2),
        reads_at(text, key, 3),
        reads_at(text, key, 4),
        reads_at(text, key, 5),
        reads_at(text, key, 6),
        reads_at(text, key, 7),
        reads_at(text, key, 8),
        reads_at(text, key, 9),
        reads_at(text, key, 10),
        reads_at(text, key, 11),
        reads_at(text, key, 12),
        reads_at(text, key, 13),
    ensures
        reads_as(text, key),
{
    assert forall|i: int| 0 <= i implies #[trigger] reads_at(text, key, i) by {
        if i == 0 || i == 1 || i == 2 || i == 3 || i == 4 || i == 5 || i == 6 {
        } else if i == 7 || i == 8 || i == 9 || i == 10 || i == 11 || i == 12 || i == 13 {
        }
    }
}

/// Where the key is the English text in short, the text begins as the key reads.
pub proof fn law_english_reads_as_its_key(key: Seq<char>)
    requires
        key == "restart"@
            || key == "starting"@
            || key == "running"@
            || key == "exited"@
            || key == "settings"@
            || key == "terminal"@
            || key == "font_size"@
            || key == "font_family"@
            || key == "scrollback"@
            || key == "system"@
            || key == "copy_on_select"@
            || key == "appearance"@
            || key == "no_shell"@
            || key == "save_profile"@
            || key == "new_profile"@
            || key == "set_default"@
            || key == "paste"@
            || key == "cancel"@
            || key == "allow_once"@
            || key == "always_allow"@
            || key == "deny"@
            || key == "dismiss"@,
    ensures
        english(key) matches Some(text) && reads_as(text, key),
{
    reveal_strlit("restart");
    reveal_strlit("starting");
    reveal_strlit("running");
    reveal_strlit("exited");
    reveal_strlit("failed");
    reveal_strlit("settings");
    reveal_strlit("terminal");
    reveal_strlit("font_size");
    reveal_strlit("font_family");
    reveal_strlit("scrollback");
    reveal_strlit("system");
    reveal_strlit("copy_on_select");
    reveal_strlit("confirm_paste");
    reveal_strlit("appearance");
    reveal_strlit("shell");
    reveal_strlit("no_shell");
    reveal_strlit("profile_name");
    reveal_strlit("profile_program");
    reveal_strlit("profile_args");
    reveal_strlit("profile_cwd");
    reveal_strlit("save_profile");
    reveal_strlit("new_profile");
    reveal_strlit("duplicate_profile");
    reveal_strlit("delete_profile");
    reveal_strlit("set_default");
    reveal_strlit("paste_title");
    reveal_strlit("paste_warning");
    reveal_strlit("paste");
    reveal_strlit("cancel");
    reveal_strlit("clipboard_request");
    reveal_strlit("allow_once");
    reveal_strlit("always_allow");
    reveal_strlit("deny");
    reveal_strlit("dismiss");
    reveal_strlit("Restart");
    reveal_strlit("Starting");
    reveal_strlit("Running");
    reveal_strlit("Exited with code");
    reveal_strlit("Settings");
    reveal_strlit("Terminal");
    reveal_strlit("Font size");
    reveal_strlit("Font family");
    reveal_strlit("Scrollback lines");
    reveal_strlit("System");
    reveal_strlit("Copy on select");
    reveal_strlit("Appearance and language");
    reveal_strlit("No shell is available");
    reveal_strlit("Save profile");
    reveal_strlit("New profile");
    reveal_strlit("Set default");
    reveal_strlit("Paste");
    reveal_strlit("Cancel");
    reveal_strlit("Allow once");
    reveal_strlit("Always allow this profile");
    reveal_strlit("Deny");
    reveal_strlit("Dismiss");
    assert("restart"@.len() == 7);
    assert("starting"@.len() == 8);
    assert("running"@.len() == 7);
    assert("exited"@.len() == 6);
    assert("failed"@.len() == 6);
    assert("settings"@.len() == 8);
    assert("terminal"@.len() == 8);
    assert("font_size"@.len() == 9);
    assert("font_family"@.len() == 11);
    assert("scrollback"@.len() == 10);
    assert("system"@.len() == 6);
    assert("copy_on_select"@.len() == 14);
    assert("confirm_paste"@.len() == 13);
    assert("appearance"@.len() == 10);
    assert("shell"@.len() == 5);
    assert("no_shell"@.len() == 8);
    assert("profile_name"@.len() == 12);
    assert("profile_program"@.len() == 15);
    assert("profile_args"@.len() == 12);
    assert("profile_cwd"@.len() == 11);
    assert("save_profile"@.len() == 12);
    assert("new_profile"@.len() == 11);
    assert("duplicate_profile"@.len() == 17);
    assert("delete_profile"@.len() == 14);
    assert("set_default"@.len() == 11);
    assert("paste_title"@.len() == 11);
    assert("paste_warning"@.len() == 13);
    assert("paste"@.len() == 5);
    assert("cancel"@.len() == 6);
    assert("clipboard_request"@.len() == 17);
    assert("allow_once"@.len() == 10);
    assert("always_allow"@.len() == 12);
    assert("deny"@.len() == 4);
    assert("dismiss"@.len() == 7);
    if key == "restart"@ {
        assert(english(key) == Some("Restart"@));
        lemma_reads_as("Restart"@, "restart"@);
    } else if key == "starting"@ {
        assert(english(key) == Some("Starting"@));
        lemma_reads_as("Starting"@, "starting"@);
    } else if key == "running"@ {
        assert("restart"@[1] != "running"@[1]);
        assert(english(key) == Some("Running"@));
        lemma_reads_as("Running"@, "running"@);
    } else if key == "exited"@ {
        assert(english(key) == Some("Exited with code"@));
        lemma_reads_as("Exited with code"@, "exited"@);
    } else if key == "settings"@ {
        assert("starting"@[1] != "settings"@[1]);
        assert(english(key) == Some("Settings"@));
        lemma_reads_as("Settings"@, "settings"@);
    } else if key == "terminal"@ {
        assert("starting"@[0] != "terminal"@[0]);
        assert("settings"@[0] != "terminal"@[0]);
        assert(english(key) == Some("Terminal"@));
        lemma_reads_as("Terminal"@, "terminal"@);
    } else if key == "font_size"@ {
        assert(english(key) == Some("Font size"@));
        lemma_reads_as("Font size"@, "font_size"@);
    } else if key == "font_family"@ {
        assert(english(key) == Some("Font family"@));
        lemma_reads_as("Font family"@, "font_family"@);
    } else if key == "scrollback"@ {
        assert(english(key) == Some("Scrollback lines"@));
        lemma_reads_as("Scrollback lines"@, "scrollback"@);
    } else if key == "system"@ {
        assert("exited"@[0] != "system"@[0]);
        assert("failed"@[0] != "system"@[0]);
        assert(english(key) == Some("System"@));
        lemma_reads_as("System"@, "system"@);
    } else if key == "copy_on_select"@ {
        assert(english(key) == Some("Copy on select"@));
        lemma_reads_as("Copy on select"@, "copy_on_select"@);
    } else if key == "appearance"@ {
        assert("scrollback"@[0] != "appearance"@[0]);
        assert(english(key) == Some("Appearance and language"@));
        lemma_reads_as("Appearance and language"@, "appearance"@);
    } else if key == "no_shell"@ {
        assert("starting"@[0] != "no_shell"@[0]);
        assert("settings"@[0] != "no_shell"@[0]);
        assert("terminal"@[0] != "no_shell"@[0]);
        assert(english(key) == Some("No shell is available"@));
        lemma_reads_as("No shell is available"@, "no_shell"@);
    } else if key == "save_profile"@ {
        assert("profile_name"@[0] != "save_profile"@[0]);
        assert("profile_args"@[0] != "save_profile"@[0]);
        assert(english(key) == Some("Save profile"@));
        lemma_reads_as("Save profile"@, "save_profile"@);
    } else if key == "new_profile"@ {
        assert("font_family"@[0] != "new_profile"@[0]);
        assert("profile_cwd"@[0] != "new_profile"@[0]);
        assert(english(key) == Some("New profile"@));
        lemma_reads_as("New profile"@, "new_profile"@);
    } else if key == "set_default"@ {
        assert("font_family"@[0] != "set_default"@[0]);
        assert("profile_cwd"@[0] != "set_default"@[0]);
        assert("new_profile"@[0] != "set_default"@[0]);
        assert(english(key) == Some("Set default"@));
        lemma_reads_as("Set default"@, "set_default"@);
    } else if key == "paste"@ {
        assert("shell"@[0] != "paste"@[0]);
        assert(english(key) == Some("Paste"@));
        lemma_reads_as("Paste"@, "paste"@);
    } else if key == "cancel"@ {
        assert("exited"@[0] != "cancel"@[0]);
        assert("failed"@[0] != "cancel"@[0]);
        assert("system"@[0] != "cancel"@[0]);
        assert(english(key) == Some("Cancel"@));
        lemma_reads_as("Cancel"@, "cancel"@);
    } else if key == "allow_once"@ {
        assert("scrollback"@[0] != "allow_once"@[0]);
        assert("appearance"@[1] != "allow_once"@[1]);
        assert(english(key) == Some("Allow once"@));
        lemma_reads_as("Allow once"@, "allow_once"@);
    } else if key == "always_allow"@ {
        assert("profile_name"@[0] != "always_allow"@[0]);
        assert("profile_args"@[0] != "always_allow"@[0]);
        assert("save_profile"@[0] != "always_allow"@[0]);
        assert(english(key) == Some("Always allow this profile"@));
        lemma_reads_as("Always allow this profile"@, "always_allow"@);
    } else if key == "deny"@ {
        assert(english(key) == Some("Deny"@));
        lemma_reads_as("Deny"@, "deny"@);
    } else if key == "dismiss"@ {
        assert("restart"@[0] != "dismiss"@[0]);
        assert("running"@[0] != "dismiss"@[0]);
        assert(english(key) == Some("Dismiss"@));
        lemma_reads_as("Dismiss"@, "dismiss"@);
    }
}

/// Whether `text` begins with `start`.
pub open spec fn begins_with(text: Seq<char>, start: Seq<char>) -> bool {
    text.len() >= start.len() && text.take(start.len() as int) == start
}

/// Whether `text` ends with `end`.
pub open spec fn ends_with(text: Seq<char>, end: Seq<char>) -> bool {
    text.len() >= end.len() && text.skip(text.len() - end.len()) == end
}

/// A switch is told by its name, and then by a tick where it is on and a ring where it is off.
pub proof fn law_switches_show_their_state(locale: LocalePreference, key: Seq<char>)
    ensures
        begins_with(toggle_text(locale, key, true), translation(locale, key)),
        begins_with(toggle_text(locale, key, false), translation(locale, key)),
        toggle_text(locale, key, true).last() == '✓',
        toggle_text(locale, key, false).last() == '○',
{
    reveal_strlit(": ");
    reveal_strlit("✓");
    reveal_strlit("○");
    let name = translation(locale, key);
    assert(toggle_text(locale, key, true).take(name.len() as int) =~= name);
    assert(toggle_text(locale, key, false).take(name.len() as int) =~= name);
}

/// A text has several lines if and only if a line break of either kind stands somewhere in it.
pub proof fn law_line_breaks_make_lines(text: Seq<char>)
    ensures
        multiple_lines(text) <==> exists|i: int|
            0 <= i < text.len() && (#[trigger] text[i] == '\n' || text[i] == '\r'),
{
    if exists|i: int| 0 <= i < text.len() && (#[trigger] text[i] == '\n' || text[i] == '\r') {
        let i = choose|i: int| 0 <= i < text.len() && (#[trigger] text[i] == '\n' || text[i] == '\r');
        assert(text.contains(text[i]));
    }
}

/// A short text is shown whole before it is pasted. Of a longer one the first 600 characters are
/// shown, and then that there is more.
pub proof fn law_preview_shows_the_beginning(text: Seq<char>)
    ensures
        text.len() <= 600 ==> preview_text(text) == text,
        text.len() > 600 ==> preview_text(text).take(600) == text.take(600) && preview_text(
            text,
        ).len() == 602 && preview_text(text).last() == '…',
{
    reveal_strlit("\n…");
    if text.len() > 600 {
        assert(preview_text(text).take(600) =~= text.take(600));
    }
}

/// Before several lines are pasted the user reads the warning and then the text.
pub proof fn law_paste_question_shows_the_text(locale: LocalePreference, text: Seq<char>)
    ensures
        begins_with(paste_question(locale, text), translation(locale, "paste_warning"@)),
        ends_with(paste_question(locale, text), preview_text(text)),
{
    let question = paste_question(locale, text);
    let warning = translation(locale, "paste_warning"@);
    assert(question.take(warning.len() as int) =~= warning);
    assert(question.skip(question.len() - preview_text(text).len()) =~= preview_text(text));
}

/// The status is told in the reader's language, by the word for it. An exit is told with its code,
/// so that different codes are told apart.
pub proof fn law_status_is_told(locale: LocalePreference, code: u32, other: u32)
    ensures
        status_text(locale, SessionStatus::Starting) == translation(locale, "starting"@),
        status_text(locale, SessionStatus::Running) == translation(locale, "running"@),
        status_text(locale, SessionStatus::Failed) == translation(locale, "failed"@),
        begins_with(status_text(locale, SessionStatus::Exited(code)), translation(locale, "exited"@)),
        ends_with(status_text(locale, SessionStatus::Exited(code)), decimal(code as nat)),
        status_text(locale, SessionStatus::Exited(code)) == status_text(
            locale,
            SessionStatus::Exited(other),
        ) ==> code == other,
{
    let word = translation(locale, "exited"@);
    let text = status_text(locale, SessionStatus::Exited(code));
    let again = status_text(locale, SessionStatus::Exited(other));
    reveal_strlit(" ");
    assert(text.take(word.len() as int) =~= word);
    assert(text.skip(text.len() - decimal(code as nat).len()) =~= decimal(code as nat));
    if text == again {
        assert(text.skip(word.len() as int + 1) =~= decimal(code as nat));
        assert(again.skip(word.len() as int + 1) =~= decimal(other as nat));
        law_decimal_reads_back(code as nat);
        law_decimal_reads_back(other as nat);
    }
}

/// The place of the current match counts from one, and is followed by the number of all matches.
pub proof fn law_search_position_counts_from_one(index: usize, total: nat)
    requires
        total > 0,
    ensures
        begins_with(search_position(Some(index), total), decimal((index + 1) as nat)),
        ends_with(search_position(Some(index), total), decimal(total)),
        search_position(None, total) == search_position(Some(0), total),
        search_position(Some(index), 0) == search_position(None, 0),
{
    let text = search_position(Some(index), total);
    assert(text.take(decimal((index + 1) as nat).len() as int) =~= decimal((index + 1) as nat));
    assert(text.skip(text.len() - decimal(total).len()) =~= decimal(total));
}

} // verus!
