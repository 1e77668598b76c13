use vstd::prelude::*;

use crate::history::slice_chars;
use crate::text::{chars_of, string_from_chars};

verus! {

/// Height of the tab strip, in pixels.
pub const TAB_HEIGHT: usize = 70;

pub const SETTINGS_BUTTON_WIDTH: usize = 44;
pub const SETTINGS_BUTTON_HEIGHT: usize = 40;
pub const SETTINGS_RIGHT_MARGIN: usize = 14;
pub const PANEL_WIDTH: usize = 820;
pub const PANEL_HEIGHT: usize = 500;
pub const SIDEBAR_WIDTH: usize = 188;
pub const CONTENT_PADDING: usize = 28;
pub const ROW_HEIGHT: usize = 72;
pub const ROW_GAP: usize = 11;
pub const CONTROL_WIDTH: usize = 168;
pub const CONTROL_HEIGHT: usize = 34;
pub const STEPPER_BUTTON_WIDTH: usize = 42;

/// An axis-aligned rectangle in window pixels.
#[derive(Clone, Copy, PartialEq, Eq, Structural, Debug)]
pub struct UiRect {
    pub x: usize,
    pub y: usize,
    pub width: usize,
    pub height: usize,
}

/// The kind of control a settings row shows.
#[derive(Clone, Copy, PartialEq, Eq, Structural, Debug)]
pub enum SettingsControlRenderKind {
    Menu,
    Toggle { enabled: bool },
    Stepper,
    Button,
}

/// What the renderer draws for one settings row.
#[derive(Clone, Debug)]
pub struct SettingsItemRenderInfo {
    pub title: String,
    pub detail: String,
    pub value: String,
    pub control: SettingsControlRenderKind,
    pub is_hovered: bool,
    pub rect: UiRect,
    pub primary_rect: UiRect,
    pub secondary_rect: Option<UiRect>,
}

/// What the renderer draws for the settings button and panel.
#[derive(Clone, Debug)]
pub struct SettingsPanelRenderInfo {
    pub is_open: bool,
    pub button_rect: UiRect,
    pub button_hovered: bool,
    pub panel_rect: UiRect,
    pub sidebar_rect: UiRect,
    pub content_rect: UiRect,
    pub items: Vec<SettingsItemRenderInfo>,
}

/// What the renderer draws for one tab.
#[derive(Clone, Debug)]
pub struct TabRenderInfo {
    pub title: String,
    pub is_hovered: bool,
    pub active: bool,
    pub width: usize,
    pub height: usize,
    pub x: usize,
    pub y: usize,
}

/// How the cursor is drawn.
#[derive(Clone, Copy, PartialEq, Eq, Structural, Debug)]
pub enum CursorRenderStyle {
    Block,
    Underline,
    Bar,
    /// The outline drawn while the window has no focus.
    Unfocused,
}

/// The appearance settings offered in the settings panel.
#[derive(Clone, Copy, PartialEq, Eq, Structural, Debug)]
pub enum AppearanceSettingKey {
    FontFamily,
    Ligatures,
    LineHeight,
    FontSize,
    ResetAppearance,
}

impl AppearanceSettingKey {
    /// Every setting, in panel order.
    pub fn all() -> (r: [Self; 5])
        ensures
            r@ == seq![
                AppearanceSettingKey::FontFamily,
                AppearanceSettingKey::Ligatures,
                AppearanceSettingKey::LineHeight,
                AppearanceSettingKey::FontSize,
                AppearanceSettingKey::ResetAppearance,
            ],
    {
        let r = [
            AppearanceSettingKey::FontFamily,
            AppearanceSettingKey::Ligatures,
            AppearanceSettingKey::LineHeight,
            AppearanceSettingKey::FontSize,
            AppearanceSettingKey::ResetAppearance,
        ];
        assert(r@ =~= seq![
            AppearanceSettingKey::FontFamily,
            AppearanceSettingKey::Ligatures,
            AppearanceSettingKey::LineHeight,
            AppearanceSettingKey::FontSize,
            AppearanceSettingKey::ResetAppearance,
        ]);
        r
    }

    /// The row's title.
    pub fn title(self) -> (r: &'static str)
        ensures
            r@ == (match self {
                AppearanceSettingKey::FontFamily => "Font family"@,
                AppearanceSettingKey::Ligatures => "Ligatures"@,
                AppearanceSettingKey::LineHeight => "Line height"@,
                AppearanceSettingKey::FontSize => "Font size"@,
                AppearanceSettingKey::ResetAppearance => "Reset"@,
            }),
    {
        match self {
            AppearanceSettingKey::FontFamily => "Font family",
            AppearanceSettingKey::Ligatures => "Ligatures",
            AppearanceSettingKey::LineHeight => "Line height",
            AppearanceSettingKey::FontSize => "Font size",
            AppearanceSettingKey::ResetAppearance => "Reset",
        }
    }

    /// The row's one-line description.
    pub fn detail(self) -> (r: &'static str)
        ensures
            r@ == (match self {
                AppearanceSettingKey::FontFamily => "Cycle through installed mono fonts"@,
                AppearanceSettingKey::Ligatures => "Use advanced shaping for code glyphs"@,
                AppearanceSettingKey::LineHeight => "Adjust vertical density"@,
                AppearanceSettingKey::FontSize => "Resize terminal text"@,
                AppearanceSettingKey::ResetAppearance => "Restore startup typography"@,
            }),
    {
        match self {
            AppearanceSettingKey::FontFamily => "Cycle through installed mono fonts",
            AppearanceSettingKey::Ligatures => "Use advanced shaping for code glyphs",
            AppearanceSettingKey::LineHeight => "Adjust vertical density",
            AppearanceSettingKey::FontSize => "Resize terminal text",
            AppearanceSettingKey::ResetAppearance => "Restore startup typography",
        }
    }

    /// The control the row shows; `ligatures` tells whether the toggle is
    /// on.
    pub fn control(self, ligatures: bool) -> (r: SettingsControlRenderKind)
        ensures
            r == (match self {
                AppearanceSettingKey::FontFamily => SettingsControlRenderKind::Menu,
                AppearanceSettingKey::Ligatures => SettingsControlRenderKind::Toggle { enabled: ligatures },
                AppearanceSettingKey::LineHeight => SettingsControlRenderKind::Stepper,
                AppearanceSettingKey::FontSize => SettingsControlRenderKind::Stepper,
                AppearanceSettingKey::ResetAppearance => SettingsControlRenderKind::Button,
            }),
    {
        match self {
            AppearanceSettingKey::FontFamily => SettingsControlRenderKind::Menu,
            AppearanceSettingKey::Ligatures => SettingsControlRenderKind::Toggle { enabled: ligatures },
            AppearanceSettingKey::LineHeight => SettingsControlRenderKind::Stepper,
            AppearanceSettingKey::FontSize => SettingsControlRenderKind::Stepper,
            AppearanceSettingKey::ResetAppearance => SettingsControlRenderKind::Button,
        }
    }
}

/// `value` cut to `max_chars` characters, with `...` when something was
/// cut.
pub open spec fn spec_truncate(value: Seq<char>, max_chars: nat) -> Seq<char> {
    if value.len() > max_chars {
        value.subrange(0, max_chars as int) + seq!['.', '.', '.']
    } else {
        value
    }
}

/// Shortens a setting's value for display.
pub fn truncate_value(value: &str, max_chars: usize) -> (r: String)
    ensures
        r@ == spec_truncate(value@, max_chars as nat),
{
    let v = chars_of(value);
    if v.len() > max_chars {
        let mut t = slice_chars(&v, 0, max_chars);
        t.push('.');
        t.push('.');
        t.push('.');
        assert(t@ =~= spec_truncate(value@, max_chars as nat));
        string_from_chars(t.as_slice())
    } else {
        string_from_chars(v.as_slice())
    }
}

pub open spec fn sat_sub(a: int, b: int) -> int {
    if a >= b {
        a - b
    } else {
        0
    }
}

pub open spec fn umin(a: int, b: int) -> int {
    if a <= b {
        a
    } else {
        b
    }
}

pub open spec fn umax(a: int, b: int) -> int {
    if a >= b {
        a
    } else {
        b
    }
}

/// The settings button at the right end of the tab strip of a window
/// `width` pixels wide.
pub open spec fn spec_button_rect(width: u32) -> UiRect {
    UiRect {
        x: sat_sub(width as int, (SETTINGS_BUTTON_WIDTH + SETTINGS_RIGHT_MARGIN) as int) as usize,
        y: ((TAB_HEIGHT - SETTINGS_BUTTON_HEIGHT) / 2) as usize,
        width: SETTINGS_BUTTON_WIDTH,
        height: SETTINGS_BUTTON_HEIGHT,
    }
}

pub fn settings_button_rect(width: u32) -> (r: UiRect)
    ensures
        r == spec_button_rect(width),
{
    let x: u32 = if width >= 58 {
        width - 58
    } else {
        0
    };
    UiRect { x: x as usize, y: 15, width: SETTINGS_BUTTON_WIDTH, height: SETTINGS_BUTTON_HEIGHT }
}

/// The settings panel, centered below the tab strip, between 360x320 and
/// 820x500 pixels and otherwise 32 narrower and 24 lower than the window.
pub open spec fn spec_panel_rect(width: u32, height: u32) -> UiRect {
    let w = umax(umin(PANEL_WIDTH as int, sat_sub(width as int, 32)), 360);
    let h = umax(umin(PANEL_HEIGHT as int, sat_sub(height as int, TAB_HEIGHT as int + 24)), 320);
    UiRect {
        x: (sat_sub(width as int, w) / 2) as usize,
        y: (TAB_HEIGHT as int + sat_sub(height as int, TAB_HEIGHT as int + h) / 2) as usize,
        width: w as usize,
        height: h as usize,
    }
}

pub fn settings_panel_rect(width: u32, height: u32) -> (r: UiRect)
    ensures
        r == spec_panel_rect(width, height),
{
    let avail_w: usize = if width >= 32 {
        (width - 32) as usize
    } else {
        0
    };
    let w0 = if PANEL_WIDTH <= avail_w {
        PANEL_WIDTH
    } else {
        avail_w
    };
    let w = if w0 >= 360 {
        w0
    } else {
        360
    };
    let avail_h: usize = if height >= 94 {
        (height - 94) as usize
    } else {
        0
    };
    let h0 = if PANEL_HEIGHT <= avail_h {
        PANEL_HEIGHT
    } else {
        avail_h
    };
    let h = if h0 >= 320 {
        h0
    } else {
        320
    };
    let wu = width as usize;
    let hu = height as usize;
    let x = (if wu >= w {
        wu - w
    } else {
        0
    }) / 2;
    let y = TAB_HEIGHT + (if hu >= TAB_HEIGHT + h {
        hu - (TAB_HEIGHT + h)
    } else {
        0
    }) / 2;
    UiRect { x, y, width: w, height: h }
}

/// The sidebar: the left of the panel, at most a third of it.
pub open spec fn spec_sidebar_rect(panel: UiRect) -> UiRect {
    UiRect {
        x: panel.x,
        y: panel.y,
        width: umin(SIDEBAR_WIDTH as int, (panel.width / 3) as int) as usize,
        height: panel.height,
    }
}

pub fn sidebar_rect(panel: UiRect) -> (r: UiRect)
    ensures
        r == spec_sidebar_rect(panel),
{
    let third = panel.width / 3;
    UiRect {
        x: panel.x,
        y: panel.y,
        width: if SIDEBAR_WIDTH <= third {
            SIDEBAR_WIDTH
        } else {
            third
        },
        height: panel.height,
    }
}

/// The content area right of the sidebar, padded on both sides.
pub open spec fn spec_content_rect(panel: UiRect, sidebar: UiRect) -> UiRect {
    UiRect {
        x: (sidebar.x + sidebar.width + CONTENT_PADDING) as usize,
        y: panel.y,
        width: sat_sub(panel.width as int, sidebar.width + CONTENT_PADDING * 2) as usize,
        height: panel.height,
    }
}

pub fn content_rect(panel: UiRect, sidebar: UiRect) -> (r: UiRect)
    requires
        sidebar.x + sidebar.width + CONTENT_PADDING <= usize::MAX,
        sidebar.width + CONTENT_PADDING * 2 <= usize::MAX,
    ensures
        r == spec_content_rect(panel, sidebar),
{
    let used = sidebar.width + CONTENT_PADDING * 2;
    UiRect {
        x: sidebar.x + sidebar.width + CONTENT_PADDING,
        y: panel.y,
        width: if panel.width >= used {
            panel.width - used
        } else {
            0
        },
        height: panel.height,
    }
}

/// The row of setting `index` in the content area, if there is such a
/// setting. Rows start 92 pixels below the content's top and are
/// `ROW_HEIGHT + ROW_GAP` = 83 pixels apart.
pub open spec fn spec_item_rect(content: UiRect, index: nat) -> Option<UiRect> {
    if index >= 5 {
        None
    } else {
        Some(
            UiRect {
                x: content.x,
                y: (content.y + 92 + index * 83) as usize,
                width: content.width,
                height: ROW_HEIGHT,
            },
        )
    }
}

pub fn settings_item_rect(content: UiRect, index: usize) -> (r: Option<UiRect>)
    requires
        content.y + 92 + 4 * 83 <= usize::MAX,
    ensures
        r == spec_item_rect(content, index as nat),
{
    if index >= 5 {
        return None;
    }
    Some(
        UiRect {
            x: content.x,
            y: content.y + 92 + index * 83,
            width: content.width,
            height: ROW_HEIGHT,
        },
    )
}

/// The main control of a row, at its right end and vertically centered.
pub open spec fn spec_primary_rect(row: UiRect) -> UiRect {
    UiRect {
        x: (row.x + sat_sub(row.width as int, CONTROL_WIDTH + 14)) as usize,
        y: (row.y + sat_sub(row.height as int, CONTROL_HEIGHT as int) / 2) as usize,
        width: CONTROL_WIDTH,
        height: CONTROL_HEIGHT,
    }
}

pub fn primary_control_rect(row: UiRect) -> (r: UiRect)
    requires
        row.x + row.width <= usize::MAX,
        row.y + row.height <= usize::MAX,
    ensures
        r == spec_primary_rect(row),
{
    UiRect {
        x: row.x + if row.width >= CONTROL_WIDTH + 14 {
            row.width - (CONTROL_WIDTH + 14)
        } else {
            0
        },
        y: row.y + (if row.height >= CONTROL_HEIGHT {
            row.height - CONTROL_HEIGHT
        } else {
            0
        }) / 2,
        width: CONTROL_WIDTH,
        height: CONTROL_HEIGHT,
    }
}

/// The increase button of a stepper row, at the right end of its control.
pub open spec fn spec_secondary_rect(key: AppearanceSettingKey, primary: UiRect) -> Option<UiRect> {
    if key == AppearanceSettingKey::LineHeight || key == AppearanceSettingKey::FontSize {
        Some(
            UiRect {
                x: (primary.x + sat_sub(primary.width as int, STEPPER_BUTTON_WIDTH as int)) as usize,
                y: primary.y,
                width: STEPPER_BUTTON_WIDTH,
                height: primary.height,
            },
        )
    } else {
        None
    }
}

pub fn secondary_control_rect(key: AppearanceSettingKey, primary: UiRect) -> (r: Option<UiRect>)
    requires
        primary.x + primary.width <= usize::MAX,
    ensures
        r == spec_secondary_rect(key, primary),
{
    match key {
        AppearanceSettingKey::LineHeight | AppearanceSettingKey::FontSize => Some(
            UiRect {
                x: primary.x + if primary.width >= STEPPER_BUTTON_WIDTH {
                    primary.width - STEPPER_BUTTON_WIDTH
                } else {
                    0
                },
                y: primary.y,
                width: STEPPER_BUTTON_WIDTH,
                height: primary.height,
            },
        ),
        _ => None,
    }
}

/// Whether the pixel (`x`, `y`) lies in `rect`.
pub open spec fn spec_point_in_rect(x: int, y: int, rect: UiRect) -> bool {
    rect.x <= x < rect.x + rect.width && rect.y <= y < rect.y + rect.height
}

pub fn point_in_rect(x: usize, y: usize, rect: UiRect) -> (r: bool)
    ensures
        r == spec_point_in_rect(x as int, y as int, rect),
{
    x >= rect.x && x - rect.x < rect.width && y >= rect.y && y - rect.y < rect.height
}

/// What a click in the settings panel hits.
#[derive(Clone, Copy, PartialEq, Eq, Structural, Debug)]
pub enum SettingsClickTarget {
    Row(AppearanceSettingKey),
    Primary(AppearanceSettingKey),
    Secondary(AppearanceSettingKey),
}

/// The setting shown in row `index` of the panel.
pub open spec fn key_at(index: int) -> AppearanceSettingKey {
    if index == 0 {
        AppearanceSettingKey::FontFamily
    } else if index == 1 {
        AppearanceSettingKey::Ligatures
    } else if index == 2 {
        AppearanceSettingKey::LineHeight
    } else if index == 3 {
        AppearanceSettingKey::FontSize
    } else {
        AppearanceSettingKey::ResetAppearance
    }
}

/// What a point inside `row`, the row of `key`, hits: a stepper's increase
/// button first, then the main control, else the row itself.
pub open spec fn spec_target_in_row(x: int, y: int, key: AppearanceSettingKey, row: UiRect) -> SettingsClickTarget {
    let primary = spec_primary_rect(row);
    let secondary = spec_secondary_rect(key, primary);
    if secondary is Some && spec_point_in_rect(x, y, secondary->0) {
        SettingsClickTarget::Secondary(key)
    } else if spec_point_in_rect(x, y, primary) {
        SettingsClickTarget::Primary(key)
    } else {
        SettingsClickTarget::Row(key)
    }
}

/// The target of a click at (`x`, `y`) among the setting rows from
/// `index` on, taken in panel order.
pub open spec fn spec_click_target_from(x: int, y: int, content: UiRect, index: nat) -> Option<
    SettingsClickTarget,
>
    decreases 5 - index,
{
    if index >= 5 {
        None
    } else {
        let row = UiRect {
            x: content.x,
            y: (content.y + 92 + index * 83) as usize,
            width: content.width,
            height: ROW_HEIGHT,
        };
        if spec_point_in_rect(x, y, row) {
            Some(spec_target_in_row(x, y, key_at(index as int), row))
        } else {
            spec_click_target_from(x, y, content, index + 1)
        }
    }
}

/// The setting row control under the pixel (`x`, `y`), for the rows laid
/// out in `content`.
pub fn settings_click_target(x: usize, y: usize, content: UiRect) -> (r: Option<SettingsClickTarget>)
    requires
        content.x + content.width + CONTROL_WIDTH <= usize::MAX,
        content.y + 92 + 4 * 83 + ROW_HEIGHT <= usize::MAX,
    ensures
        r == spec_click_target_from(x as int, y as int, content, 0),
{
    let keys = AppearanceSettingKey::all();
    assert(forall|j: int| 0 <= j < 5 ==> keys@[j] == key_at(j));
    let mut i: usize = 0;
    while i < 5
        invariant
            i <= 5,
            forall|j: int| 0 <= j < 5 ==> keys@[j] == key_at(j),
            content.x + content.width + CONTROL_WIDTH <= usize::MAX,
            content.y + 92 + 4 * 83 + ROW_HEIGHT <= usize::MAX,
            spec_click_target_from(x as int, y as int, content, 0) == spec_click_target_from(
                x as int,
                y as int,
                content,
                i as nat,
            ),
        decreases 5 - i,
    {
        let row = UiRect { x: content.x, y: content.y + 92 + i * 83, width: content.width, height: ROW_HEIGHT };
        if point_in_rect(x, y, row) {
            let key = keys[i];
            let primary = primary_control_rect(row);
            let secondary = secondary_control_rect(key, primary);
            if let Some(s) = secondary {
                if point_in_rect(x, y, s) {
                    return Some(SettingsClickTarget::Secondary(key));
                }
            }
            if point_in_rect(x, y, primary) {
                return Some(SettingsClickTarget::Primary(key));
            }
            return Some(SettingsClickTarget::Row(key));
        }
        i = i + 1;
    }
    None
}

/// What a left click does to the settings UI.
#[derive(Clone, Copy, PartialEq, Eq, Structural, Debug)]
pub enum SettingsClick {
    /// The click is not for the settings UI.
    Ignored,
    /// The gear button: open or close the panel.
    ToggleButton,
    /// A control of the open panel.
    Target(SettingsClickTarget),
    /// Outside the open panel, which closes.
    ClosePanel,
    /// Inside the open panel but on no control.
    Absorbed,
}

/// The gear button wins; with the panel closed nothing else is hit; in the
/// open panel a row control, elsewhere in it nothing, and outside it the
/// panel closes.
pub open spec fn spec_settings_click(
    x: int,
    y: int,
    open: bool,
    button: UiRect,
    panel: UiRect,
    content: UiRect,
) -> SettingsClick {
    if spec_point_in_rect(x, y, button) {
        SettingsClick::ToggleButton
    } else if !open {
        SettingsClick::Ignored
    } else if spec_click_target_from(x, y, content, 0) is Some {
        SettingsClick::Target(spec_click_target_from(x, y, content, 0)->0)
    } else if !spec_point_in_rect(x, y, panel) {
        SettingsClick::ClosePanel
    } else {
        SettingsClick::Absorbed
    }
}

/// What a left click at (`x`, `y`) does, given the button, panel and
/// content rectangles and whether the panel is open.
pub fn settings_click(
    x: usize,
    y: usize,
    open: bool,
    button: UiRect,
    panel: UiRect,
    content: UiRect,
) -> (r: SettingsClick)
    requires
        content.x + content.width + CONTROL_WIDTH <= usize::MAX,
        content.y + 92 + 4 * 83 + ROW_HEIGHT <= usize::MAX,
    ensures
        r == spec_settings_click(x as int, y as int, open, button, panel, content),
{
    if point_in_rect(x, y, button) {
        return SettingsClick::ToggleButton;
    }
    if !open {
        return SettingsClick::Ignored;
    }
    match settings_click_target(x, y, content) {
        Some(t) => SettingsClick::Target(t),
        None => {
            if point_in_rect(x, y, panel) {
                SettingsClick::Absorbed
            } else {
                SettingsClick::ClosePanel
            }
        },
    }
}

} // verus!

verus! {

/// Law: a shortened value is at most three characters longer than the
/// limit, and a value within the limit is kept whole.
pub proof fn law_truncate_bound(value: Seq<char>, max_chars: nat)
    ensures
        spec_truncate(value, max_chars).len() <= max_chars + 3,
        value.len() <= max_chars ==> spec_truncate(value, max_chars) == value,
{
}

} // verus!
