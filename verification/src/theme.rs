//! Visual identity shared by the master and server front ends: a dark and a
//! light palette and the runtime switch between them.
//!
//! The switch is the process-wide theme setting; the front end keeps one
//! `ThemeSwitch` and every colour accessor reads the palette of its current
//! mode, so changing the mode re-themes everything painted afterwards.

use vstd::prelude::*;

verus! {

/// The two palettes.
#[derive(Debug, Clone, Copy, PartialEq, Eq, Structural)]
pub enum ThemeMode {
    Dark,
    Light,
}

impl Default for ThemeMode {
    fn default() -> (r: Self)
        ensures
            r == ThemeMode::Dark,
    {
        ThemeMode::Dark
    }
}

/// Code stored for the dark palette.
pub const MODE_DARK: u8 = 0;

/// Code stored for the light palette.
pub const MODE_LIGHT: u8 = 1;

/// The stored theme setting, as a mode code.
pub struct ThemeSwitch {
    pub code: u8,
}

/// The mode that a stored code stands for: the light code means light, any other code dark.
pub open spec fn mode_of_code(code: u8) -> ThemeMode {
    if code == MODE_LIGHT {
        ThemeMode::Light
    } else {
        ThemeMode::Dark
    }
}

/// The code stored for mode `m`.
pub open spec fn code_of_mode(m: ThemeMode) -> u8 {
    match m {
        ThemeMode::Dark => MODE_DARK,
        ThemeMode::Light => MODE_LIGHT,
    }
}

impl ThemeSwitch {
    /// A switch in its initial state, the dark palette.
    pub fn new() -> (r: Self)
        ensures
            r.code == MODE_DARK,
            r.mode() == ThemeMode::Dark,
    {
        ThemeSwitch { code: MODE_DARK }
    }

    /// The mode the switch currently selects.
    pub open spec fn mode(&self) -> ThemeMode {
        mode_of_code(self.code)
    }
}

/// Selects palette `m`.
pub fn set_mode(switch: &mut ThemeSwitch, m: ThemeMode)
    ensures
        final(switch).code == code_of_mode(m),
{
    let v = match m {
        ThemeMode::Dark => MODE_DARK,
        ThemeMode::Light => MODE_LIGHT,
    };
    switch.code = v;
}

/// The palette currently selected.
pub fn current_mode(switch: &ThemeSwitch) -> (r: ThemeMode)
    ensures
        r == switch.mode(),
{
    if switch.code == MODE_LIGHT {
        ThemeMode::Light
    } else {
        ThemeMode::Dark
    }
}

/// The other palette: what the theme button switches to.
pub fn toggled(m: ThemeMode) -> (r: ThemeMode)
    ensures
        r != m,
        r == match m {
            ThemeMode::Dark => ThemeMode::Light,
            ThemeMode::Light => ThemeMode::Dark,
        },
{
    match m {
        ThemeMode::Dark => ThemeMode::Light,
        ThemeMode::Light => ThemeMode::Dark,
    }
}

/// Reading the mode back gives the mode last selected.
pub proof fn lemma_set_then_current(m: ThemeMode)
    ensures
        mode_of_code(code_of_mode(m)) == m,
{
}

/// An opaque RGB colour.
#[derive(Debug, Clone, Copy, PartialEq, Eq, Structural)]
pub struct Rgb {
    pub r: u8,
    pub g: u8,
    pub b: u8,
}

/// The colour with channels `r`, `g`, `b`.
pub open spec fn rgb(r: u8, g: u8, b: u8) -> Rgb {
    Rgb { r, g, b }
}

/// `dark` under the dark palette and `light` under the light one.
pub open spec fn pick_spec(m: ThemeMode, dark: Rgb, light: Rgb) -> Rgb {
    match m {
        ThemeMode::Dark => dark,
        ThemeMode::Light => light,
    }
}

/// The colour of the current palette among `dark` and `light`.
pub fn pick(switch: &ThemeSwitch, dark: Rgb, light: Rgb) -> (r: Rgb)
    ensures
        r == pick_spec(switch.mode(), dark, light),
{
    match current_mode(switch) {
        ThemeMode::Dark => dark,
        ThemeMode::Light => light,
    }
}

/// Primary accent. (dark `(64, 188, 184)`, light `(32, 134, 130)`)
pub open spec fn accent_of(m: ThemeMode) -> Rgb {
    pick_spec(m, rgb(64, 188, 184), rgb(32, 134, 130))
}

/// Primary accent.
pub fn accent(switch: &ThemeSwitch) -> (r: Rgb)
    ensures
        r == accent_of(switch.mode()),
{
    pick(switch, Rgb { r: 64, g: 188, b: 184 }, Rgb { r: 32, g: 134, b: 130 })
}

/// Dimmed accent, for pressed widgets. (dark `(38, 124, 122)`, light `(150, 210, 208)`)
pub open spec fn accent_dim_of(m: ThemeMode) -> Rgb {
    pick_spec(m, rgb(38, 124, 122), rgb(150, 210, 208))
}

/// Dimmed accent, for pressed widgets.
pub fn accent_dim(switch: &ThemeSwitch) -> (r: Rgb)
    ensures
        r == accent_dim_of(switch.mode()),
{
    pick(switch, Rgb { r: 38, g: 124, b: 122 }, Rgb { r: 150, g: 210, b: 208 })
}

/// Soft accent fill, for selections. (dark `(28, 70, 70)`, light `(216, 240, 238)`)
pub open spec fn accent_soft_of(m: ThemeMode) -> Rgb {
    pick_spec(m, rgb(28, 70, 70), rgb(216, 240, 238))
}

/// Soft accent fill, for selections.
pub fn accent_soft(switch: &ThemeSwitch) -> (r: Rgb)
    ensures
        r == accent_soft_of(switch.mode()),
{
    pick(switch, Rgb { r: 28, g: 70, b: 70 }, Rgb { r: 216, g: 240, b: 238 })
}

/// Deepest background. (dark `(20, 22, 28)`, light `(244, 246, 250)`)
pub open spec fn bg_base_of(m: ThemeMode) -> Rgb {
    pick_spec(m, rgb(20, 22, 28), rgb(244, 246, 250))
}

/// Deepest background.
pub fn bg_base(switch: &ThemeSwitch) -> (r: Rgb)
    ensures
        r == bg_base_of(switch.mode()),
{
    pick(switch, Rgb { r: 20, g: 22, b: 28 }, Rgb { r: 244, g: 246, b: 250 })
}

/// Panel background. (dark `(28, 31, 38)`, light `(252, 253, 255)`)
pub open spec fn bg_panel_of(m: ThemeMode) -> Rgb {
    pick_spec(m, rgb(28, 31, 38), rgb(252, 253, 255))
}

/// Panel background.
pub fn bg_panel(switch: &ThemeSwitch) -> (r: Rgb)
    ensures
        r == bg_panel_of(switch.mode()),
{
    pick(switch, Rgb { r: 28, g: 31, b: 38 }, Rgb { r: 252, g: 253, b: 255 })
}

/// Raised surfaces such as windows and cards. (dark `(36, 40, 48)`, light `(255, 255, 255)`)
pub open spec fn bg_raised_of(m: ThemeMode) -> Rgb {
    pick_spec(m, rgb(36, 40, 48), rgb(255, 255, 255))
}

/// Raised surfaces such as windows and cards.
pub fn bg_raised(switch: &ThemeSwitch) -> (r: Rgb)
    ensures
        r == bg_raised_of(switch.mode()),
{
    pick(switch, Rgb { r: 36, g: 40, b: 48 }, Rgb { r: 255, g: 255, b: 255 })
}

/// Hovered widget background. (dark `(48, 54, 64)`, light `(228, 232, 240)`)
pub open spec fn bg_hover_of(m: ThemeMode) -> Rgb {
    pick_spec(m, rgb(48, 54, 64), rgb(228, 232, 240))
}

/// Hovered widget background.
pub fn bg_hover(switch: &ThemeSwitch) -> (r: Rgb)
    ensures
        r == bg_hover_of(switch.mode()),
{
    pick(switch, Rgb { r: 48, g: 54, b: 64 }, Rgb { r: 228, g: 232, b: 240 })
}

/// Borders and separators. (dark `(52, 58, 70)`, light `(208, 214, 224)`)
pub open spec fn border_of(m: ThemeMode) -> Rgb {
    pick_spec(m, rgb(52, 58, 70), rgb(208, 214, 224))
}

/// Borders and separators.
pub fn border(switch: &ThemeSwitch) -> (r: Rgb)
    ensures
        r == border_of(switch.mode()),
{
    pick(switch, Rgb { r: 52, g: 58, b: 70 }, Rgb { r: 208, g: 214, b: 224 })
}

/// Body text. (dark `(228, 232, 240)`, light `(28, 32, 40)`)
pub open spec fn text_primary_of(m: ThemeMode) -> Rgb {
    pick_spec(m, rgb(228, 232, 240), rgb(28, 32, 40))
}

/// Body text.
pub fn text_primary(switch: &ThemeSwitch) -> (r: Rgb)
    ensures
        r == text_primary_of(switch.mode()),
{
    pick(switch, Rgb { r: 228, g: 232, b: 240 }, Rgb { r: 28, g: 32, b: 40 })
}

/// Secondary text. (dark `(148, 156, 170)`, light `(96, 104, 118)`)
pub open spec fn text_muted_of(m: ThemeMode) -> Rgb {
    pick_spec(m, rgb(148, 156, 170), rgb(96, 104, 118))
}

/// Secondary text.
pub fn text_muted(switch: &ThemeSwitch) -> (r: Rgb)
    ensures
        r == text_muted_of(switch.mode()),
{
    pick(switch, Rgb { r: 148, g: 156, b: 170 }, Rgb { r: 96, g: 104, b: 118 })
}

/// Hints and placeholders. (dark `(100, 108, 122)`, light `(150, 158, 172)`)
pub open spec fn text_faint_of(m: ThemeMode) -> Rgb {
    pick_spec(m, rgb(100, 108, 122), rgb(150, 158, 172))
}

/// Hints and placeholders.
pub fn text_faint(switch: &ThemeSwitch) -> (r: Rgb)
    ensures
        r == text_faint_of(switch.mode()),
{
    pick(switch, Rgb { r: 100, g: 108, b: 122 }, Rgb { r: 150, g: 158, b: 172 })
}

/// Healthy / good status. (dark `(120, 200, 130)`, light `(36, 144, 60)`)
pub open spec fn status_ok_of(m: ThemeMode) -> Rgb {
    pick_spec(m, rgb(120, 200, 130), rgb(36, 144, 60))
}

/// Healthy / good status.
pub fn status_ok(switch: &ThemeSwitch) -> (r: Rgb)
    ensures
        r == status_ok_of(switch.mode()),
{
    pick(switch, Rgb { r: 120, g: 200, b: 130 }, Rgb { r: 36, g: 144, b: 60 })
}

/// Warning / transitional status. (dark `(240, 200, 90)`, light `(168, 124, 24)`)
pub open spec fn status_warn_of(m: ThemeMode) -> Rgb {
    pick_spec(m, rgb(240, 200, 90), rgb(168, 124, 24))
}

/// Warning / transitional status.
pub fn status_warn(switch: &ThemeSwitch) -> (r: Rgb)
    ensures
        r == status_warn_of(switch.mode()),
{
    pick(switch, Rgb { r: 240, g: 200, b: 90 }, Rgb { r: 168, g: 124, b: 24 })
}

/// Error / bad status. (dark `(228, 110, 110)`, light `(196, 50, 50)`)
pub open spec fn status_bad_of(m: ThemeMode) -> Rgb {
    pick_spec(m, rgb(228, 110, 110), rgb(196, 50, 50))
}

/// Error / bad status.
pub fn status_bad(switch: &ThemeSwitch) -> (r: Rgb)
    ensures
        r == status_bad_of(switch.mode()),
{
    pick(switch, Rgb { r: 228, g: 110, b: 110 }, Rgb { r: 196, g: 50, b: 50 })
}

/// Informational status. (dark `(120, 180, 230)`, light `(40, 110, 180)`)
pub open spec fn status_info_of(m: ThemeMode) -> Rgb {
    pick_spec(m, rgb(120, 180, 230), rgb(40, 110, 180))
}

/// Informational status.
pub fn status_info(switch: &ThemeSwitch) -> (r: Rgb)
    ensures
        r == status_info_of(switch.mode()),
{
    pick(switch, Rgb { r: 120, g: 180, b: 230 }, Rgb { r: 40, g: 110, b: 180 })
}

/// Idle / unknown status. (dark `(140, 148, 160)`, light `(124, 132, 144)`)
pub open spec fn status_idle_of(m: ThemeMode) -> Rgb {
    pick_spec(m, rgb(140, 148, 160), rgb(124, 132, 144))
}

/// Idle / unknown status.
pub fn status_idle(switch: &ThemeSwitch) -> (r: Rgb)
    ensures
        r == status_idle_of(switch.mode()),
{
    pick(switch, Rgb { r: 140, g: 148, b: 160 }, Rgb { r: 124, g: 132, b: 144 })
}

/// Upper-case alias of [`accent`].
#[allow(non_snake_case)]
pub fn ACCENT(switch: &ThemeSwitch) -> (r: Rgb)
    ensures
        r == accent_of(switch.mode()),
{
    accent(switch)
}

/// Upper-case alias of [`accent_dim`].
#[allow(non_snake_case)]
pub fn ACCENT_DIM(switch: &ThemeSwitch) -> (r: Rgb)
    ensures
        r == accent_dim_of(switch.mode()),
{
    accent_dim(switch)
}

/// Upper-case alias of [`accent_soft`].
#[allow(non_snake_case)]
pub fn ACCENT_SOFT(switch: &ThemeSwitch) -> (r: Rgb)
    ensures
        r == accent_soft_of(switch.mode()),
{
    accent_soft(switch)
}

/// Upper-case alias of [`bg_base`].
#[allow(non_snake_case)]
pub fn BG_BASE(switch: &ThemeSwitch) -> (r: Rgb)
    ensures
        r == bg_base_of(switch.mode()),
{
    bg_base(switch)
}

/// Upper-case alias of [`bg_panel`].
#[allow(non_snake_case)]
pub fn BG_PANEL(switch: &ThemeSwitch) -> (r: Rgb)
    ensures
        r == bg_panel_of(switch.mode()),
{
    bg_panel(switch)
}

/// Upper-case alias of [`bg_raised`].
#[allow(non_snake_case)]
pub fn BG_RAISED(switch: &ThemeSwitch) -> (r: Rgb)
    ensures
        r == bg_raised_of(switch.mode()),
{
    bg_raised(switch)
}

/// Upper-case alias of [`bg_hover`].
#[allow(non_snake_case)]
pub fn BG_HOVER(switch: &ThemeSwitch) -> (r: Rgb)
    ensures
        r == bg_hover_of(switch.mode()),
{
    bg_hover(switch)
}

/// Upper-case alias of [`border`].
#[allow(non_snake_case)]
pub fn BORDER(switch: &ThemeSwitch) -> (r: Rgb)
    ensures
        r == border_of(switch.mode()),
{
    border(switch)
}

/// Upper-case alias of [`text_primary`].
#[allow(non_snake_case)]
pub fn TEXT_PRIMARY(switch: &ThemeSwitch) -> (r: Rgb)
    ensures
        r == text_primary_of(switch.mode()),
{
    text_primary(switch)
}

/// Upper-case alias of [`text_muted`].
#[allow(non_snake_case)]
pub fn TEXT_MUTED(switch: &ThemeSwitch) -> (r: Rgb)
    ensures
        r == text_muted_of(switch.mode()),
{
    text_muted(switch)
}

/// Upper-case alias of [`text_faint`].
#[allow(non_snake_case)]
pub fn TEXT_FAINT(switch: &ThemeSwitch) -> (r: Rgb)
    ensures
        r == text_faint_of(switch.mode()),
{
    text_faint(switch)
}

/// Upper-case alias of [`status_ok`].
#[allow(non_snake_case)]
pub fn STATUS_OK(switch: &ThemeSwitch) -> (r: Rgb)
    ensures
        r == status_ok_of(switch.mode()),
{
    status_ok(switch)
}

/// Upper-case alias of [`status_warn`].
#[allow(non_snake_case)]
pub fn STATUS_WARN(switch: &ThemeSwitch) -> (r: Rgb)
    ensures
        r == status_warn_of(switch.mode()),
{
    status_warn(switch)
}

/// Upper-case alias of [`status_bad`].
#[allow(non_snake_case)]
pub fn STATUS_BAD(switch: &ThemeSwitch) -> (r: Rgb)
    ensures
        r == status_bad_of(switch.mode()),
{
    status_bad(switch)
}

/// Upper-case alias of [`status_info`].
#[allow(non_snake_case)]
pub fn STATUS_INFO(switch: &ThemeSwitch) -> (r: Rgb)
    ensures
        r == status_info_of(switch.mode()),
{
    status_info(switch)
}

/// Upper-case alias of [`status_idle`].
#[allow(non_snake_case)]
pub fn STATUS_IDLE(switch: &ThemeSwitch) -> (r: Rgb)
    ensures
        r == status_idle_of(switch.mode()),
{
    status_idle(switch)
}

} // verus!

verus! {

/// The colours the toolkit's widget style takes from the palette: fills,
/// strokes and text of panels, windows and each widget state.
#[derive(Debug, Clone, Copy, PartialEq, Eq, Structural)]
pub struct WidgetColors {
    pub panel_fill: Rgb,
    pub window_fill: Rgb,
    pub window_stroke: Rgb,
    pub faint_bg: Rgb,
    pub extreme_bg: Rgb,
    pub code_bg: Rgb,
    pub hyperlink: Rgb,
    pub noninteractive_stroke: Rgb,
    pub noninteractive_text: Rgb,
    pub inactive_bg: Rgb,
    pub inactive_weak_bg: Rgb,
    pub inactive_stroke: Rgb,
    pub inactive_text: Rgb,
    pub hovered_bg: Rgb,
    pub hovered_weak_bg: Rgb,
    pub hovered_stroke: Rgb,
    pub hovered_text: Rgb,
    pub active_bg: Rgb,
    pub active_weak_bg: Rgb,
    pub active_stroke: Rgb,
    pub active_text: Rgb,
    pub open_bg: Rgb,
    pub open_stroke: Rgb,
    pub open_text: Rgb,
    pub selection_bg: Rgb,
    pub selection_stroke: Rgb,
}

/// The widget colours of palette `m`: panels on the panel background,
/// windows raised with a border, hovered widgets outlined in the accent,
/// pressed widgets filled with the dimmed accent and selections with the
/// soft accent.
pub open spec fn widget_colors_of(m: ThemeMode) -> WidgetColors {
    WidgetColors {
        panel_fill: bg_panel_of(m),
        window_fill: bg_raised_of(m),
        window_stroke: border_of(m),
        faint_bg: pick_spec(m, rgb(32, 35, 42), rgb(238, 242, 248)),
        extreme_bg: bg_base_of(m),
        code_bg: bg_base_of(m),
        hyperlink: accent_of(m),
        noninteractive_stroke: border_of(m),
        noninteractive_text: text_primary_of(m),
        inactive_bg: pick_spec(m, rgb(44, 49, 58), rgb(248, 250, 253)),
        inactive_weak_bg: pick_spec(m, rgb(38, 42, 50), rgb(238, 242, 248)),
        inactive_stroke: pick_spec(m, rgb(60, 66, 78), rgb(196, 204, 216)),
        inactive_text: text_primary_of(m),
        hovered_bg: bg_hover_of(m),
        hovered_weak_bg: pick_spec(m, rgb(52, 58, 70), rgb(220, 226, 236)),
        hovered_stroke: accent_of(m),
        hovered_text: pick_spec(m, rgb(255, 255, 255), rgb(8, 16, 28)),
        active_bg: accent_dim_of(m),
        active_weak_bg: accent_soft_of(m),
        active_stroke: accent_of(m),
        active_text: pick_spec(m, rgb(255, 255, 255), rgb(8, 16, 28)),
        open_bg: accent_soft_of(m),
        open_stroke: accent_of(m),
        open_text: text_primary_of(m),
        selection_bg: accent_soft_of(m),
        selection_stroke: accent_of(m),
    }
}

/// The widget colours of the current palette.
pub fn widget_colors(switch: &ThemeSwitch) -> (r: WidgetColors)
    ensures
        r == widget_colors_of(switch.mode()),
{
    WidgetColors {
        panel_fill: bg_panel(switch),
        window_fill: bg_raised(switch),
        window_stroke: border(switch),
        faint_bg: pick(switch, Rgb { r: 32, g: 35, b: 42 }, Rgb { r: 238, g: 242, b: 248 }),
        extreme_bg: bg_base(switch),
        code_bg: bg_base(switch),
        hyperlink: accent(switch),
        noninteractive_stroke: border(switch),
        noninteractive_text: text_primary(switch),
        inactive_bg: pick(switch, Rgb { r: 44, g: 49, b: 58 }, Rgb { r: 248, g: 250, b: 253 }),
        inactive_weak_bg: pick(switch, Rgb { r: 38, g: 42, b: 50 }, Rgb { r: 238, g: 242, b: 248 }),
        inactive_stroke: pick(switch, Rgb { r: 60, g: 66, b: 78 }, Rgb { r: 196, g: 204, b: 216 }),
        inactive_text: text_primary(switch),
        hovered_bg: bg_hover(switch),
        hovered_weak_bg: pick(switch, Rgb { r: 52, g: 58, b: 70 }, Rgb { r: 220, g: 226, b: 236 }),
        hovered_stroke: accent(switch),
        hovered_text: pick(switch, Rgb { r: 255, g: 255, b: 255 }, Rgb { r: 8, g: 16, b: 28 }),
        active_bg: accent_dim(switch),
        active_weak_bg: accent_soft(switch),
        active_stroke: accent(switch),
        active_text: pick(switch, Rgb { r: 255, g: 255, b: 255 }, Rgb { r: 8, g: 16, b: 28 }),
        open_bg: accent_soft(switch),
        open_stroke: accent(switch),
        open_text: text_primary(switch),
        selection_bg: accent_soft(switch),
        selection_stroke: accent(switch),
    }
}

} // verus!
