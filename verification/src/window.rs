//! The size of the window, and when changes are saved.

use crate::model::{Float32, SaveButtonMode, Schema, Tab};
use vstd::prelude::*;

verus! {

/// The operating systems that the window tells apart.
#[derive(Debug, Clone, Copy, PartialEq, Eq, Structural)]
pub enum Platform {
    MacOs,
    Windows,
    Linux,
    Other,
}

/// Height of the icon tab bar (px).
pub const TAB_BAR_H: u32 = 64;

/// Height of the text-only tab bar (px).
pub const TAB_BAR_H_TEXT: u32 = 40;

/// Height of the bottom action bar (px) when a Save button is shown.
pub const BOTTOM_BAR_H: u32 = 40;

/// The bit pattern of 700, the width of the content area where none is given.
pub const DEFAULT_CONTENT_WIDTH_BITS: u32 = 0x442f_0000;

/// The bit pattern of 370, the height of the content area where none is given.
pub const DEFAULT_CONTENT_HEIGHT_BITS: u32 = 0x43b9_0000;

/// The bit pattern of 440, the height of the area that scrolls where none is given.
pub const DEFAULT_SCROLL_HEIGHT_BITS: u32 = 0x43dc_0000;

/// What the window is made of: the content area, and the bars above and below.
#[derive(Debug, Clone, Copy, PartialEq, Eq, Structural)]
pub struct WindowParts {
    pub content_width: Float32,
    pub content_height: Float32,
    pub tab_bar_height: u32,
    pub bottom_bar_height: u32,
}

/// Whether a Save button is shown: on request, and by default everywhere but on
/// macOS.
pub open spec fn save_button_shown(mode: SaveButtonMode, platform: Platform) -> bool {
    match mode {
        SaveButtonMode::Show => true,
        SaveButtonMode::Hide => false,
        SaveButtonMode::Os => platform != Platform::MacOs,
    }
}

/// Whether a Save button is shown.
pub fn shows_save_button(mode: SaveButtonMode, platform: Platform) -> (r: bool)
    ensures
        r == save_button_shown(mode, platform),
{
    match mode {
        SaveButtonMode::Show => true,
        SaveButtonMode::Hide => false,
        SaveButtonMode::Os => platform != Platform::MacOs,
    }
}

/// Whether changes are written without being asked for.
pub fn saves_automatically(mode: SaveButtonMode, platform: Platform) -> (r: bool)
    ensures
        r == !save_button_shown(mode, platform),
{
    match mode {
        SaveButtonMode::Hide => true,
        SaveButtonMode::Show => false,
        SaveButtonMode::Os => platform == Platform::MacOs,
    }
}

/// Whether some tab has an icon.
pub open spec fn some_tab_has_icon(tabs: Seq<Tab>) -> bool {
    exists|i: int| 0 <= i < tabs.len() && (#[trigger] tabs[i]).icon is Some
}

/// Whether tabs are drawn with icons: where icons are at hand and some tab has
/// one.
pub fn draws_icon_tabs(tabs: &Vec<Tab>, icons_at_hand: bool) -> (r: bool)
    ensures
        r == (icons_at_hand && some_tab_has_icon(tabs@)),
{
    if !icons_at_hand {
        return false;
    }
    let mut i: usize = 0;
    while i < tabs.len()
        invariant
            i <= tabs.len(),
            icons_at_hand,
            forall|j: int| 0 <= j < i ==> (#[trigger] tabs@[j]).icon is None,
        decreases tabs.len() - i,
    {
        if tabs[i].icon.is_some() {
            return true;
        }
        i += 1;
    }
    false
}

/// The height of the tab bar while the window is up: none for a single tab, more
/// with icons.
pub open spec fn tab_bar_height_of(tabs: Seq<Tab>, icons_at_hand: bool) -> u32 {
    if tabs.len() <= 1 {
        0
    } else if icons_at_hand && some_tab_has_icon(tabs) {
        TAB_BAR_H
    } else {
        TAB_BAR_H_TEXT
    }
}

/// The height of the tab bar (px) while the window is up.
pub fn tab_bar_height(tabs: &Vec<Tab>, icons_at_hand: bool) -> (r: u32)
    ensures
        r == tab_bar_height_of(tabs@, icons_at_hand),
{
    if tabs.len() <= 1 {
        0
    } else if draws_icon_tabs(tabs, icons_at_hand) {
        TAB_BAR_H
    } else {
        TAB_BAR_H_TEXT
    }
}

/// The height that is set aside for the tab bar when the window opens: none where
/// there are no tabs, more with icons.
pub open spec fn opening_tab_bar_height_of(tabs: Seq<Tab>, icons_at_hand: bool) -> u32 {
    if tabs.len() == 0 {
        0
    } else if icons_at_hand && some_tab_has_icon(tabs) {
        TAB_BAR_H
    } else {
        TAB_BAR_H_TEXT
    }
}

/// The height (px) that is set aside for the tab bar when the window opens.
pub fn opening_tab_bar_height(tabs: &Vec<Tab>, icons_at_hand: bool) -> (r: u32)
    ensures
        r == opening_tab_bar_height_of(tabs@, icons_at_hand),
{
    if tabs.len() == 0 {
        0
    } else if draws_icon_tabs(tabs, icons_at_hand) {
        TAB_BAR_H
    } else {
        TAB_BAR_H_TEXT
    }
}

/// The height of the bottom bar: none where changes are saved automatically.
pub open spec fn bottom_bar_height_of(mode: SaveButtonMode, platform: Platform) -> u32 {
    if save_button_shown(mode, platform) {
        BOTTOM_BAR_H
    } else {
        0
    }
}

/// The height of the bottom bar (px).
pub fn bottom_bar_height(mode: SaveButtonMode, platform: Platform) -> (r: u32)
    ensures
        r == bottom_bar_height_of(mode, platform),
{
    if shows_save_button(mode, platform) {
        BOTTOM_BAR_H
    } else {
        0
    }
}

/// The first of two optional lengths that is given, or the default.
pub open spec fn length_or(
    first: Option<Float32>,
    second: Option<Float32>,
    default_bits: u32,
) -> Float32 {
    match first {
        Some(length) => length,
        None => match second {
            Some(length) => length,
            None => Float32 { bits: default_bits },
        },
    }
}

fn pick_length(first: Option<Float32>, second: Option<Float32>, default_bits: u32) -> (r: Float32)
    ensures
        r == length_or(first, second, default_bits),
{
    match first {
        Some(length) => length,
        None => match second {
            Some(length) => length,
            None => Float32 { bits: default_bits },
        },
    }
}

impl Schema {
    /// What the window is made of when it opens.
    pub open spec fn opening_parts(self, icons_at_hand: bool, platform: Platform) -> WindowParts {
        WindowParts {
            content_width: length_or(self.content_width, None, DEFAULT_CONTENT_WIDTH_BITS),
            content_height: length_or(self.content_height, None, DEFAULT_CONTENT_HEIGHT_BITS),
            tab_bar_height: opening_tab_bar_height_of(self.tabs@, icons_at_hand),
            bottom_bar_height: bottom_bar_height_of(self.save_button, platform),
        }
    }

    /// What the window is made of while a tab is shown: the tab's own content
    /// size goes first.
    pub open spec fn parts_on_tab(
        self,
        tab: int,
        icons_at_hand: bool,
        platform: Platform,
    ) -> WindowParts {
        WindowParts {
            content_width: length_or(
                self.tabs@[tab].content_width,
                self.content_width,
                DEFAULT_CONTENT_WIDTH_BITS,
            ),
            content_height: length_or(
                self.tabs@[tab].content_height,
                self.content_height,
                DEFAULT_CONTENT_HEIGHT_BITS,
            ),
            tab_bar_height: tab_bar_height_of(self.tabs@, icons_at_hand),
            bottom_bar_height: bottom_bar_height_of(self.save_button, platform),
        }
    }

    /// What the window is made of while a tab is shown.
    pub fn tab_window_parts(&self, tab: usize, icons_at_hand: bool, platform: Platform) -> (r:
        WindowParts)
        requires
            tab < self.tabs.len(),
        ensures
            r == self.parts_on_tab(tab as int, icons_at_hand, platform),
    {
        WindowParts {
            content_width: pick_length(
                self.tabs[tab].content_width,
                self.content_width,
                DEFAULT_CONTENT_WIDTH_BITS,
            ),
            content_height: pick_length(
                self.tabs[tab].content_height,
                self.content_height,
                DEFAULT_CONTENT_HEIGHT_BITS,
            ),
            tab_bar_height: tab_bar_height(&self.tabs, icons_at_hand),
            bottom_bar_height: bottom_bar_height(self.save_button, platform),
        }
    }

    /// The greatest height of the area in which a tab's fields scroll: the tab's own
    /// content height goes first.
    pub open spec fn scroll_height_on_tab(self, tab: int) -> Float32 {
        length_or(self.tabs@[tab].content_height, self.content_height, DEFAULT_SCROLL_HEIGHT_BITS)
    }

    /// The greatest height of the area in which a tab's fields scroll.
    pub fn tab_scroll_height(&self, tab: usize) -> (r: Float32)
        requires
            tab < self.tabs.len(),
        ensures
            r == self.scroll_height_on_tab(tab as int),
    {
        pick_length(
            self.tabs[tab].content_height,
            self.content_height,
            DEFAULT_SCROLL_HEIGHT_BITS,
        )
    }
}

/// Computes what the logical inner size of the window (client area, excluding OS
/// title bar) is made of when it opens. The inner width is that of the content area,
/// and the inner height is `tab_bar_height + content_height + bottom_bar_height`.
///
/// - `tab_bar_height` is 0 when there are no tabs, 64 px with icon tabs, 40 px otherwise.
/// - `bottom_bar_height` is 0 when changes are saved automatically, 40 px when a Save
///   button is shown.
pub fn compute_window_size(schema: &Schema, icons_at_hand: bool, platform: Platform) -> (r:
    WindowParts)
    ensures
        r == schema.opening_parts(icons_at_hand, platform),
{
    WindowParts {
        content_width: pick_length(schema.content_width, None, DEFAULT_CONTENT_WIDTH_BITS),
        content_height: pick_length(schema.content_height, None, DEFAULT_CONTENT_HEIGHT_BITS),
        tab_bar_height: opening_tab_bar_height(&schema.tabs, icons_at_hand),
        bottom_bar_height: bottom_bar_height(schema.save_button, platform),
    }
}

/// A step that a click in the bottom bar leads to.
#[derive(Debug, Clone, Copy, PartialEq, Eq, Structural)]
pub enum BarStep {
    /// Write the changes.
    Save,
    /// Close the window.
    Close,
}

/// Whether Apply can be pressed: there are changes, and all are valid.
pub fn apply_enabled(dirty: bool, valid: bool) -> (r: bool)
    ensures
        r == (dirty && valid),
{
    dirty && valid
}

/// Whether OK can be pressed: there is nothing invalid to save.
pub fn ok_enabled(valid: bool) -> (r: bool)
    ensures
        r == valid,
{
    valid
}

/// What clicks in the bottom bar lead to: Apply saves, Cancel closes, and OK
/// saves what there is to save and closes. A button that cannot be pressed
/// leads to nothing.
pub open spec fn bar_steps(
    dirty: bool,
    valid: bool,
    apply: bool,
    cancel: bool,
    ok: bool,
) -> Seq<BarStep> {
    let applied = if apply && dirty && valid {
        seq![BarStep::Save]
    } else {
        Seq::empty()
    };
    let cancelled = if cancel {
        seq![BarStep::Close]
    } else {
        Seq::empty()
    };
    let accepted = if ok && valid {
        if dirty {
            seq![BarStep::Save, BarStep::Close]
        } else {
            seq![BarStep::Close]
        }
    } else {
        Seq::empty()
    };
    applied + cancelled + accepted
}

/// What clicks in the bottom bar lead to.
pub fn bar_frame(dirty: bool, valid: bool, apply: bool, cancel: bool, ok: bool) -> (r: Vec<BarStep>)
    ensures
        r@ == bar_steps(dirty, valid, apply, cancel, ok),
{
    let mut steps: Vec<BarStep> = Vec::new();
    if apply && apply_enabled(dirty, valid) {
        steps.push(BarStep::Save);
    }
    if cancel {
        steps.push(BarStep::Close);
    }
    if ok && ok_enabled(valid) {
        if dirty {
            steps.push(BarStep::Save);
        }
        steps.push(BarStep::Close);
    }
    assert(steps@ =~= bar_steps(dirty, valid, apply, cancel, ok));
    steps
}

/// Whether changes are to be written now, without being asked for.
pub fn auto_save_due(mode: SaveButtonMode, platform: Platform, dirty: bool, valid: bool) -> (r:
    bool)
    ensures
        r == (!save_button_shown(mode, platform) && dirty && valid),
{
    saves_automatically(mode, platform) && dirty && valid
}

/// Nothing invalid is ever saved from the bottom bar, nothing is saved where
/// nothing has changed, and cancelling alone saves nothing.
pub proof fn bar_saves_only_valid_changes(
    dirty: bool,
    valid: bool,
    apply: bool,
    cancel: bool,
    ok: bool,
)
    ensures
        bar_steps(dirty, valid, apply, cancel, ok).contains(BarStep::Save) ==> dirty && valid && (
        apply || ok),
{
    let steps = bar_steps(dirty, valid, apply, cancel, ok);
    if steps.contains(BarStep::Save) {
        let i = choose|i: int| 0 <= i < steps.len() && steps[i] == BarStep::Save;
        assert(steps[i] == BarStep::Save);
    }
}

/// OK closes the window, after saving whatever has changed.
pub proof fn ok_saves_changes_and_closes(dirty: bool)
    ensures
        bar_steps(dirty, true, false, false, true).last() == BarStep::Close,
        bar_steps(dirty, true, false, false, true).contains(BarStep::Save) <==> dirty,
{
    let steps = bar_steps(dirty, true, false, false, true);
    if dirty {
        assert(steps[0] == BarStep::Save);
    } else {
        assert(steps =~= seq![BarStep::Close]);
    }
}

/// A bottom bar is there exactly when changes are not saved automatically.
pub proof fn bar_or_automatic_saving(mode: SaveButtonMode, platform: Platform)
    ensures
        bottom_bar_height_of(mode, platform) > 0 <==> save_button_shown(mode, platform),
{
}

/// A Save button is shown where the schema asks for it, never where it hides it, and
/// otherwise everywhere but on macOS.
pub proof fn save_button_follows_schema_and_platform(platform: Platform)
    ensures
        save_button_shown(SaveButtonMode::Show, platform),
        !save_button_shown(SaveButtonMode::Hide, platform),
        !save_button_shown(SaveButtonMode::Os, Platform::MacOs),
        platform != Platform::MacOs ==> save_button_shown(SaveButtonMode::Os, platform),
{
}

/// The bottom bar takes 40 px where there is a Save button, and nothing where there is
/// none.
pub proof fn bottom_bar_holds_the_save_button(mode: SaveButtonMode, platform: Platform)
    ensures
        bottom_bar_height_of(mode, platform) == 0 || bottom_bar_height_of(mode, platform) == 40,
        bottom_bar_height_of(mode, platform) == 40 <==> (mode == SaveButtonMode::Show || (mode
            == SaveButtonMode::Os && platform != Platform::MacOs)),
{
}

/// The tab bar is 64 px high where icons are at hand and some tab, whichever it is, has
/// one, and 40 px where not. A window that is up has none for a single tab, and one that
/// opens has none for no tabs.
pub proof fn tab_bar_fits_its_tabs(tabs: Seq<Tab>, icons_at_hand: bool, i: int)
    ensures
        tabs.len() <= 1 ==> tab_bar_height_of(tabs, icons_at_hand) == 0,
        tabs.len() == 0 ==> opening_tab_bar_height_of(tabs, icons_at_hand) == 0,
        tabs.len() > 1 ==> tab_bar_height_of(tabs, icons_at_hand) == opening_tab_bar_height_of(
            tabs,
            icons_at_hand,
        ),
        icons_at_hand && 0 <= i < tabs.len() && tabs[i].icon is Some ==> some_tab_has_icon(tabs)
            && opening_tab_bar_height_of(tabs, icons_at_hand) == 64,
        tabs.len() > 0 && (!icons_at_hand || forall|j: int|
            0 <= j < tabs.len() ==> (#[trigger] tabs[j]).icon is None)
            ==> opening_tab_bar_height_of(tabs, icons_at_hand) == 40,
{
}

/// A length of the tab goes before one of the schema, and that before the default.
pub proof fn nearest_length_counts(first: Float32, second: Option<Float32>, default_bits: u32)
    ensures
        length_or(Some(first), second, default_bits) == first,
        second is Some ==> length_or(None, second, default_bits) == second->0,
        length_or(None, None, default_bits).bits == default_bits,
{
}

/// A window opens with the content size of the schema, or 700 by 370, and with its bars.
pub proof fn window_opens_with_the_content_size_of_the_schema(
    schema: Schema,
    icons_at_hand: bool,
    platform: Platform,
)
    ensures
        ({
            let parts = schema.opening_parts(icons_at_hand, platform);
            &&& parts.content_width == match schema.content_width {
                Some(width) => width,
                None => Float32 { bits: 0x442f_0000 },
            }
            &&& parts.content_height == match schema.content_height {
                Some(height) => height,
                None => Float32 { bits: 0x43b9_0000 },
            }
            &&& schema.tabs@.len() == 0 ==> parts.tab_bar_height == 0
            &&& schema.tabs@.len() > 0 ==> parts.tab_bar_height == 40 || parts.tab_bar_height == 64
            &&& parts.tab_bar_height == 64 ==> icons_at_hand
            &&& parts.bottom_bar_height == bottom_bar_height_of(schema.save_button, platform)
        }),
{
}

/// While a tab is shown its own content size counts, where it has one, then that of the
/// schema, then the default: 700 by 370 for the window, and 440 for the area that scrolls.
pub proof fn shown_tab_decides_the_content_size(
    schema: Schema,
    t: int,
    icons_at_hand: bool,
    platform: Platform,
)
    requires
        0 <= t < schema.tabs@.len(),
    ensures
        ({
            let tab = schema.tabs@[t];
            let parts = schema.parts_on_tab(t, icons_at_hand, platform);
            let scrolls = schema.scroll_height_on_tab(t);
            &&& tab.content_width is Some ==> parts.content_width == tab.content_width->0
            &&& tab.content_width is None && schema.content_width is Some ==> parts.content_width
                == schema.content_width->0
            &&& tab.content_width is None && schema.content_width is None
                ==> parts.content_width.bits == 0x442f_0000
            &&& tab.content_height is Some ==> parts.content_height == tab.content_height->0
                && scrolls == tab.content_height->0
            &&& tab.content_height is None && schema.content_height is Some
                ==> parts.content_height == schema.content_height->0 && scrolls
                == schema.content_height->0
            &&& tab.content_height is None && schema.content_height is None
                ==> parts.content_height.bits == 0x43b9_0000 && scrolls.bits == 0x43dc_0000
            &&& parts.tab_bar_height == tab_bar_height_of(schema.tabs@, icons_at_hand)
            &&& parts.bottom_bar_height == bottom_bar_height_of(schema.save_button, platform)
        }),
{
}

/// Apply saves exactly where there are valid changes, and does not close the window.
pub proof fn apply_saves_valid_changes(dirty: bool, valid: bool)
    ensures
        bar_steps(dirty, valid, true, false, false) == if dirty && valid {
            seq![BarStep::Save]
        } else {
            Seq::empty()
        },
{
    assert(bar_steps(dirty, valid, true, false, false) =~= if dirty && valid {
        seq![BarStep::Save]
    } else {
        Seq::empty()
    });
}

/// Cancel closes the window and saves nothing; without a click nothing happens; OK does
/// nothing where something is invalid.
pub proof fn cancel_closes_without_saving(dirty: bool, valid: bool)
    ensures
        bar_steps(dirty, valid, false, true, false) == seq![BarStep::Close],
        bar_steps(dirty, valid, false, false, false).len() == 0,
        bar_steps(dirty, false, false, false, true).len() == 0,
        bar_steps(true, true, false, false, true) == seq![BarStep::Save, BarStep::Close],
        bar_steps(false, true, false, false, true) == seq![BarStep::Close],
{
    assert(bar_steps(dirty, valid, false, true, false) =~= seq![BarStep::Close]);
    assert(bar_steps(true, true, false, false, true) =~= seq![BarStep::Save, BarStep::Close]);
    assert(bar_steps(false, true, false, false, true) =~= seq![BarStep::Close]);
}

/// Clicks on several buttons do what each of them does: Apply, then Cancel, then OK.
pub proof fn buttons_act_one_after_the_other(
    dirty: bool,
    valid: bool,
    apply: bool,
    cancel: bool,
    ok: bool,
)
    ensures
        bar_steps(dirty, valid, apply, cancel, ok) == bar_steps(dirty, valid, apply, false, false)
            + bar_steps(dirty, valid, false, cancel, false) + bar_steps(
            dirty,
            valid,
            false,
            false,
            ok,
        ),
{
    assert(bar_steps(dirty, valid, apply, cancel, ok) =~= bar_steps(
        dirty,
        valid,
        apply,
        false,
        false,
    ) + bar_steps(dirty, valid, false, cancel, false) + bar_steps(
        dirty,
        valid,
        false,
        false,
        ok,
    ));
}

} // verus!
