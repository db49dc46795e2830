//! The configuration wizard's state and its response to each key.
use vstd::prelude::*;
use vstd::string::StringExecFns;

use super::AvailableBoard;
use crate::board_def::str_is;
use crate::config::{BoardInstance, GatewayConfig, I2cConfig, LoggingConfig, ServerConfig};
use crate::text::{
    decimal, lemma_parse_decimal, parse_uint, pop_char, push_char, spec_decimal, spec_parse_uint,
};

verus! {

/// The wizard's screens, in order.
#[derive(Debug, Clone, Copy, PartialEq, Eq, Structural)]
pub enum Screen {
    BoardSelect,
    BoardConfig,
    ServerSettings,
    I2cSettings,
    Review,
}

/// The keys the wizard responds to.
#[derive(Debug, Clone, Copy, PartialEq, Eq, Structural)]
pub enum Key {
    Up,
    Down,
    Left,
    Right,
    Enter,
    Esc,
    Tab,
    Backspace,
    Char(char),
    Other,
}

/// What the caller must do after a key.
#[derive(Debug, Clone, Copy, PartialEq, Eq, Structural)]
pub enum AppAction {
    /// Redraw and wait for the next key.
    Stay,
    /// Render [`App::build_config`] as TOML and hand it to
    /// [`App::set_preview`] (the review screen is now shown).
    RenderPreview,
    /// Save [`App::build_config`] to the output path and report the
    /// outcome with [`App::finish_save`].
    Save,
    /// End the wizard without saving.
    Quit,
}

/// A selected board with its per-instance settings.
#[derive(Debug, Clone)]
pub struct SelectedBoard {
    pub slug: String,
    pub display_name: String,
    pub capabilities: String,
    pub stack: u8,
    pub slave_id: u8,
}

/// An editable text field.
#[derive(Debug, Clone)]
pub struct EditField {
    pub label: String,
    pub value: String,
    pub editing: bool,
}

impl EditField {
    /// A field that is not being edited.
    pub fn new(label: &str, value: &str) -> (f: Self)
        ensures
            f.label@ == label@,
            f.value@ == value@,
            !f.editing,
    {
        EditField { label: String::from_str(label), value: String::from_str(value), editing: false }
    }
}

/// Abstract value of a selected board.
pub struct SelectedView {
    pub slug: Seq<char>,
    pub display_name: Seq<char>,
    pub capabilities: Seq<char>,
    pub stack: u8,
    pub slave_id: u8,
}

/// Abstract value of an edit field.
pub struct FieldView {
    pub label: Seq<char>,
    pub value: Seq<char>,
    pub editing: bool,
}

/// Abstract value of an offered board.
pub struct OfferView {
    pub slug: Seq<char>,
    pub display_name: Seq<char>,
    pub capabilities: Seq<char>,
}

impl View for SelectedBoard {
    type V = SelectedView;

    open spec fn view(&self) -> SelectedView {
        SelectedView {
            slug: self.slug@,
            display_name: self.display_name@,
            capabilities: self.capabilities@,
            stack: self.stack,
            slave_id: self.slave_id,
        }
    }
}

impl View for EditField {
    type V = FieldView;

    open spec fn view(&self) -> FieldView {
        FieldView { label: self.label@, value: self.value@, editing: self.editing }
    }
}

/// Abstract state of the wizard (everything a key can change).
pub struct AppView {
    pub screen: Screen,
    pub board_cursor: usize,
    pub selected: Seq<SelectedView>,
    pub config_cursor: usize,
    pub config_board_idx: usize,
    pub server_fields: Seq<FieldView>,
    pub server_cursor: usize,
    pub i2c_fields: Seq<FieldView>,
    pub i2c_cursor: usize,
    pub saved: bool,
    pub status: Seq<char>,
    pub editing: bool,
    pub preview: Seq<char>,
    pub review_scroll: usize,
}

/// Complete wizard state.
#[derive(Debug)]
pub struct App {
    /// Current screen.
    pub screen: Screen,
    /// All discovered boards.
    pub available: Vec<AvailableBoard>,
    /// Cursor in the board list.
    pub board_cursor: usize,
    /// Boards the user has selected.
    pub selected_boards: Vec<SelectedBoard>,
    /// Cursor in the board-config screen.
    pub config_cursor: usize,
    /// Which selected board is being configured.
    pub config_board_idx: usize,
    /// Server settings fields.
    pub server_fields: Vec<EditField>,
    /// Server settings cursor.
    pub server_cursor: usize,
    /// I²C settings fields.
    pub i2c_fields: Vec<EditField>,
    /// I²C settings cursor.
    pub i2c_cursor: usize,
    /// Output file path.
    pub output_path: String,
    /// Whether the configuration was saved.
    pub saved: bool,
    /// Scroll offset of the board list.
    pub board_scroll: usize,
    /// Status message (shown at the bottom).
    pub status: String,
    /// Whether an edit field has the focus.
    pub editing: bool,
    /// Generated TOML preview (filled on the review screen).
    pub preview: String,
    /// Scroll offset of the review screen.
    pub review_scroll: usize,
}

impl View for App {
    type V = AppView;

    open spec fn view(&self) -> AppView {
        AppView {
            screen: self.screen,
            board_cursor: self.board_cursor,
            selected: self.selected_boards@.map_values(|b: SelectedBoard| b@),
            config_cursor: self.config_cursor,
            config_board_idx: self.config_board_idx,
            server_fields: self.server_fields@.map_values(|f: EditField| f@),
            server_cursor: self.server_cursor,
            i2c_fields: self.i2c_fields@.map_values(|f: EditField| f@),
            i2c_cursor: self.i2c_cursor,
            saved: self.saved,
            status: self.status@,
            editing: self.editing,
            preview: self.preview@,
            review_scroll: self.review_scroll,
        }
    }
}

/// The offered boards, abstractly.
pub open spec fn spec_offers(a: Seq<AvailableBoard>) -> Seq<OfferView> {
    a.map_values(
        |b: AvailableBoard|
            OfferView { slug: b.slug@, display_name: b.display_name@, capabilities: b.capabilities@ },
    )
}

// ── Specification of the key handling ───────────────────────────────

/// The key help shown on each screen.
pub open spec fn spec_status_for(s: Screen) -> Seq<char> {
    match s {
        Screen::BoardSelect => "↑↓ Navigate  Space Toggle  Enter Continue  q/Esc Quit"@,
        Screen::BoardConfig => "↑↓ Select field  +/- Adjust  ←→/Tab Switch board  Enter Continue  Esc Back"@,
        Screen::ServerSettings => "↑↓ Navigate  Enter Edit/Toggle  Esc Back"@,
        Screen::I2cSettings => "↑↓ Navigate  Enter Edit/Toggle  Esc Back"@,
        Screen::Review => "↑↓ Scroll  s/Enter Save  Esc Back"@,
    }
}

/// The screen before `s` (the first screen stays).
pub open spec fn spec_previous(s: Screen) -> Screen {
    match s {
        Screen::BoardSelect => Screen::BoardSelect,
        Screen::BoardConfig => Screen::BoardSelect,
        Screen::ServerSettings => Screen::BoardConfig,
        Screen::I2cSettings => Screen::ServerSettings,
        Screen::Review => Screen::I2cSettings,
    }
}

/// Whether `k` moves up (`↑` or `k`), down (`↓` or `j`), left (`←` or `h`)
/// or right (`→` or `l`).
pub open spec fn spec_is_up(k: Key) -> bool {
    k == Key::Up || k == Key::Char('k')
}

pub open spec fn spec_is_down(k: Key) -> bool {
    k == Key::Down || k == Key::Char('j')
}

pub open spec fn spec_is_left(k: Key) -> bool {
    k == Key::Left || k == Key::Char('h')
}

pub open spec fn spec_is_right(k: Key) -> bool {
    k == Key::Right || k == Key::Char('l')
}

/// Index of the first selected board with slug `slug`.
pub open spec fn spec_selected_pos(sel: Seq<SelectedView>, slug: Seq<char>) -> Option<int> {
    if exists|i: int| 0 <= i < sel.len() && #[trigger] sel[i].slug == slug {
        Some(
            choose|i: int|
                0 <= i < sel.len() && sel[i].slug == slug && forall|j: int|
                    0 <= j < i ==> #[trigger] sel[j].slug != slug,
        )
    } else {
        None
    }
}

/// The slave ID offered to a newly selected board: one more than the
/// number already selected (as a byte), at most 247.
pub open spec fn spec_new_slave_id(count: nat) -> u8 {
    let n = ((count % 256) + 1) as u8;
    if n < 247 {
        n
    } else {
        247
    }
}

/// Toggle the board under the cursor in or out of the selection.
pub open spec fn spec_toggle(v: AppView, offers: Seq<OfferView>) -> AppView {
    let ab = offers[v.board_cursor as int];
    match spec_selected_pos(v.selected, ab.slug) {
        Some(pos) => AppView { selected: v.selected.remove(pos), ..v },
        None => AppView {
            selected: v.selected.push(
                SelectedView {
                    slug: ab.slug,
                    display_name: ab.display_name,
                    capabilities: ab.capabilities,
                    stack: 0,
                    slave_id: spec_new_slave_id(v.selected.len()),
                },
            ),
            ..v
        },
    }
}

/// Board selection screen.
pub open spec fn spec_board_select(v: AppView, offers: Seq<OfferView>, k: Key) -> AppView {
    if spec_is_up(k) {
        if v.board_cursor > 0 {
            AppView { board_cursor: (v.board_cursor - 1) as usize, ..v }
        } else {
            v
        }
    } else if spec_is_down(k) {
        if v.board_cursor + 1 < offers.len() {
            AppView { board_cursor: (v.board_cursor + 1) as usize, ..v }
        } else {
            v
        }
    } else if k == Key::Char(' ') {
        spec_toggle(v, offers)
    } else if k == Key::Enter {
        if v.selected.len() == 0 {
            AppView { status: "⚠ Select at least one board before continuing"@, ..v }
        } else {
            AppView {
                config_board_idx: 0,
                config_cursor: 0,
                screen: Screen::BoardConfig,
                status: spec_status_for(Screen::BoardConfig),
                ..v
            }
        }
    } else {
        v
    }
}

/// `x` clamped to `lo ..= hi`.
pub open spec fn spec_clamp(x: int, lo: int, hi: int) -> int {
    if x < lo {
        lo
    } else if x > hi {
        hi
    } else {
        x
    }
}

/// Adjust the field under the cursor of the board being configured:
/// the stack (0–7) or the slave ID (1–247).
pub open spec fn spec_adjust(v: AppView, delta: int) -> AppView {
    if v.config_board_idx >= v.selected.len() {
        v
    } else {
        let b = v.selected[v.config_board_idx as int];
        if v.config_cursor == 0 {
            AppView {
                selected: v.selected.update(
                    v.config_board_idx as int,
                    SelectedView { stack: spec_clamp(b.stack + delta, 0, 7) as u8, ..b },
                ),
                ..v
            }
        } else if v.config_cursor == 1 {
            AppView {
                selected: v.selected.update(
                    v.config_board_idx as int,
                    SelectedView { slave_id: spec_clamp(b.slave_id + delta, 1, 247) as u8, ..b },
                ),
                ..v
            }
        } else {
            v
        }
    }
}

/// Per-board configuration screen: two fields and a Continue button.
pub open spec fn spec_board_config(v: AppView, k: Key) -> AppView {
    if spec_is_up(k) {
        if v.config_cursor > 0 {
            AppView { config_cursor: (v.config_cursor - 1) as usize, ..v }
        } else {
            v
        }
    } else if spec_is_down(k) {
        if v.config_cursor + 1 < 3 {
            AppView { config_cursor: (v.config_cursor + 1) as usize, ..v }
        } else {
            v
        }
    } else if spec_is_left(k) {
        if v.config_board_idx > 0 {
            AppView { config_board_idx: (v.config_board_idx - 1) as usize, config_cursor: 0, ..v }
        } else {
            v
        }
    } else if spec_is_right(k) || k == Key::Tab {
        if v.config_board_idx + 1 < v.selected.len() {
            AppView { config_board_idx: (v.config_board_idx + 1) as usize, config_cursor: 0, ..v }
        } else {
            v
        }
    } else if k == Key::Char('+') || k == Key::Char('=') {
        spec_adjust(v, 1)
    } else if k == Key::Char('-') {
        spec_adjust(v, -1)
    } else if k == Key::Enter {
        if v.config_cursor == 2 {
            AppView {
                screen: Screen::ServerSettings,
                server_cursor: 0,
                status: spec_status_for(Screen::ServerSettings),
                ..v
            }
        } else {
            v
        }
    } else {
        v
    }
}

/// `yes` ↔ `no` (anything else becomes `yes`).
pub open spec fn spec_toggled(value: Seq<char>) -> Seq<char> {
    if value == "yes"@ {
        "no"@
    } else {
        "yes"@
    }
}

/// Enter on field `i` of `fields`: a yes/no field with label `toggle`
/// flips, any other field starts editing.
pub open spec fn spec_enter_field(fields: Seq<FieldView>, i: int, toggle: Seq<char>) -> Seq<FieldView> {
    let f = fields[i];
    if f.label == toggle {
        fields.update(i, FieldView { value: spec_toggled(f.value), ..f })
    } else {
        fields.update(i, FieldView { editing: true, ..f })
    }
}

/// The status while a text field is edited.
pub open spec fn spec_editing_status() -> Seq<char> {
    "Type value, Enter to confirm, Esc to cancel"@
}

/// Server settings screen.
pub open spec fn spec_server_settings(v: AppView, k: Key) -> AppView {
    if spec_is_up(k) {
        if v.server_cursor > 0 {
            AppView { server_cursor: (v.server_cursor - 1) as usize, ..v }
        } else {
            v
        }
    } else if spec_is_down(k) {
        if v.server_cursor + 1 < v.server_fields.len() + 1 {
            AppView { server_cursor: (v.server_cursor + 1) as usize, ..v }
        } else {
            v
        }
    } else if k == Key::Enter {
        if v.server_cursor < v.server_fields.len() {
            if v.server_fields[v.server_cursor as int].label == "Single Slave"@ {
                AppView {
                    server_fields: spec_enter_field(v.server_fields, v.server_cursor as int, "Single Slave"@),
                    ..v
                }
            } else {
                AppView {
                    server_fields: spec_enter_field(v.server_fields, v.server_cursor as int, "Single Slave"@),
                    editing: true,
                    status: spec_editing_status(),
                    ..v
                }
            }
        } else {
            AppView {
                screen: Screen::I2cSettings,
                i2c_cursor: 0,
                status: spec_status_for(Screen::I2cSettings),
                ..v
            }
        }
    } else {
        v
    }
}

/// I²C settings screen; Continue asks for the TOML preview.
pub open spec fn spec_i2c_settings(v: AppView, k: Key) -> (AppView, AppAction) {
    if spec_is_up(k) {
        (if v.i2c_cursor > 0 {
            AppView { i2c_cursor: (v.i2c_cursor - 1) as usize, ..v }
        } else {
            v
        }, AppAction::Stay)
    } else if spec_is_down(k) {
        (if v.i2c_cursor + 1 < v.i2c_fields.len() + 1 {
            AppView { i2c_cursor: (v.i2c_cursor + 1) as usize, ..v }
        } else {
            v
        }, AppAction::Stay)
    } else if k == Key::Enter {
        if v.i2c_cursor < v.i2c_fields.len() {
            if v.i2c_fields[v.i2c_cursor as int].label == "Map Opto to Reg"@ {
                (AppView {
                    i2c_fields: spec_enter_field(v.i2c_fields, v.i2c_cursor as int, "Map Opto to Reg"@),
                    ..v
                }, AppAction::Stay)
            } else {
                (AppView {
                    i2c_fields: spec_enter_field(v.i2c_fields, v.i2c_cursor as int, "Map Opto to Reg"@),
                    editing: true,
                    status: spec_editing_status(),
                    ..v
                }, AppAction::Stay)
            }
        } else {
            (AppView {
                review_scroll: 0,
                screen: Screen::Review,
                status: spec_status_for(Screen::Review),
                ..v
            }, AppAction::RenderPreview)
        }
    } else {
        (v, AppAction::Stay)
    }
}

/// A key while field `i` of `fields` is edited.
pub open spec fn spec_edit_field(fields: Seq<FieldView>, i: int, k: Key) -> Seq<FieldView> {
    let f = fields[i];
    match k {
        Key::Enter => fields.update(i, FieldView { editing: false, ..f }),
        Key::Esc => fields.update(i, FieldView { editing: false, ..f }),
        Key::Backspace => fields.update(
            i,
            FieldView {
                value: if f.value.len() > 0 {
                    f.value.drop_last()
                } else {
                    f.value
                },
                ..f
            },
        ),
        Key::Char(c) => fields.update(i, FieldView { value: f.value.push(c), ..f }),
        _ => fields,
    }
}

/// Whether a key ends editing.
pub open spec fn spec_ends_edit(k: Key) -> bool {
    k == Key::Enter || k == Key::Esc
}

/// A key while a text field is edited.
pub open spec fn spec_edit_key(v: AppView, k: Key) -> AppView {
    if v.screen == Screen::ServerSettings && v.server_cursor < v.server_fields.len() {
        let v1 = AppView {
            server_fields: spec_edit_field(v.server_fields, v.server_cursor as int, k),
            ..v
        };
        if spec_ends_edit(k) {
            AppView { editing: false, status: spec_status_for(v.screen), ..v1 }
        } else {
            v1
        }
    } else if v.screen == Screen::I2cSettings && v.i2c_cursor < v.i2c_fields.len() {
        let v1 = AppView { i2c_fields: spec_edit_field(v.i2c_fields, v.i2c_cursor as int, k), ..v };
        if spec_ends_edit(k) {
            AppView { editing: false, status: spec_status_for(v.screen), ..v1 }
        } else {
            v1
        }
    } else {
        v
    }
}

/// Review screen: scroll, or save.
pub open spec fn spec_review(v: AppView, k: Key) -> (AppView, AppAction) {
    if spec_is_up(k) {
        (if v.review_scroll > 0 {
            AppView { review_scroll: (v.review_scroll - 1) as usize, ..v }
        } else {
            v
        }, AppAction::Stay)
    } else if spec_is_down(k) {
        (AppView { review_scroll: (v.review_scroll + 1) as usize, ..v }, AppAction::Stay)
    } else if k == Key::Char('s') || k == Key::Enter {
        (v, AppAction::Save)
    } else {
        (v, AppAction::Stay)
    }
}

/// The wizard's response to a key: the editing handler while a field is
/// edited, else that of the current screen.
pub open spec fn spec_handle_key(v: AppView, offers: Seq<OfferView>, k: Key) -> (AppView, AppAction) {
    if v.editing {
        (spec_edit_key(v, k), AppAction::Stay)
    } else {
        match v.screen {
            Screen::BoardSelect => (spec_board_select(v, offers, k), AppAction::Stay),
            Screen::BoardConfig => (spec_board_config(v, k), AppAction::Stay),
            Screen::ServerSettings => (spec_server_settings(v, k), AppAction::Stay),
            Screen::I2cSettings => spec_i2c_settings(v, k),
            Screen::Review => spec_review(v, k),
        }
    }
}

/// The event loop's response to a key: `q` on the board list and Esc
/// there end the wizard, Esc elsewhere goes back one screen, any other
/// key goes to the screen (or the field being edited).
pub open spec fn spec_dispatch_key(v: AppView, offers: Seq<OfferView>, k: Key) -> (AppView, AppAction) {
    if (k == Key::Char('q') || k == Key::Esc) && v.screen == Screen::BoardSelect {
        (v, AppAction::Quit)
    } else if k == Key::Esc {
        (AppView {
            editing: false,
            screen: spec_previous(v.screen),
            status: spec_status_for(spec_previous(v.screen)),
            ..v
        }, AppAction::Stay)
    } else {
        spec_handle_key(v, offers, k)
    }
}

/// Whether key `k` is handled without fault in state `v`: toggling a
/// board needs the cursor on a board and, to add it, fewer than 255 boards
/// already selected (counted as a byte); moving down needs the cursor or
/// scroll offset below the top of its range.
pub open spec fn spec_key_ok(v: AppView, offers: Seq<OfferView>, k: Key) -> bool {
    v.editing || match v.screen {
        Screen::BoardSelect => (k == Key::Char(' ') ==> v.board_cursor < offers.len() && (
        spec_selected_pos(v.selected, offers[v.board_cursor as int].slug) is Some || v.selected.len()
            % 256 != 255)) && (spec_is_down(k) ==> v.board_cursor < usize::MAX),
        Screen::BoardConfig => (spec_is_down(k) ==> v.config_cursor < usize::MAX) && ((
        spec_is_right(k) || k == Key::Tab) ==> v.config_board_idx < usize::MAX),
        Screen::ServerSettings => spec_is_down(k) ==> v.server_cursor < usize::MAX
            && v.server_fields.len() < usize::MAX,
        Screen::I2cSettings => spec_is_down(k) ==> v.i2c_cursor < usize::MAX && v.i2c_fields.len()
            < usize::MAX,
        Screen::Review => spec_is_down(k) ==> v.review_scroll < usize::MAX,
    }
}

fn status_for(s: Screen) -> (r: String)
    ensures
        r@ == spec_status_for(s),
{
    match s {
        Screen::BoardSelect => String::from_str("↑↓ Navigate  Space Toggle  Enter Continue  q/Esc Quit"),
        Screen::BoardConfig => String::from_str(
            "↑↓ Select field  +/- Adjust  ←→/Tab Switch board  Enter Continue  Esc Back",
        ),
        Screen::ServerSettings => String::from_str("↑↓ Navigate  Enter Edit/Toggle  Esc Back"),
        Screen::I2cSettings => String::from_str("↑↓ Navigate  Enter Edit/Toggle  Esc Back"),
        Screen::Review => String::from_str("↑↓ Scroll  s/Enter Save  Esc Back"),
    }
}

fn is_up(k: Key) -> (b: bool)
    ensures
        b == spec_is_up(k),
{
    match k {
        Key::Up => true,
        Key::Char(c) => c == 'k',
        _ => false,
    }
}

fn is_down(k: Key) -> (b: bool)
    ensures
        b == spec_is_down(k),
{
    match k {
        Key::Down => true,
        Key::Char(c) => c == 'j',
        _ => false,
    }
}

fn is_left(k: Key) -> (b: bool)
    ensures
        b == spec_is_left(k),
{
    match k {
        Key::Left => true,
        Key::Char(c) => c == 'h',
        _ => false,
    }
}

fn is_right(k: Key) -> (b: bool)
    ensures
        b == spec_is_right(k),
{
    match k {
        Key::Right => true,
        Key::Char(c) => c == 'l',
        _ => false,
    }
}

fn is_char(k: Key, c: char) -> (b: bool)
    ensures
        b == (k == Key::Char(c)),
{
    match k {
        Key::Char(d) => d == c,
        _ => false,
    }
}

fn copy_selected(b: &SelectedBoard) -> (r: SelectedBoard)
    ensures
        r@ == b@,
{
    SelectedBoard {
        slug: b.slug.clone(),
        display_name: b.display_name.clone(),
        capabilities: b.capabilities.clone(),
        stack: b.stack,
        slave_id: b.slave_id,
    }
}

proof fn lemma_first_pos(sel: Seq<SelectedView>, slug: Seq<char>, j: int)
    requires
        0 <= j < sel.len(),
        sel[j].slug == slug,
        forall|k: int| 0 <= k < j ==> #[trigger] sel[k].slug != slug,
    ensures
        spec_selected_pos(sel, slug) == Some(j),
{
    assert(sel[j].slug == slug);
    let c = choose|i: int|
        0 <= i < sel.len() && sel[i].slug == slug && forall|k: int|
            0 <= k < i ==> #[trigger] sel[k].slug != slug;
    if c < j {
        assert(sel[c].slug != slug);
    } else if c > j {
        assert(sel[j].slug != slug);
    }
}

impl App {
    fn set_status(&mut self, text: &str)
        ensures
            final(self)@ == (AppView { status: text@, ..old(self)@ }),
            final(self).available@ == old(self).available@,
            final(self).output_path@ == old(self).output_path@,
    {
        self.status = String::from_str(text);
    }

    fn update_status(&mut self)
        ensures
            final(self)@ == (AppView { status: spec_status_for(old(self).screen), ..old(self)@ }),
            final(self).available@ == old(self).available@,
            final(self).output_path@ == old(self).output_path@,
    {
        self.status = status_for(self.screen);
    }

    /// Go back one screen (the first screen stays) and stop editing.
    pub fn go_back(&mut self)
        ensures
            final(self)@ == (AppView {
                editing: false,
                screen: spec_previous(old(self).screen),
                status: spec_status_for(spec_previous(old(self).screen)),
                ..old(self)@
            }),
            final(self).available@ == old(self).available@,
            final(self).output_path@ == old(self).output_path@,
    {
        self.editing = false;
        self.screen = match self.screen {
            Screen::BoardSelect => Screen::BoardSelect,
            Screen::BoardConfig => Screen::BoardSelect,
            Screen::ServerSettings => Screen::BoardConfig,
            Screen::I2cSettings => Screen::ServerSettings,
            Screen::Review => Screen::I2cSettings,
        };
        self.update_status();
    }

    fn toggle_board(&mut self)
        requires
            old(self).board_cursor < old(self).available@.len(),
            spec_selected_pos(
                old(self)@.selected,
                spec_offers(old(self).available@)[old(self).board_cursor as int].slug,
            ) is Some || old(self)@.selected.len() % 256 != 255,
        ensures
            final(self)@ == spec_toggle(old(self)@, spec_offers(old(self).available@)),
            final(self).available@ == old(self).available@,
            final(self).output_path@ == old(self).output_path@,
    {
        let ghost v0 = self@;
        let ghost offers = spec_offers(self.available@);
        let cur = self.board_cursor;
        assert(offers[cur as int].slug == self.available@[cur as int].slug@);
        let mut i: usize = 0;
        while i < self.selected_boards.len()
            invariant
                self@ == v0,
                v0 == old(self)@,
                self.available@ == old(self).available@,
                self.output_path@ == old(self).output_path@,
                v0.selected == self@.selected,
                offers == spec_offers(self.available@),
                cur == self.board_cursor,
                cur < self.available@.len(),
                offers[cur as int].slug == self.available@[cur as int].slug@,
                i <= self.selected_boards@.len(),
                forall|k: int| 0 <= k < i ==> #[trigger] v0.selected[k].slug != offers[cur as int].slug,
            decreases self.selected_boards@.len() - i,
        {
            assert(v0.selected[i as int] == self.selected_boards@[i as int]@);
            if self.selected_boards[i].slug == self.available[cur].slug {
                proof {
                    lemma_first_pos(v0.selected, offers[cur as int].slug, i as int);
                }
                let ghost before = self.selected_boards@;
                self.selected_boards.remove(i);
                proof {
                    assert(self@.selected =~= v0.selected.remove(i as int));
                }
                return;
            }
            i += 1;
        }
        proof {
            assert(spec_selected_pos(v0.selected, offers[cur as int].slug) is None);
        }
        let n = self.selected_boards.len();
        let base = (n % 256) as u8;
        let id: u8 = base + 1;
        let slave_id = if id < 247 {
            id
        } else {
            247
        };
        let b = SelectedBoard {
            slug: self.available[cur].slug.clone(),
            display_name: self.available[cur].display_name.clone(),
            capabilities: self.available[cur].capabilities.clone(),
            stack: 0,
            slave_id,
        };
        self.selected_boards.push(b);
        proof {
            assert(self@.selected =~= v0.selected.push(b@));
        }
    }

    fn handle_board_select(&mut self, key: Key)
        requires
            spec_key_ok(old(self)@, spec_offers(old(self).available@), key),
            !old(self)@.editing,
            old(self).screen == Screen::BoardSelect,
        ensures
            final(self)@ == spec_board_select(old(self)@, spec_offers(old(self).available@), key),
            final(self).available@ == old(self).available@,
            final(self).output_path@ == old(self).output_path@,
    {
        if is_up(key) {
            if self.board_cursor > 0 {
                self.board_cursor = self.board_cursor - 1;
            }
        } else if is_down(key) {
            if self.board_cursor + 1 < self.available.len() {
                self.board_cursor = self.board_cursor + 1;
            }
        } else if is_char(key, ' ') {
            self.toggle_board();
        } else if key == Key::Enter {
            if self.selected_boards.len() == 0 {
                self.set_status("⚠ Select at least one board before continuing");
            } else {
                self.config_board_idx = 0;
                self.config_cursor = 0;
                self.screen = Screen::BoardConfig;
                self.update_status();
            }
        }
    }
}

/// Views of edit fields.
pub open spec fn spec_fields(v: Seq<EditField>) -> Seq<FieldView> {
    v.map_values(|f: EditField| f@)
}

fn enter_field(fields: &mut Vec<EditField>, i: usize, toggle: &str)
    requires
        i < old(fields)@.len(),
    ensures
        spec_fields(final(fields)@) == spec_enter_field(spec_fields(old(fields)@), i as int, toggle@),
{
    let ghost before = spec_fields(fields@);
    let label = fields[i].label.clone();
    let value = fields[i].value.clone();
    let editing = fields[i].editing;
    assert(before[i as int] == fields@[i as int]@);
    if crate::board_def::str_is(&label, toggle) {
        let new_value = if crate::board_def::str_is(&value, "yes") {
            String::from_str("no")
        } else {
            String::from_str("yes")
        };
        fields.set(i, EditField { label, value: new_value, editing });
    } else {
        fields.set(i, EditField { label, value, editing: true });
    }
    proof {
        assert(spec_fields(fields@) =~= spec_enter_field(before, i as int, toggle@));
    }
}

fn edit_field(fields: &mut Vec<EditField>, i: usize, key: Key)
    requires
        i < old(fields)@.len(),
    ensures
        spec_fields(final(fields)@) == spec_edit_field(spec_fields(old(fields)@), i as int, key),
{
    let ghost before = spec_fields(fields@);
    let label = fields[i].label.clone();
    let mut value = fields[i].value.clone();
    let editing = fields[i].editing;
    assert(before[i as int] == fields@[i as int]@);
    match key {
        Key::Enter => {
            fields.set(i, EditField { label, value, editing: false });
        },
        Key::Esc => {
            fields.set(i, EditField { label, value, editing: false });
        },
        Key::Backspace => {
            pop_char(&mut value);
            fields.set(i, EditField { label, value, editing });
        },
        Key::Char(c) => {
            push_char(&mut value, c);
            fields.set(i, EditField { label, value, editing });
        },
        _ => {},
    }
    proof {
        assert(spec_fields(fields@) =~= spec_edit_field(before, i as int, key));
    }
}

fn clamp_i16(x: i16, lo: i16, hi: i16) -> (r: i16)
    requires
        lo <= hi,
    ensures
        r == spec_clamp(x as int, lo as int, hi as int),
{
    if x < lo {
        lo
    } else if x > hi {
        hi
    } else {
        x
    }
}

impl App {
    fn adjust_board_field(&mut self, delta: i8)
        ensures
            final(self)@ == spec_adjust(old(self)@, delta as int),
            final(self).available@ == old(self).available@,
            final(self).output_path@ == old(self).output_path@,
    {
        if self.config_board_idx >= self.selected_boards.len() {
            return;
        }
        let idx = self.config_board_idx;
        let ghost v0 = self@;
        let mut b = copy_selected(&self.selected_boards[idx]);
        assert(v0.selected[idx as int] == self.selected_boards@[idx as int]@);
        if self.config_cursor == 0 {
            let new_val = b.stack as i16 + delta as i16;
            b.stack = clamp_i16(new_val, 0, 7) as u8;
            self.selected_boards.set(idx, b);
            proof {
                assert(self@.selected =~= spec_adjust(v0, delta as int).selected);
            }
        } else if self.config_cursor == 1 {
            let new_val = b.slave_id as i16 + delta as i16;
            b.slave_id = clamp_i16(new_val, 1, 247) as u8;
            self.selected_boards.set(idx, b);
            proof {
                assert(self@.selected =~= spec_adjust(v0, delta as int).selected);
            }
        }
    }

    fn handle_board_config(&mut self, key: Key)
        requires
            spec_key_ok(old(self)@, spec_offers(old(self).available@), key),
            !old(self)@.editing,
            old(self).screen == Screen::BoardConfig,
        ensures
            final(self)@ == spec_board_config(old(self)@, key),
            final(self).available@ == old(self).available@,
            final(self).output_path@ == old(self).output_path@,
    {
        let board_count = self.selected_boards.len();
        if is_up(key) {
            if self.config_cursor > 0 {
                self.config_cursor = self.config_cursor - 1;
            }
        } else if is_down(key) {
            if self.config_cursor + 1 < 3 {
                self.config_cursor = self.config_cursor + 1;
            }
        } else if is_left(key) {
            if self.config_board_idx > 0 {
                self.config_board_idx = self.config_board_idx - 1;
                self.config_cursor = 0;
            }
        } else if is_right(key) || key == Key::Tab {
            if self.config_board_idx + 1 < board_count {
                self.config_board_idx = self.config_board_idx + 1;
                self.config_cursor = 0;
            }
        } else if is_char(key, '+') || is_char(key, '=') {
            self.adjust_board_field(1);
        } else if is_char(key, '-') {
            self.adjust_board_field(-1);
        } else if key == Key::Enter {
            if self.config_cursor == 2 {
                self.screen = Screen::ServerSettings;
                self.server_cursor = 0;
                self.update_status();
            }
        }
    }

    fn handle_server_settings(&mut self, key: Key)
        requires
            spec_key_ok(old(self)@, spec_offers(old(self).available@), key),
            !old(self)@.editing,
            old(self).screen == Screen::ServerSettings,
        ensures
            final(self)@ == spec_server_settings(old(self)@, key),
            final(self).available@ == old(self).available@,
            final(self).output_path@ == old(self).output_path@,
    {
        if is_up(key) {
            if self.server_cursor > 0 {
                self.server_cursor = self.server_cursor - 1;
            }
        } else if is_down(key) {
            if self.server_cursor + 1 < self.server_fields.len() + 1 {
                self.server_cursor = self.server_cursor + 1;
            }
        } else if key == Key::Enter {
            let cursor = self.server_cursor;
            if cursor < self.server_fields.len() {
                let ghost v0 = self@;
                assert(v0.server_fields[cursor as int] == self.server_fields@[cursor as int]@);
                let toggle = crate::board_def::str_is(&self.server_fields[cursor].label, "Single Slave");
                enter_field(&mut self.server_fields, cursor, "Single Slave");
                if !toggle {
                    self.editing = true;
                    self.set_status("Type value, Enter to confirm, Esc to cancel");
                }
            } else {
                self.screen = Screen::I2cSettings;
                self.i2c_cursor = 0;
                self.update_status();
            }
        }
    }

    fn handle_i2c_settings(&mut self, key: Key) -> (a: AppAction)
        requires
            spec_key_ok(old(self)@, spec_offers(old(self).available@), key),
            !old(self)@.editing,
            old(self).screen == Screen::I2cSettings,
        ensures
            (final(self)@, a) == spec_i2c_settings(old(self)@, key),
            final(self).available@ == old(self).available@,
            final(self).output_path@ == old(self).output_path@,
    {
        if is_up(key) {
            if self.i2c_cursor > 0 {
                self.i2c_cursor = self.i2c_cursor - 1;
            }
            AppAction::Stay
        } else if is_down(key) {
            if self.i2c_cursor + 1 < self.i2c_fields.len() + 1 {
                self.i2c_cursor = self.i2c_cursor + 1;
            }
            AppAction::Stay
        } else if key == Key::Enter {
            let cursor = self.i2c_cursor;
            if cursor < self.i2c_fields.len() {
                let ghost v0 = self@;
                assert(v0.i2c_fields[cursor as int] == self.i2c_fields@[cursor as int]@);
                let toggle = crate::board_def::str_is(&self.i2c_fields[cursor].label, "Map Opto to Reg");
                enter_field(&mut self.i2c_fields, cursor, "Map Opto to Reg");
                if !toggle {
                    self.editing = true;
                    self.set_status("Type value, Enter to confirm, Esc to cancel");
                }
                AppAction::Stay
            } else {
                self.review_scroll = 0;
                self.screen = Screen::Review;
                self.update_status();
                AppAction::RenderPreview
            }
        } else {
            AppAction::Stay
        }
    }

    fn handle_edit_key(&mut self, key: Key)
        requires
            old(self)@.editing,
        ensures
            final(self)@ == spec_edit_key(old(self)@, key),
            final(self).available@ == old(self).available@,
            final(self).output_path@ == old(self).output_path@,
    {
        let ends = key == Key::Enter || key == Key::Esc;
        if self.screen == Screen::ServerSettings && self.server_cursor < self.server_fields.len() {
            edit_field(&mut self.server_fields, self.server_cursor, key);
            if ends {
                self.editing = false;
                self.update_status();
            }
        } else if self.screen == Screen::I2cSettings && self.i2c_cursor < self.i2c_fields.len() {
            edit_field(&mut self.i2c_fields, self.i2c_cursor, key);
            if ends {
                self.editing = false;
                self.update_status();
            }
        }
    }

    fn handle_review(&mut self, key: Key) -> (a: AppAction)
        requires
            spec_key_ok(old(self)@, spec_offers(old(self).available@), key),
            !old(self)@.editing,
            old(self).screen == Screen::Review,
        ensures
            (final(self)@, a) == spec_review(old(self)@, key),
            final(self).available@ == old(self).available@,
            final(self).output_path@ == old(self).output_path@,
    {
        if is_up(key) {
            if self.review_scroll > 0 {
                self.review_scroll = self.review_scroll - 1;
            }
            AppAction::Stay
        } else if is_down(key) {
            self.review_scroll = self.review_scroll + 1;
            AppAction::Stay
        } else if is_char(key, 's') || key == Key::Enter {
            AppAction::Save
        } else {
            AppAction::Stay
        }
    }

    /// Handle a key press and say what the caller must do next.
    pub fn handle_key(&mut self, key: Key) -> (a: AppAction)
        requires
            spec_key_ok(old(self)@, spec_offers(old(self).available@), key),
        ensures
            (final(self)@, a) == spec_handle_key(old(self)@, spec_offers(old(self).available@), key),
            final(self).available@ == old(self).available@,
            final(self).output_path@ == old(self).output_path@,
    {
        if self.editing {
            self.handle_edit_key(key);
            return AppAction::Stay;
        }
        match self.screen {
            Screen::BoardSelect => {
                self.handle_board_select(key);
                AppAction::Stay
            },
            Screen::BoardConfig => {
                self.handle_board_config(key);
                AppAction::Stay
            },
            Screen::ServerSettings => {
                self.handle_server_settings(key);
                AppAction::Stay
            },
            Screen::I2cSettings => self.handle_i2c_settings(key),
            Screen::Review => self.handle_review(key),
        }
    }

    /// Whether `key` is handled without fault in the current state (see
    /// [`App::handle_key`]).
    pub fn key_ok(&self, key: Key) -> (b: bool)
        ensures
            b == spec_key_ok(self@, spec_offers(self.available@), key),
    {
        if self.editing {
            return true;
        }
        match self.screen {
            Screen::BoardSelect => {
                let space_ok = if is_char(key, ' ') {
                    self.board_cursor < self.available.len() && (self.cursor_board_selected()
                        || self.selected_boards.len() % 256 != 255)
                } else {
                    true
                };
                space_ok && (!is_down(key) || self.board_cursor < usize::MAX)
            },
            Screen::BoardConfig => (!is_down(key) || self.config_cursor < usize::MAX) && (!(
            is_right(key) || key == Key::Tab) || self.config_board_idx < usize::MAX),
            Screen::ServerSettings => !is_down(key) || (self.server_cursor < usize::MAX
                && self.server_fields.len() < usize::MAX),
            Screen::I2cSettings => !is_down(key) || (self.i2c_cursor < usize::MAX
                && self.i2c_fields.len() < usize::MAX),
            Screen::Review => !is_down(key) || self.review_scroll < usize::MAX,
        }
    }

    fn cursor_board_selected(&self) -> (b: bool)
        requires
            self.board_cursor < self.available@.len(),
        ensures
            b == spec_selected_pos(
                self@.selected,
                spec_offers(self.available@)[self.board_cursor as int].slug,
            ) is Some,
    {
        let ghost offers = spec_offers(self.available@);
        let cur = self.board_cursor;
        assert(offers[cur as int].slug == self.available@[cur as int].slug@);
        let mut i: usize = 0;
        while i < self.selected_boards.len()
            invariant
                offers == spec_offers(self.available@),
                cur == self.board_cursor,
                cur < self.available@.len(),
                offers[cur as int].slug == self.available@[cur as int].slug@,
                i <= self.selected_boards@.len(),
                forall|k: int| 0 <= k < i ==> #[trigger] self@.selected[k].slug != offers[cur as int].slug,
            decreases self.selected_boards@.len() - i,
        {
            assert(self@.selected[i as int] == self.selected_boards@[i as int]@);
            if self.selected_boards[i].slug == self.available[cur].slug {
                proof {
                    lemma_first_pos(self@.selected, offers[cur as int].slug, i as int);
                }
                return true;
            }
            i += 1;
        }
        false
    }

    /// Handle a key press as the event loop does: `q` on the board list,
    /// or Esc there, ends the wizard; Esc elsewhere goes back one screen
    /// (and stops editing); any other key goes to [`App::handle_key`].
    pub fn dispatch_key(&mut self, key: Key) -> (a: AppAction)
        requires
            key == Key::Esc || (key == Key::Char('q') && old(self).screen == Screen::BoardSelect)
                || spec_key_ok(old(self)@, spec_offers(old(self).available@), key),
        ensures
            (final(self)@, a) == spec_dispatch_key(old(self)@, spec_offers(old(self).available@), key),
            final(self).available@ == old(self).available@,
            final(self).output_path@ == old(self).output_path@,
    {
        let on_list = self.screen == Screen::BoardSelect;
        if (is_char(key, 'q') || key == Key::Esc) && on_list {
            AppAction::Quit
        } else if key == Key::Esc {
            self.go_back();
            AppAction::Stay
        } else {
            self.handle_key(key)
        }
    }

    /// Store the rendered TOML preview.
    pub fn set_preview(&mut self, text: String)
        ensures
            final(self)@ == (AppView { preview: text@, ..old(self)@ }),
            final(self).available@ == old(self).available@,
            final(self).output_path@ == old(self).output_path@,
    {
        self.preview = text;
    }

    /// Book the outcome of a save: on success the configuration counts as
    /// saved and the wizard ends (`true`); on failure the status shows the
    /// error and the wizard goes on (`false`).
    pub fn finish_save(&mut self, outcome: Result<(), String>) -> (exit: bool)
        ensures
            exit == outcome is Ok,
            outcome is Ok ==> final(self)@ == (AppView { saved: true, ..old(self)@ }),
            outcome matches Err(e) ==> final(self)@ == (AppView {
                status: "❌ Save failed: "@ + e@,
                ..old(self)@
            }),
            final(self).available@ == old(self).available@,
            final(self).output_path@ == old(self).output_path@,
    {
        match outcome {
            Ok(()) => {
                self.saved = true;
                true
            },
            Err(e) => {
                let mut m = String::from_str("❌ Save failed: ");
                m.append(e.as_str());
                self.status = m;
                false
            },
        }
    }
}


// ── Loading and producing a configuration ───────────────────────────

/// The board instances of a configuration, abstractly: type, stack,
/// slave ID.
pub open spec fn spec_instances(b: Seq<BoardInstance>) -> Seq<(Seq<char>, u8, u8)> {
    b.map_values(|i: BoardInstance| (i.board_type@, i.stack, i.slave_id))
}

/// The selection, as board instances of a configuration.
pub open spec fn spec_selected_instances(sel: Seq<SelectedView>) -> Seq<(Seq<char>, u8, u8)> {
    sel.map_values(|s: SelectedView| (s.slug, s.stack, s.slave_id))
}

/// Index of the first offered board with slug `slug`.
pub open spec fn spec_offer_pos(offers: Seq<OfferView>, slug: Seq<char>) -> Option<int> {
    if exists|i: int| 0 <= i < offers.len() && #[trigger] offers[i].slug == slug {
        Some(
            choose|i: int|
                0 <= i < offers.len() && offers[i].slug == slug && forall|j: int|
                    0 <= j < i ==> #[trigger] offers[j].slug != slug,
        )
    } else {
        None
    }
}

/// The selection preloaded from configured instances: each instance whose
/// type is offered, in order, with its stack and slave ID.
pub open spec fn spec_preselect(inst: Seq<(Seq<char>, u8, u8)>, offers: Seq<OfferView>) -> Seq<
    SelectedView,
>
    decreases inst.len(),
{
    if inst.len() == 0 {
        Seq::empty()
    } else {
        let prev = spec_preselect(inst.drop_last(), offers);
        let b = inst.last();
        match spec_offer_pos(offers, b.0) {
            Some(p) => prev.push(
                SelectedView {
                    slug: offers[p].slug,
                    display_name: offers[p].display_name,
                    capabilities: offers[p].capabilities,
                    stack: b.1,
                    slave_id: b.2,
                },
            ),
            None => prev,
        }
    }
}

/// `yes` or `no`.
pub open spec fn spec_yes_no(b: bool) -> Seq<char> {
    if b {
        "yes"@
    } else {
        "no"@
    }
}

/// A port in decimal, or nothing.
pub open spec fn spec_opt_port(o: Option<u16>) -> Seq<char> {
    match o {
        Some(p) => spec_decimal(p as nat),
        None => Seq::empty(),
    }
}

/// A field that is not being edited.
pub open spec fn spec_field(label: Seq<char>, value: Seq<char>) -> FieldView {
    FieldView { label, value, editing: false }
}

/// The server settings screen for the given settings.
pub open spec fn spec_server_field_views(
    host: Seq<char>,
    port: u16,
    health_port: Option<u16>,
    single_slave: bool,
) -> Seq<FieldView> {
    seq![
        spec_field("Host"@, host),
        spec_field("Modbus Port"@, spec_decimal(port as nat)),
        spec_field("Health Port"@, spec_opt_port(health_port)),
        spec_field("Single Slave"@, spec_yes_no(single_slave)),
    ]
}

/// The I²C settings screen for the given settings.
pub open spec fn spec_i2c_field_views(
    reset_threshold: u32,
    channel_fault_threshold: u32,
    relay_verify_interval: u32,
    interval: u64,
    file: Option<Seq<char>>,
    retention: usize,
    map_opto: bool,
) -> Seq<FieldView> {
    seq![
        spec_field("Reset Threshold"@, spec_decimal(reset_threshold as nat)),
        spec_field("Channel Fault Threshold"@, spec_decimal(channel_fault_threshold as nat)),
        spec_field("Relay Verify Interval"@, spec_decimal(relay_verify_interval as nat)),
        spec_field("Log Interval (s)"@, spec_decimal(interval as nat)),
        spec_field(
            "Log File"@,
            match file {
                Some(f) => f,
                None => Seq::empty(),
            },
        ),
        spec_field("Log Retention"@, spec_decimal(retention as nat)),
        spec_field("Map Opto to Reg"@, spec_yes_no(map_opto)),
    ]
}

/// A file path, abstractly.
pub open spec fn spec_opt_text(o: Option<String>) -> Option<Seq<char>> {
    match o {
        Some(f) => Some(f@),
        None => None,
    }
}

/// The number a field holds, or `default` where it holds none that fits
/// under `max`.
pub open spec fn spec_number_or(value: Seq<char>, max: nat, default: nat) -> nat {
    match spec_parse_uint(value, max) {
        Some(n) => n,
        None => default,
    }
}

proof fn lemma_first_offer(offers: Seq<OfferView>, slug: Seq<char>, j: int)
    requires
        0 <= j < offers.len(),
        offers[j].slug == slug,
        forall|k: int| 0 <= k < j ==> #[trigger] offers[k].slug != slug,
    ensures
        spec_offer_pos(offers, slug) == Some(j),
{
    assert(offers[j].slug == slug);
    let c = choose|i: int|
        0 <= i < offers.len() && offers[i].slug == slug && forall|k: int|
            0 <= k < i ==> #[trigger] offers[k].slug != slug;
    if c < j {
        assert(offers[c].slug != slug);
    } else if c > j {
        assert(offers[j].slug != slug);
    }
}

fn yes_no(b: bool) -> (s: String)
    ensures
        s@ == spec_yes_no(b),
{
    if b {
        String::from_str("yes")
    } else {
        String::from_str("no")
    }
}

fn field(label: &str, value: String) -> (f: EditField)
    ensures
        f@ == spec_field(label@, value@),
{
    EditField { label: String::from_str(label), value, editing: false }
}

/// The offered board with slug `slug` that comes first, if any.
fn find_offer(available: &Vec<AvailableBoard>, slug: &String) -> (r: Option<usize>)
    ensures
        match r {
            Some(p) => spec_offer_pos(spec_offers(available@), slug@) == Some(p as int) && p
                < available@.len(),
            None => spec_offer_pos(spec_offers(available@), slug@) is None,
        },
{
    let ghost offers = spec_offers(available@);
    let mut j: usize = 0;
    while j < available.len()
        invariant
            j <= available@.len(),
            offers == spec_offers(available@),
            forall|k: int| 0 <= k < j ==> #[trigger] offers[k].slug != slug@,
        decreases available@.len() - j,
    {
        assert(offers[j as int].slug == available@[j as int].slug@);
        if available[j].slug == *slug {
            proof {
                lemma_first_offer(offers, slug@, j as int);
            }
            return Some(j);
        }
        j += 1;
    }
    None
}

/// The selection preloaded from the configured board instances.
fn preselect(available: &Vec<AvailableBoard>, boards: &Vec<BoardInstance>) -> (sel: Vec<
    SelectedBoard,
>)
    ensures
        sel@.map_values(|b: SelectedBoard| b@) == spec_preselect(
            spec_instances(boards@),
            spec_offers(available@),
        ),
{
    let ghost offers = spec_offers(available@);
    let ghost inst = spec_instances(boards@);
    let mut sel: Vec<SelectedBoard> = Vec::new();
    let mut i: usize = 0;
    proof {
        assert(inst.take(0).len() == 0);
        assert(sel@.map_values(|b: SelectedBoard| b@) =~= spec_preselect(inst.take(0), offers));
    }
    while i < boards.len()
        invariant
            i <= boards@.len(),
            offers == spec_offers(available@),
            inst == spec_instances(boards@),
            sel@.map_values(|b: SelectedBoard| b@) == spec_preselect(inst.take(i as int), offers),
        decreases boards@.len() - i,
    {
        let bi = &boards[i];
        let ghost before = sel@;
        proof {
            assert(inst.take(i as int + 1).drop_last() =~= inst.take(i as int));
            assert(inst.take(i as int + 1).last() == inst[i as int]);
        }
        match find_offer(available, &bi.board_type) {
            Some(p) => {
                let ab = &available[p];
                let b = SelectedBoard {
                    slug: ab.slug.clone(),
                    display_name: ab.display_name.clone(),
                    capabilities: ab.capabilities.clone(),
                    stack: bi.stack,
                    slave_id: bi.slave_id,
                };
                sel.push(b);
                proof {
                    assert(sel@.map_values(|b: SelectedBoard| b@) =~= before.map_values(
                        |b: SelectedBoard| b@,
                    ).push(b@));
                }
            },
            None => {},
        }
        i += 1;
    }
    proof {
        assert(inst.take(boards@.len() as int) =~= inst);
    }
    sel
}

fn opt_port_text(o: Option<u16>) -> (s: String)
    ensures
        s@ == spec_opt_port(o),
{
    match o {
        Some(p) => decimal(p as u64),
        None => String::new(),
    }
}

fn number_or(value: &String, max: u64, default: u64) -> (n: u64)
    requires
        default <= max,
    ensures
        n == spec_number_or(value@, max as nat, default as nat),
        n <= max,
{
    match parse_uint(value.as_str(), max) {
        Some(n) => n,
        None => default,
    }
}

impl App {
    /// A wizard on its first screen, preloaded from `existing` (or the
    /// defaults): each configured board whose type is offered is selected
    /// with its stack and slave ID, and the settings screens show the
    /// configured values.
    pub fn new(available: Vec<AvailableBoard>, existing: Option<GatewayConfig>, output_path: String) -> (a: Self)
        ensures
            a.available@ == available@,
            a.output_path@ == output_path@,
            a.screen == Screen::BoardSelect,
            a.board_cursor == 0,
            a.config_cursor == 0,
            a.config_board_idx == 0,
            a.server_cursor == 0,
            a.i2c_cursor == 0,
            a.board_scroll == 0,
            a.review_scroll == 0,
            !a.saved,
            !a.editing,
            a.preview@ == Seq::<char>::empty(),
            a.status@ == "Select boards with Space, Enter to continue"@,
            match existing {
                Some(c) => {
                    &&& a@.selected == spec_preselect(
                        spec_instances(c.board@),
                        spec_offers(available@),
                    )
                    &&& a@.server_fields == spec_server_field_views(
                        c.server.host@,
                        c.server.port,
                        c.server.health_port,
                        c.server.single_slave,
                    )
                    &&& a@.i2c_fields == spec_i2c_field_views(
                        c.i2c.reset_threshold,
                        c.i2c.channel_fault_threshold,
                        c.i2c.relay_verify_interval,
                        c.logging.interval,
                        spec_opt_text(c.logging.file),
                        c.logging.retention,
                        c.map_opto_to_reg,
                    )
                },
                None => {
                    &&& a@.selected.len() == 0
                    &&& a@.server_fields == spec_server_field_views("0.0.0.0"@, 502, None, false)
                    &&& a@.i2c_fields == spec_i2c_field_views(10, 5, 10, 5, None, 7, false)
                },
            },
    {
        let cfg = match existing {
            Some(c) => c,
            None => GatewayConfig::default(),
        };
        let selected_boards = preselect(&available, &cfg.board);
        proof {
            if cfg.board@.len() == 0 {
                assert(spec_instances(cfg.board@).len() == 0);
            }
        }
        let mut server_fields: Vec<EditField> = Vec::new();
        server_fields.push(field("Host", cfg.server.host.clone()));
        server_fields.push(field("Modbus Port", decimal(cfg.server.port as u64)));
        server_fields.push(field("Health Port", opt_port_text(cfg.server.health_port)));
        server_fields.push(field("Single Slave", yes_no(cfg.server.single_slave)));
        let log_file = match &cfg.logging.file {
            Some(p) => p.clone(),
            None => String::new(),
        };
        let mut i2c_fields: Vec<EditField> = Vec::new();
        i2c_fields.push(field("Reset Threshold", decimal(cfg.i2c.reset_threshold as u64)));
        i2c_fields.push(
            field("Channel Fault Threshold", decimal(cfg.i2c.channel_fault_threshold as u64)),
        );
        i2c_fields.push(
            field("Relay Verify Interval", decimal(cfg.i2c.relay_verify_interval as u64)),
        );
        i2c_fields.push(field("Log Interval (s)", decimal(cfg.logging.interval)));
        i2c_fields.push(field("Log File", log_file));
        i2c_fields.push(field("Log Retention", decimal(cfg.logging.retention as u64)));
        i2c_fields.push(field("Map Opto to Reg", yes_no(cfg.map_opto_to_reg)));
        let a = App {
            screen: Screen::BoardSelect,
            available,
            board_cursor: 0,
            selected_boards,
            config_cursor: 0,
            config_board_idx: 0,
            server_fields,
            server_cursor: 0,
            i2c_fields,
            i2c_cursor: 0,
            output_path,
            saved: false,
            board_scroll: 0,
            status: String::from_str("Select boards with Space, Enter to continue"),
            editing: false,
            preview: String::new(),
            review_scroll: 0,
        };
        proof {
            assert(a@.server_fields =~= spec_server_field_views(
                cfg.server.host@,
                cfg.server.port,
                cfg.server.health_port,
                cfg.server.single_slave,
            ));
            assert(a@.i2c_fields =~= spec_i2c_field_views(
                cfg.i2c.reset_threshold,
                cfg.i2c.channel_fault_threshold,
                cfg.i2c.relay_verify_interval,
                cfg.logging.interval,
                spec_opt_text(cfg.logging.file),
                cfg.logging.retention,
                cfg.map_opto_to_reg,
            ));
        }
        a
    }

    /// The configuration the wizard's fields describe.  A numeric field
    /// that does not hold a number of its type falls back to the default
    /// (port 502, reset threshold 10, channel fault threshold 5, relay
    /// verify interval 10, log interval 5, retention 7); a health port that
    /// is not a number disables the health endpoint; an empty log file
    /// means stdout only; `yes` switches a flag on.
    pub fn build_config(&self) -> (c: GatewayConfig)
        requires
            self.server_fields@.len() >= 4,
            self.i2c_fields@.len() >= 7,
        ensures
            c.server.host@ == self@.server_fields[0].value,
            c.server.port == spec_number_or(self@.server_fields[1].value, u16::MAX as nat, 502),
            c.server.health_port == match spec_parse_uint(self@.server_fields[2].value, u16::MAX as nat) {
                Some(n) => Some(n as u16),
                None => None,
            },
            c.server.single_slave == (self@.server_fields[3].value == "yes"@),
            c.i2c.reset_threshold == spec_number_or(self@.i2c_fields[0].value, u32::MAX as nat, 10),
            c.i2c.channel_fault_threshold == spec_number_or(self@.i2c_fields[1].value, u32::MAX as nat, 5),
            c.i2c.relay_verify_interval == spec_number_or(self@.i2c_fields[2].value, u32::MAX as nat, 10),
            c.logging.interval == spec_number_or(self@.i2c_fields[3].value, u64::MAX as nat, 5),
            spec_opt_text(c.logging.file) == (if self@.i2c_fields[4].value.len() == 0 {
                None
            } else {
                Some(self@.i2c_fields[4].value)
            }),
            c.logging.retention == spec_number_or(self@.i2c_fields[5].value, usize::MAX as nat, 7),
            c.map_opto_to_reg == (self@.i2c_fields[6].value == "yes"@),
            spec_instances(c.board@) == spec_selected_instances(self@.selected),
            c.boards_dir@ == "boards"@,
            !c.builtin_defaults,
    {
        let sf = &self.server_fields;
        let f = &self.i2c_fields;
        assert(self@.server_fields[0].value == sf@[0].value@);
        assert(self@.server_fields[1].value == sf@[1].value@);
        assert(self@.server_fields[2].value == sf@[2].value@);
        assert(self@.server_fields[3].value == sf@[3].value@);
        assert(self@.i2c_fields[0].value == f@[0].value@);
        assert(self@.i2c_fields[1].value == f@[1].value@);
        assert(self@.i2c_fields[2].value == f@[2].value@);
        assert(self@.i2c_fields[3].value == f@[3].value@);
        assert(self@.i2c_fields[4].value == f@[4].value@);
        assert(self@.i2c_fields[5].value == f@[5].value@);
        assert(self@.i2c_fields[6].value == f@[6].value@);
        let host = sf[0].value.clone();
        let port = number_or(&sf[1].value, 0xffff, 502) as u16;
        let health_port = match parse_uint(sf[2].value.as_str(), 0xffff) {
            Some(n) => Some(n as u16),
            None => None,
        };
        let single_slave = str_is(&sf[3].value, "yes");
        let reset_threshold = number_or(&f[0].value, 0xffff_ffff, 10) as u32;
        let channel_fault = number_or(&f[1].value, 0xffff_ffff, 5) as u32;
        let relay_verify = number_or(&f[2].value, 0xffff_ffff, 10) as u32;
        let log_interval = number_or(&f[3].value, u64::MAX, 5);
        let log_file = if f[4].value.as_str().is_empty() {
            None
        } else {
            Some(f[4].value.clone())
        };
        let log_retention = number_or(&f[5].value, usize::MAX as u64, 7) as usize;
        let map_opto = str_is(&f[6].value, "yes");
        let mut boards: Vec<BoardInstance> = Vec::new();
        let mut i: usize = 0;
        while i < self.selected_boards.len()
            invariant
                i <= self.selected_boards@.len(),
                spec_instances(boards@) == spec_selected_instances(self@.selected.take(i as int)),
            decreases self.selected_boards@.len() - i,
        {
            let sb = &self.selected_boards[i];
            let ghost before = boards@;
            assert(self@.selected[i as int] == sb@);
            boards.push(BoardInstance { board_type: sb.slug.clone(), stack: sb.stack, slave_id: sb.slave_id });
            i += 1;
            proof {
                assert(boards@ == before.push(boards@.last()));
                assert(spec_instances(boards@) =~= spec_instances(before).push(
                    spec_selected_instances(self@.selected)[i - 1],
                ));
                assert(self@.selected.take(i as int) =~= self@.selected.take(i - 1).push(
                    self@.selected[i - 1],
                ));
                assert(spec_instances(boards@) =~= spec_selected_instances(self@.selected.take(i as int)));
            }
        }
        proof {
            assert(self@.selected.take(i as int) =~= self@.selected);
        }
        GatewayConfig {
            server: ServerConfig { host, port, health_port, single_slave },
            logging: LoggingConfig { interval: log_interval, file: log_file, retention: log_retention },
            i2c: I2cConfig {
                reset_threshold,
                channel_fault_threshold: channel_fault,
                relay_verify_interval: relay_verify,
            },
            board: boards,
            boards_dir: String::from_str("boards"),
            map_opto_to_reg: map_opto,
            builtin_defaults: false,
        }
    }
}


/// The first offered board with a given slug is found when one is offered.
proof fn lemma_offer_found(offers: Seq<OfferView>, slug: Seq<char>, k: int)
    requires
        0 <= k < offers.len(),
        offers[k].slug == slug,
    ensures
        spec_offer_pos(offers, slug) matches Some(p) && 0 <= p < offers.len() && offers[p].slug
            == slug,
    decreases k,
{
    if exists|j: int| 0 <= j < k && #[trigger] offers[j].slug == slug {
        let j = choose|j: int| 0 <= j < k && #[trigger] offers[j].slug == slug;
        lemma_offer_found(offers, slug, j);
    } else {
        lemma_first_offer(offers, slug, k);
    }
}

/// Whether a board with slug `slug` is offered.
pub open spec fn spec_offered(offers: Seq<OfferView>, slug: Seq<char>) -> bool {
    exists|k: int| 0 <= k < offers.len() && #[trigger] offers[k].slug == slug
}

/// Every configured board type is offered.
pub open spec fn spec_all_offered(inst: Seq<(Seq<char>, u8, u8)>, offers: Seq<OfferView>) -> bool {
    forall|i: int| 0 <= i < inst.len() ==> spec_offered(offers, (#[trigger] inst[i]).0)
}

/// Preselecting one more configured board that is offered selects it,
/// with its stack and slave ID.
#[verifier::spinoff_prover]
#[verifier::rlimit(40)]
proof fn lemma_preselect_step(inst: Seq<(Seq<char>, u8, u8)>, offers: Seq<OfferView>)
    requires
        inst.len() > 0,
        spec_offered(offers, inst.last().0),
    ensures
        spec_selected_instances(spec_preselect(inst, offers)) == spec_selected_instances(
            spec_preselect(inst.drop_last(), offers),
        ).push(inst.last()),
{
    let b = inst.last();
    let k = choose|k: int| 0 <= k < offers.len() && #[trigger] offers[k].slug == b.0;
    lemma_offer_found(offers, b.0, k);
    let p = spec_offer_pos(offers, b.0)->0;
    let psel = spec_preselect(inst.drop_last(), offers);
    let sv = SelectedView {
        slug: offers[p].slug,
        display_name: offers[p].display_name,
        capabilities: offers[p].capabilities,
        stack: b.1,
        slave_id: b.2,
    };
    assert(spec_preselect(inst, offers) == psel.push(sv));
    assert(spec_selected_instances(psel.push(sv)) =~= spec_selected_instances(psel).push(b));
}

/// Preselecting configured boards that are all offered selects exactly
/// those boards, in order, with their stacks and slave IDs.
#[verifier::spinoff_prover]
pub proof fn lemma_preselect_keeps_instances(inst: Seq<(Seq<char>, u8, u8)>, offers: Seq<OfferView>)
    requires
        spec_all_offered(inst, offers),
    ensures
        spec_selected_instances(spec_preselect(inst, offers)) == inst,
    decreases inst.len(),
{
    if inst.len() > 0 {
        let prev = inst.drop_last();
        assert forall|i: int| 0 <= i < prev.len() implies spec_offered(offers, (#[trigger] prev[i]).0) by {
            assert(prev[i] == inst[i]);
        }
        lemma_preselect_keeps_instances(prev, offers);
        assert(spec_offered(offers, inst[inst.len() - 1].0));
        lemma_preselect_step(inst, offers);
        assert(inst =~= prev.push(inst.last()));
    }
}

/// The wizard reads back the configuration it was started from: the
/// settings screens that [`App::new`] shows for `c`, read as
/// [`App::build_config`] reads them, give `c`'s server, logging, I²C and
/// opto settings, and the preselected boards give `c`'s board instances,
/// when every configured board type is offered and a log file, if any, is
/// named by a non-empty path.  (The built configuration always has the
/// boards directory `boards` and built-in defaults off.)
pub proof fn lemma_wizard_round_trip(c: GatewayConfig, offers: Seq<OfferView>)
    requires
        spec_all_offered(spec_instances(c.board@), offers),
        c.logging.file matches Some(f) ==> f@.len() > 0,
    ensures
        ({
            let sf = spec_server_field_views(
                c.server.host@,
                c.server.port,
                c.server.health_port,
                c.server.single_slave,
            );
            &&& sf[0].value == c.server.host@
            &&& spec_number_or(sf[1].value, u16::MAX as nat, 502) == c.server.port
            &&& match spec_parse_uint(sf[2].value, u16::MAX as nat) {
                Some(n) => Some(n as u16),
                None => None,
            } == c.server.health_port
            &&& (sf[3].value == "yes"@) == c.server.single_slave
        }),
        ({
            let f = spec_i2c_field_views(
                c.i2c.reset_threshold,
                c.i2c.channel_fault_threshold,
                c.i2c.relay_verify_interval,
                c.logging.interval,
                spec_opt_text(c.logging.file),
                c.logging.retention,
                c.map_opto_to_reg,
            );
            &&& spec_number_or(f[0].value, u32::MAX as nat, 10) == c.i2c.reset_threshold
            &&& spec_number_or(f[1].value, u32::MAX as nat, 5) == c.i2c.channel_fault_threshold
            &&& spec_number_or(f[2].value, u32::MAX as nat, 10) == c.i2c.relay_verify_interval
            &&& spec_number_or(f[3].value, u64::MAX as nat, 5) == c.logging.interval
            &&& (if f[4].value.len() == 0 {
                None
            } else {
                Some(f[4].value)
            }) == spec_opt_text(c.logging.file)
            &&& spec_number_or(f[5].value, usize::MAX as nat, 7) == c.logging.retention
            &&& (f[6].value == "yes"@) == c.map_opto_to_reg
        }),
        spec_selected_instances(spec_preselect(spec_instances(c.board@), offers)) == spec_instances(
            c.board@,
        ),
{
    reveal_strlit("yes");
    reveal_strlit("no");
    assert("no"@.len() == 2 && "yes"@.len() == 3);
    lemma_parse_decimal(c.server.port as nat, u16::MAX as nat);
    if let Some(p) = c.server.health_port {
        lemma_parse_decimal(p as nat, u16::MAX as nat);
    } else {
        assert(spec_parse_uint(Seq::<char>::empty(), u16::MAX as nat) is None);
    }
    lemma_parse_decimal(c.i2c.reset_threshold as nat, u32::MAX as nat);
    lemma_parse_decimal(c.i2c.channel_fault_threshold as nat, u32::MAX as nat);
    lemma_parse_decimal(c.i2c.relay_verify_interval as nat, u32::MAX as nat);
    lemma_parse_decimal(c.logging.interval as nat, u64::MAX as nat);
    lemma_parse_decimal(c.logging.retention as nat, usize::MAX as nat);
    lemma_preselect_keeps_instances(spec_instances(c.board@), offers);
}


/// Stack and slave ID on the board configuration screen: `+` (or `=`)
/// raises the field under the cursor by one and `-` lowers it by one,
/// the stack level staying within 0–7 (every level a HAT can be set to)
/// and the slave ID within 1–247 (every Modbus slave address); nothing
/// else about the selection changes.
pub proof fn lemma_board_field_keys(v: AppView, offers: Seq<OfferView>)
    requires
        !v.editing,
        v.screen == Screen::BoardConfig,
        v.config_board_idx < v.selected.len(),
    ensures
        ({
            let i = v.config_board_idx as int;
            let s = v.selected[i].stack;
            let up = spec_handle_key(v, offers, Key::Char('+')).0;
            let down = spec_handle_key(v, offers, Key::Char('-')).0;
            v.config_cursor == 0 ==> {
                &&& up.selected.len() == v.selected.len()
                &&& up.selected[i].stack == if s < 7 {
                    (s + 1) as u8
                } else {
                    7u8
                }
                &&& up.selected[i].slave_id == v.selected[i].slave_id
                &&& up.selected[i].slug == v.selected[i].slug
                &&& down.selected[i].stack == if s == 0 {
                    0u8
                } else if s > 8 {
                    7u8
                } else {
                    (s - 1) as u8
                }
                &&& forall|j: int|
                    0 <= j < v.selected.len() && j != i ==> #[trigger] up.selected[j] == v.selected[j]
                        && down.selected[j] == v.selected[j]
            }
        }),
        ({
            let i = v.config_board_idx as int;
            let d = v.selected[i].slave_id;
            let up = spec_handle_key(v, offers, Key::Char('+')).0;
            let down = spec_handle_key(v, offers, Key::Char('-')).0;
            v.config_cursor == 1 ==> {
                &&& up.selected[i].slave_id == if d < 247 {
                    (d + 1) as u8
                } else {
                    247u8
                }
                &&& up.selected[i].stack == v.selected[i].stack
                &&& down.selected[i].slave_id == if d <= 1 {
                    1u8
                } else if d > 248 {
                    247u8
                } else {
                    (d - 1) as u8
                }
                &&& down.selected[i].stack == v.selected[i].stack
            }
        }),
{
}

} // verus!
