//! The terminal UI's state and what keys, the mouse and events do to it.

use vstd::prelude::*;
use vstd::string::*;
use crate::text::{same, texts};
use crate::tui::focus::{calculate_new_focus_index, can_move, moved_focus, FocusDirection};
use crate::tui::results::{ResultModel, SearchResult, PAGE_SIZE};

verus! {

#[derive(Debug, Clone, Copy, PartialEq, Eq, Structural)]
pub enum InputMode {
    /// Keys are commands.
    Normal,
    /// Keys go into the search box.
    Editing,
}

/// A key.
#[derive(Debug, Clone, Copy, PartialEq, Eq, Structural)]
pub enum Key {
    Char(char),
    Enter,
    Esc,
    Other,
}

/// A terminal cell.
#[derive(Debug, Clone, Copy, PartialEq, Eq, Structural)]
pub struct Cell {
    pub column: u16,
    pub row: u16,
}

/// What the mouse did.
#[derive(Debug, Clone, Copy, PartialEq, Eq, Structural)]
pub enum MouseKind {
    ScrollUp,
    ScrollDown,
    LeftUp,
    RightUp,
    Other,
}

/// An event that the application sends itself.
#[derive(Debug, Clone, Copy, PartialEq, Eq)]
pub enum AppEvent {
    ZoomIn(Cell),
    ZoomOut(Cell),
    ZoomReset,
    ClickLeft(Cell),
    NextPage,
    PreviousPage,
    ZoomImage(Option<u8>),
    Focus(FocusDirection),
    Quit,
}

/// What a key leads to, besides a change of mode.
#[derive(Debug, Clone, Copy, PartialEq, Eq)]
pub enum KeyAction {
    Nothing,
    /// Send this event.
    Send(AppEvent),
    /// Hand the key to the search box.
    EditInput,
    /// Search for what the search box holds, and empty it.
    Submit,
}

/// What becomes of the point that a zoomed image is centred on.
#[derive(Debug, Clone, Copy, PartialEq, Eq, Structural)]
pub enum FocalChange {
    Keep,
    /// The middle of the image.
    Center,
    /// The point that keeps what is under the cursor where it is, when the
    /// zoom level changes.
    AtCursor { cell: Cell, old_zoom: u8, new_zoom: u8 },
}

/// What is to be done about the zoomed image.
#[derive(Debug, Clone, Copy, PartialEq, Eq, Structural)]
pub enum ZoomEffect {
    /// No image is zoomed any more.
    Closed,
    /// There is no image at this place of the page.
    Missing,
    /// The image is shown at this zoom level already.
    Unchanged,
    /// Show the image at this place of the page; `reuse` says whether it is
    /// the one that is decoded already.
    Load { index: u8, reuse: bool },
}

/// What an event leads to, besides a change of state.
#[derive(Debug, Clone, Copy, PartialEq, Eq, Structural)]
pub enum AppEffect {
    Nothing,
    /// Update the zoomed image.
    Zoom { focal: FocalChange, zoom: ZoomEffect },
    /// Send the event that closes the zoomed image.
    CloseZoom,
    /// Show these images of the result.
    ShowPage { from: usize, to: usize },
}

/// The image that is shown zoomed.
#[derive(Debug, Clone)]
pub struct ZoomedImage {
    pub path: String,
    /// The zoom level it is shown at.
    pub current_zoom: u8,
    /// Whether the decoded original is at hand.
    pub has_original: bool,
}

/// The zoomed image as plain data.
pub struct ZoomedModel {
    pub path: Seq<char>,
    pub current_zoom: u8,
    pub has_original: bool,
}

/// Application state.
#[derive(Debug, Clone)]
pub struct App {
    /// Paths of the images on the page
    pub images: Vec<String>,
    /// Is the application running?
    pub running: bool,
    /// Which index is currently zoomed
    pub zoomed_image_index: Option<u8>,
    /// Larger version of the image which should be displayed as zoomed if present
    pub zoomed_image: Option<ZoomedImage>,
    pub zoom_level: u8,
    /// Whether the on-screen place of the zoomed image is known.
    pub rect_known: bool,
    /// Which image index is currently focused
    pub focused_image_index: u8,
    /// Which page of search results is currently being displayed
    pub page: usize,
    /// Determines whether we're editing the search box or not
    pub input_mode: InputMode,
    /// What the last search string was
    pub last_search: Option<String>,
    /// The results for the latest search
    pub search_result: Option<SearchResult>,
    /// Loading state
    pub is_searching: bool,
    pub mouse_click: Option<Cell>,
    /// Whether the keybindings help overlay is shown
    pub show_help: bool,
}

/// Application state as plain data.
#[verifier::ext_equal]
pub struct AppModel {
    pub images: Seq<Seq<char>>,
    pub running: bool,
    pub zoomed_image_index: Option<u8>,
    pub zoomed_image: Option<ZoomedModel>,
    pub zoom_level: u8,
    pub rect_known: bool,
    pub focused_image_index: u8,
    pub page: int,
    pub input_mode: InputMode,
    pub last_search: Option<Seq<char>>,
    pub search_result: Option<ResultModel>,
    pub is_searching: bool,
    pub mouse_click: Option<Cell>,
    pub show_help: bool,
}

impl View for ZoomedImage {
    type V = ZoomedModel;

    open spec fn view(&self) -> ZoomedModel {
        ZoomedModel {
            path: self.path@,
            current_zoom: self.current_zoom,
            has_original: self.has_original,
        }
    }
}

impl View for App {
    type V = AppModel;

    open spec fn view(&self) -> AppModel {
        AppModel {
            images: texts(self.images@),
            running: self.running,
            zoomed_image_index: self.zoomed_image_index,
            zoomed_image: match self.zoomed_image {
                Some(z) => Some(z@),
                None => None,
            },
            zoom_level: self.zoom_level,
            rect_known: self.rect_known,
            focused_image_index: self.focused_image_index,
            page: self.page as int,
            input_mode: self.input_mode,
            last_search: match self.last_search {
                Some(s) => Some(s@),
                None => None,
            },
            search_result: match self.search_result {
                Some(r) => Some(r@),
                None => None,
            },
            is_searching: self.is_searching,
            mouse_click: self.mouse_click,
            show_help: self.show_help,
        }
    }
}

/// The application as it starts.
pub open spec fn fresh_app() -> AppModel {
    AppModel {
        images: Seq::empty(),
        running: true,
        zoomed_image_index: None,
        zoomed_image: None,
        zoom_level: 1,
        rect_known: false,
        focused_image_index: 0,
        page: 0,
        input_mode: InputMode::Normal,
        last_search: None,
        search_result: None,
        is_searching: false,
        mouse_click: None,
        show_help: false,
    }
}

/// Whether a key quits: `q`, or `c` with Ctrl.
pub open spec fn quits(key: Key, control: bool) -> bool {
    key == Key::Char('q') || (control && (key == Key::Char('c') || key == Key::Char('C')))
}

/// What a key does while the help overlay is open. The overlay is modal: only
/// quitting and closing it are honored, so navigation is blocked.
pub open spec fn help_key(m: AppModel, key: Key, control: bool) -> (AppModel, KeyAction) {
    if quits(key, control) {
        (m, KeyAction::Send(AppEvent::Quit))
    } else if key == Key::Esc || key == Key::Char('?') {
        (AppModel { show_help: false, ..m }, KeyAction::Nothing)
    } else {
        (m, KeyAction::Nothing)
    }
}

/// What a key does as a command.
pub open spec fn command_key(m: AppModel, key: Key, control: bool) -> (AppModel, KeyAction) {
    match key {
        Key::Char(c) => if c == '?' {
            (AppModel { show_help: !m.show_help, ..m }, KeyAction::Nothing)
        } else if c == 'e' {
            (AppModel { input_mode: InputMode::Editing, ..m }, KeyAction::Nothing)
        } else if quits(key, control) {
            (m, KeyAction::Send(AppEvent::Quit))
        } else if c == 'L' {
            (m, KeyAction::Send(AppEvent::NextPage))
        } else if c == 'H' {
            (m, KeyAction::Send(AppEvent::PreviousPage))
        } else if c == 'l' {
            (m, KeyAction::Send(AppEvent::Focus(FocusDirection::Right)))
        } else if c == 'k' {
            (m, KeyAction::Send(AppEvent::Focus(FocusDirection::Up)))
        } else if c == 'j' {
            (m, KeyAction::Send(AppEvent::Focus(FocusDirection::Down)))
        } else if c == 'h' {
            (m, KeyAction::Send(AppEvent::Focus(FocusDirection::Left)))
        } else if '1' <= c && c <= '9' {
            (m, KeyAction::Send(AppEvent::ZoomImage(Some((c as u32 - '1' as u32) as u8))))
        } else {
            (m, KeyAction::Nothing)
        },
        Key::Enter => (
            m,
            KeyAction::Send(
                AppEvent::ZoomImage(
                    if m.zoomed_image_index is Some {
                        None
                    } else {
                        Some(m.focused_image_index)
                    },
                ),
            ),
        ),
        Key::Esc => (m, KeyAction::Send(AppEvent::ZoomImage(None))),
        Key::Other => (m, KeyAction::Nothing),
    }
}

/// What a key does in the search box.
pub open spec fn editing_key(m: AppModel, key: Key) -> (AppModel, KeyAction) {
    match key {
        Key::Esc => (AppModel { input_mode: InputMode::Normal, ..m }, KeyAction::Nothing),
        Key::Enter => (AppModel { input_mode: InputMode::Normal, ..m }, KeyAction::Submit),
        _ => (m, KeyAction::EditInput),
    }
}

/// What a key does.
pub open spec fn key_step(m: AppModel, key: Key, control: bool) -> (AppModel, KeyAction) {
    match m.input_mode {
        InputMode::Normal => if m.show_help {
            help_key(m, key, control)
        } else {
            command_key(m, key, control)
        },
        InputMode::Editing => editing_key(m, key),
    }
}

/// What the mouse leads to: zooming by the wheel and resetting by a right
/// click only while an image is zoomed.
pub open spec fn mouse_event(zoomed: bool, kind: MouseKind, cell: Cell) -> Option<AppEvent> {
    match kind {
        MouseKind::ScrollUp => if zoomed {
            Some(AppEvent::ZoomIn(cell))
        } else {
            None
        },
        MouseKind::ScrollDown => if zoomed {
            Some(AppEvent::ZoomOut(cell))
        } else {
            None
        },
        MouseKind::LeftUp => Some(AppEvent::ClickLeft(cell)),
        MouseKind::RightUp => if zoomed {
            Some(AppEvent::ZoomReset)
        } else {
            None
        },
        MouseKind::Other => None,
    }
}

/// What a request to zoom the image at a place of the page leads to, or a
/// request to close the zoomed image.
pub open spec fn zoom_step(m: AppModel, zoom: Option<u8>) -> (AppModel, ZoomEffect) {
    match zoom {
        None => (
            AppModel { zoomed_image_index: None, zoomed_image: None, ..m },
            ZoomEffect::Closed,
        ),
        Some(i) => {
            let now = AppModel { zoomed_image_index: Some(i), ..m };
            if i >= m.images.len() {
                (now, ZoomEffect::Missing)
            } else {
                let same_image = m.zoomed_image matches Some(z) && z.path == m.images[i as int];
                let level = match m.zoomed_image {
                    Some(z) => z.current_zoom,
                    None => 1,
                };
                if same_image && level == m.zoom_level {
                    (now, ZoomEffect::Unchanged)
                } else {
                    (
                        now,
                        ZoomEffect::Load {
                            index: i,
                            reuse: same_image && (m.zoomed_image matches Some(z)
                                && z.has_original),
                        },
                    )
                }
            }
        },
    }
}

/// A zoom level, between 1 and 4.
pub open spec fn held_zoom(level: int) -> u8 {
    if level < 1 {
        1
    } else if level > 4 {
        4
    } else {
        level as u8
    }
}

/// What changing the zoom level to `level` under the cursor leads to.
pub open spec fn rezoom(m: AppModel, cell: Cell, level: u8) -> (AppModel, AppEffect) {
    if m.zoomed_image is None {
        (m, AppEffect::Nothing)
    } else {
        let (now, zoom) = zoom_step(AppModel { zoom_level: level, ..m }, m.zoomed_image_index);
        (
            now,
            AppEffect::Zoom {
                focal: if m.rect_known {
                    FocalChange::AtCursor { cell, old_zoom: m.zoom_level, new_zoom: level }
                } else {
                    FocalChange::Keep
                },
                zoom,
            },
        )
    }
}

/// What showing the current page leads to: its images, or nothing where the
/// result does not reach that far.
pub open spec fn page_step(m: AppModel) -> (AppModel, AppEffect) {
    match m.search_result {
        None => (m, AppEffect::Nothing),
        Some(r) => {
            let from = m.page * PAGE_SIZE;
            let to = if r.images.len() < from + PAGE_SIZE {
                r.images.len() as int
            } else {
                from + PAGE_SIZE
            };
            if r.images.len() <= from {
                (m, AppEffect::Nothing)
            } else {
                (
                    AppModel { images: r.images.subrange(from, to), ..m },
                    AppEffect::ShowPage { from: from as usize, to: to as usize },
                )
            }
        },
    }
}

/// What an event does.
pub open spec fn app_step(m: AppModel, ev: AppEvent) -> (AppModel, AppEffect) {
    match ev {
        AppEvent::ZoomIn(cell) => rezoom(m, cell, held_zoom(m.zoom_level + 1)),
        AppEvent::ZoomOut(cell) => rezoom(m, cell, held_zoom(m.zoom_level - 1)),
        AppEvent::ZoomReset => {
            let (now, zoom) = zoom_step(AppModel { zoom_level: 1, ..m }, m.zoomed_image_index);
            (now, AppEffect::Zoom { focal: FocalChange::Center, zoom })
        },
        AppEvent::ClickLeft(cell) => if m.zoomed_image is Some {
            (AppModel { mouse_click: None, ..m }, AppEffect::CloseZoom)
        } else {
            (AppModel { mouse_click: Some(cell), ..m }, AppEffect::Nothing)
        },
        AppEvent::NextPage => if m.search_result matches Some(r) && (m.page + 1) * PAGE_SIZE
            >= r.result_count {
            (m, AppEffect::Nothing)
        } else {
            page_step(AppModel { page: m.page + 1, ..m })
        },
        AppEvent::PreviousPage => page_step(
            AppModel {
                page: if m.page > 0 {
                    m.page - 1
                } else {
                    0
                },
                ..m
            },
        ),
        AppEvent::ZoomImage(zoom) => {
            let (now, z) = zoom_step(m, zoom);
            (now, AppEffect::Zoom { focal: FocalChange::Center, zoom: z })
        },
        AppEvent::Focus(direction) => (
            AppModel {
                focused_image_index: moved_focus(
                    m.images.len() as int,
                    m.focused_image_index as int,
                    direction,
                ) as u8,
                ..m
            },
            AppEffect::Nothing,
        ),
        AppEvent::Quit => (AppModel { running: false, ..m }, AppEffect::Nothing),
    }
}

/// Whether an event can be handled: paging needs a search result and pages
/// that can be counted, and moving the focus needs an image to move to.
pub open spec fn can_handle(m: AppModel, ev: AppEvent) -> bool {
    match ev {
        AppEvent::NextPage | AppEvent::PreviousPage => m.search_result is Some && (m.page + 2)
            * PAGE_SIZE <= usize::MAX,
        AppEvent::Focus(direction) => m.images.len() <= 255 && can_move(
            m.images.len() as u8,
            m.focused_image_index,
            direction,
        ),
        _ => true,
    }
}

impl App {
    /// Constructs a new instance of [`App`].
    pub fn new() -> (r: Self)
        ensures
            r@ == fresh_app(),
    {
        let images: Vec<String> = Vec::new();
        assert(texts(images@) == Seq::<Seq<char>>::empty());
        App {
            images,
            running: true,
            zoomed_image_index: None,
            zoomed_image: None,
            zoom_level: 1,
            rect_known: false,
            focused_image_index: 0,
            page: 0,
            input_mode: InputMode::Normal,
            last_search: None,
            search_result: None,
            is_searching: false,
            mouse_click: None,
            show_help: false,
        }
    }

    /// What the mouse leads to.
    pub fn handle_mouse_event(&self, kind: MouseKind, cell: Cell) -> (r: Option<AppEvent>)
        ensures
            r == mouse_event(self@.zoomed_image is Some, kind, cell),
    {
        match kind {
            MouseKind::ScrollUp => {
                if self.zoomed_image.is_some() {
                    Some(AppEvent::ZoomIn(cell))
                } else {
                    None
                }
            },
            MouseKind::ScrollDown => {
                if self.zoomed_image.is_some() {
                    Some(AppEvent::ZoomOut(cell))
                } else {
                    None
                }
            },
            MouseKind::LeftUp => Some(AppEvent::ClickLeft(cell)),
            MouseKind::RightUp => {
                if self.zoomed_image.is_some() {
                    Some(AppEvent::ZoomReset)
                } else {
                    None
                }
            },
            MouseKind::Other => None,
        }
    }

    /// Handles the key events and updates the state of [`App`]. `control` says
    /// whether Ctrl, and no other modifier, is held.
    pub fn handle_key_events(&mut self, key: Key, control: bool) -> (action: KeyAction)
        ensures
            (final(self)@, action) == key_step(old(self)@, key, control),
    {
        match self.input_mode {
            InputMode::Normal => {
                if self.show_help {
                    self.help_overlay_key(key, control)
                } else {
                    self.normal_key(key, control)
                }
            },
            InputMode::Editing => match key {
                Key::Esc => {
                    self.input_mode = InputMode::Normal;
                    KeyAction::Nothing
                },
                Key::Enter => {
                    self.input_mode = InputMode::Normal;
                    KeyAction::Submit
                },
                _ => KeyAction::EditInput,
            },
        }
    }

    fn help_overlay_key(&mut self, key: Key, control: bool) -> (action: KeyAction)
        ensures
            (final(self)@, action) == help_key(old(self)@, key, control),
    {
        match key {
            Key::Char(c) => {
                if c == 'q' || (control && (c == 'c' || c == 'C')) {
                    KeyAction::Send(AppEvent::Quit)
                } else if c == '?' {
                    self.show_help = false;
                    KeyAction::Nothing
                } else {
                    KeyAction::Nothing
                }
            },
            Key::Esc => {
                self.show_help = false;
                KeyAction::Nothing
            },
            _ => KeyAction::Nothing,
        }
    }

    fn normal_key(&mut self, key: Key, control: bool) -> (action: KeyAction)
        ensures
            (final(self)@, action) == command_key(old(self)@, key, control),
    {
        match key {
            Key::Char(c) => {
                if c == '?' {
                    self.show_help = !self.show_help;
                    KeyAction::Nothing
                } else if c == 'e' {
                    self.input_mode = InputMode::Editing;
                    KeyAction::Nothing
                } else if c == 'q' || (control && (c == 'c' || c == 'C')) {
                    KeyAction::Send(AppEvent::Quit)
                } else if c == 'L' {
                    KeyAction::Send(AppEvent::NextPage)
                } else if c == 'H' {
                    KeyAction::Send(AppEvent::PreviousPage)
                } else if c == 'l' {
                    KeyAction::Send(AppEvent::Focus(FocusDirection::Right))
                } else if c == 'k' {
                    KeyAction::Send(AppEvent::Focus(FocusDirection::Up))
                } else if c == 'j' {
                    KeyAction::Send(AppEvent::Focus(FocusDirection::Down))
                } else if c == 'h' {
                    KeyAction::Send(AppEvent::Focus(FocusDirection::Left))
                } else if '1' <= c && c <= '9' {
                    // Subtract the byte of '1' to get a zero-based index.
                    let index: u8 = c as u8 - 49;
                    KeyAction::Send(AppEvent::ZoomImage(Some(index)))
                } else {
                    KeyAction::Nothing
                }
            },
            Key::Enter => {
                if self.zoomed_image_index.is_some() {
                    KeyAction::Send(AppEvent::ZoomImage(None))
                } else {
                    KeyAction::Send(AppEvent::ZoomImage(Some(self.focused_image_index)))
                }
            },
            Key::Esc => KeyAction::Send(AppEvent::ZoomImage(None)),
            Key::Other => KeyAction::Nothing,
        }
    }

    /// Zooms the image at a place of the page, or closes the zoomed image.
    pub fn handle_zoom_image(&mut self, zoom: Option<u8>) -> (effect: ZoomEffect)
        ensures
            (final(self)@, effect) == zoom_step(old(self)@, zoom),
    {
        match zoom {
            None => {
                self.zoomed_image_index = None;
                self.zoomed_image = None;
                ZoomEffect::Closed
            },
            Some(i) => {
                self.zoomed_image_index = Some(i);
                assert(texts(self.images@).len() == self.images@.len());
                if i as usize >= self.images.len() {
                    return ZoomEffect::Missing;
                }
                assert(texts(self.images@)[i as int] == self.images@[i as int]@);
                match &self.zoomed_image {
                    Some(z) => {
                        let same_image: bool = same(z.path.as_str(), self.images[i as usize].as_str());
                        if same_image && z.current_zoom == self.zoom_level {
                            ZoomEffect::Unchanged
                        } else {
                            ZoomEffect::Load { index: i, reuse: same_image && z.has_original }
                        }
                    },
                    None => ZoomEffect::Load { index: i, reuse: false },
                }
            },
        }
    }

    fn rezoom_at(&mut self, cell: Cell, level: u8) -> (effect: AppEffect)
        ensures
            (final(self)@, effect) == rezoom(old(self)@, cell, level),
    {
        if self.zoomed_image.is_none() {
            return AppEffect::Nothing;
        }
        let focal: FocalChange = if self.rect_known {
            FocalChange::AtCursor { cell, old_zoom: self.zoom_level, new_zoom: level }
        } else {
            FocalChange::Keep
        };
        self.zoom_level = level;
        let index: Option<u8> = self.zoomed_image_index;
        let zoom: ZoomEffect = self.handle_zoom_image(index);
        AppEffect::Zoom { focal, zoom }
    }

    /// Shows the current page of the result.
    pub fn update_page(&mut self) -> (effect: AppEffect)
        requires
            old(self)@.search_result is Some,
            (old(self)@.page + 1) * PAGE_SIZE <= usize::MAX,
        ensures
            (final(self)@, effect) == page_step(old(self)@),
    {
        let from: usize = self.page * PAGE_SIZE;
        let mut page: Vec<String> = Vec::new();
        let to: usize;
        match &self.search_result {
            Some(r) => {
                let count: usize = r.images.len();
                assert(texts(r.images@).len() == count);
                if count <= from {
                    return AppEffect::Nothing;
                }
                to = if count < from + PAGE_SIZE { count } else { from + PAGE_SIZE };
                let mut i: usize = from;
                assert(texts(page@) == texts(r.images@).subrange(from as int, from as int));
                while i < to
                    invariant
                        from <= i <= to <= r.images@.len(),
                        texts(page@) == texts(r.images@).subrange(from as int, i as int),
                    decreases to - i,
                {
                    let ghost before = page@;
                    page.push(r.images[i].clone());
                    proof {
                        assert(texts(page@) == texts(before).push(r.images@[i as int]@));
                        assert(texts(r.images@).subrange(from as int, i + 1) == texts(
                            r.images@,
                        ).subrange(from as int, i as int).push(r.images@[i as int]@));
                    }
                    i = i + 1;
                }
            },
            None => {
                return AppEffect::Nothing;
            },
        }
        self.images = page;
        AppEffect::ShowPage { from, to }
    }

    /// Handle focus movement in the image grid.
    pub fn handle_focus(&mut self, direction: FocusDirection)
        requires
            can_handle(old(self)@, AppEvent::Focus(direction)),
        ensures
            (final(self)@, AppEffect::Nothing) == app_step(
                old(self)@,
                AppEvent::Focus(direction),
            ),
    {
        assert(texts(self.images@).len() == self.images@.len());
        let len: u8 = self.images.len() as u8;
        self.focused_image_index =
        calculate_new_focus_index(len, self.focused_image_index, direction);
    }

    /// Handles an event that the application sent itself.
    pub fn handle_event(&mut self, ev: AppEvent) -> (effect: AppEffect)
        requires
            can_handle(old(self)@, ev),
        ensures
            (final(self)@, effect) == app_step(old(self)@, ev),
    {
        match ev {
            AppEvent::ZoomIn(cell) => {
                let level: u8 = hold_zoom(self.zoom_level, true);
                self.rezoom_at(cell, level)
            },
            AppEvent::ZoomOut(cell) => {
                let level: u8 = hold_zoom(self.zoom_level, false);
                self.rezoom_at(cell, level)
            },
            AppEvent::ZoomReset => {
                self.zoom_level = 1;
                let index: Option<u8> = self.zoomed_image_index;
                let zoom: ZoomEffect = self.handle_zoom_image(index);
                AppEffect::Zoom { focal: FocalChange::Center, zoom }
            },
            AppEvent::ClickLeft(cell) => {
                if self.zoomed_image.is_some() {
                    self.mouse_click = None;
                    AppEffect::CloseZoom
                } else {
                    self.mouse_click = Some(cell);
                    AppEffect::Nothing
                }
            },
            AppEvent::NextPage => {
                if let Some(result) = &self.search_result {
                    if (self.page + 1) * PAGE_SIZE >= result.result_count {
                        // No more pages
                        return AppEffect::Nothing;
                    }
                }
                self.page = self.page + 1;
                self.update_page()
            },
            AppEvent::PreviousPage => {
                if self.page > 0 {
                    self.page = self.page - 1;
                }
                self.update_page()
            },
            AppEvent::ZoomImage(zoom) => {
                let z: ZoomEffect = self.handle_zoom_image(zoom);
                AppEffect::Zoom { focal: FocalChange::Center, zoom: z }
            },
            AppEvent::Focus(direction) => {
                self.handle_focus(direction);
                AppEffect::Nothing
            },
            AppEvent::Quit => {
                self.quit();
                AppEffect::Nothing
            },
        }
    }

    /// Begins a search: the first page is shown again, the images of the last
    /// search go at once, and a search that is still under way is to be given
    /// up for the new one.
    pub fn begin_search(&mut self, query: &str)
        ensures
            final(self)@ == (AppModel {
                page: 0,
                last_search: Some(query@),
                is_searching: true,
                images: Seq::empty(),
                ..old(self)@
            }),
    {
        self.page = 0;
        self.last_search = Some(query.to_owned());
        self.is_searching = true;
        self.images = Vec::new();
        assert(texts(self.images@) == Seq::<Seq<char>>::empty());
    }

    /// Handle search results from background task.
    pub fn handle_search_result(&mut self, result: SearchResult) -> (effect: AppEffect)
        requires
            (old(self)@.page + 1) * PAGE_SIZE <= usize::MAX,
        ensures
            (final(self)@, effect) == page_step(
                AppModel {
                    is_searching: false,
                    images: Seq::empty(),
                    zoomed_image: None,
                    zoomed_image_index: None,
                    search_result: Some(result@),
                    ..old(self)@
                },
            ),
    {
        self.is_searching = false;
        self.images = Vec::new();
        assert(texts(self.images@) == Seq::<Seq<char>>::empty());
        // clear previous zoomed state
        self.zoomed_image = None;
        self.zoomed_image_index = None;
        self.search_result = Some(result);
        self.update_page()
    }

    /// The number of results of the latest search.
    pub fn result_count(&self) -> (r: Option<usize>)
        ensures
            r is Some <==> self@.search_result is Some,
            r matches Some(n) ==> n == self@.search_result->0.result_count,
    {
        match &self.search_result {
            Some(r) => Some(r.result_count),
            None => None,
        }
    }

    /// Set running to false to quit the application.
    pub fn quit(&mut self)
        ensures
            final(self)@ == (AppModel { running: false, ..old(self)@ }),
    {
        self.running = false;
    }
}

fn hold_zoom(level: u8, up: bool) -> (r: u8)
    ensures
        r == held_zoom(
            if up {
                level + 1
            } else {
                level - 1
            },
        ),
{
    if up {
        if level >= 4 {
            4
        } else {
            level + 1
        }
    } else if level <= 1 {
        1
    } else if level > 5 {
        4
    } else {
        level - 1
    }
}

/// Whether the zoom level is one of the four.
pub open spec fn zoom_in_range(m: AppModel) -> bool {
    1 <= m.zoom_level <= 4
}

/// No key and no event ever takes the zoom level out of its range, and a page
/// never shows more than nine images.
pub proof fn zoom_and_page_stay_in_range(m: AppModel, ev: AppEvent)
    requires
        zoom_in_range(m),
        m.images.len() <= PAGE_SIZE,
        m.page >= 0,
        can_handle(m, ev),
    ensures
        zoom_in_range(app_step(m, ev).0),
        app_step(m, ev).0.images.len() <= PAGE_SIZE,
{
}

/// While help is open, no key does anything but close it or quit.
pub proof fn help_is_modal(m: AppModel, key: Key, control: bool)
    requires
        m.show_help,
        m.input_mode == InputMode::Normal,
    ensures
        key_step(m, key, control).1 == KeyAction::Nothing || key_step(m, key, control).1
            == KeyAction::Send(AppEvent::Quit),
        key_step(m, key, control).0 == m || key_step(m, key, control).0 == (AppModel {
            show_help: false,
            ..m
        }),
{
}

/// Paging forward never leaves the results: where a page is turned, the new
/// page begins before their end.
pub proof fn paging_stays_within_the_results(m: AppModel)
    requires
        m.search_result is Some,
    ensures
        app_step(m, AppEvent::NextPage).0.page != m.page ==> app_step(m, AppEvent::NextPage).0.page
            * PAGE_SIZE < m.search_result->0.result_count,
        m.page >= 0 ==> 0 <= app_step(m, AppEvent::PreviousPage).0.page <= m.page,
{
}

/// A zoom request shows that image, or says that it is missing; closing
/// leaves nothing zoomed.
pub proof fn closing_leaves_nothing_zoomed(m: AppModel)
    ensures
        app_step(m, AppEvent::ZoomImage(None)).0.zoomed_image is None,
        app_step(m, AppEvent::ZoomImage(None)).0.zoomed_image_index is None,
{
}

/// Keys as commands do what the help says: `e` edits the search, `h`, `j`,
/// `k` and `l` move the focus left, down, up and right, `H` and `L` turn the
/// page back and forward, a digit zooms the image at that place of the page,
/// `Enter` zooms the focused image or closes the zoomed one, `Esc` closes it,
/// `?` opens the help, and `q` and Ctrl-C quit. Every other key does nothing.
pub proof fn keys_do_what_the_help_says(m: AppModel, control: bool, key: Key)
    requires
        m.input_mode == InputMode::Normal,
        !m.show_help,
    ensures
        key_step(m, Key::Char('e'), control) == (
            AppModel { input_mode: InputMode::Editing, ..m },
            KeyAction::Nothing,
        ),
        key_step(m, Key::Char('h'), control).1 == KeyAction::Send(
            AppEvent::Focus(FocusDirection::Left),
        ),
        key_step(m, Key::Char('j'), control).1 == KeyAction::Send(
            AppEvent::Focus(FocusDirection::Down),
        ),
        key_step(m, Key::Char('k'), control).1 == KeyAction::Send(
            AppEvent::Focus(FocusDirection::Up),
        ),
        key_step(m, Key::Char('l'), control).1 == KeyAction::Send(
            AppEvent::Focus(FocusDirection::Right),
        ),
        key_step(m, Key::Char('H'), control).1 == KeyAction::Send(AppEvent::PreviousPage),
        key_step(m, Key::Char('L'), control).1 == KeyAction::Send(AppEvent::NextPage),
        forall|c: char|
            '1' <= c && c <= '9' ==> #[trigger] key_step(m, Key::Char(c), control).1
                == KeyAction::Send(AppEvent::ZoomImage(Some((c as u32 - 49) as u8))),
        key_step(m, Key::Enter, control).1 == KeyAction::Send(
            AppEvent::ZoomImage(
                if m.zoomed_image_index is Some {
                    None
                } else {
                    Some(m.focused_image_index)
                },
            ),
        ),
        key_step(m, Key::Esc, control).1 == KeyAction::Send(AppEvent::ZoomImage(None)),
        key_step(m, Key::Char('?'), control) == (
            AppModel { show_help: true, ..m },
            KeyAction::Nothing,
        ),
        key_step(m, Key::Char('q'), control).1 == KeyAction::Send(AppEvent::Quit),
        key_step(m, Key::Char('c'), true).1 == KeyAction::Send(AppEvent::Quit),
        key_step(m, Key::Char('c'), false).1 == KeyAction::Nothing,
        key != Key::Char('e') && key != Key::Char('?') ==> key_step(m, key, control).0 == m,
        key_step(m, Key::Other, control).1 == KeyAction::Nothing,
{
}

/// While the search box is edited every key goes into it, but for `Enter`,
/// which submits the search, and `Esc`, which gives it up; both lead back to
/// commands.
pub proof fn typing_goes_into_the_search_box(m: AppModel, c: char, control: bool)
    requires
        m.input_mode == InputMode::Editing,
    ensures
        key_step(m, Key::Char(c), control) == (m, KeyAction::EditInput),
        key_step(m, Key::Other, control) == (m, KeyAction::EditInput),
        key_step(m, Key::Enter, control) == (
            AppModel { input_mode: InputMode::Normal, ..m },
            KeyAction::Submit,
        ),
        key_step(m, Key::Esc, control) == (
            AppModel { input_mode: InputMode::Normal, ..m },
            KeyAction::Nothing,
        ),
{
}

/// The help can always be closed, and the application quit from it.
pub proof fn help_can_be_closed(m: AppModel, control: bool)
    requires
        m.show_help,
        m.input_mode == InputMode::Normal,
    ensures
        !key_step(m, Key::Esc, control).0.show_help,
        !key_step(m, Key::Char('?'), control).0.show_help,
        key_step(m, Key::Char('q'), control).1 == KeyAction::Send(AppEvent::Quit),
        key_step(m, Key::Char('c'), true).1 == KeyAction::Send(AppEvent::Quit),
{
}

/// Every image of a result is on one page, in order: the image at place `k`
/// is on page `k / 9`, at place `k % 9` of it.
pub proof fn every_image_has_its_page(m: AppModel, k: int)
    requires
        m.search_result is Some,
        0 <= k < m.search_result->0.images.len(),
        m.page == k / 9,
    ensures
        k % 9 < page_step(m).0.images.len(),
        page_step(m).0.images[k % 9] == m.search_result->0.images[k],
        page_step(m).1 is ShowPage,
{
    let r = m.search_result->0;
    assert(k == 9 * (k / 9) + k % 9);
}

/// The pages follow each other: as long as there are more results the next
/// page is one further and shows what comes behind this one, and turning back
/// shows this one again; at the ends nothing is turned.
pub proof fn pages_follow_each_other(m: AppModel)
    requires
        m.page >= 0,
        m.search_result is Some,
        m.search_result->0.images.len() <= m.search_result->0.result_count,
    ensures
        (m.page + 1) * 9 < m.search_result->0.images.len() ==> {
            let next = app_step(m, AppEvent::NextPage).0;
            &&& next.page == m.page + 1
            &&& next.images[0] == m.search_result->0.images[(m.page + 1) * 9]
            &&& app_step(next, AppEvent::PreviousPage).0.page == m.page
            &&& app_step(next, AppEvent::PreviousPage).0.images
                == m.search_result->0.images.subrange(m.page * 9, (m.page + 1) * 9)
        },
        (m.page + 1) * 9 >= m.search_result->0.result_count ==> app_step(
            m,
            AppEvent::NextPage,
        ).0 == m,
        m.page == 0 ==> app_step(m, AppEvent::PreviousPage).0.page == 0,
{
}

/// The wheel zooms in and out by one level within the four there are, each
/// undoing the other; a reset goes back to the first. Without a zoomed image
/// the level stays.
pub proof fn the_wheel_zooms_by_one_level(m: AppModel, cell: Cell)
    requires
        zoom_in_range(m),
    ensures
        m.zoomed_image is Some && m.zoom_level < 4 ==> app_step(
            m,
            AppEvent::ZoomIn(cell),
        ).0.zoom_level == m.zoom_level + 1,
        m.zoomed_image is Some && m.zoom_level == 4 ==> app_step(
            m,
            AppEvent::ZoomIn(cell),
        ).0.zoom_level == 4,
        m.zoomed_image is Some && m.zoom_level > 1 ==> app_step(
            m,
            AppEvent::ZoomOut(cell),
        ).0.zoom_level == m.zoom_level - 1,
        m.zoomed_image is Some && m.zoom_level == 1 ==> app_step(
            m,
            AppEvent::ZoomOut(cell),
        ).0.zoom_level == 1,
        m.zoomed_image is None ==> app_step(m, AppEvent::ZoomIn(cell)) == (m, AppEffect::Nothing),
        m.zoomed_image is None ==> app_step(m, AppEvent::ZoomOut(cell)) == (m, AppEffect::Nothing),
        app_step(m, AppEvent::ZoomReset).0.zoom_level == 1,
{
}

/// The mouse zooms only where an image is zoomed: the wheel up zooms in, down
/// zooms out, and a right click resets. A left click always counts.
pub proof fn the_mouse_zooms_only_zoomed_images(kind: MouseKind, cell: Cell)
    ensures
        mouse_event(true, MouseKind::ScrollUp, cell) == Some(AppEvent::ZoomIn(cell)),
        mouse_event(true, MouseKind::ScrollDown, cell) == Some(AppEvent::ZoomOut(cell)),
        mouse_event(true, MouseKind::RightUp, cell) == Some(AppEvent::ZoomReset),
        kind != MouseKind::LeftUp ==> mouse_event(false, kind, cell) is None,
        mouse_event(true, MouseKind::LeftUp, cell) == Some(AppEvent::ClickLeft(cell)),
        mouse_event(false, MouseKind::LeftUp, cell) == Some(AppEvent::ClickLeft(cell)),
        mouse_event(true, MouseKind::Other, cell) is None,
{
}

/// Asking for an image of the page zooms that image: it is loaded unless it
/// is shown at this level already, and its decoded original is used again
/// only where it is the same image. A place without an image is missing.
pub proof fn the_asked_for_image_is_zoomed(m: AppModel, i: u8)
    ensures
        zoom_step(m, Some(i)).0.zoomed_image_index == Some(i),
        i >= m.images.len() <==> zoom_step(m, Some(i)).1 == ZoomEffect::Missing,
        i < m.images.len() && m.zoomed_image is None ==> zoom_step(m, Some(i)).1
            == (ZoomEffect::Load { index: i, reuse: false }),
        i < m.images.len() && m.zoomed_image is Some && m.zoomed_image->0.path
            != m.images[i as int] ==> zoom_step(m, Some(i)).1 == (ZoomEffect::Load {
            index: i,
            reuse: false,
        }),
        i < m.images.len() && m.zoomed_image is Some && m.zoomed_image->0.path
            == m.images[i as int] && m.zoomed_image->0.current_zoom != m.zoom_level ==> zoom_step(
            m,
            Some(i),
        ).1 == (ZoomEffect::Load { index: i, reuse: m.zoomed_image->0.has_original }),
        i < m.images.len() && m.zoomed_image is Some && m.zoomed_image->0.path
            == m.images[i as int] && m.zoomed_image->0.current_zoom == m.zoom_level ==> zoom_step(
            m,
            Some(i),
        ).1 == ZoomEffect::Unchanged,
{
}

/// Quitting stops the application, and nothing else does.
pub proof fn only_quitting_stops(m: AppModel, ev: AppEvent)
    requires
        m.running,
    ensures
        ev is Quit <==> !app_step(m, ev).0.running,
{
}

} // verus!
