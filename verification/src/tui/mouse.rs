//! What the mouse does. It turns pages and moves selections, and nothing else.
use super::state::{App, Page};
use crate::tui::state;
use ratatui::layout::{Constraint, Direction, Layout, Rect};
use vstd::prelude::*;

verus! {

/// A rectangle of the screen.
#[derive(Clone, Copy, Debug, PartialEq, Eq, Structural)]
pub struct Area {
    pub x: u16,
    pub y: u16,
    pub width: u16,
    pub height: u16,
}

#[derive(Clone, Copy, Debug, PartialEq, Eq, Structural)]
pub enum MouseKind {
    LeftDown,
    ScrollDown,
    ScrollUp,
    Other,
}

#[derive(Clone, Copy, Debug, PartialEq, Eq, Structural)]
pub struct Mouse {
    pub kind: MouseKind,
    pub column: u16,
    pub row: u16,
}

impl Area {
    /// The first column to the right of the area.
    pub open spec fn right(self) -> int {
        self.x + self.width
    }

    /// The first row below the area.
    pub open spec fn bottom(self) -> int {
        self.y + self.height
    }

    /// The area ends on the screen.
    pub open spec fn fits(self) -> bool {
        self.right() <= u16::MAX && self.bottom() <= u16::MAX
    }

    pub open spec fn holds(self, column: int, row: int) -> bool {
        self.x <= column < self.right() && self.y <= row < self.bottom()
    }

    /// Within the border of the area.
    pub open spec fn holds_inside(self, column: int, row: int) -> bool {
        self.x < column < self.right() - 1 && self.y < row < self.bottom() - 1
    }
}

// ---------------------------------------------------------------------------
// How the screen is divided
// ---------------------------------------------------------------------------
/// An area in three rows: the first and the last of a given height, the rest between them.
pub open spec fn three_rows(area: Area, first: u16, last: u16) -> (Area, Area, Area) {
    (
        Area { height: first, ..area },
        Area {
            y: (area.y + first) as u16,
            height: (area.height - first - last) as u16,
            ..area
        },
        Area { y: (area.y + area.height - last) as u16, height: last, ..area },
    )
}

/// `ratatui::layout::Layout::split`, downwards, with the constraints `Length(first)`,
/// `Min(least)` and `Length(last)`. Where there is room for all three, the first and the last
/// row get exactly their length and the row between them gets the rest.
#[verifier::external_body]
fn split_rows(area: Area, first: u16, least: u16, last: u16) -> (r: (Area, Area, Area))
    requires
        area.fits(),
        first + least + last <= area.height,
        least <= i16::MAX,
    ensures
        r == three_rows(area, first, last),
{
    let rows = Layout::default()
        .direction(Direction::Vertical)
        .constraints([
            Constraint::Length(first),
            Constraint::Min(least),
            Constraint::Length(last),
        ])
        .split(Rect::new(area.x, area.y, area.width, area.height));
    (
        Area { x: rows[0].x, y: rows[0].y, width: rows[0].width, height: rows[0].height },
        Area { x: rows[1].x, y: rows[1].y, width: rows[1].width, height: rows[1].height },
        Area { x: rows[2].x, y: rows[2].y, width: rows[2].width, height: rows[2].height },
    )
}

/// How many columns a text takes, as `ratatui::text::Line::width` counts them.
pub uninterp spec fn display_width(text: Seq<char>) -> usize;

/// `ratatui::text::Line::width` of a line that holds `text`. Which characters are wide is left
/// to the name `display_width`.
#[verifier::external_body]
pub(crate) fn columns_of(text: &str) -> (r: usize)
    ensures
        r == display_width(text@),
{
    ratatui::text::Line::from(text).width()
}

/// The smallest screen on which anything but a complaint is shown.
pub open spec fn large_enough(size: Area) -> bool {
    size.width >= 42 && size.height >= 10
}

/// The tabs, the page and the footer.
pub fn screen_areas(size: Area) -> (r: Option<(Area, Area, Area)>)
    requires
        size.fits(),
    ensures
        r == (if large_enough(size) {
            Some(three_rows(size, 3, 2))
        } else {
            None
        }),
{
    if size.width < 42 || size.height < 10 {
        None
    } else {
        Some(split_rows(size, 3, 4, 2))
    }
}

pub open spec fn footer_rows(height: u16, lines: nat) -> u16 {
    if lines <= height - 2 {
        lines as u16
    } else {
        (height - 2) as u16
    }
}

/// The rows of the import panel: the host, the candidates and the footer, which leaves at least
/// one row for the candidates.
pub fn import_sections(inner: Area, footer_lines: usize) -> (r: (Area, Area, Area))
    requires
        inner.fits(),
        inner.height >= 2,
    ensures
        r == three_rows(inner, 1, footer_rows(inner.height, footer_lines as nat)),
{
    let room: usize = (inner.height - 2) as usize;
    let footer: u16 = if footer_lines <= room {
        footer_lines as u16
    } else {
        inner.height - 2
    };
    split_rows(inner, 1, 1, footer)
}

pub open spec fn centered_in(area: Area, width: u16, height: u16) -> Area {
    let room = if area.width >= 2 {
        area.width - 2
    } else {
        0
    };
    let space = if area.height >= 2 {
        area.height - 2
    } else {
        0
    };
    let w = if width < room {
        width as int
    } else {
        room
    };
    let h = if height < space {
        height as int
    } else {
        space
    };
    Area {
        x: (area.x + (area.width - w) / 2) as u16,
        y: (area.y + (area.height - h) / 2) as u16,
        width: w as u16,
        height: h as u16,
    }
}

/// An area of at most this size in the middle of another one.
pub fn centered(area: Area, width: u16, height: u16) -> (r: Area)
    requires
        area.fits(),
    ensures
        r == centered_in(area, width, height),
        r.fits(),
        area.x <= r.x && r.right() <= area.right(),
        area.y <= r.y && r.bottom() <= area.bottom(),
{
    let room: u16 = if area.width >= 2 {
        area.width - 2
    } else {
        0
    };
    let space: u16 = if area.height >= 2 {
        area.height - 2
    } else {
        0
    };
    let w: u16 = if width < room {
        width
    } else {
        room
    };
    let h: u16 = if height < space {
        height
    } else {
        space
    };
    Area { x: area.x + (area.width - w) / 2, y: area.y + (area.height - h) / 2, width: w, height: h }
}

// ---------------------------------------------------------------------------
// Lists
// ---------------------------------------------------------------------------
/// The first row of a list that is shown, so that the selected row is.
pub open spec fn shown_from(selected: int, visible: int, offset: int) -> int {
    if selected < offset {
        selected
    } else if selected >= offset + visible {
        if visible > 0 {
            selected - (visible - 1)
        } else {
            selected
        }
    } else {
        offset
    }
}

pub fn list_offset(selected: usize, visible: usize, offset: usize) -> (r: usize)
    ensures
        r == shown_from(selected as int, visible as int, offset as int),
{
    if selected < offset {
        selected
    } else if selected - offset >= visible {
        if visible > 0 {
            selected - (visible - 1)
        } else {
            selected
        }
    } else {
        offset
    }
}

/// The selected row is shown; a list on which it already is does not move.
pub proof fn selected_row_is_shown(selected: int, visible: int, offset: int)
    requires
        0 <= selected,
        0 <= offset,
        0 < visible,
    ensures
        ({
            let from = shown_from(selected, visible, offset);
            &&& 0 <= from <= selected < from + visible
            &&& offset <= selected < offset + visible ==> from == offset
            &&& shown_from(selected, visible, from) == from
        }),
{
}

// ---------------------------------------------------------------------------
// What the mouse does
// ---------------------------------------------------------------------------
pub open spec fn page_number(index: int) -> Page {
    if index == 0 {
        Page::Dashboard
    } else if index == 1 {
        Page::Hosts
    } else if index == 2 {
        Page::Detail
    } else if index == 3 {
        Page::Settings
    } else {
        Page::Help
    }
}

/// The tab under a column. The tabs from `index` on start at `left`, and none goes beyond
/// `edge`; a tab has a space on each side, and a divider behind it unless it is the last.
pub open spec fn tab_at(
    widths: Seq<usize>,
    index: int,
    left: int,
    edge: int,
    column: int,
) -> Option<int>
    decreases widths.len() - index,
{
    if index < 0 || index >= widths.len() {
        None
    } else {
        let wanted = left + widths[index] + if index + 1 == widths.len() {
            2int
        } else {
            3int
        };
        let right = if wanted < edge {
            wanted
        } else {
            edge
        };
        if left <= column < right {
            Some(index)
        } else {
            tab_at(widths, index + 1, right, edge, column)
        }
    }
}

pub open spec fn clicked_tab(tabs: Area, widths: Seq<usize>, mouse: Mouse) -> Option<int> {
    if mouse.row == tabs.y + 1 && tabs.x < mouse.column < tabs.right() - 1 {
        tab_at(widths, 0, tabs.x + 1, tabs.right() - 1, mouse.column as int)
    } else {
        None
    }
}

/// Rows of the page that show rules: the border and the header take three.
pub open spec fn rule_rows(content: Area) -> int {
    if content.height >= 3 {
        content.height - 3
    } else {
        0
    }
}

pub open spec fn host_rows(content: Area) -> int {
    if content.height >= 2 {
        content.height - 2
    } else {
        0
    }
}

/// A click on a row selects what it shows. The list does not move.
pub open spec fn clicked_row(m: state::AppModel, content: Area, mouse: Mouse) -> state::AppModel {
    if !content.holds_inside(mouse.column as int, mouse.row as int) {
        m
    } else if m.page == Page::Dashboard && mouse.row > content.y + 1 {
        let offset = shown_from(m.selected_rule, rule_rows(content), m.rule_offset);
        let index = offset + (mouse.row - content.y - 2);
        if index < m.rules.len() {
            state::AppModel {
                selected_rule: index,
                selected_id: Some(m.rules[index].id),
                rule_offset: offset,
                ..m
            }
        } else {
            m
        }
    } else if m.page == Page::Hosts {
        let offset = shown_from(m.selected_host, host_rows(content), m.host_offset);
        let index = offset + (mouse.row - content.y - 1);
        if index < m.hosts.len() {
            state::AppModel { selected_host: index, host_offset: offset, ..m }
        } else {
            m
        }
    } else {
        m
    }
}

/// The wheel moves the selection; the list follows it.
pub open spec fn scrolled(m: state::AppModel, content: Area, delta: int) -> state::AppModel {
    let n = state::moved(m, delta);
    if m.page == Page::Dashboard {
        state::AppModel {
            rule_offset: shown_from(n.selected_rule, rule_rows(content), n.rule_offset),
            ..n
        }
    } else if m.page == Page::Hosts {
        state::AppModel {
            host_offset: shown_from(n.selected_host, host_rows(content), n.host_offset),
            ..n
        }
    } else {
        m
    }
}

pub open spec fn mouse_step(
    m: state::AppModel,
    mouse: Mouse,
    tabs: Area,
    content: Area,
    widths: Seq<usize>,
) -> state::AppModel {
    if m.form is Some || m.confirm_delete is Some || m.import is Some {
        m
    } else {
        match mouse.kind {
            MouseKind::LeftDown => match clicked_tab(tabs, widths, mouse) {
                Some(index) => state::on_page(m, page_number(index)),
                None => clicked_row(m, content, mouse),
            },
            MouseKind::ScrollDown => if content.holds(mouse.column as int, mouse.row as int) {
                scrolled(m, content, 1)
            } else {
                m
            },
            MouseKind::ScrollUp => if content.holds(mouse.column as int, mouse.row as int) {
                scrolled(m, content, -1)
            } else {
                m
            },
            MouseKind::Other => m,
        }
    }
}

/// The mouse only turns pages and selects: rules, hosts, settings and messages stay as they are,
/// nothing is opened or closed, and every index stays in range.
pub proof fn the_mouse_only_selects(
    m: state::AppModel,
    mouse: Mouse,
    tabs: Area,
    content: Area,
    widths: Seq<usize>,
)
    requires
        state::sound(m),
        m.rule_offset >= 0,
        m.host_offset >= 0,
    ensures
        ({
            let n = mouse_step(m, mouse, tabs, content, widths);
            &&& state::sound(n)
            &&& n == (state::AppModel {
                page: n.page,
                hosts_return: n.hosts_return,
                selected_host: n.selected_host,
                selected_rule: n.selected_rule,
                selected_id: n.selected_id,
                host_offset: n.host_offset,
                rule_offset: n.rule_offset,
                ..m
            })
        }),
{
    state::selections_stay_in_range(m, m.rules, m.hosts, Page::Help, 1);
    state::selections_stay_in_range(m, m.rules, m.hosts, Page::Help, -1);
}

/// Under a form, a question or the import panel the mouse does nothing.
pub proof fn overlays_ignore_the_mouse(
    m: state::AppModel,
    mouse: Mouse,
    tabs: Area,
    content: Area,
    widths: Seq<usize>,
)
    requires
        m.form is Some || m.confirm_delete is Some || m.import is Some,
    ensures
        mouse_step(m, mouse, tabs, content, widths) == m,
{
}

/// After a turn of the wheel over a list with rows to show, the selected row is shown.
pub proof fn the_wheel_keeps_the_selection_shown(m: state::AppModel, content: Area, delta: int)
    requires
        state::sound(m),
        m.rule_offset >= 0,
        m.host_offset >= 0,
    ensures
        ({
            let n = scrolled(m, content, delta);
            &&& m.page == Page::Dashboard && rule_rows(content) > 0 ==> n.rule_offset
                <= n.selected_rule < n.rule_offset + rule_rows(content)
            &&& m.page == Page::Hosts && host_rows(content) > 0 ==> n.host_offset
                <= n.selected_host < n.host_offset + host_rows(content)
        }),
{
    state::selections_stay_in_range(m, m.rules, m.hosts, Page::Help, delta);
}

fn find_tab(widths: &Vec<usize>, left: u16, edge: u16, column: u16) -> (r: Option<usize>)
    requires
        left <= edge,
    ensures
        match r {
            Some(index) => tab_at(widths@, 0, left as int, edge as int, column as int) == Some(
                index as int,
            ),
            None => tab_at(widths@, 0, left as int, edge as int, column as int) is None,
        },
{
    let mut from: u16 = left;
    let mut i: usize = 0;
    while i < widths.len()
        invariant
            i <= widths@.len(),
            from <= edge,
            tab_at(widths@, 0, left as int, edge as int, column as int) == tab_at(
                widths@,
                i as int,
                from as int,
                edge as int,
                column as int,
            ),
        decreases widths.len() - i,
    {
        let space: usize = if i + 1 == widths.len() {
            2
        } else {
            3
        };
        let room: usize = (edge - from) as usize;
        let right: u16 = if room >= space && widths[i] < room - space {
            from + (widths[i] + space) as u16
        } else {
            edge
        };
        if from <= column && column < right {
            return Some(i);
        }
        from = right;
        i = i + 1;
    }
    None
}

/// The row of a list that stands `below` the first one shown, if the list goes that far.
fn row_index(len: usize, offset: usize, below: usize) -> (r: Option<usize>)
    ensures
        r == (if offset + below < len {
            Some((offset + below) as usize)
        } else {
            None
        }),
{
    if offset < len && below < len - offset {
        Some(offset + below)
    } else {
        None
    }
}

fn visible_rows(height: u16, taken: u16) -> (r: usize)
    ensures
        r == (if height >= taken {
            height - taken
        } else {
            0
        }),
{
    if height >= taken {
        (height - taken) as usize
    } else {
        0
    }
}

fn click_row(app: &mut App, mouse: Mouse, content: Area)
    requires
        content.fits(),
    ensures
        final(app)@ == clicked_row(old(app)@, content, mouse),
{
    let right: u16 = content.x + content.width;
    let bottom: u16 = content.y + content.height;
    if mouse.column <= content.x || right == 0 || mouse.column >= right - 1 || mouse.row
        <= content.y || bottom == 0 || mouse.row >= bottom - 1 {
        return;
    }
    if app.page == Page::Dashboard {
        if mouse.row > content.y + 1 {
            let visible: usize = visible_rows(content.height, 3);
            let offset: usize = list_offset(app.selected_rule, visible, app.rule_offset);
            let below: usize = (mouse.row - content.y - 2) as usize;
            match row_index(app.rules.len(), offset, below) {
                Some(index) => {
                    assert(app@.rules[index as int].id == app.rules@[index as int].id);
                    app.selected_rule = index;
                    app.selected_id = Some(app.rules[index].id);
                    app.rule_offset = offset;
                },
                None => {},
            }
        }
    } else if app.page == Page::Hosts {
        let visible: usize = visible_rows(content.height, 2);
        let offset: usize = list_offset(app.selected_host, visible, app.host_offset);
        let below: usize = (mouse.row - content.y - 1) as usize;
        match row_index(app.hosts.len(), offset, below) {
            Some(index) => {
                app.selected_host = index;
                app.host_offset = offset;
            },
            None => {},
        }
    }
}

fn click(app: &mut App, mouse: Mouse, tabs: Area, content: Area, widths: &Vec<usize>)
    requires
        tabs.fits(),
        content.fits(),
    ensures
        final(app)@ == (match clicked_tab(tabs, widths@, mouse) {
            Some(index) => state::on_page(old(app)@, page_number(index)),
            None => clicked_row(old(app)@, content, mouse),
        }),
{
    let right: u16 = tabs.x + tabs.width;
    if mouse.row > tabs.y && mouse.row - 1 == tabs.y && mouse.column > tabs.x && right > 0
        && mouse.column < right - 1 {
        match find_tab(widths, tabs.x + 1, right - 1, mouse.column) {
            Some(index) => {
                let page = if index == 0 {
                    Page::Dashboard
                } else if index == 1 {
                    Page::Hosts
                } else if index == 2 {
                    Page::Detail
                } else if index == 3 {
                    Page::Settings
                } else {
                    Page::Help
                };
                app.show_page(page);
                return;
            },
            None => {},
        }
    }
    click_row(app, mouse, content);
}

fn scroll(app: &mut App, content: Area, delta: isize)
    ensures
        final(app)@ == scrolled(old(app)@, content, delta as int),
{
    if app.page == Page::Dashboard {
        app.move_selection(delta);
        let visible: usize = visible_rows(content.height, 3);
        app.rule_offset = list_offset(app.selected_rule, visible, app.rule_offset);
    } else if app.page == Page::Hosts {
        app.move_selection(delta);
        let visible: usize = visible_rows(content.height, 2);
        app.host_offset = list_offset(app.selected_host, visible, app.host_offset);
    }
}

/// Takes what the mouse did, given where the tabs and the page are and how wide the titles of
/// the tabs are.
pub fn handle_mouse_in(
    app: &mut App,
    mouse: Mouse,
    tabs: Area,
    content: Area,
    widths: &Vec<usize>,
)
    requires
        state::sound(old(app)@),
        tabs.fits(),
        content.fits(),
    ensures
        final(app)@ == mouse_step(old(app)@, mouse, tabs, content, widths@),
        state::sound(final(app)@),
{
    proof {
        the_mouse_only_selects(app@, mouse, tabs, content, widths@);
    }
    if app.form.is_some() || app.confirm_delete.is_some() || app.import.is_some() {
        return;
    }
    let inside = mouse.column >= content.x && mouse.column < content.x + content.width && mouse.row
        >= content.y && mouse.row < content.y + content.height;
    match mouse.kind {
        MouseKind::LeftDown => {
            click(app, mouse, tabs, content, widths);
        },
        MouseKind::ScrollDown => {
            if inside {
                scroll(app, content, 1);
            }
        },
        MouseKind::ScrollUp => {
            if inside {
                scroll(app, content, -1);
            }
        },
        MouseKind::Other => {},
    }
}

/// The titles of the pages, in the order of the tabs.
pub open spec fn titles() -> Seq<Seq<char>> {
    seq!["ダッシュボード"@, "ホスト"@, "詳細"@, "設定"@, "ヘルプ"@]
}

pub fn tab_titles() -> (r: [&'static str; 5])
    ensures
        r@.map_values(|title: &'static str| title@) == titles(),
{
    let r = ["ダッシュボード", "ホスト", "詳細", "設定", "ヘルプ"];
    assert(r@.map_values(|title: &'static str| title@) =~= titles());
    r
}

pub open spec fn title_widths() -> Seq<usize> {
    titles().map_values(|title: Seq<char>| display_width(title))
}

/// Takes what the mouse did on a screen of this size.
pub fn handle_mouse(app: &mut App, mouse: Mouse, size: Area)
    requires
        state::sound(old(app)@),
        size.fits(),
    ensures
        final(app)@ == (if large_enough(size) {
            let (tabs, content, _) = three_rows(size, 3, 2);
            mouse_step(old(app)@, mouse, tabs, content, title_widths())
        } else {
            old(app)@
        }),
        state::sound(final(app)@),
{
    match screen_areas(size) {
        Some((tabs, content, _)) => {
            let mut widths: Vec<usize> = Vec::new();
            widths.push(columns_of("ダッシュボード"));
            widths.push(columns_of("ホスト"));
            widths.push(columns_of("詳細"));
            widths.push(columns_of("設定"));
            widths.push(columns_of("ヘルプ"));
            assert(widths@ =~= title_widths());
            handle_mouse_in(app, mouse, tabs, content, &widths);
        },
        None => {},
    }
}

/// A click on a row selects what this row shows: on the dashboard the rules start below the border
/// and the header, on the list of hosts below the border.
pub proof fn clicks_select_the_row_they_hit(
    m: state::AppModel,
    content: Area,
    mouse: Mouse,
    index: int,
)
    requires
        content.holds_inside(mouse.column as int, mouse.row as int),
    ensures
        m.page == Page::Dashboard && 0 <= index < m.rules.len() && mouse.row == content.y + 2 + (
        index - shown_from(m.selected_rule, rule_rows(content), m.rule_offset)) && mouse.row
            >= content.y + 2 ==> clicked_row(m, content, mouse).selected_rule == index
            && clicked_row(m, content, mouse).selected_id == Some(m.rules[index].id),
        m.page == Page::Dashboard && mouse.row < content.y + 2 ==> clicked_row(m, content, mouse)
            == m,
        m.page == Page::Hosts && 0 <= index < m.hosts.len() && mouse.row == content.y + 1 + (index
            - shown_from(m.selected_host, host_rows(content), m.host_offset)) ==> clicked_row(
            m,
            content,
            mouse,
        ).selected_host == index,
        m.page != Page::Dashboard && m.page != Page::Hosts ==> clicked_row(m, content, mouse) == m,
{
}

/// A click outside the page or on its border selects nothing.
pub proof fn clicks_elsewhere_select_nothing(m: state::AppModel, content: Area, mouse: Mouse)
    requires
        mouse.column <= content.x || mouse.column >= content.x + content.width - 1 || mouse.row
            <= content.y || mouse.row >= content.y + content.height - 1,
    ensures
        clicked_row(m, content, mouse) == m,
{
}

/// The wheel moves the selection by one row, down or up, if the mouse is over the page.
pub proof fn the_wheel_moves_by_one_row(
    m: state::AppModel,
    mouse: Mouse,
    tabs: Area,
    content: Area,
    widths: Seq<usize>,
)
    requires
        m.form is None,
        m.confirm_delete is None,
        m.import is None,
        m.page == Page::Dashboard || m.page == Page::Hosts,
    ensures
        ({
            let n = mouse_step(m, mouse, tabs, content, widths);
            let over = content.x <= mouse.column < content.x + content.width && content.y
                <= mouse.row < content.y + content.height;
            &&& mouse.kind == MouseKind::ScrollDown && over ==> n.selected_rule == state::moved(
                m,
                1,
            ).selected_rule && n.selected_host == state::moved(m, 1).selected_host
            &&& mouse.kind == MouseKind::ScrollUp && over ==> n.selected_rule == state::moved(
                m,
                -1,
            ).selected_rule && n.selected_host == state::moved(m, -1).selected_host
            &&& (mouse.kind == MouseKind::ScrollDown || mouse.kind == MouseKind::ScrollUp) && !over
                ==> n == m
            &&& mouse.kind == MouseKind::Other ==> n == m
        }),
{
}

/// The tabs stand for the pages in their order.
pub proof fn tabs_stand_for_pages()
    ensures
        page_number(0) == Page::Dashboard,
        page_number(1) == Page::Hosts,
        page_number(2) == Page::Detail,
        page_number(3) == Page::Settings,
        page_number(4) == Page::Help,
        titles().len() == 5,
        titles()[0] == "ダッシュボード"@,
        titles()[1] == "ホスト"@,
        titles()[2] == "詳細"@,
        titles()[3] == "設定"@,
        titles()[4] == "ヘルプ"@,
{
}

/// A tab is as wide as its title and a space on each side; all but the last have a divider behind
/// them. A column belongs to the tab that covers it.
pub proof fn columns_belong_to_tabs(
    widths: Seq<usize>,
    index: int,
    left: int,
    edge: int,
    column: int,
)
    requires
        0 <= index < widths.len(),
        left <= edge,
    ensures
        ({
            let width = widths[index] + (if index == widths.len() - 1 {
                2int
            } else {
                3int
            });
            let r = tab_at(widths, index, left, edge, column);
            &&& left <= column < left + width && column < edge ==> r == Some(index)
            &&& column >= left + width && left + width <= edge ==> r == tab_at(
                widths,
                index + 1,
                left + width,
                edge,
                column,
            )
        }),
        tab_at(widths, widths.len() as int, left, edge, column) is None,
{
}

/// Three rows of an area lie below one another and fill it.
pub proof fn rows_fill_the_area(area: Area, first: u16, last: u16)
    requires
        area.fits(),
        first + last <= area.height,
    ensures
        ({
            let (top, middle, bottom) = three_rows(area, first, last);
            &&& top.x == area.x && middle.x == area.x && bottom.x == area.x
            &&& top.width == area.width && middle.width == area.width && bottom.width == area.width
            &&& top.y == area.y && top.height == first
            &&& middle.y == top.bottom() && bottom.y == middle.bottom()
            &&& bottom.height == last && bottom.bottom() == area.bottom()
        }),
{
}

/// A box is centered within an area: it leaves at least one row and one column free on each side,
/// and as much on one side as on the other, but for one.
pub proof fn boxes_are_centered(area: Area, width: u16, height: u16)
    requires
        area.fits(),
        area.width >= 2,
        area.height >= 2,
    ensures
        ({
            let r = centered_in(area, width, height);
            let left = r.x - area.x;
            let right = area.right() - r.right();
            let above = r.y - area.y;
            let below = area.bottom() - r.bottom();
            &&& width <= area.width - 2 ==> r.width == width
            &&& width > area.width - 2 ==> r.width == area.width - 2
            &&& height <= area.height - 2 ==> r.height == height
            &&& height > area.height - 2 ==> r.height == area.height - 2
            &&& 1 <= left <= right <= left + 1
            &&& 1 <= above <= below <= above + 1
        }),
{
}

/// Nothing is shown on a screen with less than 42 columns or less than ten rows. The border and the
/// header of the rules take three rows, and the border of the hosts two. The footer leaves two rows.
pub proof fn screen_limits(size: Area, content: Area, height: u16, lines: nat)
    requires
        height >= 2,
    ensures
        large_enough(size) <==> size.width >= 42 && size.height >= 10,
        content.height >= 3 ==> rule_rows(content) == content.height - 3,
        content.height < 3 ==> rule_rows(content) == 0,
        content.height >= 2 ==> host_rows(content) == content.height - 2,
        content.height < 2 ==> host_rows(content) == 0,
        lines + 2 <= height ==> footer_rows(height, lines) == lines,
        lines + 2 > height ==> footer_rows(height, lines) == height - 2,
{
}

/// A click on a tab turns to its page. Tabs are hit within the border, in the first row below it.
pub proof fn clicks_on_tabs_turn_the_page(
    m: state::AppModel,
    mouse: Mouse,
    tabs: Area,
    content: Area,
    widths: Seq<usize>,
)
    requires
        m.form is None,
        m.confirm_delete is None,
        m.import is None,
        mouse.kind == MouseKind::LeftDown,
    ensures
        ({
            let inside = mouse.row == tabs.y + 1 && tabs.x < mouse.column < tabs.x + tabs.width - 1;
            let hit = tab_at(
                widths,
                0,
                tabs.x + 1,
                tabs.x + tabs.width - 1,
                mouse.column as int,
            );
            let n = mouse_step(m, mouse, tabs, content, widths);
            &&& inside && hit is Some ==> n == state::on_page(m, page_number(hit->0))
            &&& !inside || hit is None ==> n == clicked_row(m, content, mouse)
        }),
{
}

} // verus!
