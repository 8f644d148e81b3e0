//! The window manager: the single owner of the desktop's open windows, their
//! geometry, their stacking order and the focused window.

use vstd::prelude::*;

use crate::seq_lemmas::{lemma_filter_keeps_all, lemma_filter_removes_one};
use crate::text::{decimal, decimal_text, lemma_decimal_injective, same_text};

verus! {

broadcast use vstd::string::group_string_axioms;

/// A screen position in pixels.
#[derive(Clone, Copy, Debug, PartialEq, Eq, Structural)]
pub struct Point {
    pub x: i64,
    pub y: i64,
}

/// A width and height in pixels.
#[derive(Clone, Copy, Debug, PartialEq, Eq, Structural)]
pub struct Extent {
    pub w: u64,
    pub h: u64,
}

/// What an open window shows.
#[derive(Clone, Debug, PartialEq, Eq)]
pub enum WindowContent {
    Blog(String),
    Project(String),
    About,
    Contact,
    BlogList,
    ProjectList,
}

/// One open window.
#[derive(Clone, Debug, PartialEq, Eq)]
pub struct WindowState {
    pub id: u64,
    pub title: String,
    pub content: WindowContent,
    pub position: Point,
    pub size: Extent,
    pub is_minimized: bool,
    pub is_maximized: bool,
    pub z_index: u64,
    pub is_dragging: bool,
    pub drag_offset: Point,
}

/// What a desktop icon stands for.
#[derive(Clone, Debug, PartialEq, Eq)]
pub enum DesktopItemType {
    Folder(String),
    Document(String),
    Application(String),
    Link(String),
}

/// A static desktop icon.
#[derive(Clone, Debug, PartialEq, Eq)]
pub struct DesktopItem {
    pub id: String,
    pub name: String,
    pub icon: String,
    pub position: Point,
    pub item_type: DesktopItemType,
}

/// The whole desktop: open windows (in the order they were opened), the
/// stacking order of their ids (last is topmost), the focused window, the
/// desktop icons and the counter that the next window id is taken from.
#[derive(Clone, Debug, PartialEq, Eq)]
pub struct DesktopState {
    pub windows: Vec<WindowState>,
    pub window_order: Vec<u64>,
    pub active_window: Option<u64>,
    pub desktop_items: Vec<DesktopItem>,
    pub next_window_id: u64,
}

fn desktop_item(id: &str, name: &str, icon: &str, y: i64, item_type: DesktopItemType) -> (r:
    DesktopItem)
    ensures
        r.id@ == id@,
        r.name@ == name@,
        r.icon@ == icon@,
        r.position == (Point { x: 50, y }),
        r.item_type == item_type,
{
    DesktopItem {
        id: id.to_string(),
        name: name.to_string(),
        icon: icon.to_string(),
        position: Point { x: 50, y },
        item_type,
    }
}

/// The largest number of windows that may be open at once; it keeps the
/// cascade and stacking arithmetic of a new window well inside 64 bits.
pub const MAX_OPEN_WINDOWS: usize = 0xFFFF_FFFE;

/// The focused window that a stacking order implies: its last id, if any.
pub open spec fn top_of(order: Seq<u64>) -> Option<u64> {
    if order.len() == 0 {
        None
    } else {
        Some(order.last())
    }
}

/// The window that `open_window` creates as the `n`-th open window.
pub open spec fn opened_window(id: u64, title: String, content: WindowContent, n: nat) -> WindowState {
    WindowState {
        id,
        title,
        content,
        position: Point { x: (150 + 30 * n) as i64, y: (100 + 30 * n) as i64 },
        size: Extent { w: 600, h: 400 },
        is_minimized: false,
        is_maximized: false,
        z_index: (n + 100) as u64,
        is_dragging: false,
        drag_offset: Point { x: 0, y: 0 },
    }
}

/// `w` with its minimized flag set to `flag`.
pub open spec fn with_minimized(w: WindowState, flag: bool) -> WindowState {
    WindowState { is_minimized: flag, ..w }
}

/// `w` after its maximize button: the flag flips, and the geometry becomes
/// the fixed maximized extent or the fixed default one.
pub open spec fn toggled(w: WindowState) -> WindowState {
    if w.is_maximized {
        WindowState {
            is_maximized: false,
            position: Point { x: 150, y: 100 },
            size: Extent { w: 600, h: 400 },
            ..w
        }
    } else {
        WindowState {
            is_maximized: true,
            position: Point { x: 0, y: 0 },
            size: Extent { w: 800, h: 600 },
            ..w
        }
    }
}

/// `w` raised to the top rank for a desktop of `n` open windows.
pub open spec fn raised(w: WindowState, n: nat) -> WindowState {
    WindowState { z_index: (n + 100) as u64, ..w }
}

/// Each window of `ws` whose id is `id` replaced by `f` of it.
pub open spec fn update_window(
    ws: Seq<WindowState>,
    id: u64,
    f: spec_fn(WindowState) -> WindowState,
) -> Seq<WindowState> {
    ws.map_values(|w: WindowState| if w.id == id { f(w) } else { w })
}


/// What a click on a desktop icon led to.
#[derive(Clone, Debug, PartialEq, Eq)]
pub enum ClickAction {
    /// A window was opened, with this id.
    Opened(u64),
    /// The icon links to this address, which the caller opens in a browser.
    OpenLink(String),
    /// The icon does nothing.
    Nothing,
}

/// The window that a click on an icon of this kind opens, with its title.
pub open spec fn click_target(t: DesktopItemType) -> Option<(WindowContent, Seq<char>)> {
    match t {
        DesktopItemType::Folder(n) => {
            if n@ == "projects"@ {
                Some((WindowContent::ProjectList, "Projects"@))
            } else if n@ == "blog"@ {
                Some((WindowContent::BlogList, "Blog"@))
            } else {
                None
            }
        },
        DesktopItemType::Document(n) => {
            if n@ == "about"@ {
                Some((WindowContent::About, "About Me"@))
            } else {
                None
            }
        },
        _ => None,
    }
}

/// The label of the window with this id: `window_` and the id in decimal.
pub open spec fn label_of(id: u64) -> Seq<char> {
    "window_"@ + decimal(id as nat)
}

/// The label of the window with this id, as in `window_3`.
pub fn window_label(id: u64) -> (r: String)
    ensures
        r@ == label_of(id),
{
    let mut r = "window_".to_string();
    let digits = decimal_text(id);
    r.append(digits.as_str());
    r
}

/// Windows with different ids have different labels.
pub proof fn lemma_labels_distinct(a: u64, b: u64)
    requires
        a != b,
    ensures
        label_of(a) != label_of(b),
{
    if label_of(a) == label_of(b) {
        let p = "window_"@;
        assert(label_of(a).subrange(p.len() as int, label_of(a).len() as int) =~= decimal(a as nat));
        assert(label_of(b).subrange(p.len() as int, label_of(b).len() as int) =~= decimal(b as nat));
        lemma_decimal_injective(a as nat, b as nat);
    }
}

/// The ids of the minimized windows among `ws`, in their order.
pub open spec fn minimized_ids(ws: Seq<WindowState>) -> Seq<u64>
    decreases ws.len(),
{
    if ws.len() == 0 {
        Seq::empty()
    } else if ws.last().is_minimized {
        minimized_ids(ws.drop_last()).push(ws.last().id)
    } else {
        minimized_ids(ws.drop_last())
    }
}

/// Keeps the windows whose id is not `id`.
pub open spec fn other_window(id: u64) -> spec_fn(WindowState) -> bool {
    |w: WindowState| w.id != id
}

/// Keeps the ids other than `id`.
pub open spec fn other_id(id: u64) -> spec_fn(u64) -> bool {
    |k: u64| k != id
}

/// What `close_window(id)` makes of `pre`: the window and its id leave, the
/// focus goes to whatever is then on top, and nothing else changes.
pub open spec fn closed(pre: DesktopState, post: DesktopState, id: u64) -> bool {
    &&& post.windows@ == pre.windows@.filter(other_window(id))
    &&& post.window_order@ == pre.window_order@.filter(other_id(id))
    &&& post.active_window == top_of(post.window_order@)
    &&& post.next_window_id == pre.next_window_id
    &&& post.desktop_items == pre.desktop_items
}

/// Rewriting the window at `i`, whose id is `id`, by `f` is `update_window`
/// when the ids are unique.
proof fn lemma_update_at(
    pre: DesktopState,
    post: Seq<WindowState>,
    i: int,
    id: u64,
    f: spec_fn(WindowState) -> WindowState,
)
    requires
        pre.ids_unique(),
        0 <= i < pre.windows@.len(),
        pre.windows@[i].id == id,
        post == pre.windows@.update(i, f(pre.windows@[i])),
    ensures
        post == update_window(pre.windows@, id, f),
{
    assert forall|j: int| 0 <= j < post.len() implies post[j] == update_window(
        pre.windows@,
        id,
        f,
    )[j] by {
        if j != i {
            if j < i {
                assert(pre.windows@[j].id != pre.windows@[i].id);
            } else {
                assert(pre.windows@[i].id != pre.windows@[j].id);
            }
        }
    }
    assert(post =~= update_window(pre.windows@, id, f));
}

/// `update_window` on an id that no window has changes nothing.
proof fn lemma_update_absent(pre: DesktopState, id: u64, f: spec_fn(WindowState) -> WindowState)
    requires
        !pre.has_window(id),
    ensures
        update_window(pre.windows@, id, f) == pre.windows@,
{
    assert forall|j: int| 0 <= j < pre.windows@.len() implies update_window(pre.windows@, id, f)[j]
        == pre.windows@[j] by {
        assert(pre.windows@[j].id != id);
    }
    assert(update_window(pre.windows@, id, f) =~= pre.windows@);
}

/// Moving the id at `j` of a stacking order without duplicates to its end
/// keeps the same ids, without duplicates, and changes nothing where that id
/// was already last.
proof fn lemma_move_to_top(ord: Seq<u64>, j: int, id: u64)
    requires
        ord.no_duplicates(),
        0 <= j < ord.len(),
        ord[j] == id,
    ensures
        ord.remove(j).push(id).no_duplicates(),
        forall|k: u64| ord.remove(j).push(id).contains(k) == ord.contains(k),
        ord.last() == id ==> ord.remove(j).push(id) == ord,
{
    let res = ord.remove(j).push(id);
    let last = res.len() - 1;
    assert(res[last] == id);
    assert forall|a: int, b: int| 0 <= a < res.len() && 0 <= b < res.len() && a != b implies res[a]
        != res[b] by {
        if a != last && b != last {
            let a0 = if a < j { a } else { a + 1 };
            let b0 = if b < j { b } else { b + 1 };
            assert(ord[a0] != ord[b0]);
        } else if a == last {
            let b0 = if b < j { b } else { b + 1 };
            assert(ord[b0] != ord[j]);
        } else {
            let a0 = if a < j { a } else { a + 1 };
            assert(ord[a0] != ord[j]);
        }
    }
    assert forall|k: u64| res.contains(k) == ord.contains(k) by {
        if k == id {
            assert(res[last] == k);
        } else if res.contains(k) {
            let a = choose|a: int| 0 <= a < res.len() && res[a] == k;
            if a < j {
                assert(ord[a] == k);
            } else {
                assert(ord[a + 1] == k);
            }
        } else if ord.contains(k) {
            let a = choose|a: int| 0 <= a < ord.len() && ord[a] == k;
            if a < j {
                assert(res[a] == k);
            } else {
                assert(a != j);
                assert(res[a - 1] == k);
            }
        }
    }
    if ord.last() == id {
        assert(j == ord.len() - 1);
        assert(res =~= ord);
    }
}

/// The desktop after the id at `j` of the stacking order moved to its end
/// and took the focus is well formed, and its order is the filtered one.
proof fn lemma_top_order_wf(pre: DesktopState, post: DesktopState, j: int, id: u64)
    requires
        pre.wf(),
        0 <= j < pre.window_order@.len(),
        pre.window_order@[j] == id,
        post.windows == pre.windows,
        post.window_order@ == pre.window_order@.remove(j).push(id),
        post.active_window == Some(id),
        post.next_window_id == pre.next_window_id,
    ensures
        post.wf(),
        post.window_order@ == pre.window_order@.filter(other_id(id)).push(id),
        pre.window_order@.last() == id ==> post.window_order@ == pre.window_order@,
{
    let ord = pre.window_order@;
    let keep = other_id(id);
    assert forall|a: int| 0 <= a < ord.len() && a != j implies keep(ord[a]) by {}
    lemma_filter_removes_one(ord, j, keep);
    lemma_move_to_top(ord, j, id);
    assert forall|k: u64| post.window_order@.contains(k) <==> post.has_window(k) by {
        assert(post.window_order@.contains(k) == ord.contains(k));
        assert(post.has_window(k) == pre.has_window(k));
    }
}

/// A desktop whose windows carry the same ids, in the same places, as those
/// of a well-formed one, with the same order, focus and counter, is well formed.
proof fn lemma_same_ids_wf(pre: DesktopState, post: DesktopState)
    requires
        pre.wf(),
        post.windows@.len() == pre.windows@.len(),
        forall|j: int| 0 <= j < pre.windows@.len() ==> post.windows@[j].id == pre.windows@[j].id,
        post.window_order@ == pre.window_order@,
        post.active_window == pre.active_window,
        post.next_window_id == pre.next_window_id,
    ensures
        post.wf(),
        forall|k: u64| post.has_window(k) == pre.has_window(k),
{
    assert forall|k: u64| post.has_window(k) == pre.has_window(k) by {
        if post.has_window(k) {
            let i = choose|i: int| 0 <= i < post.windows@.len() && post.windows@[i].id == k;
            assert(pre.windows@[i].id == k);
        }
        if pre.has_window(k) {
            let i = choose|i: int| 0 <= i < pre.windows@.len() && pre.windows@[i].id == k;
            assert(post.windows@[i].id == k);
        }
    }
}

impl DesktopState {
    /// The number of open windows.
    pub open spec fn count(&self) -> nat {
        self.windows@.len()
    }

    /// Whether a window with this id is open.
    pub open spec fn has_window(&self, id: u64) -> bool {
        exists|i: int| 0 <= i < self.windows@.len() && self.windows@[i].id == id
    }

    /// No two open windows share an id.
    pub open spec fn ids_unique(&self) -> bool {
        forall|i: int, j: int|
            0 <= i < j < self.windows@.len() ==> self.windows@[i].id != self.windows@[j].id
    }

    /// The stacking order lists each open window exactly once, and nothing else.
    pub open spec fn order_matches_windows(&self) -> bool {
        &&& self.window_order@.no_duplicates()
        &&& forall|id: u64| self.window_order@.contains(id) <==> self.has_window(id)
    }

    /// Every open window's id was taken from the counter before its current value.
    pub open spec fn ids_below_counter(&self) -> bool {
        forall|i: int| 0 <= i < self.windows@.len() ==> self.windows@[i].id < self.next_window_id
    }

    /// The desktop's invariant.
    pub open spec fn wf(&self) -> bool {
        &&& self.windows@.len() <= MAX_OPEN_WINDOWS
        &&& self.ids_unique()
        &&& self.order_matches_windows()
        &&& self.ids_below_counter()
        &&& self.active_window == top_of(self.window_order@)
    }

    /// Another window can be opened: the counter and the window count have room.
    pub open spec fn has_room(&self) -> bool {
        &&& self.windows@.len() < MAX_OPEN_WINDOWS
        &&& self.next_window_id < u64::MAX
    }

    /// No window's stacking rank exceeds the rank that a newly raised window gets.
    pub open spec fn z_bounded(&self) -> bool {
        forall|i: int|
            0 <= i < self.windows@.len() ==> self.windows@[i].z_index <= self.windows@.len() + 100
    }


    /// A desktop with no windows, the five standard icons and the counter at 1.
    pub fn new() -> (r: DesktopState)
        ensures
            r.windows@.len() == 0,
            r.window_order@.len() == 0,
            r.active_window is None,
            r.wf(),
            r.next_window_id == 1,
            r.desktop_items@.len() == 5,
            r.desktop_items@[0].id@ == "projects"@ && r.desktop_items@[0].name@ == "Projects"@
                && r.desktop_items@[0].icon@ == "folder"@,
            r.desktop_items@[1].id@ == "blog"@ && r.desktop_items@[1].name@ == "Blog"@
                && r.desktop_items@[1].icon@ == "folder"@,
            r.desktop_items@[2].id@ == "about"@ && r.desktop_items@[2].name@ == "About Me"@
                && r.desktop_items@[2].icon@ == "document"@,
            r.desktop_items@[3].id@ == "github"@ && r.desktop_items@[3].name@ == "GitHub"@
                && r.desktop_items@[3].icon@ == "link"@,
            r.desktop_items@[4].id@ == "linkedin"@ && r.desktop_items@[4].name@ == "LinkedIn"@
                && r.desktop_items@[4].icon@ == "link"@,
            click_target(r.desktop_items@[0].item_type) == Some(
                (WindowContent::ProjectList, "Projects"@),
            ),
            click_target(r.desktop_items@[1].item_type) == Some((WindowContent::BlogList, "Blog"@)),
            click_target(r.desktop_items@[2].item_type) == Some((WindowContent::About, "About Me"@)),
            match r.desktop_items@[3].item_type {
                DesktopItemType::Link(url) => url@ == "https://github.com/ashesh8500"@,
                _ => false,
            },
            match r.desktop_items@[4].item_type {
                DesktopItemType::Link(url) => url@ == "https://linkedin.com/in/asheshkaji"@,
                _ => false,
            },
            forall|i: int|
                0 <= i < 5 ==> r.desktop_items@[i].position == (Point {
                    x: 50,
                    y: (50 + 100 * i) as i64,
                }),
    {
        proof {
            reveal_strlit("projects");
            reveal_strlit("blog");
            assert("blog"@.len() != "projects"@.len());
        }
        let mut items: Vec<DesktopItem> = Vec::new();
        items.push(
            desktop_item(
                "projects",
                "Projects",
                "folder",
                50,
                DesktopItemType::Folder("projects".to_string()),
            ),
        );
        items.push(
            desktop_item("blog", "Blog", "folder", 150, DesktopItemType::Folder("blog".to_string())),
        );
        items.push(
            desktop_item(
                "about",
                "About Me",
                "document",
                250,
                DesktopItemType::Document("about".to_string()),
            ),
        );
        items.push(
            desktop_item(
                "github",
                "GitHub",
                "link",
                350,
                DesktopItemType::Link("https://github.com/ashesh8500".to_string()),
            ),
        );
        items.push(
            desktop_item(
                "linkedin",
                "LinkedIn",
                "link",
                450,
                DesktopItemType::Link("https://linkedin.com/in/asheshkaji".to_string()),
            ),
        );
        DesktopState {
            windows: Vec::new(),
            window_order: Vec::new(),
            active_window: None,
            desktop_items: items,
            next_window_id: 1,
        }
    }

    /// Whether another window can be opened (see `has_room`).
    pub fn can_open(&self) -> (r: bool)
        ensures
            r == self.has_room(),
    {
        self.windows.len() < MAX_OPEN_WINDOWS && self.next_window_id < u64::MAX
    }

    /// The position of the window with this id among the open windows.
    pub fn find_window(&self, id: u64) -> (r: Option<usize>)
        ensures
            match r {
                Some(i) => i < self.windows@.len() && self.windows@[i as int].id == id,
                None => !self.has_window(id),
            },
    {
        let mut i: usize = 0;
        while i < self.windows.len()
            invariant
                i <= self.windows@.len(),
                forall|j: int| 0 <= j < i ==> self.windows@[j].id != id,
            decreases self.windows@.len() - i,
        {
            if self.windows[i].id == id {
                return Some(i);
            }
            i = i + 1;
        }
        None
    }

    /// The position of this id in the stacking order.
    fn find_in_order(&self, id: u64) -> (r: Option<usize>)
        ensures
            match r {
                Some(i) => i < self.window_order@.len() && self.window_order@[i as int] == id,
                None => !self.window_order@.contains(id),
            },
    {
        let mut i: usize = 0;
        while i < self.window_order.len()
            invariant
                i <= self.window_order@.len(),
                forall|j: int| 0 <= j < i ==> self.window_order@[j] != id,
            decreases self.window_order@.len() - i,
        {
            if self.window_order[i] == id {
                return Some(i);
            }
            i = i + 1;
        }
        None
    }

    /// The id that the stacking order puts on top.
    fn topmost(&self) -> (r: Option<u64>)
        ensures
            r == top_of(self.window_order@),
    {
        let n = self.window_order.len();
        if n == 0 {
            None
        } else {
            Some(self.window_order[n - 1])
        }
    }

    /// Opens a window on `content` and returns its id, taken from the counter.
    /// It cascades 30 pixels per window already open, starts at 600 by 400,
    /// goes on top of the stacking order and takes the focus.
    pub fn open_window(&mut self, content: WindowContent, title: String) -> (id: u64)
        requires
            old(self).wf(),
            old(self).has_room(),
        ensures
            final(self).wf(),
            id == old(self).next_window_id,
            final(self).next_window_id == old(self).next_window_id + 1,
            !old(self).has_window(id),
            final(self).windows@ == old(self).windows@.push(
                opened_window(id, title, content, old(self).count()),
            ),
            final(self).window_order@ == old(self).window_order@.push(id),
            final(self).active_window == Some(id),
            final(self).desktop_items == old(self).desktop_items,
            old(self).z_bounded() ==> final(self).z_bounded(),
            old(self).z_bounded() ==> forall|i: int|
                0 <= i < final(self).windows@.len() ==> final(self).windows@[i].z_index
                    <= final(self).windows@.last().z_index,
    {
        let n = self.windows.len();
        let id = self.next_window_id;
        let window = WindowState {
            id,
            title,
            content,
            position: Point { x: 150 + 30 * (n as i64), y: 100 + 30 * (n as i64) },
            size: Extent { w: 600, h: 400 },
            is_minimized: false,
            is_maximized: false,
            z_index: n as u64 + 100,
            is_dragging: false,
            drag_offset: Point { x: 0, y: 0 },
        };
        let ghost pre = *self;
        self.windows.push(window);
        self.window_order.push(id);
        self.active_window = Some(id);
        self.next_window_id = id + 1;
        proof {
            assert(self.windows@[n as int] == window);
            assert forall|k: u64| self.window_order@.contains(k) <==> self.has_window(k) by {
                if self.window_order@.contains(k) {
                    let j = choose|j: int| 0 <= j < self.window_order@.len()
                        && self.window_order@[j] == k;
                    if j < pre.window_order@.len() {
                        assert(pre.window_order@[j] == k);
                        assert(pre.window_order@.contains(k));
                        assert(pre.has_window(k));
                        let i = choose|i: int| 0 <= i < pre.windows@.len() && pre.windows@[i].id == k;
                        assert(self.windows@[i].id == k);
                    } else {
                        assert(self.windows@[n as int].id == k);
                    }
                }
                if self.has_window(k) {
                    let i = choose|i: int| 0 <= i < self.windows@.len() && self.windows@[i].id == k;
                    if i < n {
                        assert(pre.windows@[i].id == k);
                        assert(pre.has_window(k));
                        assert(pre.window_order@.contains(k));
                        let j = choose|j: int| 0 <= j < pre.window_order@.len()
                            && pre.window_order@[j] == k;
                        assert(self.window_order@[j] == k);
                    } else {
                        assert(self.window_order@[pre.window_order@.len() as int] == k);
                    }
                }
            }
            if pre.window_order@.contains(id) {
                assert(pre.has_window(id));
                let i = choose|i: int| 0 <= i < pre.windows@.len() && pre.windows@[i].id == id;
                assert(pre.windows@[i].id < pre.next_window_id);
            }
            assert(!pre.window_order@.contains(id));
        }
        id
    }

    /// Closes the window with this id, if it is open, and hands the focus to
    /// whatever is then on top of the stacking order.
    pub fn close_window(&mut self, id: u64)
        requires
            old(self).wf(),
        ensures
            final(self).wf(),
            closed(*old(self), *final(self), id),
            !final(self).has_window(id),
    {
        let ghost pre = *self;
        let ghost keep_w = other_window(id);
        let ghost keep_k = other_id(id);
        match self.find_window(id) {
            Some(i) => {
                self.windows.remove(i);
                proof {
                    lemma_filter_removes_one(pre.windows@, i as int, keep_w);
                }
            },
            None => {
                proof {
                    lemma_filter_keeps_all(pre.windows@, keep_w);
                }
            },
        }
        match self.find_in_order(id) {
            Some(j) => {
                self.window_order.remove(j);
                proof {
                    assert forall|a: int| 0 <= a < pre.window_order@.len() && a != j implies keep_k(
                        pre.window_order@[a],
                    ) by {}
                    lemma_filter_removes_one(pre.window_order@, j as int, keep_k);
                }
            },
            None => {
                proof {
                    lemma_filter_keeps_all(pre.window_order@, keep_k);
                }
            },
        }
        self.active_window = self.topmost();
        proof {
            assert(self.windows@ == pre.windows@.filter(keep_w));
            assert forall|k: u64| self.window_order@.contains(k) <==> self.has_window(k) by {
                if self.window_order@.contains(k) {
                    let j = choose|j: int| 0 <= j < self.window_order@.len()
                        && self.window_order@[j] == k;
                    assert(self.window_order@[j] == pre.window_order@.filter(keep_k)[j]);
                    pre.window_order@.lemma_filter_pred(keep_k, j);
                    pre.window_order@.lemma_filter_contains_rev(keep_k, k);
                    assert(pre.has_window(k));
                    let i = choose|i: int| 0 <= i < pre.windows@.len() && pre.windows@[i].id == k;
                    pre.windows@.lemma_filter_contains(keep_w, i);
                    let i2 = choose|i2: int| 0 <= i2 < self.windows@.len() && self.windows@[i2] == pre.windows@[i];
                    assert(self.windows@[i2].id == k);
                }
                if self.has_window(k) {
                    let i = choose|i: int| 0 <= i < self.windows@.len() && self.windows@[i].id == k;
                    pre.windows@.lemma_filter_pred(keep_w, i);
                    pre.windows@.lemma_filter_contains_rev(keep_w, self.windows@[i]);
                    let i0 = choose|i0: int| 0 <= i0 < pre.windows@.len() && pre.windows@[i0] == self.windows@[i];
                    assert(pre.has_window(k));
                    assert(pre.window_order@.contains(k));
                    let j = choose|j: int| 0 <= j < pre.window_order@.len() && pre.window_order@[j] == k;
                    pre.window_order@.lemma_filter_contains(keep_k, j);
                }
            }
        }
    }

    /// Minimizes the window with this id, if it is open; stacking order and
    /// focus stay as they are.
    pub fn minimize_window(&mut self, id: u64)
        requires
            old(self).wf(),
        ensures
            final(self).wf(),
            final(self).windows@ == update_window(
                old(self).windows@,
                id,
                |w: WindowState| with_minimized(w, true),
            ),
            final(self).window_order@ == old(self).window_order@,
            final(self).active_window == old(self).active_window,
            final(self).next_window_id == old(self).next_window_id,
            final(self).desktop_items == old(self).desktop_items,
    {
        self.set_minimized(id, true);
    }

    /// Brings the window with this id back from the taskbar, if it is open;
    /// stacking order and focus stay as they are.
    pub fn restore_window(&mut self, id: u64)
        requires
            old(self).wf(),
        ensures
            final(self).wf(),
            final(self).windows@ == update_window(
                old(self).windows@,
                id,
                |w: WindowState| with_minimized(w, false),
            ),
            final(self).window_order@ == old(self).window_order@,
            final(self).active_window == old(self).active_window,
            final(self).next_window_id == old(self).next_window_id,
            final(self).desktop_items == old(self).desktop_items,
    {
        self.set_minimized(id, false);
    }

    fn set_minimized(&mut self, id: u64, flag: bool)
        requires
            old(self).wf(),
        ensures
            final(self).wf(),
            final(self).windows@ == update_window(
                old(self).windows@,
                id,
                |w: WindowState| with_minimized(w, flag),
            ),
            final(self).window_order@ == old(self).window_order@,
            final(self).active_window == old(self).active_window,
            final(self).next_window_id == old(self).next_window_id,
            final(self).desktop_items == old(self).desktop_items,
    {
        let ghost pre = *self;
        let ghost f = |w: WindowState| with_minimized(w, flag);
        match self.find_window(id) {
            Some(i) => {
                self.windows[i].is_minimized = flag;
                proof {
                    assert(self.windows@ =~= pre.windows@.update(i as int, f(pre.windows@[i as int])));
                    lemma_update_at(pre, self.windows@, i as int, id, f);
                }
            },
            None => {
                proof {
                    lemma_update_absent(pre, id, f);
                }
            },
        }
        proof {
            lemma_same_ids_wf(pre, *self);
        }
    }

    /// Flips the maximized flag of the window with this id, if it is open.
    /// Maximizing puts it at (0, 0) with 800 by 600; un-maximizing puts it at
    /// the fixed (150, 100) with 600 by 400, not where it was before.
    pub fn toggle_maximize(&mut self, id: u64)
        requires
            old(self).wf(),
        ensures
            final(self).wf(),
            final(self).windows@ == update_window(old(self).windows@, id, |w: WindowState| toggled(w)),
            final(self).window_order@ == old(self).window_order@,
            final(self).active_window == old(self).active_window,
            final(self).next_window_id == old(self).next_window_id,
            final(self).desktop_items == old(self).desktop_items,
    {
        let ghost pre = *self;
        let ghost f = |w: WindowState| toggled(w);
        match self.find_window(id) {
            Some(i) => {
                if self.windows[i].is_maximized {
                    self.windows[i].is_maximized = false;
                    self.windows[i].position = Point { x: 150, y: 100 };
                    self.windows[i].size = Extent { w: 600, h: 400 };
                } else {
                    self.windows[i].is_maximized = true;
                    self.windows[i].position = Point { x: 0, y: 0 };
                    self.windows[i].size = Extent { w: 800, h: 600 };
                }
                proof {
                    assert(self.windows@ =~= pre.windows@.update(i as int, f(pre.windows@[i as int])));
                    lemma_update_at(pre, self.windows@, i as int, id, f);
                }
            },
            None => {
                proof {
                    lemma_update_absent(pre, id, f);
                }
            },
        }
        proof {
            lemma_same_ids_wf(pre, *self);
        }
    }

    /// Raises the window with this id, if it is open: it gets the top rank
    /// (the number of open windows plus 100), moves to the end of the stacking
    /// order and takes the focus.
    pub fn focus_window(&mut self, id: u64)
        requires
            old(self).wf(),
        ensures
            final(self).wf(),
            old(self).has_window(id) ==> {
                &&& final(self).windows@ == update_window(
                    old(self).windows@,
                    id,
                    |w: WindowState| raised(w, old(self).count()),
                )
                &&& final(self).window_order@ == old(self).window_order@.filter(other_id(id)).push(id)
                &&& final(self).active_window == Some(id)
            },
            !old(self).has_window(id) ==> {
                &&& final(self).windows@ == old(self).windows@
                &&& final(self).window_order@ == old(self).window_order@
                &&& final(self).active_window == old(self).active_window
            },
            old(self).window_order@.len() > 0 && old(self).window_order@.last() == id
                ==> final(self).window_order@ == old(self).window_order@,
            old(self).z_bounded() ==> final(self).z_bounded(),
            final(self).next_window_id == old(self).next_window_id,
            final(self).desktop_items == old(self).desktop_items,
    {
        let ghost pre = *self;
        if self.find_window(id).is_some() {
            self.raise(id);
            self.move_to_top(id);
            proof {
                if pre.z_bounded() {
                    assert forall|a: int| 0 <= a < self.windows@.len() implies self.windows@[a].z_index
                        <= self.windows@.len() + 100 by {
                        assert(pre.windows@[a].z_index <= pre.windows@.len() + 100);
                    }
                }
            }
        } else {
            proof {
                lemma_update_absent(pre, id, |w: WindowState| raised(w, pre.count()));
            }
        }
    }

    /// Gives the window with this id the top rank.
    fn raise(&mut self, id: u64)
        requires
            old(self).wf(),
        ensures
            final(self).wf(),
            final(self).windows@ == update_window(
                old(self).windows@,
                id,
                |w: WindowState| raised(w, old(self).count()),
            ),
            forall|k: u64| final(self).has_window(k) == old(self).has_window(k),
            final(self).window_order@ == old(self).window_order@,
            final(self).active_window == old(self).active_window,
            final(self).next_window_id == old(self).next_window_id,
            final(self).desktop_items == old(self).desktop_items,
    {
        let ghost pre = *self;
        let ghost f = |w: WindowState| raised(w, pre.count());
        let n = self.windows.len();
        match self.find_window(id) {
            Some(i) => {
                self.windows[i].z_index = n as u64 + 100;
                proof {
                    assert(self.windows@ =~= pre.windows@.update(i as int, f(pre.windows@[i as int])));
                    lemma_update_at(pre, self.windows@, i as int, id, f);
                }
            },
            None => {
                proof {
                    lemma_update_absent(pre, id, f);
                }
            },
        }
        proof {
            lemma_same_ids_wf(pre, *self);
        }
    }

    /// Moves this id, of an open window, to the top of the stacking order and
    /// gives its window the focus.
    fn move_to_top(&mut self, id: u64)
        requires
            old(self).wf(),
            old(self).has_window(id),
        ensures
            final(self).wf(),
            final(self).window_order@ == old(self).window_order@.filter(other_id(id)).push(id),
            old(self).window_order@.last() == id ==> final(self).window_order@
                == old(self).window_order@,
            final(self).active_window == Some(id),
            final(self).windows == old(self).windows,
            final(self).next_window_id == old(self).next_window_id,
            final(self).desktop_items == old(self).desktop_items,
    {
        let ghost pre = *self;
        let ghost keep = other_id(id);
        proof {
            assert(pre.window_order@.contains(id));
        }
        match self.find_in_order(id) {
            Some(j) => {
                self.window_order.remove(j);
                self.window_order.push(id);
                self.active_window = Some(id);
                proof {
                    lemma_top_order_wf(pre, *self, j as int, id);
                }
            },
            None => {},
        }
    }

    /// The open window with this id.
    pub fn get_window(&self, id: u64) -> (r: Option<&WindowState>)
        ensures
            match r {
                Some(w) => self.windows@.contains(*w) && w.id == id,
                None => !self.has_window(id),
            },
    {
        match self.find_window(id) {
            Some(i) => Some(&self.windows[i]),
            None => None,
        }
    }

    /// The taskbar: the ids of the minimized windows, in the order they were opened.
    pub fn minimized_windows(&self) -> (r: Vec<u64>)
        ensures
            r@ == minimized_ids(self.windows@),
    {
        let mut r: Vec<u64> = Vec::new();
        let mut i: usize = 0;
        while i < self.windows.len()
            invariant
                i <= self.windows@.len(),
                r@ == minimized_ids(self.windows@.subrange(0, i as int)),
            decreases self.windows@.len() - i,
        {
            proof {
                assert(self.windows@.subrange(0, i + 1).drop_last() =~= self.windows@.subrange(
                    0,
                    i as int,
                ));
            }
            if self.windows[i].is_minimized {
                r.push(self.windows[i].id);
            }
            i = i + 1;
        }
        proof {
            assert(self.windows@.subrange(0, self.windows@.len() as int) =~= self.windows@);
        }
        r
    }

    /// Acts on a click on a desktop icon: the projects and blog folders and
    /// the about document open their window; a link is handed back to be
    /// opened outside; anything else does nothing.
    pub fn handle_desktop_item_click(&mut self, item: &DesktopItem) -> (r: ClickAction)
        requires
            old(self).wf(),
            click_target(item.item_type) is Some ==> old(self).has_room(),
        ensures
            final(self).wf(),
            final(self).desktop_items == old(self).desktop_items,
            match click_target(item.item_type) {
                Some((content, title)) => {
                    &&& r == ClickAction::Opened(old(self).next_window_id)
                    &&& final(self).windows@.len() == old(self).windows@.len() + 1
                    &&& final(self).windows@.last().title@ == title
                    &&& final(self).windows@ == old(self).windows@.push(
                        opened_window(
                            old(self).next_window_id,
                            final(self).windows@.last().title,
                            content,
                            old(self).count(),
                        ),
                    )
                    &&& final(self).window_order@ == old(self).window_order@.push(
                        old(self).next_window_id,
                    )
                    &&& final(self).active_window == Some(old(self).next_window_id)
                    &&& final(self).next_window_id == old(self).next_window_id + 1
                },
                None => {
                    &&& final(self).windows@ == old(self).windows@
                    &&& final(self).window_order@ == old(self).window_order@
                    &&& final(self).active_window == old(self).active_window
                    &&& final(self).next_window_id == old(self).next_window_id
                    &&& match item.item_type {
                        DesktopItemType::Link(url) => r is OpenLink && r->OpenLink_0@ == url@,
                        _ => r is Nothing,
                    }
                },
            },
    {
        proof {
            reveal_strlit("projects");
            reveal_strlit("blog");
            reveal_strlit("about");
            reveal_strlit("Projects");
            reveal_strlit("Blog");
            reveal_strlit("About Me");
        }
        match &item.item_type {
            DesktopItemType::Folder(name) => {
                if same_text(name.as_str(), "projects") {
                    let id = self.open_window(WindowContent::ProjectList, "Projects".to_string());
                    ClickAction::Opened(id)
                } else if same_text(name.as_str(), "blog") {
                    let id = self.open_window(WindowContent::BlogList, "Blog".to_string());
                    ClickAction::Opened(id)
                } else {
                    ClickAction::Nothing
                }
            },
            DesktopItemType::Document(name) => {
                if same_text(name.as_str(), "about") {
                    let id = self.open_window(WindowContent::About, "About Me".to_string());
                    ClickAction::Opened(id)
                } else {
                    ClickAction::Nothing
                }
            },
            DesktopItemType::Link(url) => ClickAction::OpenLink(url.clone()),
            DesktopItemType::Application(_) => ClickAction::Nothing,
        }
    }
}

/// Along any run of the manager's operations, none of which moves the counter
/// back, a window opened at step `i` has a smaller id than any window opened
/// at a later step `j`: ids are never handed out twice, even after closes.
pub proof fn lemma_open_ids_increase(trace: Seq<DesktopState>, i: int, j: int)
    requires
        forall|t: int|
            0 <= t < trace.len() - 1 ==> #[trigger] trace[t].next_window_id <= trace[t
                + 1].next_window_id,
        0 <= i < j < trace.len(),
        trace[i + 1].next_window_id == trace[i].next_window_id + 1,
    ensures
        trace[i].next_window_id < trace[j].next_window_id,
    decreases j - i,
{
    if j > i + 1 {
        lemma_open_ids_increase(trace, i, j - 1);
    }
}

/// Along any run of the manager's operations, none of which moves the counter
/// back, two different steps that each opened a window handed out different ids.
pub proof fn lemma_open_ids_distinct(trace: Seq<DesktopState>, i: int, j: int)
    requires
        forall|t: int|
            0 <= t < trace.len() - 1 ==> #[trigger] trace[t].next_window_id <= trace[t
                + 1].next_window_id,
        0 <= i < trace.len() - 1,
        0 <= j < trace.len() - 1,
        i != j,
        trace[i + 1].next_window_id == trace[i].next_window_id + 1,
        trace[j + 1].next_window_id == trace[j].next_window_id + 1,
    ensures
        trace[i].next_window_id != trace[j].next_window_id,
{
    if i < j {
        lemma_open_ids_increase(trace, i, j);
    } else {
        lemma_open_ids_increase(trace, j, i);
    }
}

/// Closing the same window twice: the second close changes nothing.
pub proof fn lemma_close_is_idempotent(
    s0: DesktopState,
    s1: DesktopState,
    s2: DesktopState,
    id: u64,
)
    requires
        closed(s0, s1, id),
        closed(s1, s2, id),
    ensures
        s2.windows@ == s1.windows@,
        s2.window_order@ == s1.window_order@,
        s2.active_window == s1.active_window,
        s2.next_window_id == s1.next_window_id,
        s2.desktop_items == s1.desktop_items,
{
    let keep_w = other_window(id);
    let keep_k = other_id(id);
    assert forall|a: int| 0 <= a < s1.windows@.len() implies keep_w(s1.windows@[a]) by {
        s0.windows@.lemma_filter_pred(keep_w, a);
    }
    assert forall|a: int| 0 <= a < s1.window_order@.len() implies keep_k(s1.window_order@[a]) by {
        s0.window_order@.lemma_filter_pred(keep_k, a);
    }
    lemma_filter_keeps_all(s1.windows@, keep_w);
    lemma_filter_keeps_all(s1.window_order@, keep_k);
}

} // verus!
