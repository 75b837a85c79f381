//! The row of tabs above each panel: its height, the width of each tab, and
//! what a click on it does.
use vstd::prelude::*;

verus! {

/// What a click on the tab bar asks for.
#[derive(PartialEq, Eq, Structural, Clone, Copy, Debug)]
pub enum TabBarAction {
    NoAction,
    SwitchTo(usize),
    Close(usize),
    New,
}

/// A tab bar; its height follows the cell height of the font.
#[derive(Clone, Copy, Debug)]
pub struct TabBar {
    pub height: i32,
}

/// Widest a tab is drawn.
pub const MAX_TAB_WIDTH: i32 = 280;

/// Narrowest a tab is drawn.
pub const MIN_TAB_WIDTH: i32 = 80;

/// Rust's `/` on integers: the quotient rounded toward zero.
pub open spec fn trunc_div(a: int, b: int) -> int {
    if a >= 0 {
        a / b
    } else {
        -((-a) / b)
    }
}

/// Width of one tab when `tab_count` tabs share `bar_width` pixels of a
/// bar of the given height: the width left beside the new-tab button,
/// divided among the tabs, kept between 80 and 280.
pub open spec fn tab_width_spec(height: int, tab_count: int, bar_width: int) -> int {
    let available = bar_width - (height + 8);
    let per_tab = if tab_count > 0 {
        trunc_div(available, tab_count)
    } else {
        available
    };
    let capped = if per_tab < MAX_TAB_WIDTH {
        per_tab
    } else {
        MAX_TAB_WIDTH as int
    };
    if capped > MIN_TAB_WIDTH {
        capped
    } else {
        MIN_TAB_WIDTH as int
    }
}

/// The action of a click at `local_mx` pixels from the left of a bar with
/// `tab_count` tabs: the new-tab button right after the last tab, the
/// close button at the right end of each tab, otherwise the tab itself.
pub open spec fn click_spec(height: int, local_mx: int, bar_width: int, tab_count: int) -> TabBarAction {
    let tab_w = tab_width_spec(height, tab_count, bar_width);
    let new_btn_x = tab_count * tab_w;
    if local_mx >= new_btn_x && local_mx < new_btn_x + height {
        TabBarAction::New
    } else {
        let q = trunc_div(local_mx, tab_w);
        // A negative quotient wraps to a huge index, which is past the last tab.
        if q < 0 || q >= tab_count {
            TabBarAction::NoAction
        } else if local_mx >= (q + 1) * tab_w - height {
            TabBarAction::Close(q as usize)
        } else {
            TabBarAction::SwitchTo(q as usize)
        }
    }
}

/// Quotient rounded toward zero, for a positive divisor.
pub fn div_toward_zero(a: i64, b: i64) -> (r: i64)
    requires
        b > 0,
    ensures
        r == trunc_div(a as int, b as int),
{
    if a >= 0 {
        a / b
    } else {
        let na: u64 = if a == i64::MIN {
            9223372036854775808u64
        } else {
            (-a) as u64
        };
        assert(na as int == -(a as int));
        let q: u64 = na / (b as u64);
        assert(q <= 9223372036854775808u64) by (nonlinear_arith)
            requires
                na <= 9223372036854775808u64,
                b > 0,
                q == na / (b as u64),
        ;
        let r: i128 = 0i128 - (q as i128);
        r as i64
    }
}

impl TabBar {
    /// A tab bar for the given cell height.
    pub fn new(cell_height: i32) -> (r: Self)
        requires
            cell_height <= i32::MAX - 14,
        ensures
            r.height == cell_height + 14,
    {
        TabBar { height: cell_height + 14 }
    }

    /// Follows a change of the cell height.
    pub fn update_height(&mut self, cell_height: i32)
        requires
            cell_height <= i32::MAX - 14,
        ensures
            final(self).height == cell_height + 14,
    {
        self.height = cell_height + 14;
    }

    /// The bar's arithmetic stays within `i32` for this click.
    pub open spec fn click_fits(&self, local_mx: i32, bar_width: i32, tab_count: usize) -> bool {
        let h = self.height as int;
        let tab_w = tab_width_spec(h, tab_count as int, bar_width as int);
        &&& i32::MIN <= h + 8 <= i32::MAX
        &&& i32::MIN <= bar_width - (h + 8) <= i32::MAX
        &&& tab_count <= i32::MAX
        &&& i32::MIN <= tab_count * tab_w <= i32::MAX
        &&& i32::MIN <= tab_count * tab_w + h <= i32::MAX
        &&& i32::MIN <= tab_w - h
        &&& tab_count * tab_w - h <= i32::MAX
    }

    /// Width of each tab, as the bar lays them out.
    pub fn tab_width(&self, tab_count: usize, bar_width: i32) -> (r: i32)
        requires
            i32::MIN <= self.height + 8 <= i32::MAX,
            i32::MIN <= bar_width - (self.height + 8) <= i32::MAX,
            tab_count > 0 ==> tab_count <= i32::MAX,
        ensures
            r == tab_width_spec(self.height as int, tab_count as int, bar_width as int),
            MIN_TAB_WIDTH <= r <= MAX_TAB_WIDTH,
    {
        let btn_zone = self.height + 8;
        let available = bar_width - btn_zone;
        let per_tab: i64 = if tab_count > 0 {
            div_toward_zero(available as i64, tab_count as i64)
        } else {
            available as i64
        };
        let capped = if per_tab < MAX_TAB_WIDTH as i64 {
            per_tab
        } else {
            MAX_TAB_WIDTH as i64
        };
        let r = if capped > MIN_TAB_WIDTH as i64 {
            capped
        } else {
            MIN_TAB_WIDTH as i64
        };
        r as i32
    }

    /// What a click at `local_mx` (relative to the bar's left edge) does.
    pub fn handle_click(&self, local_mx: i32, _local_my: i32, bar_width: i32, tab_count: usize) -> (r:
        TabBarAction)
        requires
            self.click_fits(local_mx, bar_width, tab_count),
        ensures
            r == click_spec(self.height as int, local_mx as int, bar_width as int, tab_count as int),
    {
        let tab_w = self.tab_width(tab_count, bar_width);
        let new_btn_x = (tab_count as i32) * tab_w;
        if local_mx >= new_btn_x && local_mx < new_btn_x + self.height {
            return TabBarAction::New;
        }
        let q = div_toward_zero(local_mx as i64, tab_w as i64);
        if q < 0 || q >= tab_count as i64 {
            return TabBarAction::NoAction;
        }
        let tab_idx = q as i32;
        proof {
            let n = tab_count as int;
            let w = tab_w as int;
            let qq = q as int;
            assert(w <= (qq + 1) * w <= n * w) by (nonlinear_arith)
                requires
                    0 <= qq < n,
                    w >= 0,
            ;
        }
        let close_x = (tab_idx + 1) * tab_w - self.height;
        if local_mx >= close_x {
            return TabBarAction::Close(q as usize);
        }
        TabBarAction::SwitchTo(q as usize)
    }
}


/// How many characters of a title fit in a tab of width `tab_w`: the width
/// less the close button and the margin, divided by about half the label's
/// font size, at least one.
pub open spec fn label_capacity(tab_w: int, height: int, label_size: int) -> int {
    let q = trunc_div(tab_w - height - 14, label_size / 2 + 1);
    if q > 1 {
        q
    } else {
        1
    }
}

/// The label of a tab: the title, or, when its UTF-8 length is above the
/// capacity, its first bytes up to three less than the capacity followed
/// by `"..."`.
pub open spec fn tab_label_spec(title: Seq<char>, capacity: nat) -> Seq<char> {
    if crate::text::utf8_len(title) > capacity {
        crate::text::byte_prefix(title, if capacity >= 3 { (capacity - 3) as nat } else { 0 }) + "..."@
    } else {
        title
    }
}

/// The label of a tab of width `tab_w`, as [`tab_label_spec`] with
/// [`label_capacity`].
pub fn tab_label(title: &str, tab_w: i32, height: i32, label_size: i32) -> (r: String)
    requires
        label_size >= 0,
        i32::MIN <= tab_w - height - 14 <= i32::MAX,
        crate::text::utf8_len(title@) > label_capacity(tab_w as int, height as int, label_size as int)
            ==> crate::text::is_byte_boundary(
            title@,
            if label_capacity(tab_w as int, height as int, label_size as int) >= 3 {
                (label_capacity(tab_w as int, height as int, label_size as int) - 3) as nat
            } else {
                0
            },
        ),
    ensures
        r@ == tab_label_spec(
            title@,
            label_capacity(tab_w as int, height as int, label_size as int) as nat,
        ),
{
    let q = div_toward_zero((tab_w as i64) - (height as i64) - 14, (label_size / 2 + 1) as i64);
    assert(-2147483648 <= q <= 2147483647) by (nonlinear_arith)
        requires
            q == trunc_div((tab_w - height - 14) as int, (label_size / 2 + 1) as int),
            i32::MIN <= tab_w - height - 14 <= i32::MAX,
            label_size / 2 + 1 >= 1,
    {
    }
    let cap: u64 = if q > 1 {
        q as u64
    } else {
        1
    };
    let n = crate::text::utf8_len_sat(title);
    if n > cap {
        let cut: u64 = if cap >= 3 {
            cap - 3
        } else {
            0
        };
        let v = crate::text::chars_of(title);
        let k = match crate::text::chars_before_byte(&v, cut) {
            Some(k) => k,
            None => {
                proof {
                    assert(false);
                }
                0
            },
        };
        let mut s = crate::text::string_of(&crate::text::chars_range(&v, 0, k));
        s.push_str("...");
        s
    } else {
        title.to_owned()
    }
}

/// A rectangle as x, y, width and height, in pixels.
pub type Rect64 = (i64, i64, i64, i64);

/// How one tab is drawn: where it starts, whether it is the active one, its
/// label, where the label and the close button's `x` go and their colors,
/// and the thin line that ends an inactive tab.
pub struct TabDraw {
    pub x: i64,
    pub active: bool,
    pub label: String,
    pub label_pos: (i64, i64),
    pub text_color: crate::status_bar::Rgba,
    pub close_pos: (i64, i64),
    pub close_color: crate::status_bar::Rgba,
    pub divider: Option<Rect64>,
}

/// The plain content of a [`TabDraw`].
pub struct TabDrawView {
    pub x: int,
    pub active: bool,
    pub label: Seq<char>,
    pub label_pos: (int, int),
    pub text_color: crate::status_bar::Rgba,
    pub close_pos: (int, int),
    pub close_color: crate::status_bar::Rgba,
    pub divider: Option<(int, int, int, int)>,
}

impl View for TabDraw {
    type V = TabDrawView;

    open spec fn view(&self) -> TabDrawView {
        TabDrawView {
            x: self.x as int,
            active: self.active,
            label: self.label@,
            label_pos: (self.label_pos.0 as int, self.label_pos.1 as int),
            text_color: self.text_color,
            close_pos: (self.close_pos.0 as int, self.close_pos.1 as int),
            close_color: self.close_color,
            divider: match self.divider {
                Some(d) => Some((d.0 as int, d.1 as int, d.2 as int, d.3 as int)),
                None => None,
            },
        }
    }
}

/// How the tab bar is drawn: the width of each tab, the label font size,
/// the top and height of the tabs, the tabs, the pieces of the bottom
/// border beside the active tab, and where the `+` of the new-tab button
/// goes.
pub struct TabBarLayout {
    pub tab_w: i32,
    pub label_size: i32,
    pub tab_y: i64,
    pub tab_h: i64,
    pub tabs: Vec<TabDraw>,
    pub borders: Vec<Rect64>,
    pub plus_pos: (i64, i64),
}

/// Font size of the labels: two less than the terminal's, at least 8.
pub open spec fn label_size_spec(font_size: int) -> int {
    if font_size - 2 > 8 {
        font_size - 2
    } else {
        8
    }
}

/// Views of the tabs' drawings.
pub open spec fn tab_draws_view(v: Seq<TabDraw>) -> Seq<TabDrawView> {
    v.map_values(|t: TabDraw| t@)
}

/// How tab `i` with the given title is drawn, in a bar of the given
/// height whose tabs start at `tabs_x` and `tab_y`.
pub open spec fn tab_draw_spec(
    height: int,
    tab_w: int,
    label_size: int,
    tabs_x: int,
    tab_y: int,
    tab_h: int,
    i: int,
    active: int,
    title: Seq<char>,
) -> TabDrawView {
    let x = tabs_x + i * tab_w;
    let text_y = tab_y + trunc_div(tab_h - label_size, 2);
    let is_active = i == active;
    TabDrawView {
        x,
        active: is_active,
        label: tab_label_spec(title, label_capacity(tab_w, height, label_size) as nat),
        label_pos: (x + 14, text_y),
        text_color: if is_active {
            (220, 225, 240, 255)
        } else {
            (130, 135, 150, 255)
        },
        close_pos: (x + tab_w - height + 4, text_y),
        close_color: if is_active {
            (160, 160, 170, 180)
        } else {
            (100, 100, 110, 120)
        },
        divider: if is_active {
            None
        } else {
            Some((x + tab_w - 1, tab_y + 4, 1, tab_h - 8))
        },
    }
}

/// The pieces of the bottom border at `bottom_y`: from the bar's left edge
/// to the active tab, and from the active tab's end to the bar's end, each
/// when it is not empty.
pub open spec fn borders_spec(offset_x: int, bar_end: int, active_x: int, active_end: int, bottom_y: int) -> Seq<
    (int, int, int, int),
> {
    (if active_x > offset_x {
        seq![(offset_x, bottom_y, active_x - offset_x, 1int)]
    } else {
        Seq::empty()
    }) + (if active_end < bar_end {
        seq![(active_end, bottom_y, bar_end - active_end, 1int)]
    } else {
        Seq::empty()
    })
}

/// A rectangle with integer coordinates.
pub open spec fn rect_view(r: Rect64) -> (int, int, int, int) {
    (r.0 as int, r.1 as int, r.2 as int, r.3 as int)
}

/// Views of rectangles.
pub open spec fn rects_view(v: Seq<Rect64>) -> Seq<(int, int, int, int)> {
    v.map_values(|r: Rect64| rect_view(r))
}

impl TabBar {
    /// The arithmetic of the bar's layout stays within `i32` where the
    /// drawing code does it in `i32`.
    pub open spec fn layout_fits(&self, titles: Seq<Seq<char>>, font_size: int, bar_width: int) -> bool {
        let h = self.height as int;
        let tab_w = tab_width_spec(h, titles.len() as int, bar_width - 4);
        let label_size = label_size_spec(font_size);
        &&& i32::MIN <= bar_width - 4
        &&& i32::MIN <= font_size - 2
        &&& i32::MIN <= h + 8 <= i32::MAX
        &&& i32::MIN <= bar_width - 4 - (h + 8) <= i32::MAX
        &&& titles.len() <= i32::MAX
        &&& i32::MIN <= tab_w - h - 14 <= i32::MAX
        &&& forall|i: int|
            0 <= i < titles.len() && crate::text::utf8_len(#[trigger] titles[i]) > label_capacity(
                tab_w,
                h,
                label_size,
            ) ==> crate::text::is_byte_boundary(
                titles[i],
                if label_capacity(tab_w, h, label_size) >= 3 {
                    (label_capacity(tab_w, h, label_size) - 3) as nat
                } else {
                    0
                },
            )
    }

    /// Whether [`TabBar::layout`] can be asked for these titles, as
    /// [`TabBar::layout_fits`] says.
    pub fn layout_fits_exec(&self, titles: &[String], font_size: i32, bar_width: i32) -> (r: bool)
        ensures
            r == self.layout_fits(crate::text::strings_view(titles@), font_size as int, bar_width as int),
    {
        let ghost tv = crate::text::strings_view(titles@);
        let h: i64 = self.height as i64;
        let bw: i64 = bar_width as i64 - 4;
        let n = titles.len();
        if !(bw >= i32::MIN as i64 && font_size as i64 - 2 >= i32::MIN as i64 && h + 8 <= i32::MAX as i64
            && bw - (h + 8) >= i32::MIN as i64 && bw - (h + 8) <= i32::MAX as i64 && n
            <= i32::MAX as usize) {
            return false;
        }
        let tab_w = self.tab_width(n, bw as i32);
        let d: i64 = tab_w as i64 - h - 14;
        if !(d >= i32::MIN as i64 && d <= i32::MAX as i64) {
            return false;
        }
        let label_size: i64 = if font_size as i64 - 2 > 8 {
            font_size as i64 - 2
        } else {
            8
        };
        let q = div_toward_zero(d, label_size / 2 + 1);
        assert(-2147483648 <= q <= 2147483647) by (nonlinear_arith)
            requires
                q == trunc_div(d as int, (label_size / 2 + 1) as int),
                i32::MIN <= d <= i32::MAX,
                label_size / 2 + 1 >= 1,
        {
        }
        let cap: u64 = if q > 1 {
            q as u64
        } else {
            1
        };
        let cut: u64 = if cap >= 3 {
            cap - 3
        } else {
            0
        };
        let ghost lc = label_capacity(tab_w as int, h as int, label_size_spec(font_size as int));
        assert(tv.len() == n);
        assert(cap == lc);
        let mut i: usize = 0;
        while i < n
            invariant
                i <= n,
                n == titles@.len(),
                tv == crate::text::strings_view(titles@),
                tv.len() == n,
                tab_w == tab_width_spec(self.height as int, n as int, bar_width - 4),
                lc == label_capacity(tab_w as int, self.height as int, label_size_spec(font_size as int)),
                cap == lc,
                1 <= cap <= i32::MAX,
                cut == (if lc >= 3 { (lc - 3) as nat } else { 0 }),
                forall|j: int|
                    0 <= j < i && crate::text::utf8_len(#[trigger] tv[j]) > lc
                        ==> crate::text::is_byte_boundary(tv[j], cut as nat),
            decreases n - i,
        {
            assert(tv[i as int] == titles@[i as int]@);
            let len = crate::text::utf8_len_sat(titles[i].as_str());
            if len > cap {
                let v = crate::text::chars_of(titles[i].as_str());
                if crate::text::chars_before_byte(&v, cut).is_none() {
                    assert(crate::text::utf8_len(tv[i as int]) > lc);
                    assert(!crate::text::is_byte_boundary(tv[i as int], cut as nat));
                    assert(tv.len() == n);
                    assert(tab_width_spec(self.height as int, tv.len() as int, bar_width - 4) == tab_w);
                    assert(!self.layout_fits(tv, font_size as int, bar_width as int));
                    return false;
                }
            }
            i += 1;
        }
        true
    }

    /// Where everything of the bar goes when it is drawn at `offset_x`,
    /// `offset_y` with `bar_width` pixels for the given titles: tabs start
    /// 4 pixels in and 2 down; each tab's label 14 pixels in and its close
    /// button at its right end; the `+` 10 pixels after the last tab.
    pub fn layout(
        &self,
        titles: &[String],
        active: usize,
        font_size: i32,
        offset_x: i32,
        offset_y: i32,
        bar_width: i32,
    ) -> (r: TabBarLayout)
        requires
            self.layout_fits(crate::text::strings_view(titles@), font_size as int, bar_width as int),
        ensures
            ({
                let h = self.height as int;
                let n = titles@.len() as int;
                let tab_w = tab_width_spec(h, n, bar_width - 4);
                let label_size = label_size_spec(font_size as int);
                let tabs_x = offset_x + 4;
                let tab_y = offset_y + 2;
                let tab_h = h - 2;
                let active_x = tabs_x + (active as i32) * tab_w;
                &&& r.tab_w == tab_w
                &&& r.label_size == label_size
                &&& r.tab_y == tab_y
                &&& r.tab_h == tab_h
                &&& tab_draws_view(r.tabs@) == Seq::new(
                    titles@.len(),
                    |i: int| tab_draw_spec(h, tab_w, label_size, tabs_x, tab_y, tab_h, i, active as int, titles@[i]@),
                )
                &&& rects_view(r.borders@) == borders_spec(
                    offset_x as int,
                    offset_x + bar_width,
                    active_x,
                    active_x + tab_w,
                    offset_y + h - 1,
                )
                &&& r.plus_pos.0 == tabs_x + n * tab_w + 10
                &&& r.plus_pos.1 == tab_y + trunc_div(tab_h - label_size, 2)
            }),
    {
        let h = self.height;
        let n = titles.len();
        let tab_w = self.tab_width(n, bar_width - 4);
        let label_size: i32 = if font_size - 2 > 8 {
            font_size - 2
        } else {
            8
        };
        let tabs_x: i64 = offset_x as i64 + 4;
        let tab_y: i64 = offset_y as i64 + 2;
        let tab_h: i64 = h as i64 - 2;
        let text_y: i64 = tab_y + div_toward_zero(tab_h - label_size as i64, 2);
        let ghost tv = crate::text::strings_view(titles@);
        assert(tv.len() == n);
        let mut tabs: Vec<TabDraw> = Vec::new();
        let mut i: usize = 0;
        while i < n
            invariant
                i <= n,
                h == self.height,
                n == titles@.len(),
                n <= i32::MAX,
                80 <= tab_w <= 280,
                tab_w == tab_width_spec(h as int, n as int, bar_width - 4),
                label_size == label_size_spec(font_size as int),
                tabs_x == offset_x + 4,
                tab_y == offset_y + 2,
                tab_h == h - 2,
                text_y == tab_y + trunc_div(tab_h - label_size, 2),
                tv == crate::text::strings_view(titles@),
                tv.len() == n,
                self.layout_fits(tv, font_size as int, bar_width as int),
                tab_draws_view(tabs@) == Seq::new(
                    i as nat,
                    |j: int|
                        tab_draw_spec(
                            h as int,
                            tab_w as int,
                            label_size as int,
                            tabs_x as int,
                            tab_y as int,
                            tab_h as int,
                            j,
                            active as int,
                            titles@[j]@,
                        ),
                ),
            decreases n - i,
        {
            assert(0 <= (i as int) * (tab_w as int) <= 2147483647 * 280) by (nonlinear_arith)
                requires
                    0 <= i < 2147483648,
                    80 <= tab_w <= 280,
            ;
            let step: i64 = (i as i64) * (tab_w as i64);
            let x: i64 = tabs_x + step;
            assert(tv[i as int] == titles@[i as int]@);
            let label = tab_label(titles[i].as_str(), tab_w, h, label_size);
            let is_active = i == active;
            let d = TabDraw {
                x,
                active: is_active,
                label,
                label_pos: (x + 14, text_y),
                text_color: if is_active {
                    (220, 225, 240, 255)
                } else {
                    (130, 135, 150, 255)
                },
                close_pos: (x + tab_w as i64 - h as i64 + 4, text_y),
                close_color: if is_active {
                    (160, 160, 170, 180)
                } else {
                    (100, 100, 110, 120)
                },
                divider: if is_active {
                    None
                } else {
                    Some((x + tab_w as i64 - 1, tab_y + 4, 1, tab_h - 8))
                },
            };
            let ghost before = tabs@;
            tabs.push(d);
            assert(tab_draws_view(tabs@) =~= Seq::new(
                (i + 1) as nat,
                |j: int|
                    tab_draw_spec(
                        h as int,
                        tab_w as int,
                        label_size as int,
                        tabs_x as int,
                        tab_y as int,
                        tab_h as int,
                        j,
                        active as int,
                        titles@[j]@,
                    ),
            )) by {
                assert(tab_draws_view(tabs@) =~= tab_draws_view(before).push(d@));
            }
            i += 1;
        }
        let a32 = #[verifier::truncate] (active as i32);
        assert(-2147483648 * 280 <= (a32 as int) * (tab_w as int) <= 2147483647 * 280) by (nonlinear_arith)
            requires
                -2147483648 <= a32 <= 2147483647,
                80 <= tab_w <= 280,
        ;
        let astep: i64 = (a32 as i64) * (tab_w as i64);
        let active_x: i64 = tabs_x + astep;
        let active_end: i64 = active_x + tab_w as i64;
        let bar_end: i64 = offset_x as i64 + bar_width as i64;
        let bottom_y: i64 = offset_y as i64 + h as i64 - 1;
        let mut borders: Vec<Rect64> = Vec::new();
        if active_x > offset_x as i64 {
            borders.push((offset_x as i64, bottom_y, active_x - offset_x as i64, 1));
        }
        if active_end < bar_end {
            borders.push((active_end, bottom_y, bar_end - active_end, 1));
        }
        assert(rects_view(borders@) =~= borders_spec(
            offset_x as int,
            offset_x + bar_width,
            active_x as int,
            active_end as int,
            offset_y + h - 1,
        ));
        assert(0 <= (n as int) * (tab_w as int) <= 2147483647 * 280) by (nonlinear_arith)
            requires
                0 <= n <= 2147483647,
                80 <= tab_w <= 280,
        ;
        let nstep: i64 = (n as i64) * (tab_w as i64);
        let plus_pos = (tabs_x + nstep + 10, text_y);
        TabBarLayout { tab_w, label_size, tab_y, tab_h, tabs, borders, plus_pos }
    }
}

} // verus!
