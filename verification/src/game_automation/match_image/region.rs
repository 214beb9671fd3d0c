//! Search regions: the part of the screen a template is looked for in.
use crate::text::{
    decimal, decimal_chars, find_char, from_chars, index_of, parse_u32, parse_u32_spec,
    split_char, split_on, to_chars, trim, trim_chars, views,
};
use vstd::prelude::*;

verus! {

/// A rectangle of the screen, with a name.
#[derive(Debug)]
pub struct SearchRegion {
    pub x: u32,
    pub y: u32,
    pub width: u32,
    pub height: u32,
    pub name: String,
}

/// A search region as plain values.
pub struct RegionView {
    pub x: u32,
    pub y: u32,
    pub width: u32,
    pub height: u32,
    pub name: Seq<char>,
}

impl View for SearchRegion {
    type V = RegionView;

    open spec fn view(&self) -> RegionView {
        RegionView {
            x: self.x,
            y: self.y,
            width: self.width,
            height: self.height,
            name: self.name@,
        }
    }
}

impl Clone for SearchRegion {
    fn clone(&self) -> (r: Self)
        ensures
            r == *self,
    {
        SearchRegion {
            x: self.x,
            y: self.y,
            width: self.width,
            height: self.height,
            name: self.name.clone(),
        }
    }
}

impl PartialEq for SearchRegion {
    fn eq(&self, other: &Self) -> (r: bool) {
        self.x == other.x && self.y == other.y && self.width == other.width && self.height
            == other.height && self.name == other.name
    }
}

impl vstd::std_specs::cmp::PartialEqSpecImpl for SearchRegion {
    open spec fn obeys_eq_spec() -> bool {
        true
    }

    open spec fn eq_spec(&self, other: &SearchRegion) -> bool {
        self@ == other@
    }
}

/// The region covering the whole screen.
pub open spec fn full_screen_view(screen_width: u32, screen_height: u32) -> RegionView {
    RegionView { x: 0, y: 0, width: screen_width, height: screen_height, name: "full_screen"@ }
}

/// The text between the first `'['` and the first `']'` of a file name,
/// when both occur and the `']'` comes later.
pub open spec fn region_text_of(filename: Seq<char>) -> Option<Seq<char>> {
    let a = index_of(filename, '[');
    let b = index_of(filename, ']');
    if a < filename.len() && b < filename.len() && b > a {
        Some(filename.subrange(a + 1, b))
    } else {
        None
    }
}

/// The name a region read from the text `x,y,width,height` gets.
pub open spec fn parsed_name(x: u32, y: u32, width: u32, height: u32) -> Seq<char> {
    "parsed_"@ + decimal(x as nat) + "_"@ + decimal(y as nat) + "_"@ + decimal(width as nat)
        + "_"@ + decimal(height as nat)
}

/// The region written as `x,y,width,height`: four comma-separated numbers,
/// each with optional surrounding whitespace.
pub open spec fn region_of_text(text: Seq<char>) -> Option<RegionView> {
    let parts = split_on(text, ',');
    if parts.len() == 4 && parse_u32_spec(trim(parts[0])) is Some && parse_u32_spec(
        trim(parts[1]),
    ) is Some && parse_u32_spec(trim(parts[2])) is Some && parse_u32_spec(trim(parts[3])) is Some {
        let x = parse_u32_spec(trim(parts[0]))->0;
        let y = parse_u32_spec(trim(parts[1]))->0;
        let w = parse_u32_spec(trim(parts[2]))->0;
        let h = parse_u32_spec(trim(parts[3]))->0;
        Some(RegionView { x, y, width: w, height: h, name: parsed_name(x, y, w, h) })
    } else {
        None
    }
}

/// `a - b`, or 0 when `b` is larger.
pub open spec fn sat_sub(a: u32, b: u32) -> u32 {
    if a >= b {
        (a - b) as u32
    } else {
        0
    }
}

pub open spec fn min_u32(a: u32, b: u32) -> u32 {
    if a <= b {
        a
    } else {
        b
    }
}

/// The region moved and shrunk so that it fits on the screen.
pub open spec fn clip_view(r: RegionView, screen_width: u32, screen_height: u32) -> RegionView {
    let x = min_u32(r.x, sat_sub(screen_width, 1));
    let y = min_u32(r.y, sat_sub(screen_height, 1));
    RegionView {
        x,
        y,
        width: min_u32(r.width, sat_sub(screen_width, x)),
        height: min_u32(r.height, sat_sub(screen_height, y)),
        name: r.name,
    }
}

/// The region a file name such as `template-[x,y,width,height].png`
/// describes, clipped to the screen; the whole screen when the name holds
/// no region.
pub open spec fn region_of_filename(
    filename: Seq<char>,
    screen_width: u32,
    screen_height: u32,
) -> RegionView {
    match region_text_of(filename) {
        Some(text) => match region_of_text(text) {
            Some(r) => clip_view(r, screen_width, screen_height),
            None => full_screen_view(screen_width, screen_height),
        },
        None => full_screen_view(screen_width, screen_height),
    }
}

fn min_u32_exec(a: u32, b: u32) -> (r: u32)
    ensures
        r == min_u32(a, b),
{
    if a <= b {
        a
    } else {
        b
    }
}

fn sat_sub_exec(a: u32, b: u32) -> (r: u32)
    ensures
        r == sat_sub(a, b),
{
    if a >= b {
        a - b
    } else {
        0
    }
}

fn push_all(v: &mut Vec<char>, s: &[char])
    ensures
        final(v)@ == old(v)@ + s@,
{
    let mut i: usize = 0;
    while i < s.len()
        invariant
            i <= s.len(),
            v@ == old(v)@ + s@.take(i as int),
        decreases s.len() - i,
    {
        v.push(s[i]);
        assert(s@.take(i + 1) =~= s@.take(i as int).push(s@[i as int]));
        i += 1;
    }
    assert(s@.take(s.len() as int) =~= s@);
}

impl SearchRegion {
    pub fn new(x: u32, y: u32, width: u32, height: u32, name: String) -> (r: Self)
        ensures
            r@ == (RegionView { x, y, width, height, name: name@ }),
    {
        SearchRegion { x, y, width, height, name }
    }

    /// The region covering the whole screen, named `full_screen`.
    pub fn full_screen(screen_width: u32, screen_height: u32) -> (r: Self)
        ensures
            r@ == full_screen_view(screen_width, screen_height),
    {
        SearchRegion {
            x: 0,
            y: 0,
            width: screen_width,
            height: screen_height,
            name: from_chars(&to_chars("full_screen")),
        }
    }

    /// The region a file name such as `template-[x,y,width,height].png`
    /// describes, clipped to the screen; the whole screen when the name
    /// holds no region.
    pub fn parse_from_filename(filename: &str, screen_width: u32, screen_height: u32) -> (r: Self)
        ensures
            r@ == region_of_filename(filename@, screen_width, screen_height),
    {
        if let Some(region_str) = Self::extract_region_string(filename) {
            if let Some(region) = Self::parse_region_coordinates(&region_str) {
                return Self::clip_to_screen(region, screen_width, screen_height);
            }
        }
        Self::full_screen(screen_width, screen_height)
    }

    /// The text between the first `'['` and the first `']'` of `filename`
    /// (e.g. `300,1682,50,50` of `img-[300,1682,50,50].png`).
    pub fn extract_region_string(filename: &str) -> (r: Option<String>)
        ensures
            match r {
                Some(s) => region_text_of(filename@) == Some(s@),
                None => region_text_of(filename@) is None,
            },
    {
        let cs = to_chars(filename);
        match find_char(&cs, '[') {
            Some(start) => match find_char(&cs, ']') {
                Some(end) => {
                    if end > start {
                        let inner = crate::text::slice_to_vec(&cs, start + 1, end);
                        Some(from_chars(&inner))
                    } else {
                        None
                    }
                },
                None => None,
            },
            None => None,
        }
    }

    /// The region written as `x,y,width,height`, named after its numbers.
    pub fn parse_region_coordinates(region_str: &str) -> (r: Option<SearchRegion>)
        ensures
            match r {
                Some(g) => region_of_text(region_str@) == Some(g@),
                None => region_of_text(region_str@) is None,
            },
    {
        let cs = to_chars(region_str);
        let parts = split_char(&cs, ',');
        if parts.len() != 4 {
            return None;
        }
        proof {
            assert(views(parts@)[0] == parts@[0]@);
            assert(views(parts@)[1] == parts@[1]@);
            assert(views(parts@)[2] == parts@[2]@);
            assert(views(parts@)[3] == parts@[3]@);
        }
        let t0 = trim_chars(&parts[0]);
        let t1 = trim_chars(&parts[1]);
        let t2 = trim_chars(&parts[2]);
        let t3 = trim_chars(&parts[3]);
        match (parse_u32(&t0), parse_u32(&t1), parse_u32(&t2), parse_u32(&t3)) {
            (Some(x), Some(y), Some(width), Some(height)) => {
                let mut name: Vec<char> = to_chars("parsed_");
                let sep = to_chars("_");
                push_all(&mut name, &decimal_chars(x as u128));
                push_all(&mut name, &sep);
                push_all(&mut name, &decimal_chars(y as u128));
                push_all(&mut name, &sep);
                push_all(&mut name, &decimal_chars(width as u128));
                push_all(&mut name, &sep);
                push_all(&mut name, &decimal_chars(height as u128));
                assert(name@ =~= parsed_name(x, y, width, height));
                Some(SearchRegion::new(x, y, width, height, from_chars(&name)))
            },
            _ => None,
        }
    }

    /// The region moved and shrunk so that it fits on the screen.
    pub fn clip_to_screen(region: SearchRegion, screen_width: u32, screen_height: u32) -> (r:
        SearchRegion)
        ensures
            r@ == clip_view(region@, screen_width, screen_height),
    {
        let mut region = region;
        region.x = min_u32_exec(region.x, sat_sub_exec(screen_width, 1));
        region.y = min_u32_exec(region.y, sat_sub_exec(screen_height, 1));
        region.width = min_u32_exec(region.width, sat_sub_exec(screen_width, region.x));
        region.height = min_u32_exec(region.height, sat_sub_exec(screen_height, region.y));
        region
    }

    /// Whether the point lies in the region (left and top edges included,
    /// right and bottom edges excluded).
    pub fn contains_point(&self, x: u32, y: u32) -> (r: bool)
        requires
            x >= self.x ==> self.x + self.width <= u32::MAX,
            x >= self.x && x < self.x + self.width && y >= self.y ==> self.y + self.height
                <= u32::MAX,
        ensures
            r == (self.x <= x < self.x + self.width && self.y <= y < self.y + self.height),
    {
        x >= self.x && x < (self.x + self.width) && y >= self.y && y < (self.y + self.height)
    }

    /// The centre point, rounded towards the top left.
    pub fn center(&self) -> (r: (u32, u32))
        requires
            self.x + self.width / 2 <= u32::MAX,
            self.y + self.height / 2 <= u32::MAX,
        ensures
            r == (((self.x + self.width / 2) as u32, (self.y + self.height / 2) as u32)),
    {
        (self.x + self.width / 2, self.y + self.height / 2)
    }

    /// A region is valid when it has a non-zero width and height.
    pub fn is_valid(&self) -> (r: bool)
        ensures
            r == (self.width > 0 && self.height > 0),
    {
        self.width > 0 && self.height > 0
    }
}

/// On a non-empty screen a clipped region lies within the screen: it starts
/// on the screen and does not reach past its right or bottom edge.
pub proof fn law_clipped_region_on_screen(r: RegionView, screen_width: u32, screen_height: u32)
    requires
        screen_width > 0,
        screen_height > 0,
    ensures
        clip_view(r, screen_width, screen_height).x < screen_width,
        clip_view(r, screen_width, screen_height).y < screen_height,
        clip_view(r, screen_width, screen_height).x + clip_view(
            r,
            screen_width,
            screen_height,
        ).width <= screen_width,
        clip_view(r, screen_width, screen_height).y + clip_view(
            r,
            screen_width,
            screen_height,
        ).height <= screen_height,
        clip_view(r, screen_width, screen_height).name == r.name,
{
}

/// A region that already lies within the screen is left as it is.
pub proof fn law_clip_keeps_fitting_region(r: RegionView, screen_width: u32, screen_height: u32)
    requires
        r.x < screen_width,
        r.y < screen_height,
        r.x + r.width <= screen_width,
        r.y + r.height <= screen_height,
    ensures
        clip_view(r, screen_width, screen_height) == r,
{
}

/// Whatever the file name, the region read from it lies within a
/// non-empty screen.
pub proof fn law_filename_region_on_screen(
    filename: Seq<char>,
    screen_width: u32,
    screen_height: u32,
)
    requires
        screen_width > 0,
        screen_height > 0,
    ensures
        region_of_filename(filename, screen_width, screen_height).x + region_of_filename(
            filename,
            screen_width,
            screen_height,
        ).width <= screen_width,
        region_of_filename(filename, screen_width, screen_height).y + region_of_filename(
            filename,
            screen_width,
            screen_height,
        ).height <= screen_height,
{
}

// ------------------------------------------------------------------
// Named regions
// ------------------------------------------------------------------

/// Named regions as (name, region) pairs of plain values.
pub open spec fn entry_views(v: Seq<(String, SearchRegion)>) -> Seq<(Seq<char>, RegionView)> {
    v.map_values(|e: (String, SearchRegion)| (e.0@, e.1@))
}

/// No two entries share a name.
pub open spec fn names_unique(s: Seq<(Seq<char>, RegionView)>) -> bool {
    forall|i: int, j: int| 0 <= i < j < s.len() ==> s[i].0 != s[j].0
}

/// The entries of `s` keyed by name.
pub open spec fn entries_map(s: Seq<(Seq<char>, RegionView)>) -> Map<Seq<char>, RegionView>
    decreases s.len(),
{
    if s.len() == 0 {
        Map::empty()
    } else {
        entries_map(s.drop_last()).insert(s.last().0, s.last().1)
    }
}

pub proof fn lemma_entries_lookup(s: Seq<(Seq<char>, RegionView)>)
    requires
        names_unique(s),
    ensures
        forall|k: Seq<char>|
            entries_map(s).dom().contains(k) <==> exists|i: int| 0 <= i < s.len() && s[i].0 == k,
        forall|i: int| 0 <= i < s.len() ==> #[trigger] entries_map(s)[s[i].0] == s[i].1,
    decreases s.len(),
{
    if s.len() > 0 {
        let p = s.drop_last();
        assert(names_unique(p));
        lemma_entries_lookup(p);
        assert forall|k: Seq<char>| entries_map(s).dom().contains(k) implies exists|i: int|
            0 <= i < s.len() && s[i].0 == k by {
            if k == s.last().0 {
                assert(s[s.len() - 1].0 == k);
            } else {
                assert(entries_map(p).dom().contains(k));
                let i = choose|i: int| 0 <= i < p.len() && p[i].0 == k;
                assert(s[i] == p[i]);
            }
        }
        assert forall|k: Seq<char>| (exists|i: int| 0 <= i < s.len() && s[i].0 == k) implies entries_map(
            s,
        ).dom().contains(k) by {
            let i = choose|i: int| 0 <= i < s.len() && s[i].0 == k;
            if i < s.len() - 1 {
                assert(p[i] == s[i]);
                assert(entries_map(p).dom().contains(k));
            }
        }
        assert forall|i: int| 0 <= i < s.len() implies #[trigger] entries_map(s)[s[i].0] == s[i].1 by {
            if i < s.len() - 1 {
                assert(p[i] == s[i]);
                assert(entries_map(p)[p[i].0] == p[i].1);
                assert(s[i].0 != s[s.len() - 1].0);
            }
        }
    }
}

pub proof fn lemma_entries_update(s: Seq<(Seq<char>, RegionView)>, i: int, e: (Seq<char>, RegionView))
    requires
        names_unique(s),
        0 <= i < s.len(),
        e.0 == s[i].0,
    ensures
        names_unique(s.update(i, e)),
        entries_map(s.update(i, e)) == entries_map(s).insert(e.0, e.1),
    decreases s.len(),
{
    let u = s.update(i, e);
    assert(names_unique(u)) by {
        assert forall|a: int, b: int| 0 <= a < b < u.len() implies u[a].0 != u[b].0 by {
            assert(u[a].0 == s[a].0);
            assert(u[b].0 == s[b].0);
        }
    }
    if i == s.len() - 1 {
        assert(u.drop_last() =~= s.drop_last());
        assert(entries_map(u) =~= entries_map(s).insert(e.0, e.1));
    } else {
        let p = s.drop_last();
        assert(names_unique(p));
        lemma_entries_update(p, i, e);
        assert(u.drop_last() =~= p.update(i, e));
        assert(u.last() == s.last());
        assert(s.last().0 != e.0);
        assert(entries_map(u) =~= entries_map(s).insert(e.0, e.1));
    }
}

/// The regions every manager starts with, for a screen of `w` by `h`.
pub open spec fn common_regions(screen_width: u32, screen_height: u32) -> Map<Seq<char>, RegionView> {
    let w = screen_width as int;
    let h = screen_height as int;
    let r = |x: int, y: int, rw: int, rh: int, n: Seq<char>|
        RegionView { x: x as u32, y: y as u32, width: rw as u32, height: rh as u32, name: n };
    Map::empty().insert("status_bar"@, r(0, 0, w, h / 20, "status_bar"@)).insert(
        "navigation_bar"@,
        r(0, h * 19 / 20, w, h / 20, "navigation_bar"@),
    ).insert("top_left"@, r(0, 0, w / 4, h / 4, "top_left"@)).insert(
        "top_right"@,
        r(w * 3 / 4, 0, w / 4, h / 4, "top_right"@),
    ).insert("bottom_left"@, r(0, h * 3 / 4, w / 4, h / 4, "bottom_left"@)).insert(
        "bottom_right"@,
        r(w * 3 / 4, h * 3 / 4, w / 4, h / 4, "bottom_right"@),
    ).insert("center"@, r(w / 4, h / 4, w / 2, h / 2, "center"@)).insert(
        "hud_area"@,
        r(0, 0, w, h / 8, "hud_area"@),
    ).insert("action_area"@, r(0, h * 7 / 8, w, h / 8, "action_area"@)).insert(
        "inventory_area"@,
        r(w * 7 / 8, h / 4, w / 8, h / 2, "inventory_area"@),
    )
}

/// The common regions lie on the screen and sit where their names say: the
/// centre region is the middle half of the screen, centred on it (to within
/// a pixel of rounding); the top-left region starts at the origin and the
/// bottom-right one reaches the far corner; the status bar starts at the top
/// and the navigation bar reaches the bottom.
pub proof fn law_common_regions_placed(w: u32, h: u32, name: Seq<char>)
    ensures
        common_regions(w, h).dom().contains(name) ==> ({
            let r = common_regions(w, h)[name];
            &&& r.x + r.width <= w
            &&& r.y + r.height <= h
            &&& r.name == name
        }),
        ({
            let c = common_regions(w, h)["center"@];
            &&& common_regions(w, h).dom().contains("center"@)
            &&& w / 2 <= c.x + c.width / 2 + 1 && c.x + c.width / 2 <= w / 2
            &&& h / 2 <= c.y + c.height / 2 + 1 && c.y + c.height / 2 <= h / 2
            &&& c.width * 2 <= w <= c.width * 2 + 1
            &&& c.height * 2 <= h <= c.height * 2 + 1
        }),
        ({
            let tl = common_regions(w, h)["top_left"@];
            let br = common_regions(w, h)["bottom_right"@];
            &&& tl.x == 0 && tl.y == 0
            &&& w <= br.x + br.width + 1 && h <= br.y + br.height + 1
        }),
        common_regions(w, h)["status_bar"@].y == 0,
        h <= common_regions(w, h)["navigation_bar"@].y + common_regions(
            w,
            h,
        )["navigation_bar"@].height + 1,
{
    reveal_strlit("status_bar");
    reveal_strlit("navigation_bar");
    reveal_strlit("top_left");
    reveal_strlit("top_right");
    reveal_strlit("bottom_left");
    reveal_strlit("bottom_right");
    reveal_strlit("center");
    reveal_strlit("hud_area");
    reveal_strlit("action_area");
    reveal_strlit("inventory_area");
    assert("top_left"@ != "top_right"@) by {
        assert("top_left"@[4] != "top_right"@[4]);
    }
    assert("bottom_left"@ != "bottom_right"@) by {
        assert("bottom_left"@[7] != "bottom_right"@[7]);
    }
    assert("status_bar"@.len() == 10 && "hud_area"@.len() == 8 && "center"@.len() == 6);
    assert("action_area"@.len() == 11 && "inventory_area"@.len() == 14);
    assert("navigation_bar"@.len() == 14 && "top_left"@.len() == 8);
    assert("navigation_bar"@ != "inventory_area"@) by {
        assert("navigation_bar"@[0] != "inventory_area"@[0]);
    }
    assert("top_left"@ != "hud_area"@) by {
        assert("top_left"@[0] != "hud_area"@[0]);
    }
}

/// A region manager as plain values.
pub struct RegionManagerView {
    pub regions: Map<Seq<char>, RegionView>,
    pub screen_width: u32,
    pub screen_height: u32,
}

/// Named search regions for one screen size.
pub struct RegionManager {
    regions: Vec<(String, SearchRegion)>,
    screen_width: u32,
    screen_height: u32,
}

impl View for RegionManager {
    type V = RegionManagerView;

    closed spec fn view(&self) -> RegionManagerView {
        RegionManagerView {
            regions: entries_map(entry_views(self.regions@)),
            screen_width: self.screen_width,
            screen_height: self.screen_height,
        }
    }
}

impl RegionManager {
    pub closed spec fn wf(&self) -> bool {
        names_unique(entry_views(self.regions@))
    }

    /// A manager for a `screen_width` by `screen_height` screen, holding the
    /// common regions of Android games.
    pub fn new(screen_width: u32, screen_height: u32) -> (r: Self)
        requires
            screen_width * 7 <= u32::MAX,
            screen_height * 19 <= u32::MAX,
        ensures
            r.wf(),
            r@ == (RegionManagerView {
                regions: common_regions(screen_width, screen_height),
                screen_width,
                screen_height,
            }),
    {
        let mut manager = RegionManager { regions: Vec::new(), screen_width, screen_height };
        assert(entry_views(manager.regions@) =~= Seq::<(Seq<char>, RegionView)>::empty());
        assert(manager@.regions =~= Map::<Seq<char>, RegionView>::empty());
        manager.add_common_regions();
        assert(manager@.regions =~= common_regions(screen_width, screen_height));
        manager
    }

    /// Adds the status and navigation bars, the four corners, the centre,
    /// and the HUD, action and inventory areas.
    pub fn add_common_regions(&mut self)
        requires
            old(self).wf(),
            old(self)@.screen_width * 7 <= u32::MAX,
            old(self)@.screen_height * 19 <= u32::MAX,
        ensures
            final(self).wf(),
            final(self)@.screen_width == old(self)@.screen_width,
            final(self)@.screen_height == old(self)@.screen_height,
            final(self)@.regions == old(self)@.regions.union_prefer_right(
                common_regions(old(self)@.screen_width, old(self)@.screen_height),
            ),
    {
        let w = self.screen_width;
        let h = self.screen_height;
        let ghost start = self@.regions;
        self.add_region("status_bar", SearchRegion::new(0, 0, w, h / 20, "status_bar".to_owned()));
        self.add_region(
            "navigation_bar",
            SearchRegion::new(0, h * 19 / 20, w, h / 20, "navigation_bar".to_owned()),
        );
        self.add_region("top_left", SearchRegion::new(0, 0, w / 4, h / 4, "top_left".to_owned()));
        self.add_region(
            "top_right",
            SearchRegion::new(w * 3 / 4, 0, w / 4, h / 4, "top_right".to_owned()),
        );
        self.add_region(
            "bottom_left",
            SearchRegion::new(0, h * 3 / 4, w / 4, h / 4, "bottom_left".to_owned()),
        );
        self.add_region(
            "bottom_right",
            SearchRegion::new(w * 3 / 4, h * 3 / 4, w / 4, h / 4, "bottom_right".to_owned()),
        );
        self.add_region("center", SearchRegion::new(w / 4, h / 4, w / 2, h / 2, "center".to_owned()));
        self.add_region("hud_area", SearchRegion::new(0, 0, w, h / 8, "hud_area".to_owned()));
        self.add_region(
            "action_area",
            SearchRegion::new(0, h * 7 / 8, w, h / 8, "action_area".to_owned()),
        );
        self.add_region(
            "inventory_area",
            SearchRegion::new(w * 7 / 8, h / 4, w / 8, h / 2, "inventory_area".to_owned()),
        );
        assert(self@.regions =~= start.union_prefer_right(common_regions(w, h)));
    }

    /// Adds (or replaces) the region under `name`.
    pub fn add_region(&mut self, name: &str, region: SearchRegion)
        requires
            old(self).wf(),
        ensures
            final(self).wf(),
            final(self)@ == (RegionManagerView {
                regions: old(self)@.regions.insert(name@, region@),
                ..old(self)@
            }),
    {
        let ghost old_views = entry_views(self.regions@);
        match self.position(name) {
            Some(i) => {
                let ghost e = (name@, region@);
                self.regions.set(i, (name.to_owned(), region));
                proof {
                    assert(entry_views(self.regions@) =~= old_views.update(i as int, e));
                    lemma_entries_update(old_views, i as int, e);
                }
            },
            None => {
                self.regions.push((name.to_owned(), region));
                proof {
                    let nv = entry_views(self.regions@);
                    assert(nv.drop_last() =~= old_views);
                    assert(names_unique(nv)) by {
                        assert forall|a: int, b: int| 0 <= a < b < nv.len() implies nv[a].0
                            != nv[b].0 by {
                            if b == nv.len() - 1 {
                                assert(nv[a] == old_views[a]);
                            } else {
                                assert(nv[a] == old_views[a]);
                                assert(nv[b] == old_views[b]);
                            }
                        }
                    }
                }
            },
        }
    }

    /// Where the region named `name` is kept.
    fn position(&self, name: &str) -> (r: Option<usize>)
        requires
            self.wf(),
        ensures
            match r {
                Some(i) => i < self.regions@.len() && entry_views(self.regions@)[i as int].0
                    == name@,
                None => forall|i: int|
                    0 <= i < self.regions@.len() ==> #[trigger] entry_views(self.regions@)[i].0
                        != name@,
            },
    {
        let target = to_chars(name);
        let mut i: usize = 0;
        while i < self.regions.len()
            invariant
                i <= self.regions@.len(),
                target@ == name@,
                forall|j: int|
                    0 <= j < i ==> #[trigger] entry_views(self.regions@)[j].0 != name@,
            decreases self.regions@.len() - i,
        {
            let key = to_chars(self.regions[i].0.as_str());
            if crate::text::eq_chars(&key, &target) {
                return Some(i);
            }
            i += 1;
        }
        None
    }

    /// The region under `name`, if there is one.
    pub fn get_region(&self, name: &str) -> (r: Option<&SearchRegion>)
        requires
            self.wf(),
        ensures
            match r {
                Some(g) => self@.regions.dom().contains(name@) && g@ == self@.regions[name@],
                None => !self@.regions.dom().contains(name@),
            },
    {
        proof {
            lemma_entries_lookup(entry_views(self.regions@));
        }
        match self.position(name) {
            Some(i) => {
                proof {
                    assert(entry_views(self.regions@)[i as int] == (
                        self.regions@[i as int].0@,
                        self.regions@[i as int].1@,
                    ));
                }
                Some(&self.regions[i].1)
            },
            None => {
                proof {
                    if self@.regions.dom().contains(name@) {
                        let j = choose|j: int|
                            0 <= j < entry_views(self.regions@).len() && entry_views(
                                self.regions@,
                            )[j].0 == name@;
                        assert(entry_views(self.regions@)[j].0 != name@);
                    }
                }
                None
            },
        }
    }

    /// The names of all regions, each once.
    pub fn get_region_names(&self) -> (r: Vec<String>)
        requires
            self.wf(),
        ensures
            forall|k: Seq<char>|
                self@.regions.dom().contains(k) <==> exists|i: int|
                    0 <= i < r@.len() && #[trigger] r@[i]@ == k,
            forall|i: int, j: int| 0 <= i < j < r@.len() ==> r@[i]@ != r@[j]@,
    {
        let ghost ev = entry_views(self.regions@);
        proof {
            lemma_entries_lookup(ev);
        }
        let mut names: Vec<String> = Vec::new();
        let mut i: usize = 0;
        while i < self.regions.len()
            invariant
                i <= self.regions@.len(),
                ev == entry_views(self.regions@),
                names_unique(ev),
                names@.len() == i,
                forall|j: int| 0 <= j < i ==> #[trigger] names@[j]@ == ev[j].0,
            decreases self.regions@.len() - i,
        {
            names.push(self.regions[i].0.clone());
            i += 1;
        }
        proof {
            assert forall|k: Seq<char>| self@.regions.dom().contains(k) implies exists|i: int|
                0 <= i < names@.len() && #[trigger] names@[i]@ == k by {
                let j = choose|j: int| 0 <= j < ev.len() && ev[j].0 == k;
                assert(names@[j]@ == k);
            }
        }
        names
    }

    /// The region under `identifier`, or else the region its text describes
    /// as a file name (the whole screen when it describes none).
    pub fn resolve_region(&self, identifier: &str) -> (r: SearchRegion)
        requires
            self.wf(),
        ensures
            r@ == if self@.regions.dom().contains(identifier@) {
                self@.regions[identifier@]
            } else {
                region_of_filename(identifier@, self@.screen_width, self@.screen_height)
            },
    {
        match self.get_region(identifier) {
            Some(region) => region.clone(),
            None => SearchRegion::parse_from_filename(
                identifier,
                self.screen_width,
                self.screen_height,
            ),
        }
    }
}

/// Adding a region under a name and asking for that name gives the region
/// back; the other names keep their regions.
pub proof fn law_add_then_get(m: RegionManagerView, name: Seq<char>, region: RegionView, other: Seq<char>)
    ensures
        m.regions.insert(name, region)[name] == region,
        other != name && m.regions.dom().contains(other) ==> m.regions.insert(name, region)[other]
            == m.regions[other],
{
}

// ------------------------------------------------------------------
// Where a template is looked for
// ------------------------------------------------------------------

/// The top-left positions a template is tried at: `x_min..=x_max` by
/// `y_min..=y_max`.
#[derive(Debug, Clone, Copy, PartialEq, Eq, Structural)]
pub struct SearchWindow {
    pub x_min: u32,
    pub x_max: u32,
    pub y_min: u32,
    pub y_max: u32,
}

/// The positions a `template_width` by `template_height` template is tried
/// at on an `image_width` by `image_height` image: around the expected
/// position (within `margin`) when one is given, else everywhere it fits;
/// none when the template is larger than the image.
pub open spec fn window_of(
    image_width: u32,
    image_height: u32,
    template_width: u32,
    template_height: u32,
    expected: Option<(u32, u32)>,
    margin: u32,
) -> Option<SearchWindow> {
    if template_width > image_width || template_height > image_height {
        None
    } else {
        let fit_x = sat_sub(image_width, template_width);
        let fit_y = sat_sub(image_height, template_height);
        match expected {
            Some((ex, ey)) => Some(
                SearchWindow {
                    x_min: sat_sub(ex, margin),
                    x_max: min_u32((ex + template_width + margin) as u32, fit_x),
                    y_min: sat_sub(ey, margin),
                    y_max: min_u32((ey + template_height + margin) as u32, fit_y),
                },
            ),
            None => Some(SearchWindow { x_min: 0, x_max: fit_x, y_min: 0, y_max: fit_y }),
        }
    }
}

/// The positions a template is tried at (see [`window_of`]).
pub fn search_window(
    image_width: u32,
    image_height: u32,
    template_width: u32,
    template_height: u32,
    expected: Option<(u32, u32)>,
    margin: u32,
) -> (r: Option<SearchWindow>)
    requires
        expected matches Some((ex, ey)) ==> ex + template_width + margin <= u32::MAX && ey
            + template_height + margin <= u32::MAX,
    ensures
        r == window_of(image_width, image_height, template_width, template_height, expected, margin),
{
    if template_width > image_width || template_height > image_height {
        return None;
    }
    let fit_x = sat_sub_exec(image_width, template_width);
    let fit_y = sat_sub_exec(image_height, template_height);
    match expected {
        Some((ex, ey)) => Some(
            SearchWindow {
                x_min: sat_sub_exec(ex, margin),
                x_max: min_u32_exec(ex + template_width + margin, fit_x),
                y_min: sat_sub_exec(ey, margin),
                y_max: min_u32_exec(ey + template_height + margin, fit_y),
            },
        ),
        None => Some(SearchWindow { x_min: 0, x_max: fit_x, y_min: 0, y_max: fit_y }),
    }
}

/// Every position tried leaves the template wholly on the image.
pub proof fn law_window_keeps_template_on_image(
    image_width: u32,
    image_height: u32,
    template_width: u32,
    template_height: u32,
    expected: Option<(u32, u32)>,
    margin: u32,
)
    ensures
        window_of(image_width, image_height, template_width, template_height, expected, margin) matches Some(w) ==> (
        w.x_max + template_width <= image_width && w.y_max + template_height <= image_height),
{
}

} // verus!
