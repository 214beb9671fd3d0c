//! Templates: the match targets of template images, ready to be looked for
//! on a screenshot.
use crate::game_automation::match_image::region::{
    common_regions, region_of_filename, RegionManager, RegionManagerView, RegionView,
    SearchRegion,
};
use crate::game_automation::match_image::sidecar::{
    path_exists, CropRect, MatchTargetDef, TemplateSidecar,
};
use crate::text::{
    contains_str, decimal, decimal_chars, ends_with_str, eq_chars, from_chars, has_infix,
    has_suffix, lowercase_of, to_chars, to_lowercase,
};
use vstd::prelude::*;

verus! {

/// What a template shows, guessed from its name.
#[derive(Debug, Clone, Copy, PartialEq, Eq, Structural)]
pub enum TemplateCategory {
    Button,
    Icon,
    GameObject,
    UI,
    Text,
    Unknown,
}

/// The order in which categories are listed.
pub open spec fn category_rank(c: TemplateCategory) -> int {
    match c {
        TemplateCategory::Button => 0,
        TemplateCategory::Icon => 1,
        TemplateCategory::GameObject => 2,
        TemplateCategory::UI => 3,
        TemplateCategory::Text => 4,
        TemplateCategory::Unknown => 5,
    }
}

fn category_rank_exec(c: TemplateCategory) -> (r: u8)
    ensures
        r == category_rank(c),
{
    match c {
        TemplateCategory::Button => 0,
        TemplateCategory::Icon => 1,
        TemplateCategory::GameObject => 2,
        TemplateCategory::UI => 3,
        TemplateCategory::Text => 4,
        TemplateCategory::Unknown => 5,
    }
}

/// The category of a match target whose lower-cased name is `lower`: the
/// first of button/btn, icon, ui/menu, text/label, object/item it contains.
pub open spec fn category_of(lower: Seq<char>) -> TemplateCategory {
    if has_infix(lower, "button"@) || has_infix(lower, "btn"@) {
        TemplateCategory::Button
    } else if has_infix(lower, "icon"@) {
        TemplateCategory::Icon
    } else if has_infix(lower, "ui"@) || has_infix(lower, "menu"@) {
        TemplateCategory::UI
    } else if has_infix(lower, "text"@) || has_infix(lower, "label"@) {
        TemplateCategory::Text
    } else if has_infix(lower, "object"@) || has_infix(lower, "item"@) {
        TemplateCategory::GameObject
    } else {
        TemplateCategory::Unknown
    }
}

/// The category of a name is decided by the keywords its lower-case form
/// holds, checked in turn: `button` or `btn` makes a button; otherwise
/// `icon` an icon; otherwise `ui` or `menu` a UI element; otherwise `text`
/// or `label` a text; otherwise `object` or `item` a game object; a name
/// with none of them is of unknown category.
pub proof fn law_category_by_keywords(name: Seq<char>)
    ensures
        ({
            let l = lowercase_of(name);
            let button = has_infix(l, "button"@) || has_infix(l, "btn"@);
            let icon = has_infix(l, "icon"@);
            let ui = has_infix(l, "ui"@) || has_infix(l, "menu"@);
            let text = has_infix(l, "text"@) || has_infix(l, "label"@);
            let object = has_infix(l, "object"@) || has_infix(l, "item"@);
            &&& (category_of(l) == TemplateCategory::Button <==> button)
            &&& (category_of(l) == TemplateCategory::Icon <==> !button && icon)
            &&& (category_of(l) == TemplateCategory::UI <==> !button && !icon && ui)
            &&& (category_of(l) == TemplateCategory::Text <==> !button && !icon && !ui && text)
            &&& (category_of(l) == TemplateCategory::GameObject <==> !button && !icon && !ui
                && !text && object)
            &&& (category_of(l) == TemplateCategory::Unknown <==> !button && !icon && !ui && !text
                && !object)
        }),
{
}

/// One match target of a template image.
#[derive(Debug)]
pub struct Template {
    pub path: String,
    /// Stem of the image file, e.g. `login` for `login.png`.
    pub name: String,
    /// Name of the match target within the sidecar.
    pub match_target_name: String,
    pub search_region: SearchRegion,
    /// Left edge of the crop within the template image.
    pub crop_x: u32,
    /// Top edge of the crop within the template image.
    pub crop_y: u32,
    /// Width of the crop matched.
    pub width: u32,
    /// Height of the crop matched.
    pub height: u32,
    pub category: TemplateCategory,
}

/// A template as plain values.
pub struct TemplateView {
    pub path: Seq<char>,
    pub name: Seq<char>,
    pub match_target_name: Seq<char>,
    pub search_region: RegionView,
    pub crop_x: u32,
    pub crop_y: u32,
    pub width: u32,
    pub height: u32,
    pub category: TemplateCategory,
}

impl View for Template {
    type V = TemplateView;

    open spec fn view(&self) -> TemplateView {
        TemplateView {
            path: self.path@,
            name: self.name@,
            match_target_name: self.match_target_name@,
            search_region: self.search_region@,
            crop_x: self.crop_x,
            crop_y: self.crop_y,
            width: self.width,
            height: self.height,
            category: self.category,
        }
    }
}

impl Clone for Template {
    fn clone(&self) -> (r: Self)
        ensures
            r == *self,
    {
        Template {
            path: self.path.clone(),
            name: self.name.clone(),
            match_target_name: self.match_target_name.clone(),
            search_region: self.search_region.clone(),
            crop_x: self.crop_x,
            crop_y: self.crop_y,
            width: self.width,
            height: self.height,
            category: self.category,
        }
    }
}

/// The stem of the file a path names (`std::path::Path::file_stem`), or
/// `None` when the path names no file.
pub uninterp spec fn path_file_stem(path: Seq<char>) -> Option<Seq<char>>;

/// `Path::file_stem`, on paths given as text. Claims only that the result
/// is `path_file_stem` of the argument, a function of it alone.
#[verifier::external_body]
fn file_stem(path: &str) -> (r: Option<String>)
    ensures
        match r {
            Some(s) => path_file_stem(path@) == Some(s@),
            None => path_file_stem(path@) is None,
        },
{
    match std::path::Path::new(path).file_stem() {
        Some(stem) => Some(stem.to_string_lossy().into_owned()),
        None => None,
    }
}

/// The error for a crop reaching past the image.
pub open spec fn crop_error(name: Seq<char>, c: CropRect, image_width: u32, image_height: u32) -> Seq<
    char,
> {
    "MatchTarget '"@ + name + "' crop ["@ + decimal(c.x as nat) + ","@ + decimal(c.y as nat) + ","@
        + decimal(c.width as nat) + ","@ + decimal(c.height as nat) + "] exceeds image bounds ("@
        + decimal(image_width as nat) + "x"@ + decimal(image_height as nat) + ")"@
}

/// The template of match target `target` of the image at `path`, whose
/// size is `image_width` by `image_height`; an error when the crop reaches
/// past the image.
pub open spec fn template_of(
    path: Seq<char>,
    region: RegionView,
    target: (Seq<char>, CropRect),
    image_width: u32,
    image_height: u32,
) -> Result<TemplateView, Seq<char>> {
    let c = target.1;
    if c.x + c.width > image_width || c.y + c.height > image_height {
        Err(crop_error(target.0, c, image_width, image_height))
    } else {
        Ok(
            TemplateView {
                path,
                name: match path_file_stem(path) {
                    Some(s) => s,
                    None => "unknown"@,
                },
                match_target_name: target.0,
                search_region: region,
                crop_x: c.x,
                crop_y: c.y,
                width: c.width,
                height: c.height,
                category: category_of(lowercase_of(target.0)),
            },
        )
    }
}

/// A template can be matched when its region and its crop are not empty.
pub open spec fn dims_ok(t: TemplateView) -> bool {
    t.search_region.width > 0 && t.search_region.height > 0 && t.width > 0 && t.height > 0
}

fn push_str(v: &mut Vec<char>, s: &str)
    ensures
        final(v)@ == old(v)@ + s@,
{
    let mut cs = to_chars(s);
    v.append(&mut cs);
}

fn push_decimal(v: &mut Vec<char>, n: u32)
    ensures
        final(v)@ == old(v)@ + decimal(n as nat),
{
    let mut cs = decimal_chars(n as u128);
    v.append(&mut cs);
}

fn crop_error_text(name: &str, c: CropRect, image_width: u32, image_height: u32) -> (r: String)
    ensures
        r@ == crop_error(name@, c, image_width, image_height),
{
    let mut v: Vec<char> = Vec::new();
    push_str(&mut v, "MatchTarget '");
    push_str(&mut v, name);
    push_str(&mut v, "' crop [");
    push_decimal(&mut v, c.x);
    push_str(&mut v, ",");
    push_decimal(&mut v, c.y);
    push_str(&mut v, ",");
    push_decimal(&mut v, c.width);
    push_str(&mut v, ",");
    push_decimal(&mut v, c.height);
    push_str(&mut v, "] exceeds image bounds (");
    push_decimal(&mut v, image_width);
    push_str(&mut v, "x");
    push_decimal(&mut v, image_height);
    push_str(&mut v, ")");
    assert(v@ =~= crop_error(name@, c, image_width, image_height));
    from_chars(&v)
}

impl Template {
    /// The template of match target `target` of the image at `path`, of
    /// size `image_width` by `image_height`; an error when the crop reaches
    /// past the image.
    pub fn from_match_target(
        path: String,
        search_region: SearchRegion,
        target: &MatchTargetDef,
        image_width: u32,
        image_height: u32,
    ) -> (r: Result<Self, String>)
        ensures
            match r {
                Ok(t) => template_of(
                    path@,
                    search_region@,
                    target@,
                    image_width,
                    image_height,
                ) == Ok::<TemplateView, Seq<char>>(t@),
                Err(e) => template_of(
                    path@,
                    search_region@,
                    target@,
                    image_width,
                    image_height,
                ) == Err::<TemplateView, Seq<char>>(e@),
            },
    {
        let crop = target.crop;
        if crop.x as u64 + crop.width as u64 > image_width as u64 || crop.y as u64
            + crop.height as u64 > image_height as u64 {
            return Err(
                crop_error_text(target.name.as_str(), crop, image_width, image_height),
            );
        }
        let name = match file_stem(path.as_str()) {
            Some(s) => s,
            None => "unknown".to_owned(),
        };
        let category = Self::determine_category(target.name.as_str());
        Ok(
            Template {
                path,
                name,
                match_target_name: target.name.clone(),
                search_region,
                crop_x: crop.x,
                crop_y: crop.y,
                width: crop.width,
                height: crop.height,
                category,
            },
        )
    }

    /// The category a match target's name suggests, read case-insensitively.
    pub fn determine_category(name: &str) -> (r: TemplateCategory)
        ensures
            r == category_of(lowercase_of(name@)),
    {
        let lower = to_lowercase(name);
        let l = to_chars(lower.as_str());
        if contains_str(&l, "button") || contains_str(&l, "btn") {
            TemplateCategory::Button
        } else if contains_str(&l, "icon") {
            TemplateCategory::Icon
        } else if contains_str(&l, "ui") || contains_str(&l, "menu") {
            TemplateCategory::UI
        } else if contains_str(&l, "text") || contains_str(&l, "label") {
            TemplateCategory::Text
        } else if contains_str(&l, "object") || contains_str(&l, "item") {
            TemplateCategory::GameObject
        } else {
            TemplateCategory::Unknown
        }
    }

    /// Whether the template can be matched, given whether its image file
    /// exists.
    pub fn is_valid_given(&self, file_exists: bool) -> (r: bool)
        ensures
            r == (file_exists && dims_ok(self@)),
    {
        file_exists && self.search_region.is_valid() && self.width > 0 && self.height > 0
    }

    /// Whether the template can be matched: its image file exists and its
    /// region and crop are not empty. Only the file system can tell whether
    /// the file exists.
    pub fn is_valid(&self) -> (r: bool)
        ensures
            r ==> dims_ok(self@),
    {
        let exists = path_exists(self.path.as_str());
        self.is_valid_given(exists)
    }

    /// Where to tap for a match whose top left corner is at
    /// (`match_x`, `match_y`): the centre of the crop, rounded towards the
    /// top left.
    pub fn get_tap_coordinates(&self, match_x: u32, match_y: u32) -> (r: (u32, u32))
        requires
            match_x + self.width / 2 <= u32::MAX,
            match_y + self.height / 2 <= u32::MAX,
        ensures
            r == ((match_x + self.width / 2) as u32, (match_y + self.height / 2) as u32),
    {
        (match_x + self.width / 2, match_y + self.height / 2)
    }

    /// Whether the tap for a match at (`match_x`, `match_y`) lands on a
    /// `screen_width` by `screen_height` screen.
    pub fn tap_within_bounds(
        &self,
        match_x: u32,
        match_y: u32,
        screen_width: u32,
        screen_height: u32,
    ) -> (r: bool)
        requires
            match_x + self.width / 2 <= u32::MAX,
            match_y + self.height / 2 <= u32::MAX,
        ensures
            r == (match_x + self.width / 2 < screen_width && match_y + self.height / 2
                < screen_height),
    {
        let (tap_x, tap_y) = self.get_tap_coordinates(match_x, match_y);
        tap_x < screen_width && tap_y < screen_height
    }
}

// ------------------------------------------------------------------
// Order of templates
// ------------------------------------------------------------------

/// `a` comes before `b` in the lexicographic order of characters (the order
/// of `String`'s comparison).
pub open spec fn seq_lt(a: Seq<char>, b: Seq<char>) -> bool
    decreases a.len(),
{
    if a.len() == 0 {
        b.len() > 0
    } else if b.len() == 0 {
        false
    } else if a[0] < b[0] {
        true
    } else if a[0] > b[0] {
        false
    } else {
        seq_lt(a.drop_first(), b.drop_first())
    }
}

pub proof fn lemma_seq_lt_irreflexive(a: Seq<char>)
    ensures
        !seq_lt(a, a),
    decreases a.len(),
{
    if a.len() > 0 {
        lemma_seq_lt_irreflexive(a.drop_first());
    }
}

pub proof fn lemma_seq_lt_transitive(a: Seq<char>, b: Seq<char>, c: Seq<char>)
    requires
        seq_lt(a, b),
        seq_lt(b, c),
    ensures
        seq_lt(a, c),
    decreases a.len(),
{
    if a.len() > 0 && b.len() > 0 && c.len() > 0 && a[0] == b[0] && b[0] == c[0] {
        lemma_seq_lt_transitive(a.drop_first(), b.drop_first(), c.drop_first());
    }
}

pub proof fn lemma_seq_lt_total(a: Seq<char>, b: Seq<char>)
    ensures
        a == b || seq_lt(a, b) || seq_lt(b, a),
    decreases a.len(),
{
    if a.len() > 0 && b.len() > 0 && a[0] == b[0] {
        lemma_seq_lt_total(a.drop_first(), b.drop_first());
        if a.drop_first() == b.drop_first() {
            assert(a =~= b) by {
                assert(a.drop_first().len() == b.drop_first().len());
                assert(a.len() == b.len());
                assert forall|k: int| 0 <= k < a.len() implies a[k] == b[k] by {
                    if k > 0 {
                        assert(a[k] == a.drop_first()[k - 1]);
                        assert(b[k] == b.drop_first()[k - 1]);
                    }
                }
            }
        }
    } else if a.len() == 0 && b.len() == 0 {
        assert(a =~= b);
    }
}

/// Templates are listed by category, then by match target name.
pub open spec fn key_lt(a: TemplateView, b: TemplateView) -> bool {
    category_rank(a.category) < category_rank(b.category) || (category_rank(a.category)
        == category_rank(b.category) && seq_lt(a.match_target_name, b.match_target_name))
}

/// Neither of two templates comes before the other.
pub open spec fn key_same(a: TemplateView, b: TemplateView) -> bool {
    category_rank(a.category) == category_rank(b.category) && a.match_target_name
        == b.match_target_name
}

pub proof fn lemma_key_order(a: TemplateView, b: TemplateView, c: TemplateView)
    ensures
        !key_lt(a, a),
        key_lt(a, b) && key_lt(b, c) ==> key_lt(a, c),
        key_lt(a, b) || key_lt(b, a) || key_same(a, b),
        key_same(a, b) ==> !key_lt(a, b),
        key_lt(a, b) && key_same(b, c) ==> key_lt(a, c),
{
    lemma_seq_lt_irreflexive(a.match_target_name);
    lemma_seq_lt_total(a.match_target_name, b.match_target_name);
    if seq_lt(a.match_target_name, b.match_target_name) && seq_lt(
        b.match_target_name,
        c.match_target_name,
    ) {
        lemma_seq_lt_transitive(a.match_target_name, b.match_target_name, c.match_target_name);
    }
}

/// No template comes before one listed earlier.
pub open spec fn is_sorted(s: Seq<TemplateView>) -> bool {
    forall|i: int, j: int| 0 <= i < j < s.len() ==> !key_lt(#[trigger] s[j], #[trigger] s[i])
}

/// Where `x` goes among sorted templates: before the first that comes after
/// it, so that equals keep their order.
pub open spec fn insert_pos(s: Seq<TemplateView>, x: TemplateView) -> int
    decreases s.len(),
{
    if s.len() == 0 {
        0
    } else if key_lt(x, s[0]) {
        0
    } else {
        1 + insert_pos(s.drop_first(), x)
    }
}

pub proof fn lemma_insert_pos(s: Seq<TemplateView>, x: TemplateView, i: int)
    requires
        0 <= i <= s.len(),
        forall|k: int| 0 <= k < i ==> !key_lt(x, #[trigger] s[k]),
        i == s.len() || key_lt(x, s[i]),
    ensures
        insert_pos(s, x) == i,
    decreases s.len(),
{
    if s.len() > 0 && !key_lt(x, s[0]) {
        assert forall|k: int| 0 <= k < i - 1 implies !key_lt(x, #[trigger] s.drop_first()[k]) by {
            assert(s.drop_first()[k] == s[k + 1]);
        }
        lemma_insert_pos(s.drop_first(), x, i - 1);
    }
}

/// The templates in the order they are listed: sorted by category and
/// match target name, equals keeping the order they came in.
pub open spec fn sort_spec(s: Seq<TemplateView>) -> Seq<TemplateView>
    decreases s.len(),
{
    if s.len() == 0 {
        s
    } else {
        let r = sort_spec(s.drop_last());
        r.insert(insert_pos(r, s.last()), s.last())
    }
}

pub proof fn lemma_insert_keeps_sorted(s: Seq<TemplateView>, x: TemplateView, p: int)
    requires
        is_sorted(s),
        0 <= p <= s.len(),
        forall|k: int| 0 <= k < p ==> !key_lt(x, #[trigger] s[k]),
        p == s.len() || key_lt(x, s[p]),
    ensures
        is_sorted(s.insert(p, x)),
{
    let t = s.insert(p, x);
    assert forall|i: int, j: int| 0 <= i < j < t.len() implies !key_lt(
        #[trigger] t[j],
        #[trigger] t[i],
    ) by {
        if j < p {
            assert(t[i] == s[i] && t[j] == s[j]);
        } else if j == p {
            assert(t[i] == s[i]);
        } else if i == p {
            assert(t[j] == s[j - 1]);
            lemma_key_order(s[p], s[j - 1], x);
            lemma_key_order(x, s[p], s[j - 1]);
            lemma_key_order(s[j - 1], x, s[p]);
            if j - 1 > p {
                assert(!key_lt(s[j - 1], s[p]));
            }
        } else if i < p {
            assert(t[i] == s[i] && t[j] == s[j - 1]);
        } else {
            assert(t[i] == s[i - 1] && t[j] == s[j - 1]);
        }
    }
}

/// Listing templates puts them in order, and keeps every one of them.
pub proof fn law_sort_orders_and_keeps(s: Seq<TemplateView>)
    ensures
        is_sorted(sort_spec(s)),
        sort_spec(s).to_multiset() == s.to_multiset(),
        sort_spec(s).len() == s.len(),
    decreases s.len(),
{
    if s.len() > 0 {
        let r = sort_spec(s.drop_last());
        law_sort_orders_and_keeps(s.drop_last());
        let x = s.last();
        let p = insert_pos(r, x);
        lemma_insert_pos_facts(r, x);
        lemma_insert_keeps_sorted(r, x, p);
        vstd::seq_lib::to_multiset_insert(r, p, x);
        vstd::seq_lib::to_multiset_build(s.drop_last(), x);
        assert(s.drop_last().push(x) =~= s);
    }
}

pub proof fn lemma_insert_pos_facts(s: Seq<TemplateView>, x: TemplateView)
    ensures
        0 <= insert_pos(s, x) <= s.len(),
        forall|k: int| 0 <= k < insert_pos(s, x) ==> !key_lt(x, #[trigger] s[k]),
        insert_pos(s, x) == s.len() || key_lt(x, s[insert_pos(s, x)]),
    decreases s.len(),
{
    if s.len() > 0 && !key_lt(x, s[0]) {
        lemma_insert_pos_facts(s.drop_first(), x);
        assert forall|k: int| 0 <= k < insert_pos(s, x) implies !key_lt(x, #[trigger] s[k]) by {
            if k > 0 {
                assert(s[k] == s.drop_first()[k - 1]);
            }
        }
    }
}

fn name_less(a: &[char], b: &[char]) -> (r: bool)
    ensures
        r == seq_lt(a@, b@),
{
    let mut i: usize = 0;
    assert(a@.skip(0) =~= a@);
    assert(b@.skip(0) =~= b@);
    while i < a.len() && i < b.len()
        invariant
            i <= a.len(),
            i <= b.len(),
            seq_lt(a@, b@) == seq_lt(a@.skip(i as int), b@.skip(i as int)),
        decreases a.len() - i,
    {
        let ghost sa = a@.skip(i as int);
        let ghost sb = b@.skip(i as int);
        assert(sa[0] == a@[i as int]);
        assert(sb[0] == b@[i as int]);
        if a[i] < b[i] {
            return true;
        }
        if a[i] > b[i] {
            return false;
        }
        assert(sa.drop_first() =~= a@.skip(i + 1));
        assert(sb.drop_first() =~= b@.skip(i + 1));
        i += 1;
    }
    i < b.len()
}

fn key_less(a: &Template, b: &Template) -> (r: bool)
    ensures
        r == key_lt(a@, b@),
{
    let ra = category_rank_exec(a.category);
    let rb = category_rank_exec(b.category);
    if ra < rb {
        true
    } else if ra > rb {
        false
    } else {
        let an = to_chars(a.match_target_name.as_str());
        let bn = to_chars(b.match_target_name.as_str());
        name_less(&an, &bn)
    }
}

/// Template views of templates.
pub open spec fn template_views(v: Seq<Template>) -> Seq<TemplateView> {
    v.map_values(|t: Template| t@)
}

/// Template views of template references.
pub open spec fn ref_views(v: Seq<&Template>) -> Seq<TemplateView> {
    v.map_values(|t: &Template| t@)
}

fn find_insert_pos(out: &Vec<Template>, x: &Template) -> (r: usize)
    ensures
        r == insert_pos(template_views(out@), x@),
{
    let ghost s = template_views(out@);
    let mut i: usize = 0;
    while i < out.len()
        invariant
            i <= out@.len(),
            s == template_views(out@),
            forall|k: int| 0 <= k < i ==> !key_lt(x@, #[trigger] s[k]),
        decreases out@.len() - i,
    {
        if key_less(x, &out[i]) {
            proof {
                lemma_insert_pos(s, x@, i as int);
            }
            return i;
        }
        i += 1;
    }
    proof {
        lemma_insert_pos(s, x@, i as int);
    }
    i
}

/// The templates in listing order.
fn sort_templates(v: &Vec<Template>) -> (r: Vec<Template>)
    ensures
        template_views(r@) == sort_spec(template_views(v@)),
{
    let ghost s = template_views(v@);
    let mut out: Vec<Template> = Vec::new();
    let mut i: usize = 0;
    assert(s.take(0) =~= Seq::<TemplateView>::empty());
    assert(template_views(out@) =~= Seq::<TemplateView>::empty());
    while i < v.len()
        invariant
            i <= v@.len(),
            s == template_views(v@),
            template_views(out@) == sort_spec(s.take(i as int)),
        decreases v@.len() - i,
    {
        let x = v[i].clone();
        let p = find_insert_pos(&out, &x);
        let ghost before = template_views(out@);
        proof {
            assert(s.take(i + 1).drop_last() =~= s.take(i as int));
            assert(s.take(i + 1).last() == x@);
            lemma_insert_pos_facts(before, x@);
        }
        out.insert(p, x);
        assert(template_views(out@) =~= before.insert(p as int, x@));
        i += 1;
    }
    assert(s.take(v@.len() as int) =~= s);
    out
}

// ------------------------------------------------------------------
// Loading templates
// ------------------------------------------------------------------

/// An image file found among the templates, with what was read from it:
/// its sidecar and, when the image could be read, its size.
#[derive(Debug)]
pub struct TemplateSource {
    /// The file's name, e.g. `login-[0,0,100,100].png`.
    pub file_name: String,
    /// The file's path.
    pub file_path: String,
    pub sidecar: TemplateSidecar,
    /// Width and height of the image; `None` when it could not be read.
    pub image_size: Option<(u32, u32)>,
}

/// A template source as plain values.
pub struct SourceView {
    pub file_name: Seq<char>,
    pub file_path: Seq<char>,
    pub targets: Seq<(Seq<char>, CropRect)>,
    pub image_size: Option<(u32, u32)>,
}

impl View for TemplateSource {
    type V = SourceView;

    open spec fn view(&self) -> SourceView {
        SourceView {
            file_name: self.file_name@,
            file_path: self.file_path@,
            targets: self.sidecar@,
            image_size: self.image_size,
        }
    }
}

pub open spec fn source_views(v: Seq<TemplateSource>) -> Seq<SourceView> {
    v.map_values(|s: TemplateSource| s@)
}

/// The templates the targets of one image give: those whose crop fits the
/// image and that can be matched, in target order. An image that could not
/// be read gives none.
pub open spec fn templates_of_targets(
    path: Seq<char>,
    region: RegionView,
    targets: Seq<(Seq<char>, CropRect)>,
    image_size: Option<(u32, u32)>,
) -> Seq<TemplateView>
    decreases targets.len(),
{
    if targets.len() == 0 {
        seq![]
    } else {
        let rest = templates_of_targets(path, region, targets.drop_last(), image_size);
        match image_size {
            Some((w, h)) => match template_of(path, region, targets.last(), w, h) {
                Ok(t) => if dims_ok(t) {
                    rest.push(t)
                } else {
                    rest
                },
                Err(_) => rest,
            },
            None => rest,
        }
    }
}

/// The region a file's templates are looked for in: the named region of
/// that name, or the region its name describes.
pub open spec fn region_for(rm: RegionManagerView, file_name: Seq<char>) -> RegionView {
    if rm.regions.dom().contains(file_name) {
        rm.regions[file_name]
    } else {
        region_of_filename(file_name, rm.screen_width, rm.screen_height)
    }
}

/// The templates of every `.png` source, in source order.
pub open spec fn templates_of_sources(sources: Seq<SourceView>, rm: RegionManagerView) -> Seq<
    TemplateView,
>
    decreases sources.len(),
{
    if sources.len() == 0 {
        seq![]
    } else {
        let src = sources.last();
        templates_of_sources(sources.drop_last(), rm) + if has_suffix(src.file_name, ".png"@) {
            templates_of_targets(src.file_path, region_for(rm, src.file_name), src.targets, src.image_size)
        } else {
            seq![]
        }
    }
}

/// The regions of a screen of the given size.
pub open spec fn screen_regions(screen_width: u32, screen_height: u32) -> RegionManagerView {
    RegionManagerView {
        regions: common_regions(screen_width, screen_height),
        screen_width,
        screen_height,
    }
}

/// The templates of one source, in target order.
fn templates_of_source(src: &TemplateSource, region: &SearchRegion) -> (r: Vec<Template>)
    ensures
        template_views(r@) == templates_of_targets(
            src@.file_path,
            region@,
            src@.targets,
            src@.image_size,
        ),
{
    let ghost ts = src@.targets;
    let mut out: Vec<Template> = Vec::new();
    let mut j: usize = 0;
    assert(ts.take(0) =~= Seq::<(Seq<char>, CropRect)>::empty());
    assert(template_views(out@) =~= Seq::<TemplateView>::empty());
    while j < src.sidecar.match_targets.len()
        invariant
            j <= src.sidecar.match_targets@.len(),
            ts == src@.targets,
            ts.len() == src.sidecar.match_targets@.len(),
            template_views(out@) == templates_of_targets(
                src@.file_path,
                region@,
                ts.take(j as int),
                src@.image_size,
            ),
        decreases src.sidecar.match_targets@.len() - j,
    {
        let target = &src.sidecar.match_targets[j];
        proof {
            assert(ts.take(j + 1).drop_last() =~= ts.take(j as int));
            assert(ts.take(j + 1).last() == target@);
        }
        match src.image_size {
            Some((w, h)) => {
                match Template::from_match_target(
                    src.file_path.clone(),
                    region.clone(),
                    target,
                    w,
                    h,
                ) {
                    Ok(t) => {
                        // The image was read to learn its size, so its file exists.
                        if t.is_valid_given(true) {
                            let ghost before = template_views(out@);
                            out.push(t);
                            assert(template_views(out@) =~= before.push(t@));
                        }
                    },
                    Err(_) => {},
                }
            },
            None => {},
        }
        j += 1;
    }
    assert(ts.take(ts.len() as int) =~= ts);
    out
}

/// Templates: the first of a name, and those of a category.
pub open spec fn first_named(s: Seq<TemplateView>, name: Seq<char>) -> int
    decreases s.len(),
{
    if s.len() == 0 {
        0
    } else if s[0].match_target_name == name {
        0
    } else {
        1 + first_named(s.drop_first(), name)
    }
}

pub proof fn lemma_first_named(s: Seq<TemplateView>, name: Seq<char>, i: int)
    requires
        0 <= i <= s.len(),
        forall|k: int| 0 <= k < i ==> (#[trigger] s[k]).match_target_name != name,
        i == s.len() || s[i].match_target_name == name,
    ensures
        first_named(s, name) == i,
    decreases s.len(),
{
    if s.len() > 0 && s[0].match_target_name != name {
        assert forall|k: int| 0 <= k < i - 1 implies (
        #[trigger] s.drop_first()[k]).match_target_name != name by {
            assert(s.drop_first()[k] == s[k + 1]);
        }
        lemma_first_named(s.drop_first(), name, i - 1);
    }
}

/// The templates of category `c`, in order.
pub open spec fn of_category(s: Seq<TemplateView>, c: TemplateCategory) -> Seq<TemplateView>
    decreases s.len(),
{
    if s.len() == 0 {
        s
    } else {
        let rest = of_category(s.drop_last(), c);
        if s.last().category == c {
            rest.push(s.last())
        } else {
            rest
        }
    }
}

/// A template manager as plain values.
pub struct TemplateManagerView {
    pub templates: Seq<TemplateView>,
    pub screen_width: u32,
    pub screen_height: u32,
}

/// The loaded templates, for one screen size.
pub struct TemplateManager {
    templates: Vec<Template>,
    screen_width: u32,
    screen_height: u32,
}

impl View for TemplateManager {
    type V = TemplateManagerView;

    closed spec fn view(&self) -> TemplateManagerView {
        TemplateManagerView {
            templates: template_views(self.templates@),
            screen_width: self.screen_width,
            screen_height: self.screen_height,
        }
    }
}

impl TemplateManager {
    /// No templates, for a `screen_width` by `screen_height` screen.
    pub fn new(screen_width: u32, screen_height: u32) -> (r: Self)
        ensures
            r@ == (TemplateManagerView { templates: seq![], screen_width, screen_height }),
    {
        let r = TemplateManager { templates: Vec::new(), screen_width, screen_height };
        assert(r@.templates =~= Seq::<TemplateView>::empty());
        r
    }

    /// Adds the templates of every `.png` source (one per match target whose
    /// crop fits its image and that can be matched) and lists all templates
    /// by category and match target name. Returns how many were added.
    pub fn load_templates_from_sources(&mut self, sources: &Vec<TemplateSource>) -> (r: usize)
        requires
            old(self)@.screen_width * 7 <= u32::MAX,
            old(self)@.screen_height * 19 <= u32::MAX,
        ensures
            ({
                let added = templates_of_sources(
                    source_views(sources@),
                    screen_regions(old(self)@.screen_width, old(self)@.screen_height),
                );
                &&& final(self)@.templates == sort_spec(old(self)@.templates + added)
                &&& r == added.len()
            }),
            final(self)@.screen_width == old(self)@.screen_width,
            final(self)@.screen_height == old(self)@.screen_height,
    {
        let rm = RegionManager::new(self.screen_width, self.screen_height);
        let ghost rmv = rm@;
        let ghost sv = source_views(sources@);
        let mut added: Vec<Template> = Vec::new();
        let mut i: usize = 0;
        assert(sv.take(0) =~= Seq::<SourceView>::empty());
        assert(template_views(added@) =~= Seq::<TemplateView>::empty());
        while i < sources.len()
            invariant
                i <= sources@.len(),
                sv == source_views(sources@),
                rm.wf(),
                rm@ == rmv,
                rmv == screen_regions(self.screen_width, self.screen_height),
                template_views(added@) == templates_of_sources(sv.take(i as int), rmv),
            decreases sources@.len() - i,
        {
            let src = &sources[i];
            let ghost before = template_views(added@);
            proof {
                assert(sv.take(i + 1).drop_last() =~= sv.take(i as int));
                assert(sv.take(i + 1).last() == src@);
            }
            let name = to_chars(src.file_name.as_str());
            if ends_with_str(&name, ".png") {
                let region = rm.resolve_region(src.file_name.as_str());
                let mut more = templates_of_source(src, &region);
                added.append(&mut more);
                assert(template_views(added@) =~= before + templates_of_targets(
                    src@.file_path,
                    region_for(rmv, src@.file_name),
                    src@.targets,
                    src@.image_size,
                ));
            } else {
                assert(before + Seq::<TemplateView>::empty() =~= before);
            }
            i += 1;
        }
        assert(sv.take(sv.len() as int) =~= sv);
        let count = added.len();
        let mut all: Vec<Template> = Vec::new();
        all.append(&mut self.templates);
        all.append(&mut added);
        assert(template_views(all@) =~= old(self)@.templates + templates_of_sources(sv, rmv));
        self.templates = sort_templates(&all);
        count
    }

    /// All loaded templates, in listing order.
    pub fn get_templates(&self) -> (r: &[Template])
        ensures
            template_views(r@) == self@.templates,
    {
        self.templates.as_slice()
    }

    /// The templates of category `category`, in listing order.
    pub fn get_templates_by_category(&self, category: TemplateCategory) -> (r: Vec<&Template>)
        ensures
            ref_views(r@) == of_category(self@.templates, category),
    {
        let ghost s = self@.templates;
        let mut out: Vec<&Template> = Vec::new();
        let mut i: usize = 0;
        assert(s.take(0) =~= Seq::<TemplateView>::empty());
        assert(ref_views(out@) =~= Seq::<TemplateView>::empty());
        while i < self.templates.len()
            invariant
                i <= self.templates@.len(),
                s == self@.templates,
                s == template_views(self.templates@),
                ref_views(out@) == of_category(s.take(i as int), category),
            decreases self.templates@.len() - i,
        {
            let t = &self.templates[i];
            proof {
                assert(s.take(i + 1).drop_last() =~= s.take(i as int));
                assert(s.take(i + 1).last() == t@);
            }
            if t.category == category {
                let ghost before = ref_views(out@);
                out.push(t);
                assert(ref_views(out@) =~= before.push(t@));
            }
            i += 1;
        }
        assert(s.take(s.len() as int) =~= s);
        out
    }

    /// The first template of match target `name`, if any.
    pub fn get_template_by_target_name(&self, name: &str) -> (r: Option<&Template>)
        ensures
            match r {
                Some(t) => first_named(self@.templates, name@) < self@.templates.len() && t@
                    == self@.templates[first_named(self@.templates, name@)],
                None => first_named(self@.templates, name@) == self@.templates.len(),
            },
    {
        let ghost s = self@.templates;
        let target = to_chars(name);
        let mut i: usize = 0;
        while i < self.templates.len()
            invariant
                i <= self.templates@.len(),
                s == template_views(self.templates@),
                target@ == name@,
                forall|k: int| 0 <= k < i ==> (#[trigger] s[k]).match_target_name != name@,
            decreases self.templates@.len() - i,
        {
            let key = to_chars(self.templates[i].match_target_name.as_str());
            if eq_chars(&key, &target) {
                proof {
                    lemma_first_named(s, name@, i as int);
                }
                return Some(&self.templates[i]);
            }
            i += 1;
        }
        proof {
            lemma_first_named(s, name@, i as int);
        }
        None
    }

    /// Forgets every template.
    pub fn clear(&mut self)
        ensures
            final(self)@ == (TemplateManagerView { templates: seq![], ..old(self)@ }),
    {
        self.templates.clear();
        assert(self@.templates =~= Seq::<TemplateView>::empty());
    }

    /// How many templates are loaded.
    pub fn count(&self) -> (r: usize)
        ensures
            r == self@.templates.len(),
    {
        self.templates.len()
    }

    /// Forgets every template and loads those of `sources`; returns how
    /// many were loaded.
    pub fn reload_templates(&mut self, sources: &Vec<TemplateSource>) -> (r: usize)
        requires
            old(self)@.screen_width * 7 <= u32::MAX,
            old(self)@.screen_height * 19 <= u32::MAX,
        ensures
            ({
                let loaded = templates_of_sources(
                    source_views(sources@),
                    screen_regions(old(self)@.screen_width, old(self)@.screen_height),
                );
                &&& final(self)@.templates == sort_spec(loaded)
                &&& r == loaded.len()
            }),
            final(self)@.screen_width == old(self)@.screen_width,
            final(self)@.screen_height == old(self)@.screen_height,
    {
        self.clear();
        let r = self.load_templates_from_sources(sources);
        assert(Seq::<TemplateView>::empty() + templates_of_sources(
            source_views(sources@),
            screen_regions(old(self)@.screen_width, old(self)@.screen_height),
        ) =~= templates_of_sources(
            source_views(sources@),
            screen_regions(old(self)@.screen_width, old(self)@.screen_height),
        ));
        r
    }
}

pub proof fn lemma_target_templates_usable(
    path: Seq<char>,
    region: RegionView,
    targets: Seq<(Seq<char>, CropRect)>,
    image_size: Option<(u32, u32)>,
)
    ensures
        forall|i: int|
            0 <= i < templates_of_targets(path, region, targets, image_size).len() ==> dims_ok(
                #[trigger] templates_of_targets(path, region, targets, image_size)[i],
            ),
    decreases targets.len(),
{
    if targets.len() > 0 {
        lemma_target_templates_usable(path, region, targets.drop_last(), image_size);
        let rest = templates_of_targets(path, region, targets.drop_last(), image_size);
        let all = templates_of_targets(path, region, targets, image_size);
        assert forall|i: int| 0 <= i < all.len() implies dims_ok(#[trigger] all[i]) by {
            if i < rest.len() {
                assert(all[i] == rest[i]);
            }
        }
    }
}

/// Every template loaded can be matched: its search region and its crop
/// are not empty.
pub proof fn law_loaded_templates_usable(sources: Seq<SourceView>, rm: RegionManagerView)
    ensures
        forall|i: int|
            0 <= i < templates_of_sources(sources, rm).len() ==> dims_ok(
                #[trigger] templates_of_sources(sources, rm)[i],
            ),
    decreases sources.len(),
{
    if sources.len() > 0 {
        let src = sources.last();
        law_loaded_templates_usable(sources.drop_last(), rm);
        lemma_target_templates_usable(
            src.file_path,
            region_for(rm, src.file_name),
            src.targets,
            src.image_size,
        );
        let a = templates_of_sources(sources.drop_last(), rm);
        assert forall|i: int| 0 <= i < templates_of_sources(sources, rm).len() implies dims_ok(
            #[trigger] templates_of_sources(sources, rm)[i],
        ) by {
            if i >= a.len() && has_suffix(src.file_name, ".png"@) {
                let b = templates_of_targets(
                    src.file_path,
                    region_for(rm, src.file_name),
                    src.targets,
                    src.image_size,
                );
                assert(templates_of_sources(sources, rm)[i] == b[i - a.len()]);
            }
        }
    }
}

/// `t` is a template of the image at `path` for one of `targets`.
pub open spec fn made_from(t: TemplateView, path: Seq<char>, targets: Seq<(Seq<char>, CropRect)>) -> bool {
    t.path == path && exists|k: int| 0 <= k < targets.len() && #[trigger] targets[k].0 == t.match_target_name
}

/// `t` is a template of a `.png` source, for one of its targets.
pub open spec fn made_from_sources(t: TemplateView, sources: Seq<SourceView>) -> bool {
    exists|j: int|
        0 <= j < sources.len() && has_suffix(sources[j].file_name, ".png"@) && made_from(
            t,
            #[trigger] sources[j].file_path,
            sources[j].targets,
        )
}

pub proof fn lemma_target_templates_made_from(
    path: Seq<char>,
    region: RegionView,
    targets: Seq<(Seq<char>, CropRect)>,
    image_size: Option<(u32, u32)>,
)
    ensures
        forall|i: int|
            0 <= i < templates_of_targets(path, region, targets, image_size).len() ==> made_from(
                #[trigger] templates_of_targets(path, region, targets, image_size)[i],
                path,
                targets,
            ),
    decreases targets.len(),
{
    if targets.len() > 0 {
        let p = targets.drop_last();
        lemma_target_templates_made_from(path, region, p, image_size);
        let rest = templates_of_targets(path, region, p, image_size);
        let all = templates_of_targets(path, region, targets, image_size);
        assert forall|i: int| 0 <= i < all.len() implies made_from(#[trigger] all[i], path, targets) by {
            if i < rest.len() {
                assert(all[i] == rest[i]);
                assert(made_from(rest[i], path, p));
                let k = choose|k: int| 0 <= k < p.len() && #[trigger] p[k].0 == rest[i].match_target_name;
                assert(targets[k] == p[k]);
            } else {
                assert(targets[targets.len() - 1] == targets.last());
            }
        }
    }
}

/// Every loaded template belongs to a `.png` image with a sidecar: it has
/// that image's path and the name of one of the image's match targets.
pub proof fn law_templates_come_from_sidecars(sources: Seq<SourceView>, rm: RegionManagerView)
    ensures
        forall|i: int|
            0 <= i < templates_of_sources(sources, rm).len() ==> made_from_sources(
                #[trigger] templates_of_sources(sources, rm)[i],
                sources,
            ),
    decreases sources.len(),
{
    if sources.len() > 0 {
        let p = sources.drop_last();
        let src = sources.last();
        law_templates_come_from_sidecars(p, rm);
        lemma_target_templates_made_from(
            src.file_path,
            region_for(rm, src.file_name),
            src.targets,
            src.image_size,
        );
        let a = templates_of_sources(p, rm);
        let all = templates_of_sources(sources, rm);
        assert forall|i: int| 0 <= i < all.len() implies made_from_sources(#[trigger] all[i], sources) by {
            if i < a.len() {
                assert(all[i] == a[i]);
                assert(made_from_sources(a[i], p));
                let j = choose|j: int|
                    0 <= j < p.len() && has_suffix(p[j].file_name, ".png"@) && made_from(
                        a[i],
                        #[trigger] p[j].file_path,
                        p[j].targets,
                    );
                assert(sources[j] == p[j]);
            } else {
                let b = templates_of_targets(
                    src.file_path,
                    region_for(rm, src.file_name),
                    src.targets,
                    src.image_size,
                );
                if has_suffix(src.file_name, ".png"@) {
                    assert(all[i] == b[i - a.len()]);
                    assert(made_from(b[i - a.len()], src.file_path, src.targets));
                    assert(sources[sources.len() - 1] == src);
                } else {
                    assert(all.len() == a.len());
                }
            }
        }
    }
}

} // verus!
