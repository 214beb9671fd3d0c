//! Template sidecars: the match targets an image defines, kept in a JSON
//! file beside it (`login.json` for `login.png`).
use crate::text::{concat, eq_chars, to_chars};
use vstd::prelude::*;

verus! {

/// A rectangle in template-image pixels: the part of the image matched
/// against a screenshot.
#[derive(Debug, Clone, Copy, PartialEq, Eq, Structural)]
pub struct CropRect {
    pub x: u32,
    pub y: u32,
    pub width: u32,
    pub height: u32,
}

/// One named match target of a template image.
#[derive(Debug)]
pub struct MatchTargetDef {
    pub name: String,
    pub crop: CropRect,
}

impl View for MatchTargetDef {
    type V = (Seq<char>, CropRect);

    open spec fn view(&self) -> (Seq<char>, CropRect) {
        (self.name@, self.crop)
    }
}

impl Clone for MatchTargetDef {
    fn clone(&self) -> (r: Self)
        ensures
            r == *self,
    {
        MatchTargetDef { name: self.name.clone(), crop: self.crop }
    }
}

impl PartialEq for MatchTargetDef {
    fn eq(&self, other: &Self) -> (r: bool) {
        self.name == other.name && self.crop == other.crop
    }
}

impl vstd::std_specs::cmp::PartialEqSpecImpl for MatchTargetDef {
    open spec fn obeys_eq_spec() -> bool {
        true
    }

    open spec fn eq_spec(&self, other: &MatchTargetDef) -> bool {
        self@ == other@
    }
}

/// The match targets of one template image, in the order they were added.
#[derive(Debug)]
pub struct TemplateSidecar {
    pub match_targets: Vec<MatchTargetDef>,
}

/// Match targets as plain values.
pub open spec fn target_views(v: Seq<MatchTargetDef>) -> Seq<(Seq<char>, CropRect)> {
    v.map_values(|t: MatchTargetDef| t@)
}

impl View for TemplateSidecar {
    type V = Seq<(Seq<char>, CropRect)>;

    open spec fn view(&self) -> Seq<(Seq<char>, CropRect)> {
        target_views(self.match_targets@)
    }
}

impl Default for TemplateSidecar {
    fn default() -> (r: Self)
        ensures
            r@ == Seq::<(Seq<char>, CropRect)>::empty(),
    {
        let r = TemplateSidecar { match_targets: Vec::new() };
        assert(r@ =~= Seq::<(Seq<char>, CropRect)>::empty());
        r
    }
}

impl Clone for TemplateSidecar {
    fn clone(&self) -> (r: Self)
        ensures
            r@ == self@,
    {
        let r = TemplateSidecar { match_targets: self.match_targets.clone() };
        assert(r@ =~= self@);
        r
    }
}

/// Some target is named `name`.
pub open spec fn has_target(s: Seq<(Seq<char>, CropRect)>, name: Seq<char>) -> bool {
    exists|i: int| 0 <= i < s.len() && #[trigger] s[i].0 == name
}

/// No two targets share a name.
pub open spec fn names_distinct(s: Seq<(Seq<char>, CropRect)>) -> bool {
    forall|i: int, j: int| 0 <= i < j < s.len() ==> s[i].0 != s[j].0
}

/// The targets not named `name`, in order.
pub open spec fn without_target(s: Seq<(Seq<char>, CropRect)>, name: Seq<char>) -> Seq<
    (Seq<char>, CropRect),
>
    decreases s.len(),
{
    if s.len() == 0 {
        s
    } else {
        let rest = without_target(s.drop_last(), name);
        if s.last().0 == name {
            rest
        } else {
            rest.push(s.last())
        }
    }
}

/// Position of the first target named `name` (`s.len()` when none is).
pub open spec fn first_target(s: Seq<(Seq<char>, CropRect)>, name: Seq<char>) -> int
    decreases s.len(),
{
    if s.len() == 0 {
        0
    } else if s[0].0 == name {
        0
    } else {
        1 + first_target(s.drop_first(), name)
    }
}

pub proof fn lemma_first_target(s: Seq<(Seq<char>, CropRect)>, name: Seq<char>, i: int)
    requires
        0 <= i <= s.len(),
        forall|k: int| 0 <= k < i ==> s[k].0 != name,
        i == s.len() || s[i].0 == name,
    ensures
        first_target(s, name) == i,
    decreases s.len(),
{
    if s.len() > 0 && s[0].0 != name {
        lemma_first_target(s.drop_first(), name, i - 1);
    }
}

/// The error for a name already in use.
pub open spec fn exists_error(name: Seq<char>) -> Seq<char> {
    "MatchTarget '"@ + name + "' already exists"@
}

/// The error for a name not in use.
pub open spec fn missing_error(name: Seq<char>) -> Seq<char> {
    "MatchTarget '"@ + name + "' not found"@
}

/// The path of the sidecar beside `path`: the path with extension `ext`
/// in place of its own (`std::path::Path::with_extension`).
pub uninterp spec fn path_with_extension(path: Seq<char>, ext: Seq<char>) -> Seq<char>;

/// No character of `s` separates path components.
pub open spec fn no_separator(s: Seq<char>) -> bool {
    forall|i: int| 0 <= i < s.len() ==> s[i] != '/' && s[i] != '\\'
}

/// `Path::with_extension`, on paths given as text. The extension must hold
/// no path separator (the call panics on one). Claims only that the result
/// is `path_with_extension` of the arguments, a function of them alone.
#[verifier::external_body]
fn with_extension(path: &str, ext: &str) -> (r: String)
    requires
        no_separator(ext@),
    ensures
        r@ == path_with_extension(path@, ext@),
{
    std::path::Path::new(path).with_extension(ext).to_string_lossy().into_owned()
}

/// `Path::exists`. What is on disk decides the result: nothing is claimed
/// of it.
#[verifier::external_body]
pub(crate) fn path_exists(path: &str) -> (r: bool) {
    std::path::Path::new(path).exists()
}

fn error_text(prefix: &str, name: &str, suffix: &str) -> (r: String)
    ensures
        r@ == prefix@ + name@ + suffix@,
{
    let a = concat(prefix, name);
    concat(a.as_str(), suffix)
}

impl TemplateSidecar {
    /// The sidecar path of an image: the image path with extension `json`
    /// (`login.png` gives `login.json`).
    pub fn sidecar_path(image_path: &str) -> (r: String)
        ensures
            r@ == path_with_extension(image_path@, "json"@),
    {
        proof {
            reveal_strlit("json");
        }
        with_extension(image_path, "json")
    }

    /// Whether a sidecar file exists beside the image at `image_path`.
    /// Only the file system can tell: nothing is claimed of the result.
    pub fn has_sidecar(image_path: &str) -> bool {
        let p = Self::sidecar_path(image_path);
        path_exists(p.as_str())
    }

    /// Position of the first target named `name`.
    fn find_target(&self, name: &str) -> (r: Option<usize>)
        ensures
            match r {
                Some(i) => i < self@.len() && first_target(self@, name@) == i && self@[i as int].0 == name@,
                None => !has_target(self@, name@) && first_target(self@, name@) == self@.len(),
            },
    {
        let target = to_chars(name);
        let mut i: usize = 0;
        while i < self.match_targets.len()
            invariant
                i <= self@.len(),
                self@.len() == self.match_targets@.len(),
                target@ == name@,
                forall|k: int| 0 <= k < i ==> self@[k].0 != name@,
            decreases self.match_targets@.len() - i,
        {
            let key = to_chars(self.match_targets[i].name.as_str());
            assert(self@[i as int] == self.match_targets@[i as int]@);
            if eq_chars(&key, &target) {
                proof {
                    lemma_first_target(self@, name@, i as int);
                }
                return Some(i);
            }
            i += 1;
        }
        proof {
            lemma_first_target(self@, name@, self@.len() as int);
        }
        None
    }

    /// Adds a new match target, refused when one of that name exists.
    pub fn add_target(&mut self, target: MatchTargetDef) -> (r: Result<(), String>)
        ensures
            has_target(old(self)@, target.name@) ==> (r matches Err(e) && e@ == exists_error(
                target.name@,
            ) && final(self)@ == old(self)@),
            !has_target(old(self)@, target.name@) ==> (r is Ok && final(self)@ == old(self)@.push(
                target@,
            )),
    {
        match self.find_target(target.name.as_str()) {
            Some(i) => {
                assert(self@[i as int].0 == target.name@);
                Err(error_text("MatchTarget '", target.name.as_str(), "' already exists"))
            },
            None => {
                self.match_targets.push(target);
                assert(self@ =~= old(self)@.push(target@));
                Ok(())
            },
        }
    }

    /// Removes every match target named `name`; refused when there is none.
    pub fn remove_target(&mut self, name: &str) -> (r: Result<(), String>)
        ensures
            final(self)@ == without_target(old(self)@, name@),
            has_target(old(self)@, name@) <==> r is Ok,
            r matches Err(e) ==> e@ == missing_error(name@),
    {
        let target = to_chars(name);
        let mut kept: Vec<MatchTargetDef> = Vec::new();
        let mut found = false;
        let mut i: usize = 0;
        assert(old(self)@.take(0) =~= Seq::<(Seq<char>, CropRect)>::empty());
        while i < self.match_targets.len()
            invariant
                i <= self.match_targets@.len(),
                self@ == old(self)@,
                target@ == name@,
                target_views(kept@) == without_target(old(self)@.take(i as int), name@),
                found == has_target(old(self)@.take(i as int), name@),
            decreases self.match_targets@.len() - i,
        {
            let t = &self.match_targets[i];
            let ghost pre = old(self)@.take(i as int);
            let ghost cur = old(self)@.take(i + 1);
            proof {
                assert(cur.drop_last() =~= pre);
                assert(cur.last() == t@);
            }
            let key = to_chars(t.name.as_str());
            if eq_chars(&key, &target) {
                found = true;
                proof {
                    assert(cur[i as int].0 == name@);
                }
            } else {
                kept.push(t.clone());
                proof {
                    assert(target_views(kept@) =~= without_target(pre, name@).push(t@));
                    assert(has_target(cur, name@) ==> has_target(pre, name@)) by {
                        if has_target(cur, name@) {
                            let k = choose|k: int| 0 <= k < cur.len() && #[trigger] cur[k].0 == name@;
                            assert(k < i);
                            assert(pre[k] == cur[k]);
                        }
                    }
                }
            }
            proof {
                assert(has_target(pre, name@) ==> has_target(cur, name@)) by {
                    if has_target(pre, name@) {
                        let k = choose|k: int| 0 <= k < pre.len() && #[trigger] pre[k].0 == name@;
                        assert(cur[k] == pre[k]);
                    }
                }
            }
            i += 1;
        }
        assert(old(self)@.take(old(self)@.len() as int) =~= old(self)@);
        self.match_targets = kept;
        if found {
            Ok(())
        } else {
            Err(error_text("MatchTarget '", name, "' not found"))
        }
    }

    /// Gives the first match target named `old_name` the name `new_name`;
    /// refused when `new_name` is in use or no target is named `old_name`.
    pub fn rename_target(&mut self, old_name: &str, new_name: &str) -> (r: Result<(), String>)
        ensures
            has_target(old(self)@, new_name@) ==> (r matches Err(e) && e@ == exists_error(
                new_name@,
            ) && final(self)@ == old(self)@),
            !has_target(old(self)@, new_name@) && !has_target(old(self)@, old_name@) ==> (r matches Err(
                e,
            ) && e@ == missing_error(old_name@) && final(self)@ == old(self)@),
            !has_target(old(self)@, new_name@) && has_target(old(self)@, old_name@) ==> (r is Ok
                && final(self)@ == old(self)@.update(
                first_target(old(self)@, old_name@),
                (new_name@, old(self)@[first_target(old(self)@, old_name@)].1),
            )),
    {
        match self.find_target(new_name) {
            Some(i) => {
                assert(self@[i as int].0 == new_name@);
                return Err(error_text("MatchTarget '", new_name, "' already exists"));
            },
            None => {},
        }
        match self.find_target(old_name) {
            Some(i) => {
                assert(self@[i as int].0 == old_name@);
                let crop = self.match_targets[i].crop;
                self.match_targets.set(i, MatchTargetDef { name: new_name.to_owned(), crop });
                assert(self@ =~= old(self)@.update(i as int, (new_name@, old(self)@[i as int].1)));
                Ok(())
            },
            None => Err(error_text("MatchTarget '", old_name, "' not found")),
        }
    }
}

pub proof fn lemma_without_absent(s: Seq<(Seq<char>, CropRect)>, name: Seq<char>)
    requires
        !has_target(s, name),
    ensures
        without_target(s, name) == s,
    decreases s.len(),
{
    if s.len() > 0 {
        let p = s.drop_last();
        assert(!has_target(p, name)) by {
            if has_target(p, name) {
                let k = choose|k: int| 0 <= k < p.len() && #[trigger] p[k].0 == name;
                assert(s[k] == p[k]);
            }
        }
        lemma_without_absent(p, name);
        assert(s.last().0 != name) by {
            assert(s[s.len() - 1] == s.last());
        }
        assert(p.push(s.last()) =~= s);
    }
}

/// Adding a target under a new name and removing that name gives back the
/// targets there were.
pub proof fn law_add_then_remove(s: Seq<(Seq<char>, CropRect)>, t: (Seq<char>, CropRect))
    requires
        !has_target(s, t.0),
    ensures
        without_target(s.push(t), t.0) == s,
{
    assert(s.push(t).drop_last() =~= s);
    lemma_without_absent(s, t.0);
}

/// After removing a name, no target has it.
pub proof fn law_removed_name_gone(s: Seq<(Seq<char>, CropRect)>, name: Seq<char>)
    ensures
        !has_target(without_target(s, name), name),
    decreases s.len(),
{
    if s.len() > 0 {
        let p = s.drop_last();
        law_removed_name_gone(p, name);
        let w = without_target(p, name);
        if s.last().0 != name {
            assert forall|k: int| 0 <= k < w.push(s.last()).len() implies #[trigger] w.push(
                s.last(),
            )[k].0 != name by {
                if k < w.len() {
                    assert(w.push(s.last())[k] == w[k]);
                    assert(!(w[k].0 == name));
                }
            }
        }
    }
}

/// A new target keeps the names distinct when they were.
pub proof fn law_add_keeps_names_distinct(s: Seq<(Seq<char>, CropRect)>, t: (Seq<char>, CropRect))
    requires
        names_distinct(s),
        !has_target(s, t.0),
    ensures
        names_distinct(s.push(t)),
{
    let u = s.push(t);
    assert forall|i: int, j: int| 0 <= i < j < u.len() implies u[i].0 != u[j].0 by {
        assert(u[i] == s[i]);
        if j < s.len() {
            assert(u[j] == s[j]);
        } else {
            assert(s[i].0 != t.0);
        }
    }
}

/// Renaming a target to an unused name and back gives back the targets
/// there were, when the names are distinct.
pub proof fn law_rename_then_back(s: Seq<(Seq<char>, CropRect)>, a: Seq<char>, b: Seq<char>)
    requires
        names_distinct(s),
        has_target(s, a),
        !has_target(s, b),
    ensures
        ({
            let i = first_target(s, a);
            let s1 = s.update(i, (b, s[i].1));
            &&& !has_target(s1, a)
            &&& has_target(s1, b)
            &&& names_distinct(s1)
            &&& s1.update(first_target(s1, b), (a, s1[first_target(s1, b)].1)) == s
        }),
{
    let k = choose|k: int| 0 <= k < s.len() && #[trigger] s[k].0 == a;
    assert forall|m: int| 0 <= m < k implies s[m].0 != a by {
    }
    lemma_first_target(s, a, k);
    let s1 = s.update(k, (b, s[k].1));
    assert(s1[k].0 == b);
    assert forall|m: int| 0 <= m < k implies s1[m].0 != b by {
        assert(s1[m] == s[m]);
        if s[m].0 == b {
            assert(has_target(s, b));
        }
    }
    lemma_first_target(s1, b, k);
    assert(!has_target(s1, a)) by {
        if has_target(s1, a) {
            let m = choose|m: int| 0 <= m < s1.len() && #[trigger] s1[m].0 == a;
            assert(m != k);
            assert(s1[m] == s[m]);
        }
    }
    assert(names_distinct(s1)) by {
        assert forall|x: int, y: int| 0 <= x < y < s1.len() implies s1[x].0 != s1[y].0 by {
            if x == k {
                assert(s1[y] == s[y]);
                if s[y].0 == b {
                    assert(has_target(s, b));
                }
            } else if y == k {
                assert(s1[x] == s[x]);
                if s[x].0 == b {
                    assert(has_target(s, b));
                }
            } else {
                assert(s1[x] == s[x]);
                assert(s1[y] == s[y]);
            }
        }
    }
    assert(s1.update(k, (a, s1[k].1)) =~= s);
}

} // verus!
