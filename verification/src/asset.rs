//! The asset library's folder tree: samples, synth presets and sampler kits
//! found on disk, filed under the folders of their relative paths.

use vstd::prelude::*;
use crate::text::{compare_text, lemma_text_lt_order, lemma_text_lt_transitive, path_lt, text_lt, Precedence};

verus! {

/// What kind of file an asset is.
#[derive(Clone, Copy, Debug, PartialEq, Eq, Structural)]
pub enum AssetKind {
    Sample,
    SynthPreset,
    SamplerKit,
}

/// An asset of the library: its kind, the name it is shown under and its file's path.
pub struct Asset {
    pub kind: AssetKind,
    pub name: String,
    pub path: String,
}

/// Assets are told apart by their path, then their name.
pub open spec fn asset_key(a: Asset) -> (Seq<char>, Seq<char>) {
    (a.path@, a.name@)
}

/// Common access to an asset's name and path.
pub trait AssetRef {
    spec fn name_view(&self) -> Seq<char>;

    spec fn path_view(&self) -> Seq<char>;

    fn name(&self) -> (r: &str)
        ensures
            r@ == self.name_view(),
    ;

    fn path(&self) -> (r: &str)
        ensures
            r@ == self.path_view(),
    ;
}

impl AssetRef for Asset {
    open spec fn name_view(&self) -> Seq<char> {
        self.name@
    }

    open spec fn path_view(&self) -> Seq<char> {
        self.path@
    }

    fn name(&self) -> (r: &str) {
        self.name.as_str()
    }

    fn path(&self) -> (r: &str) {
        self.path.as_str()
    }
}

/// A folder of the library: the assets filed directly in it and its named subfolders.
pub struct LibraryFolder {
    pub assets: Vec<Asset>,
    pub subfolders: Vec<(String, LibraryFolder)>,
}

/// The assets of a folder by key, each with its kind.
pub open spec fn assets_map(s: Seq<Asset>) -> Map<(Seq<char>, Seq<char>), AssetKind> {
    Map::new(
        |k: (Seq<char>, Seq<char>)| exists|i: int| 0 <= i < s.len() && asset_key(#[trigger] s[i]) == k,
        |k: (Seq<char>, Seq<char>)| s[choose|i: int| 0 <= i < s.len() && asset_key(#[trigger] s[i]) == k].kind,
    )
}

/// No two assets share a key.
pub open spec fn asset_keys_unique(s: Seq<Asset>) -> bool {
    forall|i: int, j: int| 0 <= i < j < s.len() ==> asset_key(#[trigger] s[i]) != asset_key(#[trigger] s[j])
}

/// No two subfolders share a name.
pub open spec fn folder_names_unique(s: Seq<(String, LibraryFolder)>) -> bool {
    forall|i: int, j: int| 0 <= i < j < s.len() ==> (#[trigger] s[i]).0@ != (#[trigger] s[j]).0@
}

/// The order of asset keys: by path, component by component, then by name.
pub open spec fn key_lt(a: (Seq<char>, Seq<char>), b: (Seq<char>, Seq<char>)) -> bool {
    path_lt(a.0, b.0) || (a.0 == b.0 && text_lt(a.1, b.1))
}

/// The order of asset keys is a strict order.
pub proof fn lemma_key_lt_strict(a: (Seq<char>, Seq<char>), b: (Seq<char>, Seq<char>), c: (Seq<char>, Seq<char>))
    ensures
        !key_lt(a, a),
        key_lt(a, b) && key_lt(b, c) ==> key_lt(a, c),
{
    lemma_text_lt_order(a.0, a.0, true);
    lemma_text_lt_order(a.1, a.1, false);
    lemma_text_lt_order(a.0, b.0, true);
    lemma_text_lt_order(b.0, c.0, true);
    if path_lt(a.0, b.0) && path_lt(b.0, c.0) {
        lemma_text_lt_transitive(a.0, b.0, c.0, true);
    }
    if text_lt(a.1, b.1) && text_lt(b.1, c.1) {
        lemma_text_lt_transitive(a.1, b.1, c.1, false);
    }
}

/// Compares two assets' keys.
fn compare_assets(a: &Asset, b: &Asset) -> (r: Precedence)
    ensures
        r == Precedence::Before <==> key_lt(asset_key(*a), asset_key(*b)),
        r == Precedence::Same <==> asset_key(*a) == asset_key(*b),
        r == Precedence::After <==> key_lt(asset_key(*b), asset_key(*a)),
{
    proof {
        lemma_text_lt_order(a.path@, b.path@, true);
        lemma_text_lt_order(a.name@, b.name@, false);
    }
    match compare_text(a.path.as_str(), b.path.as_str(), true) {
        Precedence::Same => compare_text(a.name.as_str(), b.name.as_str(), false),
        other => other,
    }
}

/// The assets come in increasing order of their keys.
pub open spec fn assets_sorted(s: Seq<Asset>) -> bool {
    forall|i: int, j: int| 0 <= i < j < s.len() ==> key_lt(asset_key(#[trigger] s[i]), asset_key(#[trigger] s[j]))
}

/// The subfolders come in increasing order of their names.
pub open spec fn names_sorted(s: Seq<(String, LibraryFolder)>) -> bool {
    forall|i: int, j: int| 0 <= i < j < s.len() ==> text_lt((#[trigger] s[i]).0@, (#[trigger] s[j]).0@)
}

/// Whether the folder has a subfolder of the name.
pub open spec fn has_child(f: LibraryFolder, name: Seq<char>) -> bool {
    exists|i: int| 0 <= i < f.subfolders@.len() && (#[trigger] f.subfolders@[i]).0@ == name
}

/// The subfolder of the name.
pub open spec fn child(f: LibraryFolder, name: Seq<char>) -> LibraryFolder {
    f.subfolders@[choose|i: int| 0 <= i < f.subfolders@.len() && (#[trigger] f.subfolders@[i]).0@ == name].1
}

/// The folder reached by following the names of the path, if each exists.
pub open spec fn folder_at(f: LibraryFolder, path: Seq<Seq<char>>) -> Option<LibraryFolder>
    decreases path.len(),
{
    if path.len() == 0 {
        Some(f)
    } else if has_child(f, path[0]) {
        folder_at(child(f, path[0]), path.drop_first())
    } else {
        None
    }
}

/// Every folder along the path has its assets and its subfolders in order, each key and name once.
pub open spec fn wf_along(f: LibraryFolder, path: Seq<Seq<char>>) -> bool
    decreases path.len(),
{
    &&& asset_keys_unique(f.assets@)
    &&& folder_names_unique(f.subfolders@)
    &&& assets_sorted(f.assets@)
    &&& names_sorted(f.subfolders@)
    &&& (path.len() > 0 && has_child(f, path[0]) ==> wf_along(child(f, path[0]), path.drop_first()))
}

/// The folder is well formed at every depth.
pub open spec fn folder_wf(f: LibraryFolder) -> bool {
    forall|path: Seq<Seq<char>>| #[trigger] wf_along(f, path)
}

/// What the library holds at a folder path: the assets there, when the folder exists.
pub open spec fn folder_contents(f: LibraryFolder, path: Seq<Seq<char>>) -> Option<Map<(Seq<char>, Seq<char>), AssetKind>> {
    match folder_at(f, path) {
        Some(g) => Some(assets_map(g.assets@)),
        None => None,
    }
}

/// The assets at a folder path, none when the folder does not exist.
pub open spec fn contents_or_empty(f: LibraryFolder, path: Seq<Seq<char>>) -> Map<(Seq<char>, Seq<char>), AssetKind> {
    match folder_contents(f, path) {
        Some(m) => m,
        None => Map::empty(),
    }
}

/// The assets with one more filed: an asset whose key is present already is not added again.
pub open spec fn with_asset(m: Map<(Seq<char>, Seq<char>), AssetKind>, a: Asset) -> Map<(Seq<char>, Seq<char>), AssetKind> {
    if m.contains_key(asset_key(a)) {
        m
    } else {
        m.insert(asset_key(a), a.kind)
    }
}

/// The contents at `path` after filing an asset in the folder at `dir`: the
/// folders along `dir` exist, the one at `dir` holds the asset, and every
/// other folder is as before.
pub open spec fn contents_after_insert(
    f: LibraryFolder,
    dir: Seq<Seq<char>>,
    a: Asset,
    path: Seq<Seq<char>>,
) -> Option<Map<(Seq<char>, Seq<char>), AssetKind>> {
    if path == dir {
        Some(with_asset(contents_or_empty(f, path), a))
    } else if path.is_prefix_of(dir) {
        Some(contents_or_empty(f, path))
    } else {
        folder_contents(f, path)
    }
}

/// The names of a list of path segments.
pub open spec fn segment_names(s: Seq<String>) -> Seq<Seq<char>> {
    s.map_values(|x: String| x@)
}

proof fn lemma_contents_step(g: LibraryFolder, p: Seq<Seq<char>>)
    requires
        p.len() > 0,
    ensures
        folder_contents(g, p) == (if has_child(g, p[0]) {
            folder_contents(child(g, p[0]), p.drop_first())
        } else {
            None
        }),
{
}

/// With unique names, the subfolder at a position is the child of its name.
proof fn lemma_child_at(g: LibraryFolder, i: int)
    requires
        folder_names_unique(g.subfolders@),
        0 <= i < g.subfolders@.len(),
    ensures
        has_child(g, g.subfolders@[i].0@),
        child(g, g.subfolders@[i].0@) == g.subfolders@[i].1,
{
    let name = g.subfolders@[i].0@;
    assert(g.subfolders@[i].0@ == name);
    let j = choose|j: int| 0 <= j < g.subfolders@.len() && (#[trigger] g.subfolders@[j]).0@ == name;
    if j < i {
        assert(g.subfolders@[j].0@ != g.subfolders@[i].0@);
    } else if j > i {
        assert(g.subfolders@[i].0@ != g.subfolders@[j].0@);
    }
}

/// A well-formed folder lists its assets in key order and its subfolders in
/// name order, each key and name once, and its subfolders are well formed.
pub proof fn lemma_wf_parts(f: LibraryFolder)
    requires
        folder_wf(f),
    ensures
        asset_keys_unique(f.assets@),
        folder_names_unique(f.subfolders@),
        assets_sorted(f.assets@),
        names_sorted(f.subfolders@),
        forall|j: int| 0 <= j < f.subfolders@.len() ==> folder_wf(#[trigger] f.subfolders@[j].1),
{
    assert(wf_along(f, Seq::empty()));
    assert forall|j: int| 0 <= j < f.subfolders@.len() implies folder_wf(#[trigger] f.subfolders@[j].1) by {
        lemma_child_at(f, j);
        let name = f.subfolders@[j].0@;
        assert forall|q: Seq<Seq<char>>| #[trigger] wf_along(f.subfolders@[j].1, q) by {
            let path = seq![name] + q;
            assert(wf_along(f, path));
            assert(path[0] == name);
            assert(path.drop_first() =~= q);
        }
    }
}

proof fn lemma_wf_from_parts(g: LibraryFolder)
    requires
        asset_keys_unique(g.assets@),
        folder_names_unique(g.subfolders@),
        assets_sorted(g.assets@),
        names_sorted(g.subfolders@),
        forall|j: int| 0 <= j < g.subfolders@.len() ==> folder_wf(#[trigger] g.subfolders@[j].1),
    ensures
        folder_wf(g),
{
    assert forall|path: Seq<Seq<char>>| #[trigger] wf_along(g, path) by {
        if path.len() > 0 && has_child(g, path[0]) {
            let j = choose|j: int| 0 <= j < g.subfolders@.len() && (#[trigger] g.subfolders@[j]).0@ == path[0];
            lemma_child_at(g, j);
            assert(folder_wf(g.subfolders@[j].1));
            assert(wf_along(g.subfolders@[j].1, path.drop_first()));
        }
    }
}

/// Two folders with the same subfolders hold the same below them.
proof fn lemma_same_below(g: LibraryFolder, h: LibraryFolder, p: Seq<Seq<char>>)
    requires
        g.subfolders@ == h.subfolders@,
        p.len() > 0,
    ensures
        folder_contents(g, p) == folder_contents(h, p),
{
    lemma_contents_step(g, p);
    lemma_contents_step(h, p);
}

/// An empty folder holds nothing, and has nothing below it.
proof fn lemma_empty_contents(g: LibraryFolder, p: Seq<Seq<char>>)
    requires
        g.assets@.len() == 0,
        g.subfolders@.len() == 0,
    ensures
        folder_contents(g, p) == (if p.len() == 0 {
            Some(Map::<(Seq<char>, Seq<char>), AssetKind>::empty())
        } else {
            None
        }),
{
    if p.len() == 0 {
        assert(assets_map(g.assets@) =~= Map::<(Seq<char>, Seq<char>), AssetKind>::empty());
    } else {
        lemma_contents_step(g, p);
    }
}

proof fn lemma_assets_insert_at(s: Seq<Asset>, p: int, a: Asset)
    requires
        assets_sorted(s),
        0 <= p <= s.len(),
        forall|i: int| 0 <= i < p ==> key_lt(asset_key(#[trigger] s[i]), asset_key(a)),
        forall|j: int| p <= j < s.len() ==> key_lt(asset_key(a), asset_key(#[trigger] s[j])),
    ensures
        !assets_map(s).contains_key(asset_key(a)),
        assets_sorted(s.insert(p, a)),
        asset_keys_unique(s.insert(p, a)),
        assets_map(s.insert(p, a)) == assets_map(s).insert(asset_key(a), a.kind),
{
    let t = s.insert(p, a);
    let k = asset_key(a);
    if assets_map(s).contains_key(k) {
        let i = choose|i: int| 0 <= i < s.len() && asset_key(#[trigger] s[i]) == k;
        lemma_key_lt_strict(k, k, k);
    }
    assert forall|i: int, j: int| 0 <= i < j < t.len() implies key_lt(asset_key(#[trigger] t[i]), asset_key(#[trigger] t[j])) by {
        if i < p && j < p {
            assert(t[i] == s[i] && t[j] == s[j]);
        } else if i < p && j == p {
            assert(t[i] == s[i]);
        } else if i < p {
            assert(t[i] == s[i] && t[j] == s[j - 1]);
        } else if i == p {
            assert(t[j] == s[j - 1]);
        } else {
            assert(t[i] == s[i - 1] && t[j] == s[j - 1]);
        }
    }
    assert forall|i: int, j: int| 0 <= i < j < t.len() implies asset_key(#[trigger] t[i]) != asset_key(#[trigger] t[j]) by {
        assert(key_lt(asset_key(t[i]), asset_key(t[j])));
        lemma_key_lt_strict(asset_key(t[i]), asset_key(t[j]), asset_key(t[j]));
    }
    let m = assets_map(s).insert(k, a.kind);
    assert forall|q: (Seq<char>, Seq<char>)| #![auto] assets_map(t).contains_key(q) == m.contains_key(q) by {
        if assets_map(t).contains_key(q) {
            let i = choose|i: int| 0 <= i < t.len() && asset_key(#[trigger] t[i]) == q;
            if i < p {
                assert(t[i] == s[i]);
            } else if i > p {
                assert(t[i] == s[i - 1]);
            }
        }
        if assets_map(s).contains_key(q) {
            let i = choose|i: int| 0 <= i < s.len() && asset_key(#[trigger] s[i]) == q;
            if i < p {
                assert(t[i] == s[i]);
            } else {
                assert(t[i + 1] == s[i]);
            }
        }
        if q == k {
            assert(t[p] == a);
        }
    }
    assert forall|q: (Seq<char>, Seq<char>)| #![auto] assets_map(t).contains_key(q) implies assets_map(t)[q] == m[q] by {
        let i = choose|i: int| 0 <= i < t.len() && asset_key(#[trigger] t[i]) == q;
        if i == p {
            assert(t[i] == a);
        } else {
            let si = if i < p { i } else { i - 1 };
            assert(t[i] == s[si]);
            assert(q != k) by {
                if i < p {
                    lemma_key_lt_strict(q, k, k);
                } else {
                    lemma_key_lt_strict(k, q, q);
                }
            }
            let i2 = choose|i2: int| 0 <= i2 < s.len() && asset_key(#[trigger] s[i2]) == q;
            if i2 != si {
                if i2 < si {
                    lemma_key_lt_strict(asset_key(s[i2]), asset_key(s[si]), asset_key(s[si]));
                } else {
                    lemma_key_lt_strict(asset_key(s[si]), asset_key(s[i2]), asset_key(s[i2]));
                }
            }
            assert(t[i] == s[i2]);
        }
    }
    assert(assets_map(t) =~= m);
}

proof fn lemma_prefix_step(p: Seq<Seq<char>>, r: Seq<Seq<char>>)
    requires
        p.len() > 0,
        r.len() > 0,
    ensures
        (p == r) == (p[0] == r[0] && p.drop_first() == r.drop_first()),
        p.is_prefix_of(r) == (p[0] == r[0] && p.drop_first().is_prefix_of(r.drop_first())),
{
    if p[0] == r[0] && p.drop_first() == r.drop_first() {
        assert(p =~= seq![p[0]] + p.drop_first());
        assert(r =~= seq![r[0]] + r.drop_first());
    }
    if p.is_prefix_of(r) {
        assert(p[0] == r.subrange(0, p.len() as int)[0]);
        assert(p.drop_first() =~= r.drop_first().subrange(0, p.drop_first().len() as int)) by {
            assert forall|k: int| 0 <= k < p.drop_first().len() implies p.drop_first()[k] == r.drop_first().subrange(0, p.drop_first().len() as int)[k] by {
                assert(p[k + 1] == r.subrange(0, p.len() as int)[k + 1]);
            }
        }
    }
    if p[0] == r[0] && p.drop_first().is_prefix_of(r.drop_first()) {
        assert(p =~= r.subrange(0, p.len() as int)) by {
            assert forall|k: int| 0 <= k < p.len() implies p[k] == r.subrange(0, p.len() as int)[k] by {
                if k > 0 {
                    assert(p.drop_first()[k - 1] == r.drop_first().subrange(0, p.drop_first().len() as int)[k - 1]);
                }
            }
        }
    }
}

proof fn lemma_segment_names_step(dir: Seq<String>, k: int, end: int)
    requires
        0 <= k < end <= dir.len(),
    ensures
        segment_names(dir.subrange(k, end)).len() > 0,
        segment_names(dir.subrange(k, end))[0] == dir[k]@,
        segment_names(dir.subrange(k, end)).drop_first() == segment_names(dir.subrange(k + 1, end)),
{
    assert(segment_names(dir.subrange(k, end)).drop_first() =~= segment_names(dir.subrange(k + 1, end)));
}

impl LibraryFolder {
    /// An empty folder.
    pub fn new() -> (r: LibraryFolder)
        ensures
            folder_wf(r),
            r.assets@.len() == 0,
            r.subfolders@.len() == 0,
    {
        let r = LibraryFolder { assets: Vec::new(), subfolders: Vec::new() };
        proof {
            lemma_wf_from_parts(r);
        }
        r
    }

    /// Files an asset directly in this folder, in its place in the order,
    /// unless one with its key is there already.
    fn add_asset(&mut self, asset: Asset)
        requires
            folder_wf(*old(self)),
        ensures
            folder_wf(*final(self)),
            final(self).subfolders@ == old(self).subfolders@,
            assets_map(final(self).assets@) == with_asset(assets_map(old(self).assets@), asset),
    {
        proof {
            lemma_wf_parts(*self);
        }
        let mut i: usize = 0;
        while i < self.assets.len()
            invariant
                i <= self.assets@.len(),
                folder_wf(*self),
                asset_keys_unique(self.assets@),
                folder_names_unique(self.subfolders@),
                assets_sorted(self.assets@),
                names_sorted(self.subfolders@),
                forall|j: int| 0 <= j < self.subfolders@.len() ==> folder_wf(#[trigger] self.subfolders@[j].1),
                forall|j: int| 0 <= j < i ==> key_lt(asset_key(#[trigger] self.assets@[j]), asset_key(asset)),
            ensures
                i < self.assets@.len() ==> key_lt(asset_key(asset), asset_key(self.assets@[i as int])),
            decreases self.assets@.len() - i,
        {
            match compare_assets(&self.assets[i], &asset) {
                Precedence::Before => {
                    i = i + 1;
                },
                Precedence::Same => {
                    proof {
                        assert(assets_map(self.assets@).contains_key(asset_key(asset)));
                    }
                    return;
                },
                Precedence::After => {
                    break;
                },
            }
        }
        proof {
            let s = self.assets@;
            assert forall|j: int| i <= j < s.len() implies key_lt(asset_key(asset), asset_key(#[trigger] s[j])) by {
                if j > i {
                    assert(key_lt(asset_key(s[i as int]), asset_key(s[j])));
                    lemma_key_lt_strict(asset_key(asset), asset_key(s[i as int]), asset_key(s[j]));
                }
            }
            lemma_assets_insert_at(s, i as int, asset);
        }
        self.assets.insert(i, asset);
        proof {
            lemma_wf_from_parts(*self);
        }
    }

    /// Where a subfolder of the name stands (`Ok`), or where one would go in
    /// the order of names (`Err`).
    fn locate_child(&self, name: &str) -> (r: Result<usize, usize>)
        requires
            names_sorted(self.subfolders@),
        ensures
            r matches Ok(i) ==> i < self.subfolders@.len() && self.subfolders@[i as int].0@ == name@,
            r matches Err(p) ==> p <= self.subfolders@.len()
                && (forall|j: int| 0 <= j < p ==> text_lt((#[trigger] self.subfolders@[j]).0@, name@))
                && (forall|j: int| p <= j < self.subfolders@.len() ==> text_lt(name@, (#[trigger] self.subfolders@[j]).0@)),
            r is Err ==> !has_child(*self, name@),
    {
        let mut i: usize = 0;
        while i < self.subfolders.len()
            invariant
                i <= self.subfolders@.len(),
                names_sorted(self.subfolders@),
                forall|j: int| 0 <= j < i ==> text_lt((#[trigger] self.subfolders@[j]).0@, name@),
            ensures
                i < self.subfolders@.len() ==> text_lt(name@, self.subfolders@[i as int].0@),
            decreases self.subfolders@.len() - i,
        {
            match compare_text(self.subfolders[i].0.as_str(), name, false) {
                Precedence::Before => {
                    i = i + 1;
                },
                Precedence::Same => {
                    return Ok(i);
                },
                Precedence::After => {
                    break;
                },
            }
        }
        proof {
            let s = self.subfolders@;
            assert forall|j: int| i <= j < s.len() implies text_lt(name@, (#[trigger] s[j]).0@) by {
                if j > i {
                    assert(text_lt(s[i as int].0@, s[j].0@));
                    lemma_text_lt_transitive(name@, s[i as int].0@, s[j].0@, false);
                }
            }
            if has_child(*self, name@) {
                let j = choose|j: int| 0 <= j < s.len() && (#[trigger] s[j]).0@ == name@;
                lemma_text_lt_order(name@, name@, false);
            }
        }
        Err(i)
    }
}

impl LibraryFolder {
    fn insert_in(&mut self, dir: &Vec<String>, k: usize, end: usize, asset: Asset)
        requires
            folder_wf(*old(self)),
            k <= end <= dir@.len(),
        ensures
            folder_wf(*final(self)),
            forall|p: Seq<Seq<char>>| #[trigger] folder_contents(*final(self), p) == contents_after_insert(
                *old(self),
                segment_names(dir@.subrange(k as int, end as int)),
                asset,
                p,
            ),
        decreases end - k,
    {
        let ghost before = *self;
        let ghost rel = segment_names(dir@.subrange(k as int, end as int));
        if k == end {
            self.add_asset(asset);
            proof {
                assert(rel =~= Seq::<Seq<char>>::empty());
                assert forall|p: Seq<Seq<char>>| #[trigger] folder_contents(*self, p) == contents_after_insert(before, rel, asset, p) by {
                    if p.len() > 0 {
                        lemma_same_below(*self, before, p);
                        assert(!p.is_prefix_of(rel));
                    } else {
                        assert(p =~= rel);
                    }
                }
            }
            return;
        }
        proof {
            lemma_wf_parts(*self);
            lemma_segment_names_step(dir@, k as int, end as int);
        }
        let ghost rest = segment_names(dir@.subrange(k + 1, end as int));
        let ghost name = dir@[k as int]@;
        match self.locate_child(dir[k].as_str()) {
            Ok(i) => {
                let ghost old_child = before.subfolders@[i as int].1;
                let mut entry = self.subfolders.remove(i);
                entry.1.insert_in(dir, k + 1, end, asset);
                self.subfolders.insert(i, entry);
                proof {
                    assert(self.subfolders@ =~= before.subfolders@.update(i as int, (before.subfolders@[i as int].0, entry.1)));
                    assert(folder_names_unique(self.subfolders@)) by {
                        assert forall|a: int, b: int| 0 <= a < b < self.subfolders@.len() implies (#[trigger] self.subfolders@[a]).0@ != (#[trigger] self.subfolders@[b]).0@ by {
                            assert(before.subfolders@[a].0@ != before.subfolders@[b].0@);
                        }
                    }
                    assert(names_sorted(self.subfolders@)) by {
                        assert forall|a: int, b: int| 0 <= a < b < self.subfolders@.len() implies text_lt((#[trigger] self.subfolders@[a]).0@, (#[trigger] self.subfolders@[b]).0@) by {
                            assert(text_lt(before.subfolders@[a].0@, before.subfolders@[b].0@));
                        }
                    }
                    lemma_wf_from_parts(*self);
                    lemma_child_at(*self, i as int);
                    lemma_child_at(before, i as int);
                    assert forall|p: Seq<Seq<char>>| #[trigger] folder_contents(*self, p) == contents_after_insert(before, rel, asset, p) by {
                        if p.len() == 0 {
                            assert(p.is_prefix_of(rel));
                            assert(p != rel);
                        } else {
                            lemma_contents_step(*self, p);
                            lemma_contents_step(before, p);
                            lemma_prefix_step(p, rel);
                            if p[0] == name {
                                let q = p.drop_first();
                                assert(folder_contents(entry.1, q) == contents_after_insert(old_child, rest, asset, q));
                            } else {
                                if has_child(before, p[0]) {
                                    let j = choose|j: int| 0 <= j < before.subfolders@.len() && (#[trigger] before.subfolders@[j]).0@ == p[0];
                                    lemma_child_at(before, j);
                                    lemma_child_at(*self, j);
                                }
                                if has_child(*self, p[0]) {
                                    let j = choose|j: int| 0 <= j < self.subfolders@.len() && (#[trigger] self.subfolders@[j]).0@ == p[0];
                                    assert(before.subfolders@[j].0@ == p[0]);
                                }
                            }
                        }
                    }
                }
            },
            Err(at) => {
                let mut sub = LibraryFolder::new();
                let ghost empty = sub;
                sub.insert_in(dir, k + 1, end, asset);
                let sub_name = dir[k].clone();
                self.subfolders.insert(at, (sub_name, sub));
                proof {
                    let t = self.subfolders@;
                    let b4 = before.subfolders@;
                    assert(t == b4.insert(at as int, t[at as int]));
                    assert(names_sorted(t)) by {
                        assert forall|a: int, b: int| 0 <= a < b < t.len() implies text_lt((#[trigger] t[a]).0@, (#[trigger] t[b]).0@) by {
                            if a < at && b < at {
                                assert(t[a] == b4[a] && t[b] == b4[b]);
                            } else if a < at && b == at {
                                assert(t[a] == b4[a]);
                            } else if a < at {
                                assert(t[a] == b4[a] && t[b] == b4[b - 1]);
                            } else if a == at {
                                assert(t[b] == b4[b - 1]);
                            } else {
                                assert(t[a] == b4[a - 1] && t[b] == b4[b - 1]);
                            }
                        }
                    }
                    assert(folder_names_unique(t)) by {
                        assert forall|a: int, b: int| 0 <= a < b < t.len() implies (#[trigger] t[a]).0@ != (#[trigger] t[b]).0@ by {
                            assert(text_lt(t[a].0@, t[b].0@));
                            lemma_text_lt_order(t[a].0@, t[b].0@, false);
                        }
                    }
                    assert forall|j: int| 0 <= j < t.len() implies folder_wf(#[trigger] t[j].1) by {
                        if j < at {
                            assert(t[j] == b4[j]);
                        } else if j > at {
                            assert(t[j] == b4[j - 1]);
                        }
                    }
                    lemma_wf_from_parts(*self);
                    lemma_child_at(*self, at as int);
                    assert forall|p: Seq<Seq<char>>| #[trigger] folder_contents(*self, p) == contents_after_insert(before, rel, asset, p) by {
                        if p.len() == 0 {
                            assert(p.is_prefix_of(rel));
                            assert(p != rel);
                        } else {
                            lemma_contents_step(*self, p);
                            lemma_contents_step(before, p);
                            lemma_prefix_step(p, rel);
                            let q = p.drop_first();
                            if p[0] == name {
                                assert(folder_contents(sub, q) == contents_after_insert(empty, rest, asset, q));
                                lemma_empty_contents(empty, q);
                                if q.len() == 0 {
                                    assert(q.is_prefix_of(rest));
                                }
                            } else {
                                if has_child(before, p[0]) {
                                    let j = choose|j: int| 0 <= j < b4.len() && (#[trigger] b4[j]).0@ == p[0];
                                    let tj = if j < at { j } else { j + 1 };
                                    assert(t[tj] == b4[j]);
                                    lemma_child_at(before, j);
                                    lemma_child_at(*self, tj);
                                }
                                if has_child(*self, p[0]) {
                                    let j = choose|j: int| 0 <= j < t.len() && (#[trigger] t[j]).0@ == p[0];
                                    assert(j != at);
                                    let bj = if j < at { j } else { j - 1 };
                                    assert(t[j] == b4[bj]);
                                    assert(b4[bj].0@ == p[0]);
                                }
                            }
                        }
                    }
                }
            },
        }
    }

    /// Files an asset under the folders of its relative path: the last
    /// segment is the file itself, the ones before it name the folders, which
    /// are created where missing. An empty path files nothing.
    pub fn insert_asset(&mut self, path_segments: &Vec<String>, asset: Asset)
        requires
            folder_wf(*old(self)),
        ensures
            folder_wf(*final(self)),
            path_segments@.len() == 0 ==> forall|p: Seq<Seq<char>>| #[trigger] folder_contents(*final(self), p)
                == folder_contents(*old(self), p),
            path_segments@.len() > 0 ==> forall|p: Seq<Seq<char>>| #[trigger] folder_contents(*final(self), p)
                == contents_after_insert(*old(self), segment_names(path_segments@).drop_last(), asset, p),
    {
        if path_segments.len() == 0 {
            return;
        }
        let end = path_segments.len() - 1;
        self.insert_in(path_segments, 0, end, asset);
        proof {
            assert(segment_names(path_segments@.subrange(0, end as int)) =~= segment_names(path_segments@).drop_last());
        }
    }

    /// Empties the folder.
    pub fn clear(&mut self)
        ensures
            folder_wf(*final(self)),
            final(self).assets@.len() == 0,
            final(self).subfolders@.len() == 0,
    {
        self.assets.clear();
        self.subfolders.clear();
        proof {
            lemma_wf_from_parts(*self);
        }
    }
}

/// The library's three trees: samples, synth presets and sampler kits.
pub struct AssetLibrary {
    pub sample_root: LibraryFolder,
    pub synth_root: LibraryFolder,
    pub kit_root: LibraryFolder,
}

impl AssetLibrary {
    /// An empty library.
    pub fn new() -> (r: AssetLibrary)
        ensures
            folder_wf(r.sample_root) && folder_wf(r.synth_root) && folder_wf(r.kit_root),
            r.sample_root.assets@.len() == 0 && r.sample_root.subfolders@.len() == 0,
            r.synth_root.assets@.len() == 0 && r.synth_root.subfolders@.len() == 0,
            r.kit_root.assets@.len() == 0 && r.kit_root.subfolders@.len() == 0,
    {
        AssetLibrary {
            sample_root: LibraryFolder::new(),
            synth_root: LibraryFolder::new(),
            kit_root: LibraryFolder::new(),
        }
    }

    /// Empties all three trees.
    pub fn clear(&mut self)
        ensures
            folder_wf(final(self).sample_root) && folder_wf(final(self).synth_root) && folder_wf(final(self).kit_root),
            final(self).sample_root.assets@.len() == 0 && final(self).sample_root.subfolders@.len() == 0,
            final(self).synth_root.assets@.len() == 0 && final(self).synth_root.subfolders@.len() == 0,
            final(self).kit_root.assets@.len() == 0 && final(self).kit_root.subfolders@.len() == 0,
    {
        self.sample_root.clear();
        self.synth_root.clear();
        self.kit_root.clear();
    }
}

/// After filing an asset in a folder, that folder holds an asset of its key,
/// and every asset held anywhere before is still held, with its kind.
pub proof fn lemma_filed_asset_is_found(f: LibraryFolder, dir: Seq<Seq<char>>, a: Asset, p: Seq<Seq<char>>)
    ensures
        contents_after_insert(f, dir, a, dir) is Some,
        contents_after_insert(f, dir, a, dir)->Some_0.contains_key(asset_key(a)),
        folder_contents(f, p) matches Some(m) ==> {
            &&& contents_after_insert(f, dir, a, p) is Some
            &&& forall|k: (Seq<char>, Seq<char>)| #[trigger] m.contains_key(k) ==> contents_after_insert(f, dir, a, p)->Some_0.contains_key(k)
                && contents_after_insert(f, dir, a, p)->Some_0[k] == m[k]
        },
{
}

} // verus!
