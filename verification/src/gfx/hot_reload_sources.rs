//! Passive source catalogs describing file-backed assets the renderer can
//! hot-reload: the on-disk source path plus the GPU slot it owns, and the
//! directories a file watcher must subscribe to for them.

use vstd::prelude::*;
use std::path::Path;

verus! {

/// How two paths compare, component by component.
#[derive(Clone, Copy, Debug, PartialEq, Eq, Structural)]
pub enum PathOrder {
    Less,
    Equal,
    Greater,
}

/// The parent directory of a path as `std::path::Path::parent` gives it:
/// the path without its final component, `None` for a root or empty path.
pub uninterp spec fn path_parent(path: Seq<char>) -> Option<Seq<char>>;

/// How `std::path::Path`'s ordering ranks two paths.
pub uninterp spec fn path_order(a: Seq<char>, b: Seq<char>) -> PathOrder;

/// `std::path::Path::parent` on the text of a path, its result as text. The
/// parent of a path given as text is a prefix of that text, so it converts
/// back without loss. Nothing more is claimed than that the result is the
/// named parent.
#[verifier::external_body]
fn parent_text(path: &str) -> (r: Option<String>)
    ensures
        match r {
            Some(p) => path_parent(path@) == Some(p@),
            None => path_parent(path@) is None,
        },
{
    match Path::new(path).parent() {
        Some(parent) => Some(parent.to_string_lossy().into_owned()),
        None => None,
    }
}

/// `a` and `b` rank the same against every path, both ways round.
pub open spec fn congruent(a: Seq<char>, b: Seq<char>) -> bool {
    forall|c: Seq<char>|
        #![trigger path_order(a, c)]
        #![trigger path_order(c, a)]
        path_order(a, c) == path_order(b, c) && path_order(c, a) == path_order(c, b)
}

/// Every path that `b` ranks below, `a` ranks below too.
pub open spec fn below_all_above(a: Seq<char>, b: Seq<char>) -> bool {
    forall|c: Seq<char>| #[trigger] path_order(b, c) == PathOrder::Less ==> path_order(a, c) == PathOrder::Less
}

/// `Ord::cmp` on two `std::path::Path`s, each variant of the result mapped to
/// the same variant here. `Ord` is documented as a total order, and the
/// contract states its laws at the two arguments: equal text compares Equal;
/// swapping the arguments reverses the result; a path below `b` is below
/// everything `b` is below (transitivity); and paths comparing Equal rank the
/// same against every path.
#[verifier::external_body]
fn compare_paths(a: &str, b: &str) -> (r: PathOrder)
    ensures
        r == path_order(a@, b@),
        a@ == b@ ==> r == PathOrder::Equal,
        (r == PathOrder::Less) == (path_order(b@, a@) == PathOrder::Greater),
        (r == PathOrder::Equal) == (path_order(b@, a@) == PathOrder::Equal),
        r == PathOrder::Less ==> below_all_above(a@, b@),
        r == PathOrder::Equal ==> congruent(a@, b@),
{
    match Path::new(a).cmp(Path::new(b)) {
        std::cmp::Ordering::Less => PathOrder::Less,
        std::cmp::Ordering::Equal => PathOrder::Equal,
        std::cmp::Ordering::Greater => PathOrder::Greater,
    }
}

/// One directory to a watcher: the same text, or paths that compare Equal
/// and rank the same against every path.
pub open spec fn same_dir(a: Seq<char>, b: Seq<char>) -> bool {
    a == b || (path_order(a, b) == PathOrder::Equal && congruent(a, b))
}

/// The directory a watcher subscribes to for a source: its parent, when the
/// source has a non-empty one.
pub open spec fn watch_dir(path: Seq<char>) -> Option<Seq<char>> {
    match path_parent(path) {
        Some(p) => if p.len() > 0 {
            Some(p)
        } else {
            None
        },
        None => None,
    }
}

/// The text of each string slice.
pub open spec fn str_texts(paths: Seq<&str>) -> Seq<Seq<char>> {
    paths.map_values(|p: &str| p@)
}

/// The text of each string.
pub open spec fn string_texts(dirs: Seq<String>) -> Seq<Seq<char>> {
    dirs.map_values(|d: String| d@)
}

proof fn lemma_str_texts_push(paths: Seq<&str>, s: &str)
    ensures
        str_texts(paths.push(s)) =~= str_texts(paths).push(s@),
{
    assert forall|j: int| 0 <= j < paths.len() + 1 implies #[trigger] str_texts(paths.push(s))[j]
        == str_texts(paths).push(s@)[j] by {
        if j < paths.len() {
            assert(paths.push(s)[j] == paths[j]);
        }
    }
}

/// `dir` is the watch directory of some path among `paths`, and of the first
/// one naming that directory: no earlier path's directory is the same one.
#[verifier::opaque]
pub open spec fn first_named(paths: Seq<Seq<char>>, dir: Seq<char>) -> bool {
    exists|k: int|
        0 <= k < paths.len() && watch_dir(paths[k]) == Some(dir) && forall|j: int|
            0 <= j < k && #[trigger] watch_dir(paths[j]) is Some ==> !same_dir(watch_dir(paths[j])->0, dir)
}

/// Some entry of `dirs` is the same directory as `dir`.
#[verifier::opaque]
pub open spec fn listed(dirs: Seq<Seq<char>>, dir: Seq<char>) -> bool {
    exists|i: int| 0 <= i < dirs.len() && same_dir(dirs[i], dir)
}

/// Entry `i` ranks below entry `j`, and their texts differ.
pub open spec fn ranks_below(dirs: Seq<Seq<char>>, i: int, j: int) -> bool {
    path_order(dirs[i], dirs[j]) == PathOrder::Less && dirs[i] != dirs[j]
}

/// `dirs` holds the unique parent directories of `paths` in ascending path
/// order: each entry is the text of the first path naming that directory,
/// every path's watch directory is among them (as the same directory), and
/// each entry ranks below every later one.
pub open spec fn is_watch_list(paths: Seq<Seq<char>>, dirs: Seq<Seq<char>>) -> bool {
    &&& forall|i: int| 0 <= i < dirs.len() ==> first_named(paths, #[trigger] dirs[i])
    &&& forall|k: int|
        0 <= k < paths.len() && #[trigger] watch_dir(paths[k]) is Some ==> listed(
            dirs,
            watch_dir(paths[k])->0,
        )
    &&& forall|i: int, j: int| 0 <= i < j < dirs.len() ==> #[trigger] ranks_below(dirs, i, j)
}

proof fn lemma_first_named_push(paths: Seq<Seq<char>>, path: Seq<char>, dir: Seq<char>)
    requires
        first_named(paths, dir),
    ensures
        first_named(paths.push(path), dir),
{
    reveal(first_named);
    let all = paths.push(path);
    let k = choose|k: int|
        0 <= k < paths.len() && watch_dir(paths[k]) == Some(dir) && forall|j: int|
            0 <= j < k && #[trigger] watch_dir(paths[j]) is Some ==> !same_dir(watch_dir(paths[j])->0, dir);
    assert(all[k] == paths[k]);
    assert forall|j: int| 0 <= j < k && #[trigger] watch_dir(all[j]) is Some implies !same_dir(
        watch_dir(all[j])->0,
        dir,
    ) by {
        assert(all[j] == paths[j]);
    }
}

proof fn lemma_listed_at(dirs: Seq<Seq<char>>, i: int, dir: Seq<char>)
    requires
        0 <= i < dirs.len(),
        same_dir(dirs[i], dir),
    ensures
        listed(dirs, dir),
{
    reveal(listed);
}

proof fn lemma_listed_insert(dirs: Seq<Seq<char>>, at: int, x: Seq<char>, dir: Seq<char>)
    requires
        0 <= at <= dirs.len(),
        listed(dirs, dir),
    ensures
        listed(dirs.insert(at, x), dir),
{
    reveal(listed);
    let i = choose|i: int| 0 <= i < dirs.len() && same_dir(dirs[i], dir);
    let j = if i < at { i } else { i + 1 };
    assert(dirs.insert(at, x)[j] == dirs[i]);
}

/// Every unique parent directory across `paths`, in ascending path order; of
/// paths naming the same directory, the first one's text is kept. A bare file
/// name (no parent directory) is skipped.
pub fn watch_dirs_of(paths: &[&str]) -> (dirs: Vec<String>)
    ensures
        is_watch_list(str_texts(paths@), string_texts(dirs@)),
        forall|i: int, j: int|
            0 <= i < j < dirs@.len() ==> !same_dir(#[trigger] string_texts(dirs@)[i], #[trigger] string_texts(dirs@)[j]),
{
    let ghost texts = str_texts(paths@);
    let mut dirs: Vec<String> = Vec::new();
    let mut k: usize = 0;
    while k < paths.len()
        invariant
            k <= paths@.len(),
            texts == str_texts(paths@),
            is_watch_list(texts.take(k as int), string_texts(dirs@)),
        decreases paths@.len() - k,
    {
        let ghost before = string_texts(dirs@);
        proof {
            assert(texts.take(k as int).push(paths@[k as int]@) =~= texts.take(k + 1));
        }
        match parent_text(paths[k]) {
            Some(parent) => {
                if parent.unicode_len() > 0 {
                    insert_dir(
                        &mut dirs,
                        parent,
                        Ghost(texts.take(k as int)),
                        Ghost(paths@[k as int]@),
                    );
                } else {
                    proof {
                        lemma_watch_list_skip(texts.take(k as int), paths@[k as int]@, before);
                    }
                }
            },
            None => {
                proof {
                    lemma_watch_list_skip(texts.take(k as int), paths@[k as int]@, before);
                }
            },
        }
        k += 1;
    }
    proof {
        assert(texts.take(paths@.len() as int) =~= texts);
        lemma_watch_list_no_repeats(texts, string_texts(dirs@));
    }
    dirs
}

/// A watch list names no directory twice: no two entries are the same text,
/// and no two compare Equal.
pub proof fn lemma_watch_list_no_repeats(paths: Seq<Seq<char>>, dirs: Seq<Seq<char>>)
    requires
        is_watch_list(paths, dirs),
    ensures
        forall|i: int, j: int| 0 <= i < j < dirs.len() ==> !same_dir(#[trigger] dirs[i], #[trigger] dirs[j]),
{
    assert forall|i: int, j: int| 0 <= i < j < dirs.len() implies !same_dir(#[trigger] dirs[i], #[trigger] dirs[j]) by {
        assert(ranks_below(dirs, i, j));
    }
}

proof fn lemma_watch_list_skip(paths: Seq<Seq<char>>, path: Seq<char>, dirs: Seq<Seq<char>>)
    requires
        is_watch_list(paths, dirs),
        watch_dir(path) is None,
    ensures
        is_watch_list(paths.push(path), dirs),
{
    let all = paths.push(path);
    assert forall|i: int| 0 <= i < dirs.len() implies first_named(all, #[trigger] dirs[i]) by {
        lemma_first_named_push(paths, path, dirs[i]);
    }
    assert forall|k: int| 0 <= k < all.len() && #[trigger] watch_dir(all[k]) is Some implies listed(
        dirs,
        watch_dir(all[k])->0,
    ) by {
        assert(all[k] == paths[k]);
    }
}

// Add the watch directory `parent` of `path` to a path-ordered list of
// directories, unless the same directory is already listed.
fn insert_dir(
    dirs: &mut Vec<String>,
    parent: String,
    Ghost(paths): Ghost<Seq<Seq<char>>>,
    Ghost(path): Ghost<Seq<char>>,
)
    requires
        is_watch_list(paths, string_texts(old(dirs)@)),
        path_parent(path) == Some(parent@),
        parent@.len() > 0,
    ensures
        is_watch_list(paths.push(path), string_texts(final(dirs)@)),
{
    let ghost before = string_texts(dirs@);
    let mut i: usize = 0;
    let mut order = PathOrder::Less;
    while i < dirs.len()
        invariant
            i <= dirs@.len(),
            before == string_texts(dirs@),
            forall|j: int| 0 <= j < i ==> path_order(#[trigger] before[j], parent@) == PathOrder::Less,
            forall|j: int| 0 <= j < i ==> #[trigger] before[j] != parent@,
        ensures
            i <= dirs@.len(),
            before == string_texts(dirs@),
            forall|j: int| 0 <= j < i ==> path_order(#[trigger] before[j], parent@) == PathOrder::Less,
            forall|j: int| 0 <= j < i ==> #[trigger] before[j] != parent@,
            i < dirs@.len() ==> order == path_order(before[i as int], parent@) && order != PathOrder::Less,
            i < dirs@.len() && order == PathOrder::Equal ==> congruent(before[i as int], parent@),
        decreases dirs@.len() - i,
    {
        order = compare_paths(dirs[i].as_str(), parent.as_str());
        if order != PathOrder::Less {
            break;
        }
        i += 1;
    }
    if i < dirs.len() {
        let back = compare_paths(parent.as_str(), dirs[i].as_str());
        if back != PathOrder::Less {
            proof {
                assert(order == PathOrder::Equal);
                lemma_watch_list_present(paths, path, before, i as int);
            }
            return;
        }
    }
    let ghost placed = i as int;
    dirs.insert(i, parent);
    proof {
        assert(string_texts(dirs@) =~= before.insert(placed, parent@));
        lemma_watch_list_insert(paths, path, before, placed);
    }
}

proof fn lemma_watch_list_present(
    paths: Seq<Seq<char>>,
    path: Seq<char>,
    dirs: Seq<Seq<char>>,
    at: int,
)
    requires
        is_watch_list(paths, dirs),
        watch_dir(path) is Some,
        0 <= at < dirs.len(),
        same_dir(dirs[at], watch_dir(path)->0),
    ensures
        is_watch_list(paths.push(path), dirs),
{
    let all = paths.push(path);
    assert forall|d: int| 0 <= d < dirs.len() implies first_named(all, #[trigger] dirs[d]) by {
        lemma_first_named_push(paths, path, dirs[d]);
    }
    assert forall|k: int| 0 <= k < all.len() && #[trigger] watch_dir(all[k]) is Some implies listed(
        dirs,
        watch_dir(all[k])->0,
    ) by {
        if k < paths.len() {
            assert(all[k] == paths[k]);
        } else {
            assert(all[k] == path);
            lemma_listed_at(dirs, at, watch_dir(path)->0);
        }
    }
}

// A directory that is neither listed text nor ranks equal to any entry is the
// same directory as no entry, so it is not the same as any listed directory.
proof fn lemma_fresh_not_listed(dirs: Seq<Seq<char>>, at: int, dir: Seq<char>, w: Seq<char>)
    requires
        0 <= at <= dirs.len(),
        forall|i: int, j: int| 0 <= i < j < dirs.len() ==> #[trigger] ranks_below(dirs, i, j),
        forall|j: int| 0 <= j < at ==> path_order(#[trigger] dirs[j], dir) == PathOrder::Less,
        forall|j: int| 0 <= j < at ==> #[trigger] dirs[j] != dir,
        at < dirs.len() ==> dirs[at] != dir,
        at < dirs.len() ==> path_order(dirs[at], dir) == PathOrder::Greater,
        at < dirs.len() ==> path_order(dir, dirs[at]) == PathOrder::Less,
        listed(dirs, w),
    ensures
        !same_dir(w, dir),
{
    reveal(listed);
    let e = choose|i: int| 0 <= i < dirs.len() && same_dir(dirs[i], w);
    let x = dirs[e];
    if same_dir(w, dir) {
        // Then the entry is the same directory as `dir` too.
        assert(x == dir || (path_order(x, dir) == PathOrder::Equal && congruent(x, dir))) by {
            if x == w {
            } else if w == dir {
            } else {
                assert(path_order(x, dir) == path_order(w, dir));
                assert forall|c: Seq<char>|
                    #![trigger path_order(x, c)]
                    #![trigger path_order(c, x)]
                    path_order(x, c) == path_order(dir, c) && path_order(c, x) == path_order(c, dir) by {
                    assert(path_order(x, c) == path_order(w, c));
                    assert(path_order(w, c) == path_order(dir, c));
                    assert(path_order(c, x) == path_order(c, w));
                    assert(path_order(c, w) == path_order(c, dir));
                }
            }
        }
        if e < at {
        } else if e == at {
        } else {
            assert(ranks_below(dirs, at, e));
            if x == dir {
            } else {
                assert(path_order(dirs[at], x) == path_order(dirs[at], dir));
            }
        }
    }
}

proof fn lemma_watch_list_insert(
    paths: Seq<Seq<char>>,
    path: Seq<char>,
    dirs: Seq<Seq<char>>,
    at: int,
)
    requires
        is_watch_list(paths, dirs),
        watch_dir(path) is Some,
        0 <= at <= dirs.len(),
        forall|j: int| 0 <= j < at ==> path_order(#[trigger] dirs[j], watch_dir(path)->0) == PathOrder::Less,
        forall|j: int| 0 <= j < at ==> #[trigger] dirs[j] != watch_dir(path)->0,
        at < dirs.len() ==> dirs[at] != watch_dir(path)->0,
        at < dirs.len() ==> path_order(watch_dir(path)->0, dirs[at]) == PathOrder::Less,
        at < dirs.len() ==> path_order(dirs[at], watch_dir(path)->0) == PathOrder::Greater,
        at < dirs.len() ==> below_all_above(watch_dir(path)->0, dirs[at]),
    ensures
        is_watch_list(paths.push(path), dirs.insert(at, watch_dir(path)->0)),
{
    let all = paths.push(path);
    let dir = watch_dir(path)->0;
    let after = dirs.insert(at, dir);
    assert forall|d: int| 0 <= d < after.len() implies first_named(all, #[trigger] after[d]) by {
        if d == at {
            reveal(first_named);
            let k = paths.len() as int;
            assert(all[k] == path);
            assert forall|j: int| 0 <= j < k && #[trigger] watch_dir(all[j]) is Some implies !same_dir(
                watch_dir(all[j])->0,
                dir,
            ) by {
                assert(all[j] == paths[j]);
                assert(listed(dirs, watch_dir(paths[j])->0));
                lemma_fresh_not_listed(dirs, at, dir, watch_dir(paths[j])->0);
            }
        } else {
            let e = if d < at { d } else { d - 1 };
            assert(after[d] == dirs[e]);
            lemma_first_named_push(paths, path, dirs[e]);
        }
    }
    assert forall|k: int| 0 <= k < all.len() && #[trigger] watch_dir(all[k]) is Some implies listed(
        after,
        watch_dir(all[k])->0,
    ) by {
        if k < paths.len() {
            assert(all[k] == paths[k]);
            lemma_listed_insert(dirs, at, dir, watch_dir(paths[k])->0);
        } else {
            assert(all[k] == path);
            lemma_listed_at(after, at, dir);
        }
    }
    assert forall|i: int, j: int| 0 <= i < j < after.len() implies #[trigger] ranks_below(after, i, j) by {
        let ei = if i < at { i } else { i - 1 };
        let ej = if j < at { j } else { j - 1 };
        if i != at && j != at {
            assert(after[i] == dirs[ei] && after[j] == dirs[ej]);
            assert(ranks_below(dirs, ei, ej));
        } else if j == at {
            assert(after[i] == dirs[i]);
        } else {
            assert(after[j] == dirs[ej]);
            if ej == at {
            } else {
                assert(ranks_below(dirs, at, ej));
                assert(path_order(dirs[at], dirs[ej]) == PathOrder::Less);
                if dirs[ej] == dir {
                    assert(path_order(dirs[at], dir) == PathOrder::Less);
                }
            }
        }
    }
}

/// One reload entry: a file-backed texture source and the pool slot it owns.
#[derive(Debug, Clone)]
pub struct TextureSourceEntry {
    /// The source path the build pipeline read.
    pub source: String,
    /// Image index for `.glb`-image sources; 0 (ignored) for plain images.
    pub image_index: u32,
    /// Slot in the shared texture pool.
    pub slot: usize,
}

/// The colour-grading LUT's reload entry: its resolved source path.
#[derive(Debug, Clone)]
pub struct ColorLutSource {
    /// Resolved on-disk path the build pipeline read.
    pub resolved_path: String,
}

/// One file-backed skinned-mesh reload entry, 1:1 with its draw slot.
#[derive(Debug, Clone)]
pub struct SkinnedMeshSourceEntry {
    /// The source path from the asset declaration.
    pub source: String,
    /// Which skinned mesh of `source` the reload re-imports.
    pub skin_index: u32,
    /// The skinned draw slot this entry owns.
    pub skinned_index: usize,
    /// Vertex offset (in vertices) of the slot in the shared skinned buffer.
    pub vertex_base: u32,
    /// Vertices in the slot.
    pub vertex_count: usize,
    /// Indices in the slot.
    pub index_count: usize,
    /// Bind-pose joint count captured at init.
    pub joint_count: usize,
}

/// The source paths of a list of texture entries.
pub open spec fn texture_sources(entries: Seq<TextureSourceEntry>) -> Seq<Seq<char>> {
    entries.map_values(|e: TextureSourceEntry| e.source@)
}

/// The source paths of a list of skinned-mesh entries.
pub open spec fn skinned_sources(entries: Seq<SkinnedMeshSourceEntry>) -> Seq<Seq<char>> {
    entries.map_values(|e: SkinnedMeshSourceEntry| e.source@)
}

/// Catalog of every file-backed texture slot the renderer can hot-reload.
#[derive(Debug, Clone)]
pub struct TextureSourceMap {
    /// One entry per reloadable texture.
    pub entries: Vec<TextureSourceEntry>,
}

impl TextureSourceMap {
    /// An empty catalog.
    pub fn new() -> (r: Self)
        ensures
            r.entries@.len() == 0,
    {
        TextureSourceMap { entries: Vec::new() }
    }

    /// Add a texture-pool entry for a file-backed source.
    pub fn push_texture(&mut self, source: String, image_index: u32, slot: usize)
        ensures
            final(self).entries@ == old(self).entries@.push(
                TextureSourceEntry { source, image_index, slot },
            ),
    {
        self.entries.push(TextureSourceEntry { source, image_index, slot });
    }

    /// Whether the catalog is empty.
    pub fn is_empty(&self) -> (r: bool)
        ensures
            r == (self.entries@.len() == 0),
    {
        self.entries.len() == 0
    }

    /// Entries in the catalog.
    pub fn len(&self) -> (r: usize)
        ensures
            r == self.entries@.len(),
    {
        self.entries.len()
    }

    /// Directories the watcher must subscribe to for these sources.
    pub fn watch_dirs(&self) -> (dirs: Vec<String>)
        ensures
            is_watch_list(texture_sources(self.entries@), string_texts(dirs@)),
    {
        let mut paths: Vec<&str> = Vec::new();
        let mut k: usize = 0;
        while k < self.entries.len()
            invariant
                k <= self.entries@.len(),
                str_texts(paths@) == texture_sources(self.entries@).take(k as int),
            decreases self.entries@.len() - k,
        {
            let ghost before = paths@;
            let src = self.entries[k].source.as_str();
            paths.push(src);
            proof {
                lemma_str_texts_push(before, src);
                assert(texture_sources(self.entries@).take(k + 1) =~= texture_sources(self.entries@).take(k as int).push(src@));
            }
            k += 1;
        }
        proof {
            assert(texture_sources(self.entries@).take(k as int) =~= texture_sources(self.entries@));
        }
        watch_dirs_of(paths.as_slice())
    }
}

impl Default for TextureSourceMap {
    /// An empty catalog.
    fn default() -> (r: Self)
        ensures
            r.entries@.len() == 0,
    {
        Self::new()
    }
}

/// Catalog of every file-backed skinned mesh the renderer can hot-reload.
#[derive(Debug, Clone)]
pub struct SkinnedMeshSourceMap {
    /// One entry per reloadable skinned mesh.
    pub entries: Vec<SkinnedMeshSourceEntry>,
}

impl SkinnedMeshSourceMap {
    /// An empty catalog.
    pub fn new() -> (r: Self)
        ensures
            r.entries@.len() == 0,
    {
        SkinnedMeshSourceMap { entries: Vec::new() }
    }

    /// Whether the catalog is empty.
    pub fn is_empty(&self) -> (r: bool)
        ensures
            r == (self.entries@.len() == 0),
    {
        self.entries.len() == 0
    }

    /// Entries in the catalog.
    pub fn len(&self) -> (r: usize)
        ensures
            r == self.entries@.len(),
    {
        self.entries.len()
    }

    /// Directories the watcher must subscribe to for these sources.
    pub fn watch_dirs(&self) -> (dirs: Vec<String>)
        ensures
            is_watch_list(skinned_sources(self.entries@), string_texts(dirs@)),
    {
        let mut paths: Vec<&str> = Vec::new();
        let mut k: usize = 0;
        while k < self.entries.len()
            invariant
                k <= self.entries@.len(),
                str_texts(paths@) == skinned_sources(self.entries@).take(k as int),
            decreases self.entries@.len() - k,
        {
            let ghost before = paths@;
            let src = self.entries[k].source.as_str();
            paths.push(src);
            proof {
                lemma_str_texts_push(before, src);
                assert(skinned_sources(self.entries@).take(k + 1) =~= skinned_sources(self.entries@).take(k as int).push(src@));
            }
            k += 1;
        }
        proof {
            assert(skinned_sources(self.entries@).take(k as int) =~= skinned_sources(self.entries@));
        }
        watch_dirs_of(paths.as_slice())
    }
}

impl Default for SkinnedMeshSourceMap {
    /// An empty catalog.
    fn default() -> (r: Self)
        ensures
            r.entries@.len() == 0,
    {
        Self::new()
    }
}

/// Which of a shader's files an entry is.
#[derive(Clone, Copy, Debug, PartialEq, Eq, Structural)]
pub enum ShaderStage {
    Vertex,
    Fragment,
}

/// One of the default shader's files: which stage it defines and the resolved
/// on-disk path the build pipeline read.
#[derive(Debug, Clone)]
pub struct ShaderStageSourceEntry {
    /// Which of the shader's files this is.
    pub stage: ShaderStage,
    /// Resolved on-disk path.
    pub resolved_path: String,
}

/// The resolved paths of a list of shader-stage entries.
pub open spec fn shader_sources(entries: Seq<ShaderStageSourceEntry>) -> Seq<Seq<char>> {
    entries.map_values(|e: ShaderStageSourceEntry| e.resolved_path@)
}

/// Catalog of the default shader's files, which the renderer can hot-reload; at
/// most one entry per stage.
#[derive(Debug, Clone)]
pub struct ShaderStageSourceMap {
    /// One entry per reloadable shader stage.
    pub entries: Vec<ShaderStageSourceEntry>,
}

impl ShaderStageSourceMap {
    /// An empty catalog.
    pub fn new() -> (r: Self)
        ensures
            r.entries@.len() == 0,
    {
        ShaderStageSourceMap { entries: Vec::new() }
    }

    /// Whether the catalog is empty.
    pub fn is_empty(&self) -> (r: bool)
        ensures
            r == (self.entries@.len() == 0),
    {
        self.entries.len() == 0
    }

    /// Entries in the catalog.
    pub fn len(&self) -> (r: usize)
        ensures
            r == self.entries@.len(),
    {
        self.entries.len()
    }

    /// Directories the watcher must subscribe to for these sources.
    pub fn watch_dirs(&self) -> (dirs: Vec<String>)
        ensures
            is_watch_list(shader_sources(self.entries@), string_texts(dirs@)),
    {
        let mut paths: Vec<&str> = Vec::new();
        let mut k: usize = 0;
        while k < self.entries.len()
            invariant
                k <= self.entries@.len(),
                str_texts(paths@) == shader_sources(self.entries@).take(k as int),
            decreases self.entries@.len() - k,
        {
            let ghost before = paths@;
            let src = self.entries[k].resolved_path.as_str();
            paths.push(src);
            proof {
                lemma_str_texts_push(before, src);
                assert(shader_sources(self.entries@).take(k + 1) =~= shader_sources(self.entries@).take(k as int).push(src@));
            }
            k += 1;
        }
        proof {
            assert(shader_sources(self.entries@).take(k as int) =~= shader_sources(self.entries@));
        }
        watch_dirs_of(paths.as_slice())
    }
}

impl Default for ShaderStageSourceMap {
    /// An empty catalog.
    fn default() -> (r: Self)
        ensures
            r.entries@.len() == 0,
    {
        Self::new()
    }
}

/// One file-backed mesh reload entry. One mesh asset can feed many props, each
/// holding its own copy of the geometry, so a reload overwrites every draw
/// slot listed here. The per-level switch distances travel with the entry on
/// the host side.
#[derive(Debug, Clone)]
pub struct MeshSourceEntry {
    /// The source path from the asset declaration.
    pub source: String,
    /// Which primitive (flattened across the file's meshes) to import.
    pub primitive_index: u32,
    /// Total level-of-detail count (1 for none).
    pub lod_levels: u32,
    /// Every draw slot that received this mesh's geometry at init.
    pub draw_indices: Vec<usize>,
}

/// The source paths of a list of mesh entries.
pub open spec fn mesh_sources(entries: Seq<MeshSourceEntry>) -> Seq<Seq<char>> {
    entries.map_values(|e: MeshSourceEntry| e.source@)
}

/// Catalog of every file-backed mesh the renderer can hot-reload.
#[derive(Debug, Clone)]
pub struct MeshSourceMap {
    /// One entry per reloadable mesh.
    pub entries: Vec<MeshSourceEntry>,
}

impl MeshSourceMap {
    /// An empty catalog.
    pub fn new() -> (r: Self)
        ensures
            r.entries@.len() == 0,
    {
        MeshSourceMap { entries: Vec::new() }
    }

    /// Whether the catalog is empty.
    pub fn is_empty(&self) -> (r: bool)
        ensures
            r == (self.entries@.len() == 0),
    {
        self.entries.len() == 0
    }

    /// Entries in the catalog.
    pub fn len(&self) -> (r: usize)
        ensures
            r == self.entries@.len(),
    {
        self.entries.len()
    }

    /// Directories the watcher must subscribe to for these sources.
    pub fn watch_dirs(&self) -> (dirs: Vec<String>)
        ensures
            is_watch_list(mesh_sources(self.entries@), string_texts(dirs@)),
    {
        let mut paths: Vec<&str> = Vec::new();
        let mut k: usize = 0;
        while k < self.entries.len()
            invariant
                k <= self.entries@.len(),
                str_texts(paths@) == mesh_sources(self.entries@).take(k as int),
            decreases self.entries@.len() - k,
        {
            let ghost before = paths@;
            let src = self.entries[k].source.as_str();
            paths.push(src);
            proof {
                lemma_str_texts_push(before, src);
                assert(mesh_sources(self.entries@).take(k + 1) =~= mesh_sources(self.entries@).take(k as int).push(src@));
            }
            k += 1;
        }
        proof {
            assert(mesh_sources(self.entries@).take(k as int) =~= mesh_sources(self.entries@));
        }
        watch_dirs_of(paths.as_slice())
    }
}

/// One procedural mesh reload entry: a save of the world file re-runs the
/// generator when the mesh's arguments changed. The arguments last applied
/// are held by the host beside the entry, joined by name.
#[derive(Debug, Clone)]
pub struct ProceduralMeshSourceEntry {
    /// The asset's declared name.
    pub name: String,
    /// Every draw slot that received this mesh's geometry at init.
    pub draw_indices: Vec<usize>,
}

/// Catalog of every procedural mesh whose arguments the renderer can
/// hot-reload.
#[derive(Debug, Clone)]
pub struct ProceduralMeshSourceMap {
    /// One entry per reloadable procedural mesh.
    pub entries: Vec<ProceduralMeshSourceEntry>,
}

impl ProceduralMeshSourceMap {
    /// An empty catalog.
    pub fn new() -> (r: Self)
        ensures
            r.entries@.len() == 0,
    {
        ProceduralMeshSourceMap { entries: Vec::new() }
    }

    /// Whether the catalog is empty.
    pub fn is_empty(&self) -> (r: bool)
        ensures
            r == (self.entries@.len() == 0),
    {
        self.entries.len() == 0
    }

    /// Entries in the catalog.
    pub fn len(&self) -> (r: usize)
        ensures
            r == self.entries@.len(),
    {
        self.entries.len()
    }
}

/// The environment map's reload entry: its resolved path and the sizes the
/// re-decode must reproduce. Its brightness clamp travels with it on the host
/// side.
#[derive(Debug, Clone)]
pub struct EnvironmentMapSource {
    pub resolved_path: String,
    pub prefilter_face_size: u32,
    pub irradiance_face_size: u32,
    pub prefilter_samples: u32,
}

/// Every captured source catalog, taken once by the development hot-reload
/// driver to build its file watcher.
#[derive(Debug)]
pub struct HotReloadSources {
    pub map: TextureSourceMap,
    pub color_lut: Option<ColorLutSource>,
    pub environment_map: Option<EnvironmentMapSource>,
    pub meshes: MeshSourceMap,
    pub skinned_meshes: SkinnedMeshSourceMap,
    pub procedural_meshes: ProceduralMeshSourceMap,
    pub shader_stages: ShaderStageSourceMap,
    /// The world file's path, when the world was loaded from one.
    pub world_jsonl_path: Option<String>,
}

impl HotReloadSources {
    /// Whether nothing reloadable was captured, so no watcher is worth starting.
    pub fn is_empty(&self) -> (r: bool)
        ensures
            r == (self.map.entries@.len() == 0 && self.color_lut is None && self.environment_map is None
                && self.meshes.entries@.len() == 0 && self.skinned_meshes.entries@.len() == 0
                && self.procedural_meshes.entries@.len() == 0 && self.shader_stages.entries@.len() == 0
                && self.world_jsonl_path is None),
    {
        self.map.is_empty() && self.color_lut.is_none() && self.environment_map.is_none()
            && self.meshes.is_empty() && self.skinned_meshes.is_empty()
            && self.procedural_meshes.is_empty() && self.shader_stages.is_empty()
            && self.world_jsonl_path.is_none()
    }
}

} // verus!
