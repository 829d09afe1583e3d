//! Where the library is and what works on it.
use crate::env_config::{chosen_setting, chosen_workers, setting_or, workers_of};
use crate::ffmpeg::FfmpegHardwareAcceleration;
use crate::order::{
    in_order, insert_in_order, lemma_text_leq_total, lemma_text_leq_transitive, not_after, orders,
    text_leq,
};
use crate::paths::{
    components, components_of, components_upto, is_component, is_plain_name, join_path, joined_path,
    lemma_components_grow_by_a_step,
};
use crate::stream_copies::paths::{default_stream_copy_cache_dir, DEFAULT_STREAM_COPY_CACHE_DIR};
use crate::stream_copies::subtitles::joined_parts;
use crate::text::{
    as_opt_str, find, law_pieces_join_to_the_text, lemma_find, lemma_pieces_append,
    lemma_pieces_of_nothing, lemma_pieces_push, opt_str, opt_text, pieces, push_text, same_text,
    texts,
};
use crate::thumbnails::{
    default_ffmpeg_command, default_thumbnail_cache_dir, DEFAULT_THUMBNAIL_CACHE_DIR,
};
use vstd::prelude::*;

verus! {

pub const DEFAULT_PROBE_WORKERS: usize = 4;

pub const DEFAULT_WALK_WORKERS: usize = 8;

/// The settings of a library. Its view holds them as plain values.
#[derive(Debug)]
pub struct LibraryConfig {
    root_paths: Vec<String>,
    probe_command: Option<String>,
    ffmpeg_command: Option<String>,
    hw_accel: FfmpegHardwareAcceleration,
    thumbnail_cache_dir: Option<String>,
    stream_copy_cache_dir: Option<String>,
    probe_workers: usize,
    walk_workers: usize,
}

/// The settings of a library as plain values.
pub ghost struct LibrarySettings {
    pub root_paths: Seq<Seq<char>>,
    pub probe_command: Option<Seq<char>>,
    pub ffmpeg_command: Option<Seq<char>>,
    pub hw_accel: FfmpegHardwareAcceleration,
    pub thumbnail_cache_dir: Option<Seq<char>>,
    pub stream_copy_cache_dir: Option<Seq<char>>,
    pub probe_workers: usize,
    pub walk_workers: usize,
}

impl View for LibraryConfig {
    type V = LibrarySettings;

    closed spec fn view(&self) -> LibrarySettings {
        LibrarySettings {
            root_paths: texts(self.root_paths@),
            probe_command: opt_text(self.probe_command),
            ffmpeg_command: opt_text(self.ffmpeg_command),
            hw_accel: self.hw_accel,
            thumbnail_cache_dir: opt_text(self.thumbnail_cache_dir),
            stream_copy_cache_dir: opt_text(self.stream_copy_cache_dir),
            probe_workers: self.probe_workers,
            walk_workers: self.walk_workers,
        }
    }
}

/// The default settings for the given roots.
pub open spec fn default_settings(root_paths: Seq<Seq<char>>) -> LibrarySettings {
    LibrarySettings {
        root_paths,
        probe_command: Some("ffprobe"@),
        ffmpeg_command: Some("ffmpeg"@),
        hw_accel: FfmpegHardwareAcceleration::Software,
        thumbnail_cache_dir: Some(DEFAULT_THUMBNAIL_CACHE_DIR@),
        stream_copy_cache_dir: Some(DEFAULT_STREAM_COPY_CACHE_DIR@),
        probe_workers: DEFAULT_PROBE_WORKERS,
        walk_workers: DEFAULT_WALK_WORKERS,
    }
}

/// A number of workers: at least one.
pub open spec fn at_least_one(workers: usize) -> usize {
    if workers > 1 {
        workers
    } else {
        1
    }
}

/// A number of workers: at least one.
pub fn at_least_one_worker(workers: usize) -> (r: usize)
    ensures
        r == at_least_one(workers),
{
    if workers > 1 {
        workers
    } else {
        1
    }
}

/// The command that probes files by default.
pub fn default_probe_command() -> (r: Option<String>)
    ensures
        opt_text(r) == Some("ffprobe"@),
{
    Some("ffprobe".to_owned())
}

pub fn default_probe_workers() -> (r: usize)
    ensures
        r == DEFAULT_PROBE_WORKERS,
{
    DEFAULT_PROBE_WORKERS
}

pub fn default_walk_workers() -> (r: usize)
    ensures
        r == DEFAULT_WALK_WORKERS,
{
    DEFAULT_WALK_WORKERS
}

/// The rank of a path component in the order of paths: the root, then steps to
/// the current and the parent directory, then names.
pub open spec fn component_rank(part: Seq<char>) -> int {
    if part == "/"@ {
        0
    } else if part == "."@ {
        1
    } else if part == ".."@ {
        2
    } else {
        3
    }
}

/// Whether a component comes before another or is the same.
pub open spec fn component_leq(a: Seq<char>, b: Seq<char>) -> bool {
    if component_rank(a) != component_rank(b) {
        component_rank(a) < component_rank(b)
    } else {
        text_leq(a, b)
    }
}

/// Whether a list of components comes before another or is the same.
pub open spec fn parts_leq(a: Seq<Seq<char>>, b: Seq<Seq<char>>) -> bool
    decreases a.len(),
{
    if a.len() == 0 {
        true
    } else if b.len() == 0 {
        false
    } else if a[0] == b[0] {
        parts_leq(a.skip(1), b.skip(1))
    } else {
        component_leq(a[0], b[0])
    }
}

proof fn lemma_parts_total(a: Seq<Seq<char>>, b: Seq<Seq<char>>)
    ensures
        parts_leq(a, b) || parts_leq(b, a),
    decreases a.len(),
{
    if a.len() > 0 && b.len() > 0 {
        if a[0] == b[0] {
            lemma_parts_total(a.skip(1), b.skip(1));
        } else {
            lemma_text_leq_total(a[0], b[0]);
        }
    }
}

proof fn lemma_parts_transitive(a: Seq<Seq<char>>, b: Seq<Seq<char>>, c: Seq<Seq<char>>)
    requires
        parts_leq(a, b),
        parts_leq(b, c),
    ensures
        parts_leq(a, c),
    decreases a.len(),
{
    if a.len() > 0 && b.len() > 0 && c.len() > 0 {
        if a[0] == b[0] && b[0] == c[0] {
            lemma_parts_transitive(a.skip(1), b.skip(1), c.skip(1));
        } else if a[0] != b[0] && b[0] != c[0] {
            if component_rank(a[0]) == component_rank(b[0]) && component_rank(b[0])
                == component_rank(c[0]) {
                lemma_text_leq_transitive(a[0], b[0], c[0]);
            }
            if a[0] == c[0] {
                lemma_text_leq_total(a[0], b[0]);
            }
        }
    }
}

/// The order of paths: component by component.
pub open spec fn path_leq() -> spec_fn(String, String) -> bool {
    |a: String, b: String| parts_leq(components_of(a@), components_of(b@))
}

proof fn lemma_path_order()
    ensures
        orders(path_leq()),
{
    let leq = path_leq();
    assert forall|a: String, b: String| #[trigger] leq(a, b) || leq(b, a) by {
        lemma_parts_total(components_of(a@), components_of(b@));
    }
    assert forall|a: String, b: String, c: String| #[trigger] leq(a, b) && #[trigger] leq(b, c) implies leq(a, c) by {
        lemma_parts_transitive(components_of(a@), components_of(b@), components_of(c@));
    }
}

fn rank_of(part: &str) -> (r: u8)
    ensures
        r == component_rank(part@),
{
    if same_text(part, "/") {
        0
    } else if same_text(part, ".") {
        1
    } else if same_text(part, "..") {
        2
    } else {
        3
    }
}

fn path_not_after(a: &String, b: &String) -> (r: bool)
    ensures
        r == path_leq()(*a, *b),
{
    let left: Vec<String> = components(a.as_str());
    let right: Vec<String> = components(b.as_str());
    let ghost x = components_of(a@);
    let ghost y = components_of(b@);
    let mut i: usize = 0;
    assert(x.skip(0) =~= x);
    assert(y.skip(0) =~= y);
    assert(texts(left@).len() == left@.len());
    assert(texts(right@).len() == right@.len());
    while i < left.len() && i < right.len()
        invariant
            i <= left@.len(),
            i <= right@.len(),
            texts(left@) == x,
            texts(right@) == y,
            x.len() == left@.len(),
            y.len() == right@.len(),
            x == components_of(a@),
            y == components_of(b@),
            parts_leq(x, y) == parts_leq(x.skip(i as int), y.skip(i as int)),
        decreases left@.len() - i,
    {
        let p: &str = left[i].as_str();
        let q: &str = right[i].as_str();
        assert(x[i as int] == p@);
        assert(y[i as int] == q@);
        if !same_text(p, q) {
            let p_rank: u8 = rank_of(p);
            let q_rank: u8 = rank_of(q);
            return if p_rank != q_rank {
                p_rank < q_rank
            } else {
                not_after(p, q)
            };
        }
        assert(x.skip(i as int).skip(1) =~= x.skip(i + 1));
        assert(y.skip(i as int).skip(1) =~= y.skip(i + 1));
        i = i + 1;
    }
    i == left.len()
}

/// A root as it was given, made absolute: nothing where it is empty; a relative
/// one is taken from the current directory, where that is known.
pub open spec fn absolute_root(path: Seq<char>, current_dir: Option<Seq<char>>) -> Option<
    Seq<char>,
> {
    if path.len() == 0 {
        None
    } else if path[0] == '/' {
        Some(path)
    } else {
        match current_dir {
            Some(dir) => Some(joined_path(dir, path)),
            None => Some(path),
        }
    }
}

/// A root as it was given, made absolute.
pub fn absolutize_root(path: &str, current_dir: Option<&str>) -> (r: Option<String>)
    ensures
        opt_text(r) == absolute_root(path@, opt_str(current_dir)),
{
    if path.is_empty() {
        return None;
    }
    if path.get_char(0) == '/' {
        return Some(path.to_owned());
    }
    match current_dir {
        Some(dir) => Some(join_path(dir, path)),
        None => Some(path.to_owned()),
    }
}

/// A path made of the components of `path`: without repeated separators,
/// trailing ones and steps to the current directory.
pub open spec fn plain_path(path: Seq<char>) -> Seq<char> {
    joined_parts(Seq::empty(), components_of(path), components_of(path).len() as int)
}

/// A path made of the components of `path`.
pub fn normalize_root_path(path: &str) -> (r: String)
    ensures
        r@ == plain_path(path@),
{
    let parts: Vec<String> = components(path);
    let mut r: String = String::new();
    let mut i: usize = 0;
    while i < parts.len()
        invariant
            i <= parts@.len(),
            r@ == joined_parts(Seq::empty(), texts(parts@), i as int),
        decreases parts@.len() - i,
    {
        assert(texts(parts@)[i as int] == parts@[i as int]@);
        r = join_path(r.as_str(), parts[i].as_str());
        i = i + 1;
    }
    assert(texts(parts@).len() == parts@.len());
    r
}

fn holds_text(list: &Vec<String>, text: &str) -> (r: bool)
    ensures
        r == texts(list@).contains(text@),
{
    let mut i: usize = 0;
    while i < list.len()
        invariant
            i <= list@.len(),
            forall|k: int| 0 <= k < i ==> texts(list@)[k] != text@,
        decreases list@.len() - i,
    {
        assert(texts(list@)[i as int] == list@[i as int]@);
        if same_text(list[i].as_str(), text) {
            return true;
        }
        i = i + 1;
    }
    assert(texts(list@).len() == list@.len());
    false
}

/// The paths that are not empty.
pub open spec fn given_paths(paths: Seq<Seq<char>>) -> Seq<Seq<char>> {
    paths.filter(|p: Seq<char>| p.len() > 0)
}

fn non_empty_paths(paths: &Vec<String>) -> (r: Vec<String>)
    ensures
        texts(r@) == given_paths(texts(paths@)),
{
    let ghost all = texts(paths@);
    let ghost keep = |p: Seq<char>| p.len() > 0;
    let mut r: Vec<String> = Vec::new();
    let mut i: usize = 0;
    proof {
        reveal(Seq::filter);
        assert(texts(r@) =~= all.take(0).filter(keep));
    }
    while i < paths.len()
        invariant
            i <= paths@.len(),
            all == texts(paths@),
            keep == (|p: Seq<char>| p.len() > 0),
            texts(r@) == all.take(i as int).filter(keep),
        decreases paths@.len() - i,
    {
        let path: &str = paths[i].as_str();
        proof {
            assert(all[i as int] == path@);
            assert(all.take(i + 1) =~= all.take(i as int).push(path@));
            all.take(i as int).lemma_filter_push(path@, keep);
        }
        if !path.is_empty() {
            push_text(&mut r, path);
        }
        i = i + 1;
    }
    assert(all.take(all.len() as int) =~= all);
    r
}

/// Whether `root` is one of the first `n` given paths in plain form.
pub open spec fn is_given(root: Seq<char>, given: Seq<Seq<char>>, n: int) -> bool {
    exists|i: int| 0 <= i < n && #[trigger] plain_path(given[i]) == root
}

/// Whether `roots` are the given paths in plain form, each once, in the order
/// of paths.
pub open spec fn are_roots_of(roots: Seq<Seq<char>>, given: Seq<Seq<char>>) -> bool {
    &&& roots.no_duplicates()
    &&& forall|i: int, j: int|
        0 <= i < j < roots.len() ==> parts_leq(
            components_of(#[trigger] roots[i]),
            components_of(#[trigger] roots[j]),
        )
    &&& forall|i: int| 0 <= i < given.len() ==> roots.contains(plain_path(#[trigger] given[i]))
    &&& forall|k: int|
        0 <= k < roots.len() ==> is_given(#[trigger] roots[k], given, given.len() as int)
}

fn arrange_roots(given_roots: &Vec<String>) -> (r: Vec<String>)
    ensures
        are_roots_of(texts(r@), given_paths(texts(given_roots@))),
{
    let paths: Vec<String> = non_empty_paths(given_roots);
    proof {
        lemma_path_order();
    }
    let mut roots: Vec<String> = Vec::new();
    let ghost given = texts(paths@);
    let mut i: usize = 0;
    while i < paths.len()
        invariant
            i <= paths@.len(),
            given == texts(paths@),
            orders(path_leq()),
            in_order(roots@, path_leq()),
            texts(roots@).no_duplicates(),
            forall|k: int| 0 <= k < i ==> texts(roots@).contains(plain_path(#[trigger] given[k])),
            forall|k: int| 0 <= k < roots@.len() ==> is_given((#[trigger] roots@[k])@, given, i as int),
        decreases paths@.len() - i,
    {
        let path: String = normalize_root_path(paths[i].as_str());
        assert(given[i as int] == paths@[i as int]@);
        let ghost before = roots@;
        if !holds_text(&roots, path.as_str()) {
            insert_in_order(&mut roots, path, path_not_after, Ghost(path_leq()));
            proof {
                let k = choose|k: int| 0 <= k <= before.len() && roots@ == before.insert(k, path);
                before.insert_ensures(k, path);
                assert(texts(roots@) =~= texts(before).insert(k, path@));
                texts(before).insert_ensures(k, path@);
                assert(texts(roots@)[k] == path@);
                assert forall|m: int| 0 <= m < i implies texts(roots@).contains(
                    plain_path(#[trigger] given[m]),
                ) by {
                    let j = choose|j: int|
                        0 <= j < texts(before).len() && texts(before)[j] == plain_path(given[m]);
                    if j < k {
                        assert(texts(roots@)[j] == plain_path(given[m]));
                    } else {
                        assert(texts(roots@)[j + 1] == plain_path(given[m]));
                    }
                }
                assert(texts(roots@).no_duplicates()) by {
                    assert forall|a: int, b: int|
                        0 <= a < texts(roots@).len() && 0 <= b < texts(roots@).len() && a
                            != b implies texts(roots@)[a] != texts(roots@)[b] by {
                        let a0 = if a < k {
                            a
                        } else {
                            a - 1
                        };
                        let b0 = if b < k {
                            b
                        } else {
                            b - 1
                        };
                        if a != k {
                            assert(texts(roots@)[a] == texts(before)[a0]);
                        }
                        if b != k {
                            assert(texts(roots@)[b] == texts(before)[b0]);
                        }
                    }
                }
                assert forall|j: int| 0 <= j < roots@.len() implies is_given(
                    (#[trigger] roots@[j])@,
                    given,
                    i + 1,
                ) by {
                    if j == k {
                        assert(plain_path(given[i as int]) == roots@[j]@);
                    } else {
                        let j0 = if j < k {
                            j
                        } else {
                            j - 1
                        };
                        assert(roots@[j] == before[j0]);
                        assert(is_given(before[j0]@, given, i as int));
                    }
                }
            }
        } else {
            proof {
                assert forall|j: int| 0 <= j < roots@.len() implies is_given(
                    (#[trigger] roots@[j])@,
                    given,
                    i + 1,
                ) by {
                    assert(is_given(before[j]@, given, i as int));
                }
            }
        }
        i = i + 1;
    }
    proof {
        let all = texts(roots@);
        assert(given.len() == paths@.len());
        assert forall|a: int, b: int| 0 <= a < b < all.len() implies parts_leq(
            components_of(#[trigger] all[a]),
            components_of(#[trigger] all[b]),
        ) by {
            assert(path_leq()(roots@[a], roots@[b]));
        }
        assert forall|k: int| 0 <= k < all.len() implies is_given(
            #[trigger] all[k],
            given,
            given.len() as int,
        ) by {
            assert(all[k] == roots@[k]@);
        }
    }
    roots
}

/// No root is empty, whatever paths were given.
pub proof fn law_roots_are_not_empty(roots: Seq<Seq<char>>, paths: Seq<Seq<char>>, k: int)
    requires
        are_roots_of(roots, given_paths(paths)),
        0 <= k < roots.len(),
    ensures
        roots[k].len() > 0,
{
    let given = given_paths(paths);
    assert(is_given(roots[k], given, given.len() as int));
    let i = choose|i: int| 0 <= i < given.len() && #[trigger] plain_path(given[i]) == roots[k];
    let keep = |p: Seq<char>| p.len() > 0;
    paths.lemma_filter_pred(keep, i);
    lemma_plain_path_not_empty(given[i]);
}

proof fn lemma_components_not_empty(list: Seq<Seq<char>>, n: int)
    requires
        1 <= n <= list.len(),
        list[0].len() > 0,
    ensures
        components_upto(list, n).len() > 0,
        components_upto(list, n).last().len() > 0,
    decreases n,
{
    if n > 1 {
        lemma_components_not_empty(list, n - 1);
    } else {
        assert(is_component(list[0], 0));
    }
}

proof fn lemma_names_not_empty(list: Seq<Seq<char>>, n: int)
    requires
        0 <= n <= list.len(),
    ensures
        components_upto(list, n).len() > 0 ==> components_upto(list, n).last().len() > 0,
    decreases n,
{
    if n > 0 {
        lemma_names_not_empty(list, n - 1);
    }
}

proof fn lemma_plain_path_not_empty(path: Seq<char>)
    requires
        path.len() > 0,
    ensures
        plain_path(path).len() > 0,
{
    let list = pieces(path, '/');
    let parts = components_of(path);
    let names = components_upto(list, list.len() as int);
    lemma_names_not_empty(list, list.len() as int);
    reveal_strlit("/");
    if path[0] != '/' {
        crate::text::lemma_find(path, '/');
        lemma_components_not_empty(list, list.len() as int);
    }
    assert(parts.len() > 0);
    assert(parts.last().len() > 0) by {
        if names.len() > 0 {
            assert(parts.last() == names.last());
        }
    }
}

impl Default for LibraryConfig {
    fn default() -> (r: LibraryConfig)
        ensures
            r@ == default_settings(seq![]),
    {
        let root_paths: Vec<String> = Vec::new();
        assert(texts(root_paths@) =~= seq![]);
        LibraryConfig {
            root_paths,
            probe_command: default_probe_command(),
            ffmpeg_command: default_ffmpeg_command(),
            hw_accel: FfmpegHardwareAcceleration::Software,
            thumbnail_cache_dir: Some(default_thumbnail_cache_dir()),
            stream_copy_cache_dir: Some(default_stream_copy_cache_dir()),
            probe_workers: DEFAULT_PROBE_WORKERS,
            walk_workers: DEFAULT_WALK_WORKERS,
        }
    }
}

/// The settings of a library as they were read from the environment.
#[derive(Debug)]
pub struct LibraryEnvironment {
    /// The roots, made absolute, where they are set.
    pub roots: Option<Vec<String>>,
    pub ffprobe_bin: Option<String>,
    pub ffmpeg_bin: Option<String>,
    pub thumbnail_dir: Option<String>,
    pub stream_copy_dir: Option<String>,
    pub probe_workers: Option<String>,
    pub walk_workers: Option<String>,
}

impl LibraryConfig {
    /// The settings that the environment names, with the defaults for what it
    /// does not name. An empty command or directory switches its use off.
    pub fn from_env(environment: &LibraryEnvironment) -> (r: LibraryConfig)
        ensures
            match environment.roots {
                Some(paths) => are_roots_of(r@.root_paths, given_paths(texts(paths@))),
                None => r@.root_paths == Seq::<Seq<char>>::empty(),
            },
            r@ == (LibrarySettings {
                root_paths: r@.root_paths,
                probe_command: setting_or(opt_text(environment.ffprobe_bin), "ffprobe"@),
                ffmpeg_command: setting_or(opt_text(environment.ffmpeg_bin), "ffmpeg"@),
                hw_accel: FfmpegHardwareAcceleration::Software,
                thumbnail_cache_dir: setting_or(
                    opt_text(environment.thumbnail_dir),
                    DEFAULT_THUMBNAIL_CACHE_DIR@,
                ),
                stream_copy_cache_dir: setting_or(
                    opt_text(environment.stream_copy_dir),
                    DEFAULT_STREAM_COPY_CACHE_DIR@,
                ),
                probe_workers: workers_of(
                    opt_text(environment.probe_workers),
                    DEFAULT_PROBE_WORKERS,
                ),
                walk_workers: workers_of(opt_text(environment.walk_workers), DEFAULT_WALK_WORKERS),
            }),
    {
        let mut config: LibraryConfig = match &environment.roots {
            Some(paths) => LibraryConfig::from_paths(paths),
            None => LibraryConfig::default(),
        };
        config.probe_command = chosen_setting(as_opt_str(&environment.ffprobe_bin), "ffprobe");
        config.ffmpeg_command = chosen_setting(as_opt_str(&environment.ffmpeg_bin), "ffmpeg");
        config.thumbnail_cache_dir = chosen_setting(
            as_opt_str(&environment.thumbnail_dir),
            DEFAULT_THUMBNAIL_CACHE_DIR,
        );
        config.stream_copy_cache_dir = chosen_setting(
            as_opt_str(&environment.stream_copy_dir),
            DEFAULT_STREAM_COPY_CACHE_DIR,
        );
        config.probe_workers = chosen_workers(
            as_opt_str(&environment.probe_workers),
            DEFAULT_PROBE_WORKERS,
        );
        config.walk_workers = chosen_workers(
            as_opt_str(&environment.walk_workers),
            DEFAULT_WALK_WORKERS,
        );
        config
    }

    /// The default settings for the given roots, which are absolute; empty ones
    /// do not count.
    pub fn from_paths(paths: &Vec<String>) -> (r: LibraryConfig)
        ensures
            are_roots_of(r@.root_paths, given_paths(texts(paths@))),
            r@ == default_settings(r@.root_paths),
    {
        LibraryConfig {
            root_paths: arrange_roots(paths),
            probe_command: default_probe_command(),
            ffmpeg_command: default_ffmpeg_command(),
            hw_accel: FfmpegHardwareAcceleration::Software,
            thumbnail_cache_dir: Some(default_thumbnail_cache_dir()),
            stream_copy_cache_dir: Some(default_stream_copy_cache_dir()),
            probe_workers: DEFAULT_PROBE_WORKERS,
            walk_workers: DEFAULT_WALK_WORKERS,
        }
    }

    pub fn root_paths(&self) -> (r: &Vec<String>)
        ensures
            texts(r@) == self@.root_paths,
    {
        &self.root_paths
    }

    pub fn with_probe_command(self, probe_command: String) -> (r: LibraryConfig)
        ensures
            r@ == (LibrarySettings { probe_command: Some(probe_command@), ..self@ }),
    {
        let mut config: LibraryConfig = self;
        config.probe_command = Some(probe_command);
        config
    }

    pub fn without_probe(self) -> (r: LibraryConfig)
        ensures
            r@ == (LibrarySettings { probe_command: None, ..self@ }),
    {
        let mut config: LibraryConfig = self;
        config.probe_command = None;
        config
    }

    pub fn probe_command(&self) -> (r: Option<&str>)
        ensures
            opt_str(r) == self@.probe_command,
    {
        as_opt_str(&self.probe_command)
    }

    pub fn with_ffmpeg_command(self, ffmpeg_command: String) -> (r: LibraryConfig)
        ensures
            r@ == (LibrarySettings { ffmpeg_command: Some(ffmpeg_command@), ..self@ }),
    {
        let mut config: LibraryConfig = self;
        config.ffmpeg_command = Some(ffmpeg_command);
        config
    }

    pub fn without_ffmpeg(self) -> (r: LibraryConfig)
        ensures
            r@ == (LibrarySettings { ffmpeg_command: None, ..self@ }),
    {
        let mut config: LibraryConfig = self;
        config.ffmpeg_command = None;
        config
    }

    pub fn ffmpeg_command(&self) -> (r: Option<&str>)
        ensures
            opt_str(r) == self@.ffmpeg_command,
    {
        as_opt_str(&self.ffmpeg_command)
    }

    pub fn with_hw_accel(self, hw_accel: FfmpegHardwareAcceleration) -> (r: LibraryConfig)
        ensures
            r@ == (LibrarySettings { hw_accel, ..self@ }),
    {
        let mut config: LibraryConfig = self;
        config.hw_accel = hw_accel;
        config
    }

    pub fn hw_accel(&self) -> (r: &FfmpegHardwareAcceleration)
        ensures
            *r == self@.hw_accel,
    {
        &self.hw_accel
    }

    pub fn with_thumbnail_cache_dir(self, path: String) -> (r: LibraryConfig)
        ensures
            r@ == (LibrarySettings { thumbnail_cache_dir: Some(path@), ..self@ }),
    {
        let mut config: LibraryConfig = self;
        config.thumbnail_cache_dir = Some(path);
        config
    }

    pub fn thumbnail_cache_dir(&self) -> (r: Option<&str>)
        ensures
            opt_str(r) == self@.thumbnail_cache_dir,
    {
        as_opt_str(&self.thumbnail_cache_dir)
    }

    pub fn without_thumbnail_cache_dir(self) -> (r: LibraryConfig)
        ensures
            r@ == (LibrarySettings { thumbnail_cache_dir: None, ..self@ }),
    {
        let mut config: LibraryConfig = self;
        config.thumbnail_cache_dir = None;
        config
    }

    pub fn with_stream_copy_cache_dir(self, path: String) -> (r: LibraryConfig)
        ensures
            r@ == (LibrarySettings { stream_copy_cache_dir: Some(path@), ..self@ }),
    {
        let mut config: LibraryConfig = self;
        config.stream_copy_cache_dir = Some(path);
        config
    }

    pub fn stream_copy_cache_dir(&self) -> (r: Option<&str>)
        ensures
            opt_str(r) == self@.stream_copy_cache_dir,
    {
        as_opt_str(&self.stream_copy_cache_dir)
    }

    pub fn without_stream_copy_cache_dir(self) -> (r: LibraryConfig)
        ensures
            r@ == (LibrarySettings { stream_copy_cache_dir: None, ..self@ }),
    {
        let mut config: LibraryConfig = self;
        config.stream_copy_cache_dir = None;
        config
    }

    pub fn with_probe_workers(self, probe_workers: usize) -> (r: LibraryConfig)
        ensures
            r@ == (LibrarySettings { probe_workers: at_least_one(probe_workers), ..self@ }),
    {
        let mut config: LibraryConfig = self;
        config.probe_workers = at_least_one_worker(probe_workers);
        config
    }

    pub fn probe_workers(&self) -> (r: usize)
        ensures
            r == at_least_one(self@.probe_workers),
    {
        at_least_one_worker(self.probe_workers)
    }

    pub fn with_walk_workers(self, walk_workers: usize) -> (r: LibraryConfig)
        ensures
            r@ == (LibrarySettings { walk_workers: at_least_one(walk_workers), ..self@ }),
    {
        let mut config: LibraryConfig = self;
        config.walk_workers = at_least_one_worker(walk_workers);
        config
    }

    pub fn walk_workers(&self) -> (r: usize)
        ensures
            r == at_least_one(self@.walk_workers),
    {
        at_least_one_worker(self.walk_workers)
    }
}

proof fn lemma_parts_are_steps(list: Seq<Seq<char>>, n: int)
    requires
        0 <= n <= list.len(),
        forall|i: int| 0 <= i < list.len() ==> !(#[trigger] list[i]).contains('/'),
    ensures
        ({
            let parts = components_upto(list, n);
            &&& forall|k: int|
                0 <= k < parts.len() ==> (#[trigger] parts[k]).len() > 0 && !parts[k].contains('/')
            &&& forall|k: int| 1 <= k < parts.len() ==> #[trigger] parts[k] != "."@
            &&& n > 0 && list[0].len() == 0 && parts.len() > 0 ==> parts[0] != "."@
        }),
    decreases n,
{
    if n > 0 {
        lemma_parts_are_steps(list, n - 1);
        let before = components_upto(list, n - 1);
        let parts = components_upto(list, n);
        if n == 1 {
            assert(before.len() == 0);
        }
        assert forall|k: int| 0 <= k < parts.len() implies (#[trigger] parts[k]).len() > 0
            && !parts[k].contains('/') by {
            if k < before.len() {
                assert(parts[k] == before[k]);
            }
        }
        assert forall|k: int| 1 <= k < parts.len() implies #[trigger] parts[k] != "."@ by {
            if k < before.len() {
                assert(parts[k] == before[k]);
            }
        }
        if n > 1 && before.len() > 0 {
            assert(parts[0] == before[0]);
        }
    }
}

proof fn lemma_name_below_root(name: Seq<char>)
    requires
        name.len() > 0,
        !name.contains('/'),
        name != "."@,
    ensures
        components_of("/"@ + name) == seq!["/"@, name],
        components_of("/"@) == seq!["/"@],
{
    reveal_strlit("/");
    let none = Seq::<char>::empty();
    lemma_pieces_of_nothing('/');
    lemma_pieces_push(none, '/');
    assert(none.push('/') =~= "/"@);
    lemma_pieces_append("/"@, name, '/');
    assert(none + name =~= name);
    assert(pieces("/"@, '/') =~= seq![none, none]);
    assert(pieces("/"@ + name, '/') =~= seq![none, name]);
    reveal_with_fuel(components_upto, 3);
    assert(components_upto(seq![none, name], 2) =~= seq![name]);
    assert(components_upto(seq![none, none], 2) =~= Seq::<Seq<char>>::empty());
    assert(("/"@ + name)[0] == '/');
    assert(components_of("/"@ + name) =~= seq!["/"@, name]);
    assert(components_of("/"@) =~= seq!["/"@]);
}

proof fn lemma_only_component(name: Seq<char>)
    requires
        name.len() > 0,
        !name.contains('/'),
    ensures
        components_of(name) == seq![name],
{
    let none = Seq::<char>::empty();
    lemma_pieces_of_nothing('/');
    lemma_pieces_append(none, name, '/');
    assert(none + name =~= name);
    assert(pieces(name, '/') =~= seq![name]);
    reveal_with_fuel(components_upto, 2);
    assert(components_upto(seq![name], 1) =~= seq![name]);
    assert(name.contains(name[0]));
}

proof fn lemma_joined_components(parts: Seq<Seq<char>>, n: int)
    requires
        1 <= n <= parts.len(),
        parts[0] == "/"@ || (parts[0].len() > 0 && !parts[0].contains('/')),
        forall|k: int|
            1 <= k < parts.len() ==> (#[trigger] parts[k]).len() > 0 && !parts[k].contains('/')
                && parts[k] != "."@,
    ensures
        components_of(joined_parts(Seq::empty(), parts, n)) == parts.take(n),
        joined_parts(Seq::empty(), parts, n).len() > 0,
        joined_parts(Seq::empty(), parts, n).last() == '/' <==> n == 1 && parts[0] == "/"@,
    decreases n,
{
    reveal_strlit("/");
    reveal_strlit(".");
    if n == 1 {
        reveal_with_fuel(joined_parts, 2);
        let text = joined_parts(Seq::empty(), parts, 1);
        assert(joined_parts(Seq::empty(), parts, 0) =~= Seq::<char>::empty());
        assert(text =~= parts[0]);
        assert(parts.take(1) =~= seq![parts[0]]);
        if parts[0] == "/"@ {
            let other = seq!['x'];
            assert(other != "."@) by {
                assert(other[0] == 'x');
                assert("."@[0] == '.');
            }
            assert(!other.contains('/'));
            lemma_name_below_root(other);
        } else {
            lemma_only_component(parts[0]);
            assert(parts[0].contains(parts[0].last()));
        }
    } else {
        lemma_joined_components(parts, n - 1);
        let before = joined_parts(Seq::empty(), parts, n - 1);
        let name = parts[n - 1];
        let text = joined_parts(Seq::empty(), parts, n);
        assert(name.contains(name[0]));
        assert(name.contains(name.last()));
        assert(text == joined_path(before, name));
        assert(parts.take(n) =~= parts.take(n - 1).push(name));
        if before.last() == '/' {
            assert(n == 2 && parts[0] == "/"@);
            reveal_with_fuel(joined_parts, 3);
            assert(before =~= "/"@);
            lemma_name_below_root(name);
            assert(parts.take(2) =~= seq!["/"@, name]);
        } else {
            lemma_components_grow_by_a_step(before, name);
            assert(text =~= before + seq!['/'] + name);
        }
        assert(text.last() == name.last());
    }
}

/// Bringing a root to its plain form keeps its components: it names the same directory,
/// and doing so again changes nothing.
pub proof fn law_plain_paths_keep_their_components(path: Seq<char>)
    requires
        components_of(path).len() > 0,
    ensures
        components_of(plain_path(path)) == components_of(path),
        plain_path(plain_path(path)) == plain_path(path),
{
    let parts = components_of(path);
    let list = pieces(path, '/');
    law_pieces_join_to_the_text(path, '/');
    lemma_parts_are_steps(list, list.len() as int);
    let names = components_upto(list, list.len() as int);
    if path.len() > 0 && path[0] == '/' {
        lemma_find(path, '/');
        assert(find(path, '/') == 0);
        assert(list[0] =~= Seq::<char>::empty());
        assert forall|k: int| 1 <= k < parts.len() implies (#[trigger] parts[k]).len() > 0
            && !parts[k].contains('/') && parts[k] != "."@ by {
            assert(parts[k] == names[k - 1]);
        }
    } else {
        assert(parts =~= names);
    }
    lemma_joined_components(parts, parts.len() as int);
    assert(parts.take(parts.len() as int) =~= parts);
}

/// A root that is given as an absolute path is that path; a relative one is taken from
/// the current directory; an empty one is none.
pub proof fn law_roots_are_made_absolute(path: Seq<char>, dir: Seq<char>)
    ensures
        path.len() == 0 ==> absolute_root(path, Some(dir)) is None && absolute_root(path, None)
            is None,
        path.len() > 0 && path[0] == '/' ==> absolute_root(path, Some(dir)) == Some(path),
        path.len() > 0 && path[0] != '/' ==> absolute_root(path, Some(dir)) == Some(
            joined_path(dir, path),
        ),
        path.len() > 0 && dir.len() > 0 && dir[0] == '/' ==> absolute_root(path, Some(dir))->0[0]
            == '/',
{
    reveal_strlit("/");
}

/// A directory comes before what is in it, and what is in one directory comes by name.
pub proof fn law_paths_come_by_name(
    directory: Seq<Seq<char>>,
    a: Seq<char>,
    b: Seq<char>,
    rest: Seq<Seq<char>>,
)
    requires
        is_plain_name(a),
        is_plain_name(b),
    ensures
        parts_leq(directory, directory + rest),
        a != b ==> (parts_leq(directory.push(a), directory.push(b)) <==> text_leq(a, b)),
        rest.len() > 0 ==> !parts_leq(directory + rest, directory),
    decreases directory.len(),
{
    reveal_strlit("/");
    assert(a != "/"@) by {
        assert(a.contains(a[0]));
    }
    assert(b != "/"@) by {
        assert(b.contains(b[0]));
    }
    if directory.len() > 0 {
        law_paths_come_by_name(directory.skip(1), a, b, rest);
        assert((directory + rest).skip(1) =~= directory.skip(1) + rest);
        assert(directory.push(a).skip(1) =~= directory.skip(1).push(a));
        assert(directory.push(b).skip(1) =~= directory.skip(1).push(b));
    } else {
        assert(directory + rest =~= rest);
        assert(directory.push(a)[0] == a);
        assert(directory.push(b)[0] == b);
    }
}

/// The paths that are given are those that are not empty, in their order.
pub proof fn law_only_empty_paths_are_dropped(paths: Seq<Seq<char>>, path: Seq<char>)
    ensures
        given_paths(paths).contains(path) <==> paths.contains(path) && path.len() > 0,
{
    broadcast use vstd::seq_lib::group_filter_ensures;

    let keep = |p: Seq<char>| p.len() > 0;
    if given_paths(paths).contains(path) {
        paths.lemma_filter_contains_rev(keep, path);
        let k = paths.filter(keep).index_of(path);
        assert(keep(paths.filter(keep)[k]));
    }
    if paths.contains(path) && path.len() > 0 {
        assert(keep(paths[paths.index_of(path)]));
    }
}

/// The roots are the given paths in plain form: each of them is a root, each root is one
/// of them, no root is there twice and they come in the order of paths.
pub proof fn law_roots_are_the_given_paths(roots: Seq<Seq<char>>, paths: Seq<Seq<char>>, i: int)
    requires
        are_roots_of(roots, given_paths(paths)),
        0 <= i < paths.len(),
        paths[i].len() > 0,
    ensures
        roots.contains(plain_path(paths[i])),
        roots.no_duplicates(),
        forall|k: int| 0 <= k < roots.len() ==> exists|m: int|
            0 <= m < paths.len() && (#[trigger] roots[k]) == plain_path(#[trigger] paths[m]),
{
    law_only_empty_paths_are_dropped(paths, paths[i]);
    assert(paths.contains(paths[i]));
    let given = given_paths(paths);
    let g = given.index_of(paths[i]);
    assert(roots.contains(plain_path(given[g])));
    assert forall|k: int| 0 <= k < roots.len() implies exists|m: int|
        0 <= m < paths.len() && (#[trigger] roots[k]) == plain_path(#[trigger] paths[m]) by {
        let n = given.len() as int;
        assert(is_given(roots[k], given, n));
        let j = choose|j: int| 0 <= j < n && #[trigger] plain_path(given[j]) == roots[k];
        law_only_empty_paths_are_dropped(paths, given[j]);
        assert(given.contains(given[j]));
        let m = paths.index_of(given[j]);
        assert(paths[m] == given[j]);
    }
}

} // verus!
