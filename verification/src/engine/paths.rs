//! On-disk cache layout under the user cache directory.
//!
//! Paths are `/`-separated strings; a component that starts with `/` replaces
//! what came before, as `PathBuf::push` does on Unix.
use vstd::prelude::*;

use crate::engine::catalog::{ModelId, ModelSpec};
use crate::text::{chars_of, push_str_chars, string_of};

verus! {

/// `part` appended to `base` with one separator between them.
pub open spec fn join_path(base: Seq<char>, part: Seq<char>) -> Seq<char> {
    if part.len() > 0 && part[0] == '/' {
        part
    } else if base.len() == 0 {
        part
    } else if base.last() == '/' {
        base + part
    } else {
        base + "/"@ + part
    }
}

/// Joins a path component onto a base path.
pub fn join(base: &str, part: &str) -> (r: String)
    ensures
        r@ == join_path(base@, part@),
{
    let b = chars_of(base);
    let p = chars_of(part);
    if p.len() > 0 && p[0] == '/' {
        return part.to_owned();
    }
    if b.len() == 0 {
        return part.to_owned();
    }
    let mut out = b;
    if out[out.len() - 1] != '/' {
        push_str_chars(&mut out, "/");
    }
    push_str_chars(&mut out, part);
    string_of(out.as_slice())
}

/// Resolves where loco-bot stores downloaded models.
#[derive(Debug, PartialEq, Eq)]
pub struct CacheLayout {
    root: String,
}

impl View for CacheLayout {
    type V = Seq<char>;

    /// The cache root.
    closed spec fn view(&self) -> Seq<char> {
        self.root@
    }
}

/// `{root}/models`.
pub open spec fn models_dir_spec(root: Seq<char>) -> Seq<char> {
    join_path(root, "models"@)
}

/// `{root}/models/{id}`.
pub open spec fn model_dir_spec(root: Seq<char>, id: ModelId) -> Seq<char> {
    join_path(models_dir_spec(root), id.name())
}

/// `{root}/models/{id}/{filename}`.
pub open spec fn model_path_spec(root: Seq<char>, spec: ModelSpec) -> Seq<char> {
    join_path(model_dir_spec(root, spec.id), spec.filename@)
}

/// `{root}/memory/session.json`, where the session memory is kept.
pub open spec fn memory_path_spec(root: Seq<char>) -> Seq<char> {
    join_path(join_path(root, "memory"@), "session.json"@)
}

/// `{root}/notes/notes.json`, where the notes tools keep their notes.
pub open spec fn notes_path_spec(root: Seq<char>) -> Seq<char> {
    join_path(join_path(root, "notes"@), "notes.json"@)
}

impl CacheLayout {
    pub fn new(root: &str) -> (l: CacheLayout)
        ensures
            l@ == root@,
    {
        CacheLayout { root: root.to_owned() }
    }

    pub fn root(&self) -> (r: &str)
        ensures
            r@ == self@,
    {
        self.root.as_str()
    }

    pub fn models_dir(&self) -> (r: String)
        ensures
            r@ == models_dir_spec(self@),
    {
        join(self.root.as_str(), "models")
    }

    pub fn model_dir(&self, id: ModelId) -> (r: String)
        ensures
            r@ == model_dir_spec(self@, id),
    {
        let models = self.models_dir();
        join(models.as_str(), id.as_str())
    }

    pub fn memory_path(&self) -> (r: String)
        ensures
            r@ == memory_path_spec(self@),
    {
        let dir = join(self.root.as_str(), "memory");
        join(dir.as_str(), "session.json")
    }

    pub fn notes_path(&self) -> (r: String)
        ensures
            r@ == notes_path_spec(self@),
    {
        let dir = join(self.root.as_str(), "notes");
        join(dir.as_str(), "notes.json")
    }

    pub fn model_path(&self, spec: &ModelSpec) -> (r: String)
        ensures
            r@ == model_path_spec(self@, *spec),
    {
        let dir = self.model_dir(spec.id);
        join(dir.as_str(), spec.filename)
    }
}

/// Calls `dirs::cache_dir` (the platform cache directory, from the
/// environment) and renders it lossily as text. Nothing is promised of it.
#[verifier::external_body]
fn platform_cache_dir() -> Option<String> {
    dirs::cache_dir().map(|p| p.to_string_lossy().into_owned())
}

/// The cache root under a platform cache directory (`.` when there is none).
pub open spec fn cache_root_spec(dir: Option<Seq<char>>) -> Seq<char> {
    match dir {
        Some(d) => join_path(d, "loco-bot"@),
        None => join_path("."@, "loco-bot"@),
    }
}

/// `{dir}/loco-bot`, or `./loco-bot` without a platform cache directory.
pub fn cache_root_from(dir: Option<&str>) -> (r: String)
    ensures
        r@ == cache_root_spec(
            match dir {
                Some(d) => Some(d@),
                None => None,
            },
        ),
{
    match dir {
        Some(d) => join(d, "loco-bot"),
        None => join(".", "loco-bot"),
    }
}

/// Default cache root: the platform cache directory joined with `loco-bot`.
pub fn default_cache_root() -> (r: String)
    ensures
        exists|d: Option<Seq<char>>| r@ == cache_root_spec(d),
{
    let dir = platform_cache_dir();
    match dir {
        Some(d) => {
            let r = cache_root_from(Some(d.as_str()));
            assert(r@ == cache_root_spec(Some(d@)));
            r
        },
        None => {
            let r = cache_root_from(None);
            assert(r@ == cache_root_spec(None));
            r
        },
    }
}

/// Convenience: default layout path for a model file.
pub fn model_file_path(id: ModelId) -> (r: String)
    ensures
        exists|d: Option<Seq<char>>| r@ == model_path_spec(cache_root_spec(d), ModelSpec::for_id_spec(id)),
{
    let root = default_cache_root();
    let layout = CacheLayout::new(root.as_str());
    let spec = ModelSpec::for_id(id);
    layout.model_path(&spec)
}

} // verus!
