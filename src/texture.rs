use vstd::prelude::*;
use vstd::string::*;

verus! {

/// The role a texture plays in a material.
#[derive(Clone, Copy, Debug, PartialEq, Eq, Structural)]
pub enum TextureKind {
    Diffuse,
    Specular,
    Normal,
}

/// The sampler-name stem that the shader uses for a kind.
pub open spec fn kind_name(k: TextureKind) -> Seq<char> {
    match k {
        TextureKind::Diffuse => "texture_diffuse"@,
        TextureKind::Specular => "texture_specular"@,
        TextureKind::Normal => "texture_normal"@,
    }
}

impl TextureKind {
    /// The sampler-name stem that the shader uses for this kind.
    pub fn name(&self) -> (r: &'static str)
        ensures
            r@ == kind_name(*self),
    {
        match self {
            TextureKind::Diffuse => "texture_diffuse",
            TextureKind::Specular => "texture_specular",
            TextureKind::Normal => "texture_normal",
        }
    }
}

/// A texture on the device, as a mesh refers to it.
#[derive(Clone, Debug, PartialEq, Eq)]
pub struct Texture {
    /// The device texture object.
    pub id: u32,
    pub kind: TextureKind,
    /// The path it was loaded from, relative to the model's directory; the
    /// cache key.
    pub path: String,
}

impl Texture {
    /// A copy of this reference.
    pub fn duplicate(&self) -> (r: Texture)
        ensures
            r == *self,
    {
        Texture { id: self.id, kind: self.kind, path: self.path.clone() }
    }
}

/// Where a texture path is found: `directory + "/" + path`.
pub open spec fn resolved_path(directory: Seq<char>, path: Seq<char>) -> Seq<char> {
    directory + seq!['/'] + path
}

/// The file that a texture path names, relative to a model's directory.
pub fn resolve_path(directory: &str, path: &str) -> (r: String)
    ensures
        r@ == resolved_path(directory@, path@),
{
    proof {
        reveal_strlit("/");
    }
    let r = String::from_str(directory).concat("/").concat(path);
    assert(r@ =~= resolved_path(directory@, path@));
    r
}

/// No two entries share a path.
pub open spec fn paths_unique(s: Seq<Texture>) -> bool {
    forall|i: int, j: int| 0 <= i < j < s.len() ==> s[i].path@ != s[j].path@
}

/// Whether some entry has path `p`.
pub open spec fn has_path(s: Seq<Texture>, p: Seq<char>) -> bool {
    exists|i: int| 0 <= i < s.len() && (#[trigger] s[i]).path@ == p
}

/// The entry with path `p`, if there is one.
pub open spec fn cached(s: Seq<Texture>, p: Seq<char>) -> Option<Texture> {
    if has_path(s, p) {
        Some(s[choose|i: int| 0 <= i < s.len() && (#[trigger] s[i]).path@ == p])
    } else {
        None
    }
}

/// In a list with unique paths, the entry at `i` is the one cached under its path.
pub proof fn lemma_cached_at(s: Seq<Texture>, i: int)
    requires
        paths_unique(s),
        0 <= i < s.len(),
    ensures
        cached(s, s[i].path@) == Some(s[i]),
{
    assert(has_path(s, s[i].path@));
    let j = choose|j: int| 0 <= j < s.len() && (#[trigger] s[j]).path@ == s[i].path@;
    if j < i {
        assert(s[j].path@ != s[i].path@);
    } else if i < j {
        assert(s[i].path@ != s[j].path@);
    }
}

/// The textures of a model, each uploaded once and found by its path.
pub struct TextureCache {
    entries: Vec<Texture>,
}

impl TextureCache {
    /// The cached textures in the order they were loaded.
    pub closed spec fn entries(&self) -> Seq<Texture> {
        self.entries@
    }

    /// Each path is cached at most once.
    pub open spec fn wf(&self) -> bool {
        paths_unique(self.entries())
    }

    pub fn new() -> (r: TextureCache)
        ensures
            r.wf(),
            r.entries() == Seq::<Texture>::empty(),
    {
        TextureCache { entries: Vec::new() }
    }

    /// The number of cached textures.
    pub fn len(&self) -> (r: usize)
        ensures
            r == self.entries().len(),
    {
        self.entries.len()
    }

    /// The entry at position `i` in load order.
    pub fn entry(&self, i: usize) -> (r: &Texture)
        requires
            i < self.entries().len(),
        ensures
            *r == self.entries()[i as int],
    {
        &self.entries[i]
    }

    /// The texture cached under `path`, if it has been loaded.
    pub fn get(&self, path: &str) -> (r: Option<Texture>)
        requires
            self.wf(),
        ensures
            r == cached(self.entries(), path@),
    {
        let key = String::from_str(path);
        let mut i: usize = 0;
        while i < self.entries.len()
            invariant
                self.wf(),
                key@ == path@,
                0 <= i <= self.entries@.len(),
                forall|j: int| 0 <= j < i ==> (#[trigger] self.entries@[j]).path@ != path@,
            decreases self.entries@.len() - i,
        {
            if self.entries[i].path == key {
                proof {
                    lemma_cached_at(self.entries@, i as int);
                }
                return Some(self.entries[i].duplicate());
            }
            i = i + 1;
        }
        None
    }

    /// Records a freshly uploaded texture under its path.
    pub fn insert(&mut self, texture: Texture)
        requires
            old(self).wf(),
            !has_path(old(self).entries(), texture.path@),
        ensures
            final(self).wf(),
            final(self).entries() == old(self).entries().push(texture),
    {
        self.entries.push(texture);
    }

    /// Gives up every cached texture object for deletion and empties the
    /// cache, so that each object is handed out once.
    pub fn release(&mut self) -> (r: Vec<u32>)
        ensures
            final(self).wf(),
            final(self).entries() == Seq::<Texture>::empty(),
            r@.len() == old(self).entries().len(),
            forall|i: int| 0 <= i < r@.len() ==> r@[i] == (#[trigger] old(self).entries()[i]).id,
    {
        let mut r: Vec<u32> = Vec::new();
        let mut i: usize = 0;
        while i < self.entries.len()
            invariant
                0 <= i <= self.entries@.len(),
                r@.len() == i,
                forall|j: int| 0 <= j < i ==> r@[j] == (#[trigger] self.entries@[j]).id,
            decreases self.entries@.len() - i,
        {
            r.push(self.entries[i].id);
            i = i + 1;
        }
        self.entries = Vec::new();
        r
    }
}

/// Once a path is cached, every later lookup of it finds that same entry,
/// and caching another path leaves it untouched: a texture is uploaded at
/// most once however often it is asked for.
pub proof fn lemma_cache_keeps_entry(s: Seq<Texture>, t: Texture, p: Seq<char>)
    requires
        paths_unique(s),
        !has_path(s, t.path@),
    ensures
        paths_unique(s.push(t)),
        cached(s.push(t), t.path@) == Some(t),
        p != t.path@ ==> cached(s.push(t), p) == cached(s, p),
{
    let s2 = s.push(t);
    assert forall|i: int, j: int| 0 <= i < j < s2.len() implies s2[i].path@ != s2[j].path@ by {
        if j == s.len() {
            assert(s[i] == s2[i]);
        }
    }
    lemma_cached_at(s2, s.len() as int);
    if p != t.path@ {
        if has_path(s, p) {
            let i = choose|i: int| 0 <= i < s.len() && (#[trigger] s[i]).path@ == p;
            lemma_cached_at(s, i);
            assert(s2[i] == s[i]);
            lemma_cached_at(s2, i);
        } else {
            assert forall|i: int| 0 <= i < s2.len() implies (#[trigger] s2[i]).path@ != p by {
                if i < s.len() {
                    assert(s2[i] == s[i]);
                }
            }
        }
    }
}

} // verus!
