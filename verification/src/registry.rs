use crate::text::string_push;
use vstd::hash_map::StringHashMap;
use vstd::prelude::*;
use vstd::string::*;

verus! {

/// `s` without every leading repetition of `prefix`, as
/// `str::trim_start_matches` gives it; an empty prefix removes nothing.
pub open spec fn trim_start(s: Seq<char>, prefix: Seq<char>) -> Seq<char>
    decreases s.len(),
{
    if prefix.len() > 0 && prefix.len() <= s.len() && s.take(prefix.len() as int) == prefix {
        trim_start(s.skip(prefix.len() as int), prefix)
    } else {
        s
    }
}

/// `s` without every trailing repetition of `suffix`, as
/// `str::trim_end_matches` gives it; an empty suffix removes nothing.
pub open spec fn trim_end(s: Seq<char>, suffix: Seq<char>) -> Seq<char>
    decreases s.len(),
{
    if suffix.len() > 0 && suffix.len() <= s.len() && s.skip(s.len() - suffix.len()) == suffix {
        trim_end(s.take(s.len() - suffix.len()), suffix)
    } else {
        s
    }
}

/// `s` with every `from` replaced by `to`.
pub open spec fn replace_char(s: Seq<char>, from: char, to: char) -> Seq<char> {
    s.map_values(|c: char| if c == from { to } else { c })
}

/// The extension of plugin files.
pub open spec fn lua_extension() -> Seq<char> {
    seq!['.', 'l', 'u', 'a']
}

/// The name of the plugin in the file at `path` below the plugins directory
/// `dir`: the path without the directory in front and the extension at the
/// end, its slashes turned into dots.
pub open spec fn plugin_name_of(path: Seq<char>, dir: Seq<char>) -> Seq<char> {
    replace_char(trim_end(trim_start(path, dir), lua_extension()), '/', '.')
}

/// The plugins after the files at `paths`, below `dir`, are added in order
/// to `m`.
pub open spec fn with_plugins(
    m: Map<Seq<char>, Seq<char>>,
    dir: Seq<char>,
    paths: Seq<Seq<char>>,
) -> Map<Seq<char>, Seq<char>>
    decreases paths.len(),
{
    if paths.len() == 0 {
        m
    } else {
        with_plugins(m, dir, paths.drop_last()).insert(
            plugin_name_of(paths.last(), dir),
            paths.last(),
        )
    }
}

/// Whether `p` occurs in `s` at index `k`.
fn occurs_at(s: &str, k: usize, p: &str) -> (b: bool)
    requires
        k + p@.len() <= s@.len() <= usize::MAX,
    ensures
        b == (s@.subrange(k as int, k + p@.len()) == p@),
{
    let m = p.unicode_len();
    let mut i: usize = 0;
    while i < m
        invariant
            m == p@.len(),
            k + m <= s@.len() <= usize::MAX,
            i <= m,
            forall|j: int| 0 <= j < i ==> s@[k + j] == p@[j],
        decreases m - i,
    {
        if s.get_char(k + i) != p.get_char(i) {
            assert(s@.subrange(k as int, k + p@.len())[i as int] != p@[i as int]);
            return false;
        }
        i = i + 1;
    }
    assert(s@.subrange(k as int, k + p@.len()) =~= p@);
    true
}

/// The name of the plugin in the file at `path` below the plugins directory
/// `dir`.
pub fn plugin_name(path: &str, dir: &str) -> (name: String)
    ensures
        name@ == plugin_name_of(path@, dir@),
{
    let n = path.unicode_len();
    let d = dir.unicode_len();
    let ext = ".lua";
    proof {
        reveal_strlit(".lua");
    }
    let e = ext.unicode_len();
    let mut i: usize = 0;
    assert(path@.skip(0) =~= path@);
    while d > 0 && d <= n - i && occurs_at(path, i, dir)
        invariant
            n == path@.len(),
            d == dir@.len(),
            i <= n,
            trim_start(path@, dir@) == trim_start(path@.skip(i as int), dir@),
        decreases n - i,
    {
        assert(path@.skip(i as int).take(d as int) =~= path@.subrange(i as int, i + d));
        assert(path@.skip(i as int).skip(d as int) =~= path@.skip(i + d));
        i = i + d;
    }
    let ghost rest = path@.skip(i as int);
    assert(trim_start(path@, dir@) == rest) by {
        if d > 0 && d <= rest.len() && rest.take(d as int) == dir@ {
            assert(rest.take(d as int) =~= path@.subrange(i as int, i + d));
        }
    }
    let mut j: usize = n;
    assert(path@.subrange(i as int, n as int) =~= rest);
    while j - i >= e && occurs_at(path, j - e, ext)
        invariant
            n == path@.len(),
            e == lua_extension().len(),
            ext@ == lua_extension(),
            i <= j <= n,
            trim_end(rest, lua_extension()) == trim_end(
                path@.subrange(i as int, j as int),
                lua_extension(),
            ),
        decreases j,
    {
        let ghost t = path@.subrange(i as int, j as int);
        assert(t.skip(t.len() - e) =~= path@.subrange(j - e, j as int));
        assert(t.take(t.len() - e) =~= path@.subrange(i as int, j - e));
        j = j - e;
    }
    let ghost kept = path@.subrange(i as int, j as int);
    assert(trim_end(rest, lua_extension()) == kept) by {
        if e <= kept.len() && kept.skip(kept.len() - e) == lua_extension() {
            assert(kept.skip(kept.len() - e) =~= path@.subrange(j - e, j as int));
        }
    }
    let mut name = String::new();
    let mut k: usize = i;
    while k < j
        invariant
            i <= k <= j <= n,
            n == path@.len(),
            name@ == replace_char(path@.subrange(i as int, k as int), '/', '.'),
        decreases j - k,
    {
        let c = path.get_char(k);
        let ghost before = name@;
        if c == '/' {
            string_push(&mut name, '.');
        } else {
            string_push(&mut name, c);
        }
        assert(replace_char(path@.subrange(i as int, k + 1), '/', '.') =~= before.push(
            if c == '/' {
                '.'
            } else {
                c
            },
        ));
        k = k + 1;
    }
    name
}

/// The plugins known by name, with the path of each one's file, and the
/// names in the order they were first recorded.
pub struct Registry {
    pub plugins: StringHashMap<String>,
    pub order: Vec<String>,
}

impl Registry {
    /// Paths of the plugins by name.
    pub open spec fn paths(&self) -> Map<Seq<char>, Seq<char>> {
        self.plugins@.map_values(|p: String| p@)
    }

    /// Each name is listed once in the order, and the order lists exactly the
    /// recorded names.
    pub open spec fn wf(&self) -> bool {
        &&& forall|i: int, j: int|
            0 <= i < j < self.order@.len() ==> #[trigger] self.order@[i]@ != #[trigger] self.order@[j]@
        &&& forall|i: int| 0 <= i < self.order@.len() ==> self.plugins@.contains_key(#[trigger] self.order@[i]@)
        &&& forall|k: Seq<char>|
            #[trigger] self.plugins@.contains_key(k) ==> exists|i: int|
                0 <= i < self.order@.len() && #[trigger] self.order@[i]@ == k
    }

    /// A registry that knows no plugin yet.
    pub fn new() -> (r: Registry)
        ensures
            r.wf(),
            r.paths() == Map::<Seq<char>, Seq<char>>::empty(),
            r.order@.len() == 0,
    {
        let r = Registry { plugins: StringHashMap::new(), order: Vec::new() };
        assert(r.paths() =~= Map::<Seq<char>, Seq<char>>::empty());
        r
    }

    /// The path recorded for a plugin, if any.
    pub fn path_of(&self, name: &str) -> (p: Option<String>)
        ensures
            match p {
                Some(p) => self.paths().contains_key(name@) && p@ == self.paths()[name@],
                None => !self.paths().contains_key(name@),
            },
    {
        match self.plugins.get(name) {
            Some(p) => Some(p.clone()),
            None => None,
        }
    }

    /// Records the file of a plugin; returns the path it had before, if any.
    pub fn add_plugin(&mut self, name: &str, path: &str) -> (prev: Option<String>)
        requires
            old(self).wf(),
        ensures
            final(self).wf(),
            final(self).paths() == old(self).paths().insert(name@, path@),
            match prev {
                Some(p) => old(self).paths().contains_key(name@) && p@ == old(self).paths()[name@],
                None => !old(self).paths().contains_key(name@),
            },
            old(self).paths().contains_key(name@) ==> final(self).order@ == old(self).order@,
            !old(self).paths().contains_key(name@) ==> final(self).order@.len() == old(self).order@.len() + 1 && final(self).order@.drop_last() == old(self).order@
                && final(self).order@.last()@ == name@,
    {
        let ghost m0 = self.paths();
        let prev = self.path_of(name);
        if prev.is_none() {
            self.order.push(name.to_string());
        }
        self.plugins.insert(name.to_string(), path.to_string());
        assert(self.paths() =~= m0.insert(name@, path@));
        proof {
            let o = self.order@;
            assert forall|k: Seq<char>| #[trigger] self.plugins@.contains_key(k) implies exists|i: int|
                0 <= i < o.len() && #[trigger] o[i]@ == k by {
                if k == name@ {
                    if !m0.contains_key(name@) {
                        assert(o[o.len() - 1]@ == k);
                    } else {
                        assert(old(self).plugins@.contains_key(k));
                        let i = choose|i: int| 0 <= i < old(self).order@.len() && #[trigger] old(self).order@[i]@ == k;
                        assert(o[i] == old(self).order@[i]);
                    }
                } else {
                    assert(old(self).plugins@.contains_key(k));
                    let i = choose|i: int| 0 <= i < old(self).order@.len() && #[trigger] old(self).order@[i]@ == k;
                    assert(o[i] == old(self).order@[i]);
                }
            }
            assert forall|i: int| 0 <= i < o.len() implies self.plugins@.contains_key(#[trigger] o[i]@) by {
                if i < old(self).order@.len() {
                    assert(o[i] == old(self).order@[i]);
                }
            }
            assert forall|i: int, j: int| 0 <= i < j < o.len() implies #[trigger] o[i]@ != #[trigger] o[j]@ by {
                if j >= old(self).order@.len() {
                    assert(o[j]@ == name@);
                    assert(o[i] == old(self).order@[i]);
                    assert(old(self).plugins@.contains_key(o[i]@));
                } else {
                    assert(o[i] == old(self).order@[i]);
                    assert(o[j] == old(self).order@[j]);
                }
            }
        }
        prev
    }

    /// The recorded plugins as (name, path) pairs, in the order their names
    /// were first recorded; each name comes once.
    pub fn entries(&self) -> (v: Vec<(String, String)>)
        requires
            self.wf(),
        ensures
            v@.len() == self.order@.len(),
            forall|i: int|
                0 <= i < v@.len() ==> (#[trigger] v@[i]).0@ == self.order@[i]@ && self.paths().contains_key(
                    v@[i].0@,
                ) && v@[i].1@ == self.paths()[v@[i].0@],
    {
        let mut v: Vec<(String, String)> = Vec::new();
        let n = self.order.len();
        for i in 0..n
            invariant
                n == self.order@.len(),
                self.wf(),
                v@.len() == i,
                forall|j: int|
                    0 <= j < i ==> (#[trigger] v@[j]).0@ == self.order@[j]@ && self.paths().contains_key(
                        v@[j].0@,
                    ) && v@[j].1@ == self.paths()[v@[j].0@],
        {
            let name = self.order[i].clone();
            assert(self.plugins@.contains_key(self.order@[i as int]@));
            let path = match self.plugins.get(name.as_str()) {
                Some(p) => p.clone(),
                None => String::new(),
            };
            v.push((name, path));
        }
        v
    }

    /// Records the plugin files found below the plugins directory, in order,
    /// each under its name.
    pub fn load_paths(&mut self, plugins_dir: &str, paths: &Vec<String>)
        requires
            old(self).wf(),
        ensures
            final(self).wf(),
            final(self).paths() == with_plugins(
                old(self).paths(),
                plugins_dir@,
                paths@.map_values(|p: String| p@),
            ),
    {
        let ghost all = paths@.map_values(|p: String| p@);
        let n = paths.len();
        assert(all.take(0) =~= Seq::<Seq<char>>::empty());
        for i in 0..n
            invariant
                n == paths@.len(),
                all == paths@.map_values(|p: String| p@),
                self.wf(),
                self.paths() == with_plugins(old(self).paths(), plugins_dir@, all.take(i as int)),
        {
            let path = paths[i].as_str();
            let name = plugin_name(path, plugins_dir);
            self.add_plugin(name.as_str(), path);
            assert(all.take(i + 1).drop_last() =~= all.take(i as int));
            assert(all.take(i + 1).last() == all[i as int]);
        }
        assert(all.take(n as int) =~= all);
    }
}

} // verus!
