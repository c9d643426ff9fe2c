//! Remote asset locations: an asset path is read as the rest of an `https`
//! URL, joined the way a Unix `Path::join` joins it, and the metadata file
//! of an asset is found next to it with `.meta` appended to its file name.

use vstd::prelude::*;

use crate::text::starts_with_char;

verus! {

/// Treats paths as urls to load assets from.
#[derive(Clone, Copy, PartialEq, Eq, Structural, Debug)]
pub enum WebAssetReader {
    /// Use TLS for setting up connections.
    Https,
}

/// `"https://"`.
pub open spec fn https_prefix() -> Seq<char> {
    seq!['h', 't', 't', 'p', 's', ':', '/', '/']
}

/// `".meta"`.
pub open spec fn meta_suffix() -> Seq<char> {
    seq!['.', 'm', 'e', 't', 'a']
}

/// Joins `path` onto `base` as a Unix `PathBuf::push` does: an absolute
/// `path` (one that starts with `/`) replaces `base`; otherwise `path` is
/// appended, with a `/` between them unless `base` is empty or already ends
/// with one.
pub open spec fn path_join(base: Seq<char>, path: Seq<char>) -> Seq<char> {
    if path.len() > 0 && path[0] == '/' {
        path
    } else if base.len() == 0 || base.last() == '/' {
        base + path
    } else {
        base + seq!['/'] + path
    }
}

/// Whether the last character of `p` is a `.` that forms a component of
/// its own (the whole path, or preceded by `/`).
pub open spec fn ends_with_dot_component(p: Seq<char>) -> bool {
    p.len() > 0 && p.last() == '.' && (p.len() == 1 || p[p.len() - 2] == '/')
}

/// `p` cut after the end of its last component: trailing separators and
/// trailing `.` components are dropped, as Unix path components ignore them.
pub open spec fn trim_trailing(p: Seq<char>) -> Seq<char>
    decreases p.len(),
{
    if p.len() == 0 {
        p
    } else if p.last() == '/' || ends_with_dot_component(p) {
        trim_trailing(p.drop_last())
    } else {
        p
    }
}

/// The index just after the last `/` of `t`, or 0 when there is none.
pub open spec fn last_separator_end(t: Seq<char>) -> int
    decreases t.len(),
{
    if t.len() == 0 {
        0
    } else if t.last() == '/' {
        t.len() as int
    } else {
        last_separator_end(t.drop_last())
    }
}

/// The final component of a Unix path, as `Path::file_name` gives it:
/// none when the path has no component, ends at the root, or ends in `..`.
pub open spec fn file_name(p: Seq<char>) -> Option<Seq<char>> {
    let t = trim_trailing(p);
    let name = t.subrange(last_separator_end(t), t.len() as int);
    if t.len() == 0 || name == seq!['.', '.'] {
        None
    } else {
        Some(name)
    }
}

/// Whether a file name has an extension, as `Path::extension` decides it:
/// a `.` somewhere after its first character.
pub open spec fn name_has_extension(name: Seq<char>) -> bool {
    exists|i: int| 0 < i < name.len() && name[i] == '.'
}

/// Whether the path has a file name with an extension.
pub open spec fn has_extension(p: Seq<char>) -> bool {
    match file_name(p) {
        Some(name) => name_has_extension(name),
        None => false,
    }
}

impl WebAssetReader {
    /// The text that every location of this reader starts from.
    pub open spec fn prefix(self) -> Seq<char> {
        match self {
            WebAssetReader::Https => https_prefix(),
        }
    }

    /// The location of the asset at `path`.
    pub open spec fn uri_of(self, path: Seq<char>) -> Seq<char> {
        path_join(self.prefix(), path)
    }

    /// The location of the metadata of the asset at `path`: the asset's
    /// location with `.meta` appended to its file name, which is what
    /// `set_extension` gives when the new extension is the old one followed
    /// by `.meta`.
    pub open spec fn meta_uri_of(self, path: Seq<char>) -> Seq<char> {
        trim_trailing(self.uri_of(path)) + meta_suffix()
    }

    /// The location of the asset at `path`: `https://` joined with `path`.
    pub fn make_uri(&self, path: &str) -> (uri: String)
        ensures
            uri@ == self.uri_of(path@),
    {
        if starts_with_char(path, '/') {
            return path.to_owned();
        }
        let prefix = match self {
            WebAssetReader::Https => "https://",
        };
        proof {
            reveal_strlit("https://");
        }
        let mut uri = prefix.to_owned();
        uri.append(path);
        uri
    }

    /// The location of the metadata of the asset at `path`: its location
    /// with `.meta` appended to the file name. The path must have an
    /// extension ("asset paths must have extensions").
    pub fn make_meta_uri(&self, path: &str) -> (uri: String)
        requires
            has_extension(path@),
        ensures
            uri@ == self.meta_uri_of(path@),
    {
        let full = self.make_uri(path);
        let k = trimmed_len(full.as_str());
        let head = full.as_str().substring_char(0, k);
        let mut uri = head.to_owned();
        proof {
            reveal_strlit(".meta");
        }
        uri.append(".meta");
        uri
    }
}

/// What is left after trimming is a prefix that ends with a component.
pub proof fn lemma_trim_trailing(p: Seq<char>)
    ensures
        trim_trailing(p).len() <= p.len(),
        trim_trailing(p) == p.subrange(0, trim_trailing(p).len() as int),
        trim_trailing(p).len() > 0 ==> trim_trailing(p).last() != '/',
        trim_trailing(p).len() > 0 ==> !ends_with_dot_component(trim_trailing(p)),
    decreases p.len(),
{
    if p.len() == 0 {
        assert(p.subrange(0, 0) =~= p);
    } else if p.last() == '/' || ends_with_dot_component(p) {
        lemma_trim_trailing(p.drop_last());
        let t = trim_trailing(p);
        assert(p.drop_last().subrange(0, t.len() as int) =~= p.subrange(0, t.len() as int));
    } else {
        assert(p.subrange(0, p.len() as int) =~= p);
    }
}

/// The length of `trim_trailing(s)`, which is a prefix of `s`.
pub fn trimmed_len(s: &str) -> (k: usize)
    ensures
        k <= s@.len(),
        s@.subrange(0, k as int) == trim_trailing(s@),
{
    let n = s.unicode_len();
    let mut i = n;
    assert(s@.subrange(0, n as int) =~= s@);
    while i > 0
        invariant
            i <= n,
            n == s@.len(),
            trim_trailing(s@.subrange(0, i as int)) == trim_trailing(s@),
        decreases i,
    {
        let ghost sub = s@.subrange(0, i as int);
        assert(sub.drop_last() =~= s@.subrange(0, i - 1));
        let c = s.get_char(i - 1);
        let strip = if c == '/' {
            true
        } else if c == '.' {
            i == 1 || s.get_char(i - 2) == '/'
        } else {
            false
        };
        if !strip {
            assert(trim_trailing(sub) == sub);
            return i;
        }
        i = i - 1;
    }
    assert(s@.subrange(0, 0) =~= Seq::<char>::empty());
    0
}

/// Whether the asset path has an extension; the metadata location exists
/// only for such paths.
pub fn asset_path_has_extension(path: &str) -> (r: bool)
    ensures
        r == has_extension(path@),
{
    let k = trimmed_len(path);
    let ghost t = trim_trailing(path@);
    proof {
        lemma_trim_trailing(path@);
    }
    if k == 0 {
        return false;
    }
    let mut j = k;
    assert(path@.subrange(0, j as int) == t);
    while j > 0 && path.get_char(j - 1) != '/'
        invariant
            j <= k,
            k <= path@.len(),
            t == path@.subrange(0, k as int),
            last_separator_end(path@.subrange(0, j as int)) == last_separator_end(t),
            forall|x: int| j <= x < k ==> path@[x] != '/',
        decreases j,
    {
        assert(path@.subrange(0, j as int).drop_last() =~= path@.subrange(0, j - 1));
        j = j - 1;
    }
    proof {
        if j > 0 {
            assert(path@.subrange(0, j as int).last() == '/');
        }
    }
    let ghost name = t.subrange(j as int, k as int);
    assert(last_separator_end(t) == j);
    assert(j < k) by {
        if j == k {
            assert(t.last() == path@[k - 1]);
        }
    }
    if k - j == 2 && path.get_char(j) == '.' && path.get_char(j + 1) == '.' {
        assert(name =~= seq!['.', '.']);
        return false;
    }
    assert(name != seq!['.', '.']) by {
        if name == seq!['.', '.'] {
            assert(name.len() == 2);
            assert(name[0] == path@[j as int]);
            assert(name[1] == path@[j + 1]);
        }
    }
    assert(file_name(path@) == Some(name));
    let mut i = j + 1;
    while i < k
        invariant
            j < i <= k,
            k <= path@.len(),
            t == path@.subrange(0, k as int),
            name == t.subrange(j as int, k as int),
            file_name(path@) == Some(name),
            forall|x: int| j < x < i ==> path@[x] != '.',
        decreases k - i,
    {
        if path.get_char(i) == '.' {
            assert(name[i - j] == '.');
            assert(0 < i - j < name.len());
            assert(name_has_extension(name));
            return true;
        }
        i = i + 1;
    }
    assert(!name_has_extension(name)) by {
        assert forall|x: int| 0 < x < name.len() implies name[x] != '.' by {
            assert(name[x] == path@[j + x]);
        }
    }
    false
}

/// For a relative path with no trailing separator or `.` component, the
/// asset's location is `https://` followed by the path.
pub proof fn law_relative_uri(path: Seq<char>)
    requires
        !(path.len() > 0 && path[0] == '/'),
    ensures
        WebAssetReader::Https.uri_of(path) == https_prefix() + path,
{
}

/// An absolute path is its own location.
pub proof fn law_absolute_uri(path: Seq<char>)
    requires
        path.len() > 0 && path[0] == '/',
    ensures
        WebAssetReader::Https.uri_of(path) == path,
{
}

/// The metadata of an asset lives at the asset's location followed by
/// `.meta`, whenever the path ends with its file name (no trailing
/// separator and no trailing `.` component).
pub proof fn law_meta_uri_appends_suffix(r: WebAssetReader, path: Seq<char>)
    requires
        path.len() > 0,
        trim_trailing(path) == path,
    ensures
        r.meta_uri_of(path) == r.uri_of(path) + meta_suffix(),
{
    let u = r.uri_of(path);
    lemma_trim_trailing(path);
    assert(u.last() == path.last());
    assert(path.last() != '/');
    assert(!ends_with_dot_component(path));
    if path.len() == 1 {
        assert(path.last() != '.');
    } else {
        if path[0] != '/' {
            assert(u[u.len() - 2] == path[path.len() - 2]);
        }
    }
    assert(!ends_with_dot_component(u));
    assert(trim_trailing(u) == u);
}

/// The metadata path that bevy keeps next to an asset (`get_meta_path`):
/// the path with `.meta` appended to its extension, which `set_extension`
/// writes right after the file name.
pub open spec fn meta_path(p: Seq<char>) -> Seq<char> {
    trim_trailing(p) + meta_suffix()
}

/// The index of the last `.` in `name`, or -1 when there is none.
pub open spec fn last_dot(name: Seq<char>) -> int
    decreases name.len(),
{
    if name.len() == 0 {
        -1
    } else if name.last() == '.' {
        name.len() - 1
    } else {
        last_dot(name.drop_last())
    }
}

/// The extension of a path, as `Path::extension` gives it: what follows
/// the last `.` of the file name, when that `.` is not its first character.
pub open spec fn extension(p: Seq<char>) -> Option<Seq<char>> {
    match file_name(p) {
        Some(name) => if name_has_extension(name) {
            Some(name.subrange(last_dot(name) + 1, name.len() as int))
        } else {
            None
        },
        None => None,
    }
}

/// The file stem of a path, as `Path::file_stem` gives it: the file name
/// up to its last `.`, or the whole file name when it has no extension.
pub open spec fn file_stem(p: Seq<char>) -> Option<Seq<char>> {
    match file_name(p) {
        Some(name) => if name_has_extension(name) {
            Some(name.subrange(0, last_dot(name)))
        } else {
            Some(name)
        },
        None => None,
    }
}

/// A directory prefix read as a path: trailing separators and `.`
/// components are dropped, but a root stays `/` and a leading `.` stays `.`.
pub open spec fn dir_text(q: Seq<char>) -> Seq<char> {
    if trim_trailing(q).len() > 0 {
        trim_trailing(q)
    } else if q.len() > 0 && q[0] == '/' {
        seq!['/']
    } else if q.len() > 0 && q[0] == '.' {
        seq!['.']
    } else {
        Seq::empty()
    }
}

/// The parent of a path that ends with a file name, as `Path::parent`
/// gives it: the path without its last component (`None` here for a path
/// without a file name).
pub open spec fn parent(p: Seq<char>) -> Option<Seq<char>> {
    match file_name(p) {
        Some(_) => {
            let t = trim_trailing(p);
            Some(dir_text(t.subrange(0, last_separator_end(t))))
        },
        None => None,
    }
}

proof fn lemma_trim_concat(a: Seq<char>, b: Seq<char>)
    requires
        a.len() > 0,
        a.last() == '/',
        trim_trailing(b).len() > 0,
    ensures
        trim_trailing(a + b) == a + trim_trailing(b),
    decreases b.len(),
{
    let ab = a + b;
    assert(b.len() > 0);
    assert(ab.last() == b.last());
    if b.len() >= 2 {
        assert(ab[ab.len() - 2] == b[b.len() - 2]);
    } else {
        assert(ab[ab.len() - 2] == a.last());
    }
    assert(ends_with_dot_component(ab) == ends_with_dot_component(b));
    if b.last() == '/' || ends_with_dot_component(b) {
        assert(ab.drop_last() =~= a + b.drop_last());
        lemma_trim_concat(a, b.drop_last());
    }
}

proof fn lemma_separator_concat(a: Seq<char>, b: Seq<char>)
    requires
        a.len() > 0,
        a.last() == '/',
    ensures
        last_separator_end(a + b) == a.len() + last_separator_end(b),
    decreases b.len(),
{
    if b.len() == 0 {
        assert(a + b =~= a);
    } else {
        assert((a + b).drop_last() =~= a + b.drop_last());
        lemma_separator_concat(a, b.drop_last());
    }
}

proof fn lemma_separator_no_slash(a: Seq<char>, b: Seq<char>)
    requires
        forall|i: int| 0 <= i < b.len() ==> b[i] != '/',
    ensures
        last_separator_end(a + b) == last_separator_end(a),
    decreases b.len(),
{
    if b.len() == 0 {
        assert(a + b =~= a);
    } else {
        assert((a + b).drop_last() =~= a + b.drop_last());
        lemma_separator_no_slash(a, b.drop_last());
    }
}

proof fn lemma_last_dot_no_dot(a: Seq<char>, b: Seq<char>)
    requires
        forall|i: int| 0 <= i < b.len() ==> b[i] != '.',
    ensures
        last_dot(a + b) == last_dot(a),
    decreases b.len(),
{
    if b.len() == 0 {
        assert(a + b =~= a);
    } else {
        assert((a + b).drop_last() =~= a + b.drop_last());
        lemma_last_dot_no_dot(a, b.drop_last());
    }
}

proof fn lemma_last_dot_bounds(name: Seq<char>)
    ensures
        -1 <= last_dot(name) < name.len(),
        last_dot(name) >= 0 ==> name[last_dot(name)] == '.',
        forall|i: int| last_dot(name) < i < name.len() ==> name[i] != '.',
    decreases name.len(),
{
    if name.len() > 0 && name.last() != '.' {
        lemma_last_dot_bounds(name.drop_last());
        assert forall|i: int| last_dot(name) < i < name.len() implies name[i] != '.' by {
            if i < name.len() - 1 {
                assert(name[i] == name.drop_last()[i]);
            }
        }
    }
}

/// A file name has an extension exactly when its last `.` is not its
/// first character.
proof fn lemma_extension_last_dot(name: Seq<char>)
    ensures
        name_has_extension(name) <==> last_dot(name) > 0,
{
    lemma_last_dot_bounds(name);
    if name_has_extension(name) {
        let i = choose|i: int| 0 < i < name.len() && name[i] == '.';
        assert(last_dot(name) >= i);
    }
}

/// The location of an asset has the asset's file name, and its last
/// component starts where the asset's does, after the scheme.
proof fn lemma_uri_file_name(r: WebAssetReader, p: Seq<char>)
    requires
        file_name(p) is Some,
    ensures
        file_name(r.uri_of(p)) == file_name(p),
        trim_trailing(r.uri_of(p)).len() > 0,
{
    lemma_trim_trailing(p);
    if !(p.len() > 0 && p[0] == '/') {
        let pre = r.prefix();
        let t = trim_trailing(p);
        assert(r.uri_of(p) == pre + p);
        lemma_trim_concat(pre, p);
        lemma_separator_concat(pre, t);
        lemma_last_separator_bounds(t);
        let u = pre + t;
        assert(u.subrange(last_separator_end(u), u.len() as int) =~= t.subrange(
            last_separator_end(t),
            t.len() as int,
        ));
    }
}

/// The metadata of an asset is found at the location of its metadata
/// path: `make_meta_uri(p)` is `make_uri(get_meta_path(p))`.
pub proof fn law_meta_uri_is_uri_of_meta_path(r: WebAssetReader, p: Seq<char>)
    requires
        has_extension(p),
    ensures
        r.meta_uri_of(p) == r.uri_of(meta_path(p)),
{
    lemma_trim_trailing(p);
    let t = trim_trailing(p);
    assert(t.len() > 0);
    if p.len() > 0 && p[0] == '/' {
        assert(t[0] == p[0]);
        assert((t + meta_suffix())[0] == '/');
    } else {
        let pre = r.prefix();
        lemma_trim_concat(pre, p);
        assert(t[0] == p[0]);
        assert((t + meta_suffix())[0] == t[0]);
        assert(pre + t + meta_suffix() =~= pre + (t + meta_suffix()));
    }
}

/// The metadata location names the asset: its extension is `meta`, its
/// file stem is the asset's file name, and it lies in the same directory
/// as the asset's location.
pub proof fn law_meta_uri_names_asset(r: WebAssetReader, p: Seq<char>)
    requires
        has_extension(p),
    ensures
        extension(r.meta_uri_of(p)) == Some(seq!['m', 'e', 't', 'a']),
        file_stem(r.meta_uri_of(p)) == file_name(p),
        parent(r.meta_uri_of(p)) == parent(r.uri_of(p)),
{
    let u = r.uri_of(p);
    let m = r.meta_uri_of(p);
    let s = meta_suffix();
    lemma_uri_file_name(r, p);
    lemma_trim_trailing(u);
    let tu = trim_trailing(u);
    let k = last_separator_end(tu);
    let name = tu.subrange(k, tu.len() as int);
    assert(file_name(u) == Some(name));
    assert(m == tu + s);
    assert(m.last() == 'a');
    assert(!ends_with_dot_component(m));
    assert(trim_trailing(m) == m);
    assert forall|i: int| 0 <= i < s.len() implies s[i] != '/' by {}
    lemma_separator_no_slash(tu, s);
    assert(last_separator_end(m) == k);
    lemma_last_separator_bounds(tu);
    let name_m = m.subrange(k, m.len() as int);
    assert(name_m =~= name + s);
    assert(name_m.len() >= 5);
    assert(name_m != seq!['.', '.']);
    assert(file_name(m) == Some(name_m));
    assert(name.len() > 0);
    assert(name + s =~= (name.push('.')) + seq!['m', 'e', 't', 'a']);
    assert forall|i: int| 0 <= i < 4 implies seq!['m', 'e', 't', 'a'][i] != '.' by {}
    lemma_last_dot_no_dot(name.push('.'), seq!['m', 'e', 't', 'a']);
    assert(last_dot(name.push('.')) == name.len());
    assert(last_dot(name_m) == name.len());
    lemma_extension_last_dot(name_m);
    assert(name_m.subrange(last_dot(name_m) + 1, name_m.len() as int) =~= seq!['m', 'e', 't', 'a']);
    assert(name_m.subrange(0, last_dot(name_m)) =~= name);
    assert(m.subrange(0, k) =~= tu.subrange(0, k));
}

proof fn lemma_last_separator_bounds(t: Seq<char>)
    ensures
        0 <= last_separator_end(t) <= t.len(),
    decreases t.len(),
{
    if t.len() > 0 && t.last() != '/' {
        lemma_last_separator_bounds(t.drop_last());
    }
}

} // verus!
