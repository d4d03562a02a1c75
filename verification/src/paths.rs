//! Where the configuration, credentials, state and cache live, and the
//! lexical path arithmetic (Unix paths, `/` as separator) that places them.
use vstd::prelude::*;

use crate::domain::opt_view;
use crate::text::{append_chars, chars_of, lemma_split_on_pieces_lack_sep, split_chars, split_on, string_from_chars};

verus! {

#[derive(Debug, Clone, Copy, PartialEq, Eq, Structural)]
pub enum Platform {
    Unix,
    Windows,
}

/// What the process environment says about directories.
#[derive(Debug, Clone)]
pub struct PathEnvironment {
    pub platform: Platform,
    pub current_dir: String,
    pub xdg_config_home: Option<String>,
    pub home: Option<String>,
    pub xdg_state_home: Option<String>,
    pub xdg_cache_home: Option<String>,
    pub appdata: Option<String>,
    pub localappdata: Option<String>,
}

#[derive(Debug, Clone, PartialEq, Eq)]
pub struct Paths {
    pub config_file: String,
    /// Secret material, kept beside the configuration but in its own
    /// owner-only file so the configuration itself stays shareable.
    pub credentials_file: String,
    pub state_dir: String,
    pub cache_dir: String,
}

pub ghost struct PathsView {
    pub config_file: Seq<char>,
    pub credentials_file: Seq<char>,
    pub state_dir: Seq<char>,
    pub cache_dir: Seq<char>,
}

impl View for Paths {
    type V = PathsView;

    open spec fn view(&self) -> PathsView {
        PathsView {
            config_file: self.config_file@,
            credentials_file: self.credentials_file@,
            state_dir: self.state_dir@,
            cache_dir: self.cache_dir@,
        }
    }
}

#[derive(Debug, Clone, PartialEq, Eq)]
pub enum PathError {
    CurrentDirectory(String),
    MissingEnvironment(&'static str),
}

impl PathError {
    pub open spec fn message_spec(&self) -> Seq<char> {
        match self {
            PathError::CurrentDirectory(_) => "could not determine the current directory"@,
            PathError::MissingEnvironment(name) => "required environment path "@ + name@ + " is not set"@,
        }
    }

    pub fn message(&self) -> (r: String)
        ensures
            r@ == self.message_spec(),
    {
        match self {
            PathError::CurrentDirectory(_) => "could not determine the current directory".to_owned(),
            PathError::MissingEnvironment(name) => {
                let mut v = chars_of("required environment path ");
                let n = chars_of(name);
                append_chars(&mut v, &n);
                let tail = chars_of(" is not set");
                append_chars(&mut v, &tail);
                string_from_chars(&v)
            },
        }
    }
}

pub open spec fn is_absolute(p: Seq<char>) -> bool {
    p.len() > 0 && p[0] == '/'
}

/// What `Path::join` gives: an absolute `p` replaces `base`, else a separator
/// is put between them where `base` does not end in one.
pub open spec fn join_spec(base: Seq<char>, p: Seq<char>) -> Seq<char> {
    if is_absolute(p) {
        p
    } else if base.len() == 0 || base.last() == '/' {
        base + p
    } else {
        base + seq!['/'] + p
    }
}

/// The names that remain of the pieces of a path: empty pieces and `.` go,
/// `..` takes away the name before it, where there is one.
pub open spec fn fold_pieces(pieces: Seq<Seq<char>>) -> Seq<Seq<char>>
    decreases pieces.len(),
{
    if pieces.len() == 0 {
        Seq::empty()
    } else {
        let kept = fold_pieces(pieces.drop_last());
        let p = pieces.last();
        if p.len() == 0 || p == seq!['.'] {
            kept
        } else if p == seq!['.', '.'] {
            if kept.len() > 0 {
                kept.drop_last()
            } else {
                kept
            }
        } else {
            kept.push(p)
        }
    }
}

/// Names with `/` between them.
pub open spec fn join_names(names: Seq<Seq<char>>) -> Seq<char>
    decreases names.len(),
{
    if names.len() == 0 {
        Seq::empty()
    } else if names.len() == 1 {
        names[0]
    } else {
        join_names(names.drop_last()) + seq!['/'] + names.last()
    }
}

pub open spec fn render(root: bool, names: Seq<Seq<char>>) -> Seq<char> {
    if root {
        seq!['/'] + join_names(names)
    } else {
        join_names(names)
    }
}

pub open spec fn names_of(p: Seq<char>) -> Seq<Seq<char>> {
    fold_pieces(split_on(p, '/'))
}

/// `p` made absolute against `current_dir`.
pub open spec fn absolute_input(p: Seq<char>, current_dir: Seq<char>) -> Seq<char> {
    if is_absolute(p) {
        p
    } else {
        join_spec(current_dir, p)
    }
}

/// `p` made absolute against `current_dir` and rid of `.`, `..` and repeated
/// separators, without asking the file system.
pub open spec fn lexical_absolute_spec(p: Seq<char>, current_dir: Seq<char>) -> Seq<char> {
    let a = absolute_input(p, current_dir);
    render(is_absolute(a), names_of(a))
}

/// A name that a normal path keeps: not empty, not `.` or `..`, and
/// without a separator.
pub open spec fn plain_name(n: Seq<char>) -> bool {
    n.len() > 0 && n != seq!['.'] && n != seq!['.', '.'] && !n.contains('/')
}

pub open spec fn plain_names(names: Seq<Seq<char>>) -> bool {
    forall|k: int| 0 <= k < names.len() ==> plain_name(#[trigger] names[k])
}

proof fn lemma_fold_plain(pieces: Seq<Seq<char>>)
    requires
        forall|k: int| 0 <= k < pieces.len() ==> !(#[trigger] pieces[k]).contains('/'),
    ensures
        plain_names(fold_pieces(pieces)),
    decreases pieces.len(),
{
    if pieces.len() > 0 {
        assert forall|k: int| 0 <= k < pieces.drop_last().len() implies !(#[trigger] pieces.drop_last()[k]).contains('/') by {
            assert(pieces.drop_last()[k] == pieces[k]);
        }
        lemma_fold_plain(pieces.drop_last());
        let kept = fold_pieces(pieces.drop_last());
        assert(!pieces[pieces.len() - 1].contains('/'));
        if kept.len() > 0 {
            assert forall|k: int| 0 <= k < kept.drop_last().len() implies plain_name(#[trigger] kept.drop_last()[k]) by {
                assert(kept.drop_last()[k] == kept[k]);
            }
        }
        assert forall|k: int| 0 <= k < kept.push(pieces.last()).len() && k < kept.len() implies plain_name(#[trigger] kept.push(pieces.last())[k]) by {
            assert(kept.push(pieces.last())[k] == kept[k]);
        }
    }
}

proof fn lemma_split_plain(n: Seq<char>)
    requires
        !n.contains('/'),
    ensures
        split_on(n, '/') == seq![n],
    decreases n.len(),
{
    if n.len() > 0 {
        assert(!n.drop_last().contains('/')) by {
            if n.drop_last().contains('/') {
                let j = choose|j: int| 0 <= j < n.drop_last().len() && n.drop_last()[j] == '/';
                assert(n[j] == '/');
            }
        }
        lemma_split_plain(n.drop_last());
        assert(n.last() != '/') by {
            assert(n[n.len() - 1] == n.last());
        }
        assert(n.drop_last().push(n.last()) =~= n);
        assert(seq![n.drop_last()].update(0, n.drop_last().push(n.last())) =~= seq![n]);
    } else {
        assert(n =~= Seq::<char>::empty());
    }
}

proof fn lemma_split_after_sep(a: Seq<char>, n: Seq<char>)
    requires
        !n.contains('/'),
    ensures
        split_on(a + seq!['/'] + n, '/') == split_on(a, '/').push(n),
    decreases n.len(),
{
    let s = a + seq!['/'] + n;
    if n.len() == 0 {
        assert(s.drop_last() =~= a);
        assert(s.last() == '/');
        assert(n =~= Seq::<char>::empty());
    } else {
        assert(!n.drop_last().contains('/')) by {
            if n.drop_last().contains('/') {
                let j = choose|j: int| 0 <= j < n.drop_last().len() && n.drop_last()[j] == '/';
                assert(n[j] == '/');
            }
        }
        lemma_split_after_sep(a, n.drop_last());
        assert(s.drop_last() =~= a + seq!['/'] + n.drop_last());
        assert(s.last() == n.last());
        assert(n.last() != '/') by {
            assert(n[n.len() - 1] == n.last());
        }
        let rest = split_on(a, '/').push(n.drop_last());
        assert(n.drop_last().push(n.last()) =~= n);
        assert(rest.last() == n.drop_last());
        assert(rest.update(rest.len() - 1, rest.last().push(n.last())) =~= split_on(a, '/').push(n));
    }
}

/// A rooted path made of plain names splits into an empty piece and the names.
proof fn lemma_split_rendered(names: Seq<Seq<char>>)
    requires
        names.len() > 0,
        plain_names(names),
    ensures
        split_on(render(true, names), '/') == seq![Seq::<char>::empty()] + names,
    decreases names.len(),
{
    if names.len() == 1 {
        assert(render(true, names) =~= Seq::<char>::empty() + seq!['/'] + names[0]);
        assert(plain_name(names[0]));
        lemma_split_after_sep(Seq::<char>::empty(), names[0]);
        assert(split_on(Seq::<char>::empty(), '/') =~= seq![Seq::<char>::empty()]);
        assert(seq![Seq::<char>::empty()].push(names[0]) =~= seq![Seq::<char>::empty()] + names);
    } else {
        let m = names.drop_last();
        assert forall|k: int| 0 <= k < m.len() implies plain_name(#[trigger] m[k]) by {
            assert(m[k] == names[k]);
        }
        lemma_split_rendered(m);
        assert(render(true, names) =~= render(true, m) + seq!['/'] + names.last());
        assert(plain_name(names[names.len() - 1]));
        lemma_split_after_sep(render(true, m), names.last());
        assert((seq![Seq::<char>::empty()] + m).push(names.last()) =~= seq![Seq::<char>::empty()] + names);
    }
}

proof fn lemma_fold_names(names: Seq<Seq<char>>)
    requires
        plain_names(names),
    ensures
        fold_pieces(seq![Seq::<char>::empty()] + names) == names,
    decreases names.len(),
{
    let s = seq![Seq::<char>::empty()] + names;
    if names.len() == 0 {
        assert(s.drop_last() =~= Seq::<Seq<char>>::empty());
        assert(s.last() =~= Seq::<char>::empty());
        assert(fold_pieces(Seq::<Seq<char>>::empty()) =~= Seq::<Seq<char>>::empty());
        assert(names =~= Seq::<Seq<char>>::empty());
    } else {
        let m = names.drop_last();
        assert forall|k: int| 0 <= k < m.len() implies plain_name(#[trigger] m[k]) by {
            assert(m[k] == names[k]);
        }
        lemma_fold_names(m);
        assert(s.drop_last() =~= seq![Seq::<char>::empty()] + m);
        assert(s.last() == names.last());
        assert(plain_name(names[names.len() - 1]));
        assert(m.push(names.last()) =~= names);
    }
}

/// Rendered plain names read back as the same names.
proof fn lemma_names_of_rendered(names: Seq<Seq<char>>)
    requires
        plain_names(names),
    ensures
        names_of(render(true, names)) == names,
{
    if names.len() == 0 {
        assert(render(true, names) =~= Seq::<char>::empty() + seq!['/'] + Seq::<char>::empty());
        lemma_split_after_sep(Seq::<char>::empty(), Seq::<char>::empty());
        assert(split_on(Seq::<char>::empty(), '/') =~= seq![Seq::<char>::empty()]);
        let pieces = seq![Seq::<char>::empty()].push(Seq::<char>::empty());
        assert(pieces.drop_last() =~= seq![Seq::<char>::empty()]);
        assert(seq![Seq::<char>::empty()].drop_last() =~= Seq::<Seq<char>>::empty());
        assert(fold_pieces(Seq::<Seq<char>>::empty()) =~= Seq::<Seq<char>>::empty());
        assert(fold_pieces(seq![Seq::<char>::empty()]) =~= Seq::<Seq<char>>::empty());
        assert(fold_pieces(pieces) =~= Seq::<Seq<char>>::empty());
        assert(names =~= Seq::<Seq<char>>::empty());
    } else {
        lemma_split_rendered(names);
        lemma_fold_names(names);
    }
}

/// Against an absolute current directory, a path made absolute lexically is
/// absolute, its names hold no `.`, `..`, empty piece or separator, and making
/// it absolute again, against any directory, changes nothing.
pub proof fn lexical_paths_are_normal(p: Seq<char>, current_dir: Seq<char>, other_dir: Seq<char>)
    requires
        is_absolute(current_dir),
    ensures
        is_absolute(lexical_absolute_spec(p, current_dir)),
        plain_names(names_of(lexical_absolute_spec(p, current_dir))),
        lexical_absolute_spec(lexical_absolute_spec(p, current_dir), other_dir) == lexical_absolute_spec(p, current_dir),
{
    let a = absolute_input(p, current_dir);
    assert(is_absolute(a)) by {
        if !is_absolute(p) {
            if current_dir.last() == '/' {
                assert((current_dir + p)[0] == current_dir[0]);
            } else {
                assert((current_dir + seq!['/'] + p)[0] == current_dir[0]);
            }
        }
    }
    let names = names_of(a);
    lemma_split_on_pieces_lack_sep(a, '/');
    let pieces = split_on(a, '/');
    assert forall|k: int| 0 <= k < pieces.len() implies !(#[trigger] pieces[k]).contains('/') by {
        if pieces[k].contains('/') {
            let j = choose|j: int| 0 <= j < pieces[k].len() && pieces[k][j] == '/';
            assert(pieces[k][j] != '/');
        }
    }
    lemma_fold_plain(pieces);
    let r = render(true, names);
    assert(r[0] == '/');
    lemma_names_of_rendered(names);
}

fn is_absolute_chars(p: &Vec<char>) -> (r: bool)
    ensures
        r == is_absolute(p@),
{
    p.len() > 0 && p[0] == '/'
}

fn join_chars(base: &Vec<char>, p: &Vec<char>) -> (r: Vec<char>)
    ensures
        r@ == join_spec(base@, p@),
{
    if is_absolute_chars(p) {
        let mut out: Vec<char> = Vec::new();
        append_chars(&mut out, p);
        proof {
            assert(out@ =~= p@);
        }
        out
    } else {
        let mut out: Vec<char> = Vec::new();
        append_chars(&mut out, base);
        if base.len() > 0 && base[base.len() - 1] != '/' {
            out.push('/');
        }
        append_chars(&mut out, p);
        proof {
            if base.len() == 0 || base@.last() == '/' {
                assert(out@ =~= base@ + p@);
            } else {
                assert(out@ =~= base@ + seq!['/'] + p@);
            }
        }
        out
    }
}

/// `base` joined with `p`.
pub fn join(base: &str, p: &str) -> (r: String)
    ensures
        r@ == join_spec(base@, p@),
{
    let b = chars_of(base);
    let q = chars_of(p);
    string_from_chars(&join_chars(&b, &q))
}

fn copy_chars(v: &Vec<char>) -> (r: Vec<char>)
    ensures
        r@ == v@,
{
    let mut out: Vec<char> = Vec::new();
    append_chars(&mut out, v);
    proof {
        assert(out@ =~= v@);
    }
    out
}

/// The names that `p` comes to once `.`, `..` and empty pieces are folded.
fn fold_path(p: &Vec<char>) -> (r: Vec<Vec<char>>)
    ensures
        r@.map_values(|v: Vec<char>| v@) == names_of(p@),
{
    let pieces = split_chars(p, '/');
    let ghost pv = split_on(p@, '/');
    let mut names: Vec<Vec<char>> = Vec::new();
    let mut i: usize = 0;
    while i < pieces.len()
        invariant
            i <= pieces.len(),
            pieces@.len() == pv.len(),
            forall|k: int| 0 <= k < pieces@.len() ==> #[trigger] pieces@[k]@ == pv[k],
            names@.map_values(|v: Vec<char>| v@) == fold_pieces(pv.take(i as int)),
        decreases pieces.len() - i,
    {
        let piece = &pieces[i];
        proof {
            assert(pv.take(i + 1).drop_last() =~= pv.take(i as int));
            assert(pv.take(i + 1).last() == piece@);
        }
        if piece.len() == 0 || (piece.len() == 1 && piece[0] == '.') {
            proof {
                if piece.len() == 1 {
                    assert(piece@ =~= seq!['.']);
                }
            }
        } else if piece.len() == 2 && piece[0] == '.' && piece[1] == '.' {
            proof {
                assert(piece@ =~= seq!['.', '.']);
            }
            if names.len() > 0 {
                let _ = names.pop();
                proof {
                    assert(names@.map_values(|v: Vec<char>| v@) =~= fold_pieces(pv.take(i as int)).drop_last());
                }
            }
        } else {
            proof {
                assert(piece@ != seq!['.']);
                assert(piece@ != seq!['.', '.']);
            }
            names.push(copy_chars(piece));
            proof {
                assert(names@.map_values(|v: Vec<char>| v@) =~= fold_pieces(pv.take(i as int)).push(piece@));
            }
        }
        i = i + 1;
    }
    proof {
        assert(pv.take(pieces.len() as int) =~= pv);
    }
    names
}

fn render_chars(root: bool, names: &Vec<Vec<char>>) -> (r: Vec<char>)
    ensures
        r@ == render(root, names@.map_values(|v: Vec<char>| v@)),
{
    let ghost nv = names@.map_values(|v: Vec<char>| v@);
    let mut out: Vec<char> = Vec::new();
    if root {
        out.push('/');
    }
    let ghost start = out@;
    let mut k: usize = 0;
    while k < names.len()
        invariant
            k <= names.len(),
            nv == names@.map_values(|v: Vec<char>| v@),
            start == (if root { seq!['/'] } else { Seq::<char>::empty() }),
            out@ == start + join_names(nv.take(k as int)),
        decreases names.len() - k,
    {
        proof {
            assert(nv.take(k + 1).drop_last() =~= nv.take(k as int));
            assert(nv.take(k + 1).last() == names@[k as int]@);
        }
        if k > 0 {
            out.push('/');
        }
        append_chars(&mut out, &names[k]);
        proof {
            if k == 0 {
                assert(nv.take(1)[0] == names@[0]@);
                assert(out@ =~= start + join_names(nv.take(k + 1)));
            } else {
                assert(out@ =~= start + join_names(nv.take(k + 1)));
            }
        }
        k = k + 1;
    }
    proof {
        assert(nv.take(names.len() as int) =~= nv);
        if !root {
            assert(out@ =~= join_names(nv));
        }
    }
    out
}

fn absolute_chars(p: &Vec<char>, current_dir: &Vec<char>) -> (r: Vec<char>)
    ensures
        r@ == absolute_input(p@, current_dir@),
{
    if is_absolute_chars(p) {
        copy_chars(p)
    } else {
        join_chars(current_dir, p)
    }
}

/// `path` made absolute against `current_dir`, with `.`, `..` and repeated
/// separators folded away; the file system is not asked.
pub fn lexical_absolute(path: &str, current_dir: &str) -> (r: String)
    ensures
        r@ == lexical_absolute_spec(path@, current_dir@),
{
    let p = chars_of(path);
    let c = chars_of(current_dir);
    let a = absolute_chars(&p, &c);
    let names = fold_path(&a);
    string_from_chars(&render_chars(is_absolute_chars(&a), &names))
}

/// Where the credential file goes for a configuration file at `config_file`:
/// beside it, or in the current directory where it has no parent.
pub open spec fn credentials_beside(config_file: Seq<char>, current_dir: Seq<char>) -> Seq<char> {
    let a = absolute_input(config_file, current_dir);
    let names = names_of(a);
    if names.len() > 0 {
        join_spec(render(is_absolute(a), names.drop_last()), "credentials.toml"@)
    } else {
        "credentials.toml"@
    }
}

/// Relocating the configuration moves the credential file with it, so a
/// `--config` in a throwaway directory does not silently read or write
/// secrets in the real one.
pub fn with_config_file(paths: Paths, config_file: &str, current_dir: &str) -> (r: Paths)
    ensures
        r@ == (PathsView {
            config_file: lexical_absolute_spec(config_file@, current_dir@),
            credentials_file: credentials_beside(config_file@, current_dir@),
            ..paths@
        }),
{
    let p = chars_of(config_file);
    let c = chars_of(current_dir);
    let a = absolute_chars(&p, &c);
    let root = is_absolute_chars(&a);
    let mut names = fold_path(&a);
    let config = string_from_chars(&render_chars(root, &names));
    let credentials = if names.len() > 0 {
        let ghost before = names@.map_values(|v: Vec<char>| v@);
        let _ = names.pop();
        proof {
            assert(names@.map_values(|v: Vec<char>| v@) =~= before.drop_last());
        }
        let parent = render_chars(root, &names);
        let file = chars_of("credentials.toml");
        string_from_chars(&join_chars(&parent, &file))
    } else {
        "credentials.toml".to_owned()
    };
    Paths { config_file: config, credentials_file: credentials, ..paths }
}


/// The directory named by an XDG variable, else `sub` under the home
/// directory, else nothing.
pub open spec fn xdg_root(xdg: Option<String>, home: Option<String>, sub: Seq<char>) -> Option<Seq<char>> {
    match xdg {
        Some(p) => Some(p@),
        None => match home {
            Some(h) => Some(join_spec(h@, sub)),
            None => None,
        },
    }
}

fn xdg_root_chars(xdg: &Option<String>, home: &Option<String>, sub: &str) -> (r: Option<Vec<char>>)
    ensures
        match r {
            Some(v) => xdg_root(*xdg, *home, sub@) == Some(v@),
            None => xdg_root(*xdg, *home, sub@).is_none(),
        },
{
    match xdg {
        Some(p) => Some(chars_of(p.as_str())),
        None => match home {
            Some(h) => {
                let hc = chars_of(h.as_str());
                let sc = chars_of(sub);
                Some(join_chars(&hc, &sc))
            },
            None => None,
        },
    }
}

fn place(root: &Vec<char>, sub: &str, current_dir: &Vec<char>) -> (r: String)
    ensures
        r@ == lexical_absolute_spec(join_spec(root@, sub@), current_dir@),
{
    let sc = chars_of(sub);
    let joined = join_chars(root, &sc);
    let a = absolute_chars(&joined, current_dir);
    let names = fold_path(&a);
    string_from_chars(&render_chars(is_absolute_chars(&a), &names))
}

/// The four locations for `environment`, each made absolute lexically.
pub open spec fn resolved_paths(
    config_root: Seq<char>,
    credentials_root: Seq<char>,
    state_root: Seq<char>,
    state_sub: Seq<char>,
    cache_root: Seq<char>,
    cache_sub: Seq<char>,
    current_dir: Seq<char>,
) -> PathsView {
    PathsView {
        config_file: lexical_absolute_spec(join_spec(config_root, "tale/config.toml"@), current_dir),
        credentials_file: lexical_absolute_spec(join_spec(credentials_root, "tale/credentials.toml"@), current_dir),
        state_dir: lexical_absolute_spec(join_spec(state_root, state_sub), current_dir),
        cache_dir: lexical_absolute_spec(join_spec(cache_root, cache_sub), current_dir),
    }
}

/// On Unix the XDG variables decide, with `HOME` as the fallback; on Windows
/// `APPDATA` holds the configuration and `LOCALAPPDATA` state and cache.
pub fn resolve_paths(environment: &PathEnvironment) -> (r: Result<Paths, PathError>)
    ensures
        environment.platform == Platform::Unix ==> match (
            xdg_root(environment.xdg_config_home, environment.home, ".config"@),
            xdg_root(environment.xdg_state_home, environment.home, ".local/state"@),
            xdg_root(environment.xdg_cache_home, environment.home, ".cache"@),
        ) {
            (Some(c), Some(s), Some(k)) => r matches Ok(p) && p@ == resolved_paths(
                c, c, s, "tale"@, k, "tale"@, environment.current_dir@,
            ),
            _ => r matches Err(PathError::MissingEnvironment(name)) && name@ == "HOME"@,
        },
        environment.platform == Platform::Windows ==> match (environment.appdata, environment.localappdata) {
            (Some(a), Some(l)) => r matches Ok(p) && p@ == resolved_paths(
                a@, a@, l@, "tale"@, l@, "tale/cache"@, environment.current_dir@,
            ),
            (None, _) => r matches Err(PathError::MissingEnvironment(name)) && name@ == "APPDATA"@,
            (Some(_), None) => r matches Err(PathError::MissingEnvironment(name)) && name@ == "LOCALAPPDATA"@,
        },
{
    let cwd = chars_of(environment.current_dir.as_str());
    match environment.platform {
        Platform::Unix => {
            let config_root = match xdg_root_chars(&environment.xdg_config_home, &environment.home, ".config") {
                Some(v) => v,
                None => {
                    return Err(PathError::MissingEnvironment("HOME"));
                },
            };
            let state_root = match xdg_root_chars(&environment.xdg_state_home, &environment.home, ".local/state") {
                Some(v) => v,
                None => {
                    return Err(PathError::MissingEnvironment("HOME"));
                },
            };
            let cache_root = match xdg_root_chars(&environment.xdg_cache_home, &environment.home, ".cache") {
                Some(v) => v,
                None => {
                    return Err(PathError::MissingEnvironment("HOME"));
                },
            };
            Ok(Paths {
                config_file: place(&config_root, "tale/config.toml", &cwd),
                credentials_file: place(&config_root, "tale/credentials.toml", &cwd),
                state_dir: place(&state_root, "tale", &cwd),
                cache_dir: place(&cache_root, "tale", &cwd),
            })
        },
        Platform::Windows => {
            let appdata = match &environment.appdata {
                Some(a) => chars_of(a.as_str()),
                None => {
                    return Err(PathError::MissingEnvironment("APPDATA"));
                },
            };
            let localappdata = match &environment.localappdata {
                Some(l) => chars_of(l.as_str()),
                None => {
                    return Err(PathError::MissingEnvironment("LOCALAPPDATA"));
                },
            };
            Ok(Paths {
                config_file: place(&appdata, "tale/config.toml", &cwd),
                credentials_file: place(&appdata, "tale/credentials.toml", &cwd),
                state_dir: place(&localappdata, "tale", &cwd),
                cache_dir: place(&localappdata, "tale/cache", &cwd),
            })
        },
    }
}


/// The pieces that `Path::components` keeps as names: all but empty ones and `.`.
pub open spec fn kept_pieces(pieces: Seq<Seq<char>>) -> Seq<Seq<char>>
    decreases pieces.len(),
{
    if pieces.len() == 0 {
        Seq::empty()
    } else {
        let kept = kept_pieces(pieces.drop_last());
        let p = pieces.last();
        if p.len() == 0 || p == seq!['.'] {
            kept
        } else {
            kept.push(p)
        }
    }
}

/// A relative path that starts with the `.` component.
pub open spec fn leading_cur_dir(p: Seq<char>) -> bool {
    !is_absolute(p) && p.len() > 0 && p[0] == '.' && (p.len() == 1 || p[1] == '/')
}

/// `Path::eq`: the same components, which ignores repeated separators and
/// inner `.` pieces but not a leading `./`.
pub open spec fn same_path(a: Seq<char>, b: Seq<char>) -> bool {
    is_absolute(a) == is_absolute(b) && leading_cur_dir(a) == leading_cur_dir(b)
        && kept_pieces(split_on(a, '/')) == kept_pieces(split_on(b, '/'))
}

fn kept_path(p: &Vec<char>) -> (r: Vec<Vec<char>>)
    ensures
        r@.map_values(|v: Vec<char>| v@) == kept_pieces(split_on(p@, '/')),
{
    let pieces = split_chars(p, '/');
    let ghost pv = split_on(p@, '/');
    let mut names: Vec<Vec<char>> = Vec::new();
    let mut i: usize = 0;
    while i < pieces.len()
        invariant
            i <= pieces.len(),
            pieces@.len() == pv.len(),
            forall|k: int| 0 <= k < pieces@.len() ==> #[trigger] pieces@[k]@ == pv[k],
            names@.map_values(|v: Vec<char>| v@) == kept_pieces(pv.take(i as int)),
        decreases pieces.len() - i,
    {
        let piece = &pieces[i];
        proof {
            assert(pv.take(i + 1).drop_last() =~= pv.take(i as int));
            assert(pv.take(i + 1).last() == piece@);
        }
        if piece.len() == 0 || (piece.len() == 1 && piece[0] == '.') {
            proof {
                if piece.len() == 1 {
                    assert(piece@ =~= seq!['.']);
                }
            }
        } else {
            proof {
                assert(piece@ != seq!['.']);
            }
            names.push(copy_chars(piece));
            proof {
                assert(names@.map_values(|v: Vec<char>| v@) =~= kept_pieces(pv.take(i as int)).push(piece@));
            }
        }
        i = i + 1;
    }
    proof {
        assert(pv.take(pieces.len() as int) =~= pv);
    }
    names
}

fn leading_cur_dir_chars(p: &Vec<char>) -> (r: bool)
    ensures
        r == leading_cur_dir(p@),
{
    !is_absolute_chars(p) && p.len() > 0 && p[0] == '.' && (p.len() == 1 || p[1] == '/')
}

fn same_names(a: &Vec<Vec<char>>, b: &Vec<Vec<char>>) -> (r: bool)
    ensures
        r == (a@.map_values(|v: Vec<char>| v@) == b@.map_values(|v: Vec<char>| v@)),
{
    let ghost av = a@.map_values(|v: Vec<char>| v@);
    let ghost bv = b@.map_values(|v: Vec<char>| v@);
    if a.len() != b.len() {
        proof {
            assert(av.len() != bv.len());
        }
        return false;
    }
    let mut i: usize = 0;
    while i < a.len()
        invariant
            a.len() == b.len(),
            i <= a.len(),
            av == a@.map_values(|v: Vec<char>| v@),
            bv == b@.map_values(|v: Vec<char>| v@),
            forall|k: int| 0 <= k < i ==> av[k] == bv[k],
        decreases a.len() - i,
    {
        if !crate::text::chars_eq(&a[i], &b[i]) {
            proof {
                assert(av[i as int] != bv[i as int]);
            }
            return false;
        }
        i = i + 1;
    }
    proof {
        assert(av =~= bv);
    }
    true
}

/// Two paths name the same place in the sense of `Path::eq`.
pub fn paths_equal(a: &str, b: &str) -> (r: bool)
    ensures
        r == same_path(a@, b@),
{
    let ac = chars_of(a);
    let bc = chars_of(b);
    if is_absolute_chars(&ac) != is_absolute_chars(&bc) {
        return false;
    }
    if leading_cur_dir_chars(&ac) != leading_cur_dir_chars(&bc) {
        return false;
    }
    let an = kept_path(&ac);
    let bn = kept_path(&bc);
    same_names(&an, &bn)
}

/// The number of components that `Path::components` yields: the root, a
/// leading `.`, and every name.
pub open spec fn component_count(p: Seq<char>) -> nat {
    (if is_absolute(p) { 1nat } else { 0nat }) + (if leading_cur_dir(p) { 1nat } else { 0nat })
        + kept_pieces(split_on(p, '/')).len()
}

/// `Path::file_name`: the last component where it is a name other than `..`.
pub open spec fn file_name(p: Seq<char>) -> Option<Seq<char>> {
    let k = kept_pieces(split_on(p, '/'));
    if k.len() > 0 && k.last() != seq!['.', '.'] {
        Some(k.last())
    } else {
        None
    }
}

/// A file name has an extension where a `.` stands after its first character.
pub open spec fn has_extension(name: Seq<char>) -> bool {
    exists|i: int| 1 <= i < name.len() && name[i] == '.'
}

/// `Path::extension().is_none()`.
pub open spec fn extension_is_none(p: Seq<char>) -> bool {
    match file_name(p) {
        Some(name) => !has_extension(name),
        None => true,
    }
}

/// `p` without the separators and `.` pieces that follow its last name.
pub open spec fn trim_tail(p: Seq<char>) -> Seq<char>
    decreases p.len(),
{
    if p.len() > 0 && (p.last() == '/' || (p.last() == '.' && p.len() >= 2 && p[p.len() - 2]
        == '/')) {
        trim_tail(p.drop_last())
    } else {
        p
    }
}

/// `Path::with_extension(ext)` on a path whose file name has no extension:
/// the path cut after its last name, then `.` and `ext`; a path without a
/// file name stays as it is.
pub open spec fn with_extension_spec(p: Seq<char>, ext: Seq<char>) -> Seq<char>
    recommends
        extension_is_none(p),
{
    match file_name(p) {
        Some(_) => trim_tail(p) + seq!['.'] + ext,
        None => p,
    }
}

/// Whether `Path::components` yields more than one component for `p`.
pub fn has_several_components(p: &str) -> (r: bool)
    ensures
        r == (component_count(p@) > 1),
{
    let c = chars_of(p);
    let names = kept_path(&c);
    proof {
        assert(names@.map_values(|v: Vec<char>| v@).len() == names@.len());
    }
    if names.len() >= 2 {
        return true;
    }
    let mut n: usize = names.len();
    if is_absolute_chars(&c) {
        n = n + 1;
    }
    if leading_cur_dir_chars(&c) {
        n = n + 1;
    }
    n > 1
}

/// Whether `p` is absolute in the sense of `Path::is_absolute`.
pub fn path_is_absolute(p: &str) -> (r: bool)
    ensures
        r == is_absolute(p@),
{
    let c = chars_of(p);
    is_absolute_chars(&c)
}

fn trim_tail_chars(p: &Vec<char>) -> (r: Vec<char>)
    ensures
        r@ == trim_tail(p@),
{
    let mut end: usize = p.len();
    proof {
        assert(p@.take(end as int) =~= p@);
    }
    while end > 0 && (p[end - 1] == '/' || (p[end - 1] == '.' && end >= 2 && p[end - 2] == '/'))
        invariant
            end <= p@.len(),
            trim_tail(p@.take(end as int)) == trim_tail(p@),
        decreases end,
    {
        proof {
            let t = p@.take(end as int);
            assert(t.drop_last() =~= p@.take(end - 1));
            assert(t.last() == p@[end - 1]);
            if end >= 2 {
                assert(t[t.len() - 2] == p@[end - 2]);
            }
        }
        end = end - 1;
    }
    let mut out: Vec<char> = Vec::new();
    let mut i: usize = 0;
    while i < end
        invariant
            i <= end,
            end <= p@.len(),
            out@ == p@.take(i as int),
        decreases end - i,
    {
        out.push(p[i]);
        i = i + 1;
        proof {
            assert(out@ =~= p@.take(i as int));
        }
    }
    proof {
        let t = p@.take(end as int);
        assert(out@ == t);
        if t.len() > 0 {
            assert(t.last() == p@[end - 1]);
            if end >= 2 {
                assert(t[t.len() - 2] == p@[end - 2]);
            }
        }
    }
    out
}

/// The file name of `p`, where it has one.
pub fn path_file_name(p: &str) -> (r: Option<String>)
    ensures
        opt_view(r) == file_name(p@),
{
    let c = chars_of(p);
    let names = kept_path(&c);
    let ghost k = kept_pieces(split_on(c@, '/'));
    proof {
        assert(names@.map_values(|v: Vec<char>| v@).len() == names@.len());
    }
    if names.len() == 0 {
        return None;
    }
    let last = &names[names.len() - 1];
    proof {
        assert(names@.map_values(|v: Vec<char>| v@)[names@.len() - 1] == last@);
        assert(k.last() == last@);
    }
    if last.len() == 2 && last[0] == '.' && last[1] == '.' {
        proof {
            assert(last@ =~= seq!['.', '.']);
        }
        return None;
    }
    proof {
        assert(last@ != seq!['.', '.']) by {
            if last@ == seq!['.', '.'] {
                assert(last@.len() == 2);
                assert(last@[0] == '.');
            }
        }
    }
    Some(string_from_chars(last))
}

/// Whether the file name of `p` has no extension.
pub fn path_extension_is_none(p: &str) -> (r: bool)
    ensures
        r == extension_is_none(p@),
{
    match path_file_name(p) {
        None => true,
        Some(name) => {
            assert(file_name(p@) == Some(name@));
            let c = chars_of(name.as_str());
            let mut i: usize = 1;
            while i < c.len()
                invariant
                    1 <= i,
                    c@ == name@,
                    file_name(p@) == Some(name@),
                    forall|j: int| 1 <= j < i && j < c@.len() ==> c@[j] != '.',
                decreases c.len() - i,
            {
                if c[i] == '.' {
                    proof {
                        assert(1 <= i < name@.len() && name@[i as int] == '.');
                        assert(has_extension(name@));
                    }
                    return false;
                }
                i = i + 1;
            }
            true
        },
    }
}

/// `Path::with_extension(ext)` for a path whose file name has no extension.
pub fn path_with_extension(p: &str, ext: &str) -> (r: String)
    requires
        extension_is_none(p@),
    ensures
        r@ == with_extension_spec(p@, ext@),
{
    match path_file_name(p) {
        None => p.to_owned(),
        Some(_) => {
            let c = chars_of(p);
            let mut out = trim_tail_chars(&c);
            out.push('.');
            let e = chars_of(ext);
            append_chars(&mut out, &e);
            proof {
                assert(out@ =~= trim_tail(p@) + seq!['.'] + ext@);
            }
            string_from_chars(&out)
        },
    }
}


} // verus!
