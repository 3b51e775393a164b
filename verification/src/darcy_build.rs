//! Compiling Darcy sources during a Rust build: the build's settings, the
//! library search paths, and the text the build writes out.

use vstd::prelude::*;
use crate::diag::{render_diag_with_level, rendered, Diag};
use crate::lexer::{is_space, space};
use crate::rt::first_non_space;
use crate::text::{chars_of, concat2, copy, has_prefix, starts_with, string_from_chars, sub_string};

verus! {

/// The settings of a build: the entry file, the library directories, the
/// standard library's directory, where to write the Rust code, and whether
/// to tell cargo which files to watch.
#[derive(Debug, Clone)]
pub struct Builder {
    pub entry: String,
    pub lib_paths: Vec<String>,
    pub stdlib: Option<String>,
    pub out_file: Option<String>,
    pub emit_rerun: bool,
}

impl Builder {
    /// A build of `entry` with no library directories, no standard library,
    /// the default output file, and watched files reported.
    pub fn new(entry: String) -> (b: Builder)
        ensures
            b.entry@ == entry@,
            b.lib_paths@.len() == 0,
            b.stdlib is None,
            b.out_file is None,
            b.emit_rerun,
    {
        Builder { entry, lib_paths: Vec::new(), stdlib: None, out_file: None, emit_rerun: true }
    }

    /// Adds a library directory after those already given.
    pub fn lib_path(self, path: String) -> (b: Builder)
        ensures
            b.lib_paths@ == self.lib_paths@.push(path),
            b.entry == self.entry,
            b.stdlib == self.stdlib,
            b.out_file == self.out_file,
            b.emit_rerun == self.emit_rerun,
    {
        let mut b = self;
        b.lib_paths.push(path);
        b
    }

    /// Uses `path` as the standard library's directory.
    pub fn stdlib_path(self, path: String) -> (b: Builder)
        ensures
            b.stdlib == Some(path),
            b.entry == self.entry,
            b.lib_paths == self.lib_paths,
            b.out_file == self.out_file,
            b.emit_rerun == self.emit_rerun,
    {
        let mut b = self;
        b.stdlib = Some(path);
        b
    }

    /// Uses the installed standard library, found in `dir`.
    pub fn with_stdlib(self, dir: String) -> (b: Builder)
        ensures
            b.stdlib == Some(dir),
            b.entry == self.entry,
            b.lib_paths == self.lib_paths,
            b.out_file == self.out_file,
            b.emit_rerun == self.emit_rerun,
    {
        self.stdlib_path(dir)
    }

    /// Writes the Rust code to `path`.
    pub fn out_file(self, path: String) -> (b: Builder)
        ensures
            b.out_file == Some(path),
            b.entry == self.entry,
            b.lib_paths == self.lib_paths,
            b.stdlib == self.stdlib,
            b.emit_rerun == self.emit_rerun,
    {
        let mut b = self;
        b.out_file = Some(path);
        b
    }

    /// Whether to report the watched files to cargo.
    pub fn emit_rerun_if_changed(self, emit: bool) -> (b: Builder)
        ensures
            b.emit_rerun == emit,
            b.entry == self.entry,
            b.lib_paths == self.lib_paths,
            b.stdlib == self.stdlib,
            b.out_file == self.out_file,
    {
        let mut b = self;
        b.emit_rerun = emit;
        b
    }

    /// The directories searched for modules: the library directories, then
    /// the standard library's; when there are none, the entry file's
    /// directory (if it has one).
    pub fn search_paths(&self) -> (r: Vec<String>)
        ensures
            views_are(r@, search_paths_spec(
                self.lib_paths@.map_values(|p: String| p@),
                match self.stdlib { Some(s) => Some(s@), None => None },
                self.entry@,
            )),
    {
        let ghost libs = self.lib_paths@.map_values(|p: String| p@);
        let mut out: Vec<String> = Vec::new();
        let mut i: usize = 0;
        while i < self.lib_paths.len()
            invariant
                i <= self.lib_paths@.len(),
                libs == self.lib_paths@.map_values(|p: String| p@),
                views_are(out@, libs.subrange(0, i as int)),
            decreases self.lib_paths@.len() - i,
        {
            let c = copy(&self.lib_paths[i]);
            proof {
                lemma_views_push(out@, libs.subrange(0, i as int), c);
                assert(libs.subrange(0, i as int).push(c@) =~= libs.subrange(0, i + 1));
            }
            out.push(c);
            i = i + 1;
        }
        proof {
            assert(libs.subrange(0, libs.len() as int) =~= libs);
        }
        if let Some(s) = &self.stdlib {
            let c = copy(s);
            proof {
                lemma_views_push(out@, libs, c);
            }
            out.push(c);
        }
        if out.len() == 0 {
            let ec = chars_of(self.entry.as_str());
            if let Some(p) = parent_dir(ec.as_slice()) {
                proof {
                    lemma_views_push(out@, Seq::empty(), p);
                    assert(Seq::<Seq<char>>::empty().push(p@) =~= seq![p@]);
                }
                out.push(p);
            }
        }
        out
    }
}

/// The search paths for library paths `libs`, standard library `stdlib`
/// and entry file `entry`.
pub open spec fn search_paths_spec(libs: Seq<Seq<char>>, stdlib: Option<Seq<char>>, entry: Seq<char>) -> Seq<Seq<char>> {
    let given = match stdlib {
        Some(s) => libs.push(s),
        None => libs,
    };
    if given.len() > 0 {
        given
    } else {
        match parent_of(entry) {
            Some(p) => seq![p],
            None => Seq::empty(),
        }
    }
}

/// The strings of `v` spell the texts of `s`, in order.
pub open spec fn views_are(v: Seq<String>, s: Seq<Seq<char>>) -> bool {
    v.len() == s.len() && forall|j: int| 0 <= j < v.len() ==> (#[trigger] v[j])@ == s[j]
}

proof fn lemma_views_push(v: Seq<String>, s: Seq<Seq<char>>, x: String)
    requires
        views_are(v, s),
    ensures
        views_are(v.push(x), s.push(x@)),
{
    assert forall|j: int| 0 <= j < v.len() + 1 implies (#[trigger] v.push(x)[j])@ == s.push(x@)[j] by {
        if j < v.len() {
            assert(v.push(x)[j] == v[j]);
        }
    }
}

// ---------------------------------------------------------------------------
// Paths as text

/// `s` without its trailing '/' characters, keeping a leading one.
pub open spec fn trim_trailing_slashes(s: Seq<char>) -> Seq<char>
    decreases s.len(),
{
    if s.len() > 1 && s.last() == '/' { trim_trailing_slashes(s.drop_last()) } else { s }
}

/// The index of the last '/' in `s`, if any.
pub open spec fn last_slash(s: Seq<char>) -> Option<int>
    decreases s.len(),
{
    if s.len() == 0 {
        None
    } else if s.last() == '/' {
        Some(s.len() - 1)
    } else {
        last_slash(s.drop_last())
    }
}

/// The directory part of a path written with '/' separators: empty for a
/// bare file name, "/" for a file in the root, and nothing for the root
/// itself or an empty path.
pub open spec fn parent_of(path: Seq<char>) -> Option<Seq<char>> {
    let p = trim_trailing_slashes(path);
    if p.len() == 0 || p == seq!['/'] {
        None
    } else {
        match last_slash(p) {
            None => Some(Seq::empty()),
            Some(k) => if k == 0 { Some(seq!['/']) } else { Some(trim_trailing_slashes(p.subrange(0, k))) },
        }
    }
}

fn trim_slashes_end(s: &[char], to: usize) -> (end: usize)
    requires
        to <= s@.len(),
    ensures
        end <= to,
        s@.subrange(0, end as int) == trim_trailing_slashes(s@.subrange(0, to as int)),
    decreases to,
{
    if to > 1 && s[to - 1] == '/' {
        proof {
            assert(s@.subrange(0, to as int).drop_last() =~= s@.subrange(0, to - 1));
        }
        trim_slashes_end(s, to - 1)
    } else {
        to
    }
}

fn last_slash_before(s: &[char], to: usize) -> (r: Option<usize>)
    requires
        to <= s@.len(),
    ensures
        match last_slash(s@.subrange(0, to as int)) {
            Some(k) => r == Some(k as usize) && 0 <= k < to,
            None => r is None,
        },
    decreases to,
{
    if to == 0 {
        None
    } else if s[to - 1] == '/' {
        Some(to - 1)
    } else {
        proof {
            assert(s@.subrange(0, to as int).drop_last() =~= s@.subrange(0, to - 1));
        }
        last_slash_before(s, to - 1)
    }
}

/// The directory part of `path` (see `parent_of`).
pub fn parent_dir(path: &[char]) -> (r: Option<String>)
    ensures
        match parent_of(path@) {
            Some(p) => r matches Some(s) && s@ == p,
            None => r is None,
        },
{
    let _n = path.len();
    let end = trim_slashes_end(path, path.len());
    proof {
        assert(path@.subrange(0, path@.len() as int) =~= path@);
    }
    let p = path;
    if end == 0 || (end == 1 && p[0] == '/') {
        proof {
            if end == 1 {
                assert(path@.subrange(0, 1) =~= seq!['/']);
            }
        }
        return None;
    }
    proof {
        if trim_trailing_slashes(path@) == seq!['/'] {
            assert(path@.subrange(0, end as int)[0] == '/');
        }
    }
    assert(path@.subrange(0, end as int) == trim_trailing_slashes(path@));
    match last_slash_before(p, end) {
        None => {
            let r = String::new();
            assert(r@ =~= Seq::<char>::empty());
            Some(r)
        },
        Some(k) => {
            if k == 0 {
                let r = String::from_str("/");
                proof {
                    reveal_strlit("/");
                    assert(r@ =~= seq!['/']);
                }
                Some(r)
            } else {
                let e2 = trim_slashes_end(p, k);
                proof {
                    assert(path@.subrange(0, end as int).subrange(0, k as int) =~= path@.subrange(0, k as int));
                }
                Some(sub_string(p, 0, e2))
            }
        },
    }
}

// ---------------------------------------------------------------------------
// Lines

/// A line without the carriage return that ended it.
pub open spec fn strip_cr(line: Seq<char>) -> Seq<char> {
    if line.len() > 0 && line.last() == '\r' { line.drop_last() } else { line }
}

/// The lines of `s` as `str::lines` gives them: split at each '\n', with a
/// '\r' just before a '\n' removed, and no empty line after a final '\n'.
pub open spec fn lines_of(s: Seq<char>) -> Seq<Seq<char>>
    decreases s.len(),
{
    match crate::text::first_index(s, '\n') {
        Some(k) => {
            proof {
                crate::text::lemma_first_index(s, '\n');
            }
            seq![strip_cr(s.subrange(0, k))] + lines_of(s.subrange(k + 1, s.len() as int))
        },
        None => if s.len() == 0 { Seq::empty() } else { seq![s] },
    }
}

/// The lines of `s`.
pub fn text_lines(s: &str) -> (r: Vec<String>)
    ensures
        views_are(r@, lines_of(s@)),
{
    let cs = chars_of(s);
    let n = cs.len();
    let mut out: Vec<String> = Vec::new();
    let ghost mut done: Seq<Seq<char>> = Seq::empty();
    let mut start: usize = 0;
    proof {
        assert(cs@.subrange(0, n as int) =~= cs@);
        assert(done + lines_of(cs@) =~= lines_of(cs@));
    }
    while start < n
        invariant
            n == cs@.len(),
            start <= n,
            cs@ == s@,
            views_are(out@, done),
            lines_of(s@) == done + lines_of(cs@.subrange(start as int, n as int)),
        decreases n - start,
    {
        let ghost rest = cs@.subrange(start as int, n as int);
        let mut k: usize = start;
        while k < n && cs[k] != '\n'
            invariant
                start <= k <= n,
                n == cs@.len(),
                forall|j: int| start <= j < k ==> cs@[j] != '\n',
            decreases n - k,
        {
            k = k + 1;
        }
        proof {
            crate::text::lemma_first_index(rest, '\n');
            assert forall|j: int| 0 <= j < k - start implies rest[j] != '\n' by {
                assert(rest[j] == cs@[start + j]);
            }
        }
        if k < n {
            let mut end = k;
            if end > start && cs[end - 1] == '\r' {
                end = end - 1;
            }
            let line = sub_string(cs.as_slice(), start, end);
            proof {
                assert(rest[k - start] == '\n');
                let fi = crate::text::first_index(rest, '\n');
                assert(fi == Some((k - start) as int)) by {
                    if let Some(f) = fi {
                        if f < k - start {
                            assert(rest[f] != '\n');
                        } else if f > k - start {
                            assert(rest[k - start] != '\n');
                        }
                    }
                }
                let piece = rest.subrange(0, k - start);
                assert(piece =~= cs@.subrange(start as int, k as int));
                if k > start && cs@[k - 1] == '\r' {
                    assert(strip_cr(piece) =~= cs@.subrange(start as int, k - 1));
                } else {
                    assert(strip_cr(piece) =~= cs@.subrange(start as int, k as int));
                }
                assert(rest.subrange(k - start + 1, rest.len() as int) =~= cs@.subrange(k + 1, n as int));
                lemma_views_push(out@, done, line);
                assert(lines_of(rest) == seq![strip_cr(piece)] + lines_of(cs@.subrange(k + 1, n as int)));
                assert(done + (seq![strip_cr(piece)] + lines_of(cs@.subrange(k + 1, n as int)))
                    =~= done.push(strip_cr(piece)) + lines_of(cs@.subrange(k + 1, n as int)));
                done = done.push(line@);
            }
            out.push(line);
            start = k + 1;
        } else {
            let line = sub_string(cs.as_slice(), start, n);
            proof {
                assert(forall|j: int| 0 <= j < rest.len() ==> rest[j] != '\n');
                let fi = crate::text::first_index(rest, '\n');
                if let Some(f) = fi {
                    assert(rest[f] != '\n');
                }
                assert(rest.len() > 0);
                assert(lines_of(rest) == seq![rest]);
                lemma_views_push(out@, done, line);
                assert(cs@.subrange(n as int, n as int) =~= Seq::<char>::empty());
                assert(lines_of(Seq::<char>::empty()) =~= Seq::<Seq<char>>::empty());
                assert(done + seq![rest] =~= done.push(rest) + Seq::<Seq<char>>::empty());
                done = done.push(line@);
            }
            out.push(line);
            start = n;
        }
    }
    proof {
        assert(cs@.subrange(start as int, n as int) =~= Seq::<char>::empty());
        assert(lines_of(Seq::<char>::empty()) =~= Seq::<Seq<char>>::empty());
        assert(done + Seq::<Seq<char>>::empty() =~= done);
    }
    out
}

/// Whether a line is an inner attribute such as `#![allow(..)]` (after
/// leading white space).
pub open spec fn is_inner_attr(line: Seq<char>) -> bool {
    has_prefix(line.subrange(first_non_space(line, 0), line.len() as int), "#!["@)
}

/// The lines of `s` that are not inner attributes, each ended by '\n'.
pub open spec fn without_inner_attrs(lines: Seq<Seq<char>>) -> Seq<char>
    decreases lines.len(),
{
    if lines.len() == 0 {
        Seq::empty()
    } else {
        let rest = without_inner_attrs(lines.drop_last());
        if is_inner_attr(lines.last()) { rest } else { rest + lines.last() + seq!['\n'] }
    }
}

fn inner_attr(line: &String) -> (b: bool)
    ensures
        b == is_inner_attr(line@),
{
    let cs = chars_of(line.as_str());
    let n = cs.len();
    let mut i: usize = 0;
    while i < n && space(cs[i])
        invariant
            n == cs@.len(),
            i <= n,
            first_non_space(cs@, 0) == first_non_space(cs@, i as int),
        decreases n - i,
    {
        i = i + 1;
    }
    let rest = crate::text::sub_chars(cs.as_slice(), i, n);
    let lit = chars_of("#![");
    starts_with(rest.as_slice(), lit.as_slice())
}

/// `src` without its inner attribute lines (`#![...]`), every kept line
/// ended by '\n'. Generated code is spliced into another file, where inner
/// attributes are not allowed.
pub fn strip_inner_attrs(src: &str) -> (r: String)
    ensures
        r@ == without_inner_attrs(lines_of(src@)),
{
    let lines = text_lines(src);
    let ghost ls = lines_of(src@);
    let mut out = String::new();
    let mut i: usize = 0;
    while i < lines.len()
        invariant
            i <= lines@.len(),
            views_are(lines@, ls),
            out@ == without_inner_attrs(ls.subrange(0, i as int)),
        decreases lines@.len() - i,
    {
        proof {
            let next = ls.subrange(0, i + 1);
            assert(next.drop_last() =~= ls.subrange(0, i as int));
            assert(next.last() == lines@[i as int]@);
        }
        if !inner_attr(&lines[i]) {
            out.append(lines[i].as_str());
            out.append("\n");
            proof {
                reveal_strlit("\n");
            }
        }
        i = i + 1;
    }
    proof {
        assert(ls.subrange(0, lines@.len() as int) =~= ls);
    }
    out
}

/// The lines that report `warnings` to cargo: each warning rendered as a
/// warning, one `cargo:warning=` line per rendered line.
pub fn warning_lines(file_label: &str, src: &str, warnings: &Vec<Diag>) -> (r: Vec<String>)
    ensures
        views_are(r@, warning_text(file_label@, src@, warnings@)),
{
    let mut out: Vec<String> = Vec::new();
    let mut i: usize = 0;
    while i < warnings.len()
        invariant
            i <= warnings@.len(),
            views_are(out@, warning_text(file_label@, src@, warnings@.subrange(0, i as int))),
        decreases warnings@.len() - i,
    {
        let text = render_diag_with_level(file_label, src, &warnings[i], "warning");
        let lines = text_lines(text.as_str());
        let ghost before = warning_text(file_label@, src@, warnings@.subrange(0, i as int));
        let ghost ls = lines_of(text@);
        let mut k: usize = 0;
        while k < lines.len()
            invariant
                k <= lines@.len(),
                views_are(lines@, ls),
                views_are(out@, before + ls.subrange(0, k as int).map_values(|l: Seq<char>| "cargo:warning="@ + l)),
            decreases lines@.len() - k,
        {
            let line = concat2("cargo:warning=", lines[k].as_str());
            proof {
                let prev = before + ls.subrange(0, k as int).map_values(|l: Seq<char>| "cargo:warning="@ + l);
                lemma_views_push(out@, prev, line);
                assert(prev.push(line@) =~= before + ls.subrange(0, k + 1).map_values(|l: Seq<char>| "cargo:warning="@ + l));
            }
            out.push(line);
            k = k + 1;
        }
        proof {
            let ws = warnings@.subrange(0, i + 1);
            assert(ws.drop_last() =~= warnings@.subrange(0, i as int));
            assert(ws.last() == warnings@[i as int]);
            assert(ls.subrange(0, ls.len() as int) =~= ls);
        }
        i = i + 1;
    }
    proof {
        assert(warnings@.subrange(0, warnings@.len() as int) =~= warnings@);
    }
    out
}

/// The cargo lines for `warnings`.
pub open spec fn warning_text(file: Seq<char>, src: Seq<char>, warnings: Seq<Diag>) -> Seq<Seq<char>>
    decreases warnings.len(),
{
    if warnings.len() == 0 {
        Seq::empty()
    } else {
        let w = warnings.last();
        warning_text(file, src, warnings.drop_last()) + lines_of(rendered(file, src, w.message@, w.span, "warning"@))
            .map_values(|l: Seq<char>| "cargo:warning="@ + l)
    }
}

/// Whether a directory is skipped when looking for sources: hidden ones
/// and `target`.
pub fn is_skipped_dir(name: &str) -> (b: bool)
    ensures
        b == ((name@.len() > 0 && name@[0] == '.') || name@ == "target"@),
{
    let cs = chars_of(name);
    (cs.len() > 0 && cs[0] == '.') || crate::text::str_is(name, "target")
}

/// Whether a file name has the `.dsl` extension.
pub fn is_dsl_file(name: &str) -> (b: bool)
    ensures
        b == (name@.len() > 4 && name@.subrange(name@.len() - 4, name@.len() as int) == ".dsl"@),
{
    let cs = chars_of(name);
    if cs.len() <= 4 {
        return false;
    }
    let tail = crate::text::sub_chars(cs.as_slice(), cs.len() - 4, cs.len());
    crate::text::chars_is(tail.as_slice(), ".dsl")
}

/// The line that tells cargo to rebuild when `path` changes.
pub fn rerun_line(path: &str) -> (r: String)
    ensures
        r@ == "cargo:rerun-if-changed="@ + path@,
{
    concat2("cargo:rerun-if-changed=", path)
}

} // verus!
