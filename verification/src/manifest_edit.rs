//! Editing a project's manifest text so that it builds Darcy sources: the
//! feature that turns compilation on, and the dependencies it needs.

use vstd::prelude::*;
use crate::darcy_build::{lines_of, views_are};
use crate::feedback::find_from;
use crate::rt::{next_match, trimmed};
use crate::text::{chars_of, concat2, concat3, has_prefix, string_from_chars, sub_string};

verus! {

/// Whether `t` contains `s`.
pub open spec fn contains_text(t: Seq<char>, s: Seq<char>) -> bool {
    next_match(t, s, 0) is Some
}

/// Where the section under `header` ends: before the next line that opens
/// a section, or at the end of the text; `None` without such a header.
pub open spec fn section_end(t: Seq<char>, header: Seq<char>) -> Option<int> {
    match next_match(t, header, 0) {
        Some(i) => {
            let start = i + header.len();
            match next_match(t.subrange(start, t.len() as int), "\n["@, 0) {
                Some(o) => Some(start + o),
                None => Some(t.len() as int),
            }
        },
        None => None,
    }
}

/// `t` ended by '\n' (an empty text stays empty).
pub open spec fn ended(t: Seq<char>) -> Seq<char> {
    if t.len() > 0 && t.last() != '\n' { t.push('\n') } else { t }
}

proof fn lemma_match_in(t: Seq<char>, s: Seq<char>, from: int)
    requires
        0 <= from,
    ensures
        next_match(t, s, from) matches Some(k) ==> from <= k && k + s.len() <= t.len(),
{
    crate::rt::lemma_next_match_bounds(t, s, from);
}

fn find_text(t: &[char], s: &str) -> (r: Option<usize>)
    ensures
        match next_match(t@, s@, 0) {
            Some(k) => r == Some(k as usize) && 0 <= k && k + s@.len() <= t@.len(),
            None => r is None,
        },
{
    let sc = chars_of(s);
    proof {
        lemma_match_in(t@, sc@, 0);
    }
    find_from(t, sc.as_slice(), 0)
}

/// Where the section under `header` ends in `t`.
fn find_section_end(t: &[char], header: &str) -> (r: Option<usize>)
    ensures
        match section_end(t@, header@) {
            Some(p) => r == Some(p as usize) && 0 <= p <= t@.len(),
            None => r is None,
        },
{
    let _n = t.len();
    match find_text(t, header) {
        Some(i) => {
            let hl = chars_of(header).len();
            let start = i + hl;
            let rest = crate::text::sub_chars(t, start, t.len());
            match find_text(rest.as_slice(), "\n[") {
                Some(o) => Some(start + o),
                None => Some(t.len()),
            }
        },
        None => None,
    }
}

fn ensure_newline(t: &mut Vec<char>)
    ensures
        final(t)@ == ended(old(t)@),
{
    if t.len() > 0 && t[t.len() - 1] != '\n' {
        t.push('\n');
    }
}

fn push_str(t: &mut Vec<char>, s: &str)
    ensures
        final(t)@ == old(t)@ + s@,
{
    let sc = chars_of(s);
    let mut i: usize = 0;
    while i < sc.len()
        invariant
            i <= sc@.len(),
            t@ == old(t)@ + sc@.subrange(0, i as int),
        decreases sc@.len() - i,
    {
        t.push(sc[i]);
        i = i + 1;
        assert(t@ =~= old(t)@ + sc@.subrange(0, i as int));
    }
    assert(sc@.subrange(0, sc@.len() as int) =~= sc@);
}

/// `t` with `s` inserted at position `at`.
fn insert_at(t: &Vec<char>, at: usize, s: &str) -> (r: Vec<char>)
    requires
        at <= t@.len(),
    ensures
        r@ == t@.subrange(0, at as int) + s@ + t@.subrange(at as int, t@.len() as int),
{
    let mut r = crate::text::sub_chars(t.as_slice(), 0, at);
    push_str(&mut r, s);
    let tail = crate::text::sub_chars(t.as_slice(), at, t.len());
    let mut i: usize = 0;
    let ghost base = r@;
    while i < tail.len()
        invariant
            i <= tail@.len(),
            r@ == base + tail@.subrange(0, i as int),
        decreases tail@.len() - i,
    {
        r.push(tail[i]);
        i = i + 1;
        assert(r@ =~= base + tail@.subrange(0, i as int));
    }
    assert(tail@.subrange(0, tail@.len() as int) =~= tail@);
    r
}

/// The lines that declare the feature that compiles Darcy sources.
pub open spec fn feature_lines() -> Seq<char> {
    "darcy-compiled = []\ndefault = [\"darcy-compiled\"]\n"@
}

/// `t` with `lines` added at the end of the section under `header` (after
/// a blank line), or, without that section, a new one at the end.
pub open spec fn add_to_section(t: Seq<char>, header: Seq<char>, lines: Seq<char>) -> Seq<char> {
    match section_end(t, header) {
        Some(p) => t.subrange(0, p) + "\n"@ + lines + t.subrange(p, t.len() as int),
        None => ended(t) + "\n"@ + header + "\n"@ + lines,
    }
}

/// `t` with the `darcy-compiled` feature declared (and made a default): an
/// unchanged `t` when it already mentions the feature, else the lines added
/// to its `[features]` section.
pub open spec fn with_feature_section(t: Seq<char>) -> Seq<char> {
    if contains_text(t, "darcy-compiled"@) {
        t
    } else {
        add_to_section(t, "[features]"@, feature_lines())
    }
}

/// Adds `lines` to the section under `header` of `t`.
fn add_section_lines(t: &mut Vec<char>, header: &str, lines: &str)
    ensures
        final(t)@ == add_to_section(old(t)@, header@, lines@),
{
    let _n = t.len();
    match find_section_end(t.as_slice(), header) {
        Some(p) => {
            let ins = concat2("\n", lines);
            let r = insert_at(t, p, ins.as_str());
            proof {
                assert(r@ =~= t@.subrange(0, p as int) + "\n"@ + lines@ + t@.subrange(p as int, t@.len() as int));
            }
            *t = r;
        },
        None => {
            ensure_newline(t);
            push_str(t, "\n");
            push_str(t, header);
            push_str(t, "\n");
            push_str(t, lines);
        },
    }
}

/// Declares the `darcy-compiled` feature in the manifest text `toml`.
pub fn ensure_feature_section(toml: &mut Vec<char>)
    ensures
        final(toml)@ == with_feature_section(old(toml)@),
{
    if find_text(toml.as_slice(), "darcy-compiled").is_some() {
        return;
    }
    add_section_lines(toml, "[features]", "darcy-compiled = []\ndefault = [\"darcy-compiled\"]\n");
}

// ---------------------------------------------------------------------------
// Dependencies

/// The section text with the dependency line for `key` replaced by `entry`
/// (each line whose trimmed text starts with `key`, comments and blank
/// lines aside), and whether any was.
pub open spec fn dep_lines(lines: Seq<Seq<char>>, key: Seq<char>, entry: Seq<char>) -> (Seq<char>, bool)
    decreases lines.len(),
{
    if lines.len() == 0 {
        (Seq::empty(), false)
    } else {
        let (o, r) = dep_lines(lines.drop_last(), key, entry);
        let l = lines.last();
        let lt = trimmed(l);
        if has_prefix(lt, "#"@) || lt.len() == 0 {
            (o + l + "\n"@, r)
        } else if has_prefix(lt, key) {
            (o + entry + "\n"@, true)
        } else {
            (o + l + "\n"@, r)
        }
    }
}

/// The section text with the line for `key` replaced, or added at the end.
pub open spec fn replaced_section(section: Seq<char>, key: Seq<char>, entry: Seq<char>) -> Seq<char> {
    let (o, r) = dep_lines(lines_of(section), key, entry);
    if r { o } else { o + entry + "\n"@ }
}

/// `t` with `key = spec` as the dependency `key` of `[section]`: the
/// section's line for `key` replaced (or one added), or a new section.
pub open spec fn with_dependency(t: Seq<char>, section: Seq<char>, key: Seq<char>, spec: Seq<char>) -> Seq<char> {
    let header = "["@ + section + "]"@;
    let entry = key + " = "@ + spec;
    match next_match(t, header, 0) {
        None => ended(t) + "\n"@ + header + "\n"@ + entry + "\n"@,
        Some(i) => {
            let start = i + header.len();
            let end = match next_match(t.subrange(start, t.len() as int), "\n["@, 0) {
                Some(o) => start + o,
                None => t.len() as int,
            };
            t.subrange(0, start) + replaced_section(t.subrange(start, end), key, entry) + t.subrange(end, t.len() as int)
        },
    }
}

/// Sets the dependency `key` of `[section]` to `spec` in `toml`.
pub fn replace_dependency(toml: &mut Vec<char>, section: &str, key: &str, spec: &str)
    ensures
        final(toml)@ == with_dependency(old(toml)@, section@, key@, spec@),
{
    let header = concat3("[", section, "]");
    let entry = concat3(key, " = ", spec);
    let _n = toml.len();
    let idx = match find_text(toml.as_slice(), header.as_str()) {
        Some(i) => i,
        None => {
            ensure_newline(toml);
            push_str(toml, "\n");
            push_str(toml, header.as_str());
            push_str(toml, "\n");
            push_str(toml, entry.as_str());
            push_str(toml, "\n");
            return;
        },
    };
    let start = idx + chars_of(header.as_str()).len();
    let rest = crate::text::sub_chars(toml.as_slice(), start, toml.len());
    let end = match find_text(rest.as_slice(), "\n[") {
        Some(o) => start + o,
        None => toml.len(),
    };
    let section_text = sub_string(toml.as_slice(), start, end);
    let lines = crate::darcy_build::text_lines(section_text.as_str());
    let ghost ls = lines_of(section_text@);
    let mut out: Vec<char> = Vec::new();
    let mut replaced = false;
    let mut i: usize = 0;
    while i < lines.len()
        invariant
            i <= lines@.len(),
            views_are(lines@, ls),
            (out@, replaced) == dep_lines(ls.subrange(0, i as int), key@, entry@),
        decreases lines@.len() - i,
    {
        proof {
            let next = ls.subrange(0, i + 1);
            assert(next.drop_last() =~= ls.subrange(0, i as int));
            assert(next.last() == lines@[i as int]@);
        }
        let line_trim = crate::rt::string_trim(&lines[i]);
        let lt = chars_of(line_trim.as_str());
        if crate::text::string_starts_with(&line_trim, "#") || lt.len() == 0 {
            push_str(&mut out, lines[i].as_str());
            push_str(&mut out, "\n");
        } else if crate::text::string_starts_with(&line_trim, key) {
            push_str(&mut out, entry.as_str());
            push_str(&mut out, "\n");
            replaced = true;
        } else {
            push_str(&mut out, lines[i].as_str());
            push_str(&mut out, "\n");
        }
        i = i + 1;
    }
    proof {
        assert(ls.subrange(0, lines@.len() as int) =~= ls);
    }
    if !replaced {
        push_str(&mut out, entry.as_str());
        push_str(&mut out, "\n");
    }
    let mut result = crate::text::sub_chars(toml.as_slice(), 0, start);
    let mut k: usize = 0;
    while k < out.len()
        invariant
            k <= out@.len(),
            result@ == old(toml)@.subrange(0, start as int) + out@.subrange(0, k as int),
        decreases out@.len() - k,
    {
        result.push(out[k]);
        k = k + 1;
        assert(result@ =~= old(toml)@.subrange(0, start as int) + out@.subrange(0, k as int));
    }
    let tail = crate::text::sub_chars(toml.as_slice(), end, toml.len());
    let ghost mid = result@;
    let mut k: usize = 0;
    while k < tail.len()
        invariant
            k <= tail@.len(),
            result@ == mid + tail@.subrange(0, k as int),
        decreases tail@.len() - k,
    {
        result.push(tail[k]);
        k = k + 1;
        assert(result@ =~= mid + tail@.subrange(0, k as int));
    }
    proof {
        assert(out@.subrange(0, out@.len() as int) =~= out@);
        assert(tail@.subrange(0, tail@.len() as int) =~= tail@);
    }
    *toml = result;
}

/// Whether some line of `lines`, trimmed, starts with `key` and is not a
/// comment.
pub open spec fn has_key_line(lines: Seq<Seq<char>>, key: Seq<char>) -> bool {
    exists|i: int| 0 <= i < lines.len() && !has_prefix(trimmed(#[trigger] lines[i]), "#"@)
        && has_prefix(trimmed(lines[i]), key)
}

/// Whether `[section]` of `t` has a line for `key`.
pub open spec fn section_has(t: Seq<char>, section: Seq<char>, key: Seq<char>) -> bool {
    let header = "["@ + section + "]"@;
    match next_match(t, header, 0) {
        None => false,
        Some(i) => {
            let start = i + header.len();
            let end = match next_match(t.subrange(start, t.len() as int), "\n["@, 0) {
                Some(o) => start + o,
                None => t.len() as int,
            };
            has_key_line(lines_of(t.subrange(start, end)), key)
        },
    }
}

/// Whether `[section]` of `toml` has a line for `key`.
pub fn section_contains(toml: &[char], section: &str, key: &str) -> (b: bool)
    ensures
        b == section_has(toml@, section@, key@),
{
    let header = concat3("[", section, "]");
    let _n = toml.len();
    let idx = match find_text(toml, header.as_str()) {
        Some(i) => i,
        None => return false,
    };
    let start = idx + chars_of(header.as_str()).len();
    let rest = crate::text::sub_chars(toml, start, toml.len());
    let end = match find_text(rest.as_slice(), "\n[") {
        Some(o) => start + o,
        None => toml.len(),
    };
    let section_text = sub_string(toml, start, end);
    let lines = crate::darcy_build::text_lines(section_text.as_str());
    let ghost ls = lines_of(section_text@);
    let mut found = false;
    let mut i: usize = 0;
    while i < lines.len() && !found
        invariant
            i <= lines@.len(),
            views_are(lines@, ls),
            found ==> has_key_line(ls, key@),
            !found ==> forall|j: int| 0 <= j < i ==> !(!has_prefix(trimmed(#[trigger] ls[j]), "#"@) && has_prefix(trimmed(ls[j]), key@)),
        decreases lines@.len() - i,
    {
        let t = crate::rt::string_trim(&lines[i]);
        proof {
            assert(ls[i as int] == lines@[i as int]@);
        }
        if !crate::text::string_starts_with(&t, "#") && crate::text::string_starts_with(&t, key) {
            proof {
                assert(!has_prefix(trimmed(ls[i as int]), "#"@) && has_prefix(trimmed(ls[i as int]), key@));
            }
            found = true;
        }
        i = i + 1;
    }
    found
}

// ---------------------------------------------------------------------------
// The whole edit

/// `rel` joined to the directory `root` with '/'.
pub open spec fn joined_path(root: Seq<char>, rel: Seq<char>) -> Seq<char> {
    if root.len() == 0 { rel } else if root.last() == '/' { root + rel } else { root + "/"@ + rel }
}

/// How a dependency on the Darcy crate in `crates/<name>` is written: by
/// path under the SDK's root when one is given, else by version.
pub open spec fn dep_spec(sdk: Option<Seq<char>>, name: Seq<char>) -> Seq<char> {
    match sdk {
        Some(root) => "{ path = \""@ + joined_path(root, "crates/"@ + name) + "\" }"@,
        None => "\"0.1.0\""@,
    }
}

/// The dependency spec for `crates/<name>`.
pub fn darcy_dep_spec(sdk: Option<&str>, name: &str) -> (r: String)
    ensures
        r@ == dep_spec(match sdk { Some(s) => Some(s@), None => None }, name@),
{
    match sdk {
        Some(root) => {
            let rel = concat2("crates/", name);
            let rc = chars_of(root);
            let path = if rc.len() == 0 {
                rel
            } else if rc[rc.len() - 1] == '/' {
                concat2(root, rel.as_str())
            } else {
                concat3(root, "/", rel.as_str())
            };
            proof {
                if rc@.len() == 0 {
                    assert(root@ =~= Seq::<char>::empty());
                }
            }
            concat3("{ path = \"", path.as_str(), "\" }")
        },
        None => String::from_str("\"0.1.0\""),
    }
}

/// The manifest text after setting it up for Darcy: the feature declared;
/// with an SDK, the Darcy dependencies pointed at it; the build
/// dependencies added unless both crates are already named; and the
/// standard library added to `[dependencies]` unless it is there.
pub open spec fn updated_manifest(t: Seq<char>, sdk: Option<Seq<char>>) -> Seq<char> {
    let b = dep_spec(sdk, "darcy-build"@);
    let l = dep_spec(sdk, "darcy-stdlib"@);
    let t1 = with_feature_section(t);
    let t2 = if sdk is Some {
        with_dependency(with_dependency(with_dependency(t1, "dependencies"@, "darcy-stdlib"@, l),
            "build-dependencies"@, "darcy-build"@, b), "build-dependencies"@, "darcy-stdlib"@, l)
    } else {
        t1
    };
    let t3 = if !contains_text(t2, "darcy-build"@) || !contains_text(t2, "darcy-stdlib"@) {
        add_to_section(t2, "[build-dependencies]"@, "darcy-build = "@ + b + "\ndarcy-stdlib = "@ + l + "\n"@)
    } else {
        t2
    };
    if !section_has(t3, "dependencies"@, "darcy-stdlib"@) {
        add_to_section(t3, "[dependencies]"@, "darcy-stdlib = "@ + l + "\n"@)
    } else {
        t3
    }
}

/// Sets up the manifest text `toml` to build Darcy sources; `sdk` is the
/// SDK's root directory when one is in use.
pub fn update_cargo_toml(toml: &str, sdk: Option<&str>) -> (r: String)
    ensures
        r@ == updated_manifest(toml@, match sdk { Some(s) => Some(s@), None => None }),
{
    let mut t = chars_of(toml);
    ensure_feature_section(&mut t);
    let b = darcy_dep_spec(sdk, "darcy-build");
    let l = darcy_dep_spec(sdk, "darcy-stdlib");
    if sdk.is_some() {
        replace_dependency(&mut t, "dependencies", "darcy-stdlib", l.as_str());
        replace_dependency(&mut t, "build-dependencies", "darcy-build", b.as_str());
        replace_dependency(&mut t, "build-dependencies", "darcy-stdlib", l.as_str());
    }
    if find_text(t.as_slice(), "darcy-build").is_none() || find_text(t.as_slice(), "darcy-stdlib").is_none() {
        let mut dep_line = concat3("darcy-build = ", b.as_str(), "\ndarcy-stdlib = ");
        dep_line.append(l.as_str());
        dep_line.append("\n");
        add_section_lines(&mut t, "[build-dependencies]", dep_line.as_str());
    }
    if !section_contains(t.as_slice(), "dependencies", "darcy-stdlib") {
        let dep_line = concat3("darcy-stdlib = ", l.as_str(), "\n");
        add_section_lines(&mut t, "[dependencies]", dep_line.as_str());
    }
    string_from_chars(t.as_slice())
}

// ---------------------------------------------------------------------------
// The package name

/// `s` without leading and trailing '"' characters.
pub open spec fn strip_quotes(s: Seq<char>) -> Seq<char>
    decreases s.len(),
{
    if s.len() > 0 && s[0] == '"' {
        strip_quotes(s.drop_first())
    } else if s.len() > 0 && s.last() == '"' {
        strip_quotes(s.drop_last())
    } else {
        s
    }
}

/// `s` with each '-' replaced by '_'.
pub open spec fn dashes_to_underscores(s: Seq<char>) -> Seq<char> {
    s.map_values(|c: char| if c == '-' { '_' } else { c })
}

/// The package name in the lines `lines` (scanning with `in_package`
/// telling whether a `[package]` section is open): the first `name = ...`
/// line of the section whose value, unquoted, is not empty, as an
/// identifier; nothing when such a line has no '='.
pub open spec fn name_scan(lines: Seq<Seq<char>>, in_package: bool) -> Option<Seq<char>>
    decreases lines.len(),
{
    if lines.len() == 0 {
        None
    } else {
        let line = trimmed(lines[0]);
        let rest = lines.drop_first();
        if has_prefix(line, "["@) {
            name_scan(rest, line == "[package]"@)
        } else if in_package && has_prefix(line, "name"@) {
            match crate::text::first_index(line, '=') {
                None => None,
                Some(e) => {
                    let v = strip_quotes(trimmed(line.subrange(e + 1, line.len() as int)));
                    if v.len() > 0 { Some(dashes_to_underscores(v)) } else { name_scan(rest, in_package) }
                },
            }
        } else {
            name_scan(rest, in_package)
        }
    }
}

fn strip_quotes_exec(s: &[char]) -> (r: Vec<char>)
    ensures
        r@ == strip_quotes(s@),
{
    let mut a: usize = 0;
    let mut b: usize = s.len();
    proof {
        assert(s@.subrange(0, s@.len() as int) =~= s@);
    }
    while a < b && s[a] == '"'
        invariant
            a <= b <= s@.len(),
            b == s@.len(),
            strip_quotes(s@) == strip_quotes(s@.subrange(a as int, b as int)),
        decreases b - a,
    {
        proof {
            assert(s@.subrange(a as int, b as int).drop_first() =~= s@.subrange(a + 1, b as int));
        }
        a = a + 1;
    }
    while a < b && s[b - 1] == '"'
        invariant
            a <= b <= s@.len(),
            strip_quotes(s@) == strip_quotes(s@.subrange(a as int, b as int)),
            a < b ==> s@[a as int] != '"',
        decreases b - a,
    {
        proof {
            let cur = s@.subrange(a as int, b as int);
            assert(cur[0] != '"');
            assert(cur.drop_last() =~= s@.subrange(a as int, b - 1));
        }
        b = b - 1;
    }
    proof {
        let cur = s@.subrange(a as int, b as int);
        if cur.len() > 0 {
            assert(cur[0] != '"');
            assert(cur.last() != '"');
        }
    }
    crate::text::sub_chars(s, a, b)
}

fn dashes_exec(s: &[char]) -> (r: String)
    ensures
        r@ == dashes_to_underscores(s@),
{
    let mut out: Vec<char> = Vec::new();
    let mut i: usize = 0;
    while i < s.len()
        invariant
            i <= s@.len(),
            out@ == dashes_to_underscores(s@.subrange(0, i as int)),
        decreases s@.len() - i,
    {
        out.push(if s[i] == '-' { '_' } else { s[i] });
        i = i + 1;
        assert(out@ =~= dashes_to_underscores(s@.subrange(0, i as int)));
    }
    assert(s@.subrange(0, s@.len() as int) =~= s@);
    string_from_chars(out.as_slice())
}

/// The package name in the manifest text `toml`, as an identifier.
pub fn crate_name_from_toml(toml: &str) -> (r: Option<String>)
    ensures
        match name_scan(lines_of(toml@), false) {
            Some(n) => r matches Some(s) && s@ == n,
            None => r is None,
        },
{
    let lines = crate::darcy_build::text_lines(toml);
    let ghost ls = lines_of(toml@);
    let mut in_package = false;
    let mut i: usize = 0;
    proof {
        assert(ls.subrange(0, ls.len() as int) =~= ls);
    }
    while i < lines.len()
        invariant
            i <= lines@.len(),
            views_are(lines@, ls),
            ls == lines_of(toml@),
            name_scan(ls, false) == name_scan(ls.subrange(i as int, ls.len() as int), in_package),
        decreases lines@.len() - i,
    {
        let ghost rest = ls.subrange(i as int, ls.len() as int);
        proof {
            assert(rest[0] == lines@[i as int]@);
            assert(rest.drop_first() =~= ls.subrange(i + 1, ls.len() as int));
        }
        let line = crate::rt::string_trim(&lines[i]);
        let lc = chars_of(line.as_str());
        if crate::text::string_starts_with(&line, "[") {
            in_package = crate::text::str_is(line.as_str(), "[package]");
            i = i + 1;
            continue;
        }
        if in_package && crate::text::string_starts_with(&line, "name") {
            proof {
                assert(line@ == trimmed(rest[0]));
                assert(!has_prefix(trimmed(rest[0]), "["@));
            }
            let e = match crate::feedback::first_char(lc.as_slice(), '=') {
                Some(e) => e,
                None => {
                    proof {
                        assert(name_scan(rest, in_package) is None);
                    }
                    return None;
                },
            };
            let raw = crate::text::sub_chars(lc.as_slice(), e + 1, lc.len());
            let trimmed_v = crate::rt::string_trim(&string_from_chars(raw.as_slice()));
            let tv = chars_of(trimmed_v.as_str());
            let v = strip_quotes_exec(tv.as_slice());
            if v.len() > 0 {
                let out = dashes_exec(v.as_slice());
                proof {
                    assert(name_scan(rest, in_package) == Some(dashes_to_underscores(v@)));
                }
                return Some(out);
            }
        }
        i = i + 1;
    }
    proof {
        assert(ls.subrange(lines@.len() as int, ls.len() as int) =~= Seq::<Seq<char>>::empty());
    }
    None
}

/// The `src/main.rs` written for a new project: it prints what the Darcy
/// function `answer` of the crate `name` returns.
pub fn main_rs_text(name: &str) -> (r: String)
    ensures
        r@ == "fn main() {\n    let answer = "@ + name@ + "::answer();\n    println!(\"answer = {}\", answer);\n}\n"@,
{
    concat3("fn main() {\n    let answer = ", name, "::answer();\n    println!(\"answer = {}\", answer);\n}\n")
}

} // verus!